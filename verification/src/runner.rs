//! How a command is started: through `sh -c`, or split into words like a shell.

use vstd::prelude::*;

use crate::text::owned;

verus! {

/// A command to run for a project.
#[derive(Debug, Clone)]
pub struct CommandSpec {
    pub program: String,
    pub args: Vec<String>,
    pub working_dir: String,
    pub env: Vec<(String, String)>,
    pub use_shell: bool,
    pub capture_output: bool,
}

/// The program started and its arguments.
#[derive(Debug, Clone)]
pub struct Invocation {
    pub program: String,
    pub args: Vec<String>,
}

/// The words `shlex::split` makes of `s`; `None` when `s` is malformed (for
/// instance an unclosed quote).
pub uninterp spec fn shell_words(s: Seq<char>) -> Option<Seq<Seq<char>>>;

/// Calls `shlex::split`. Trusted: the result is the named `shell_words` of the text.
#[verifier::external_body]
fn split_words(s: &str) -> (r: Option<Vec<String>>)
    ensures
        r.deep_view() == shell_words(s@),
{
    shlex::split(s)
}

/// What is started for a command. Through the shell: `sh -c <program>`, the
/// extra arguments not passed. Otherwise the program text split into words
/// (the whole text as one word when it cannot be split): the first word is
/// the program, the other words and then the extra arguments its arguments;
/// with no words at all, the program text itself with the extra arguments.
pub open spec fn invocation_of(
    program: Seq<char>,
    args: Seq<Seq<char>>,
    use_shell: bool,
    words: Option<Seq<Seq<char>>>,
) -> (Seq<char>, Seq<Seq<char>>) {
    if use_shell {
        ("sh"@, seq!["-c"@, program])
    } else {
        let ws = match words {
            Some(w) => w,
            None => seq![program],
        };
        if ws.len() == 0 {
            (program, args)
        } else {
            (ws[0], ws.drop_first() + args)
        }
    }
}

pub open spec fn invocation_view(i: Invocation) -> (Seq<char>, Seq<Seq<char>>) {
    (i.program@, i.args.deep_view())
}

#[derive(Debug)]
pub struct DefaultCommandRunner;

impl DefaultCommandRunner {
    /// What is started for `spec`, given the words its program text splits into.
    pub fn invocation_with_words(spec: &CommandSpec, words: Option<Vec<String>>) -> (r: Invocation)
        ensures
            invocation_view(r) == invocation_of(
                spec.program@,
                spec.args.deep_view(),
                spec.use_shell,
                words.deep_view(),
            ),
    {
        if spec.use_shell {
            let mut args: Vec<String> = Vec::new();
            args.push(owned("-c"));
            args.push(spec.program.clone());
            assert(args.deep_view() =~= seq!["-c"@, spec.program@]);
            return Invocation { program: owned("sh"), args };
        }
        let mut ws = match words {
            Some(w) => w,
            None => {
                let mut v: Vec<String> = Vec::new();
                v.push(spec.program.clone());
                assert(v.deep_view() =~= seq![spec.program@]);
                v
            },
        };
        let ghost wv = ws.deep_view();
        if ws.len() == 0 {
            let args = spec.args.clone();
            proof {
                assert(args.deep_view() =~= spec.args.deep_view()) by {
                    assert forall|i: int| 0 <= i < args@.len() implies args.deep_view()[i] == spec.args.deep_view()[i] by {
                        assert(cloned::<String>(spec.args@[i], args@[i]));
                    }
                }
            }
            return Invocation { program: spec.program.clone(), args };
        }
        let program = ws.remove(0);
        assert(ws.deep_view() =~= wv.drop_first());
        let mut k: usize = 0;
        while k < spec.args.len()
            invariant
                k <= spec.args.len(),
                ws.deep_view() == wv.drop_first() + spec.args.deep_view().take(k as int),
            decreases spec.args.len() - k,
        {
            let ghost prev = ws.deep_view();
            ws.push(spec.args[k].clone());
            assert(ws.deep_view() =~= prev.push(spec.args.deep_view()[k as int]));
            assert(spec.args.deep_view().take(k + 1) =~= spec.args.deep_view().take(k as int).push(
                spec.args.deep_view()[k as int],
            ));
            k += 1;
        }
        assert(spec.args.deep_view().take(spec.args.len() as int) =~= spec.args.deep_view());
        Invocation { program, args: ws }
    }

    /// What is started for `spec`: `sh -c` when it asks for a shell, otherwise
    /// its program text split by `shlex`.
    pub fn invocation(spec: &CommandSpec) -> (r: Invocation)
        ensures
            invocation_view(r) == invocation_of(
                spec.program@,
                spec.args.deep_view(),
                spec.use_shell,
                if spec.use_shell {
                    None
                } else {
                    shell_words(spec.program@)
                },
            ),
    {
        if spec.use_shell {
            Self::invocation_with_words(spec, None)
        } else {
            let words = split_words(spec.program.as_str());
            Self::invocation_with_words(spec, words)
        }
    }
}

} // verus!
