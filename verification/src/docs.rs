//! Project documents: which documentation files a project offers, and
//! checking or unchecking a task line in one.

use vstd::prelude::*;

use crate::bootstrap::{join_path, join_path_exec};
use crate::text::{contains_seq, contains_str, from_chars, join_strings, join_with, owned, split_lines,
    text_lines, to_chars, occurs_at, occurs_at_exec, contains_chars};

verus! {

/// The documentation files looked for, in order of preference.
pub open spec fn doc_candidates() -> Seq<Seq<char>> {
    seq![
        "TODO.md"@,
        "todo.md"@,
        "CHANGELOG.md"@,
        "changelog.md"@,
        "README.md"@,
        "readme.md"@,
        "TASKS.md"@,
        "tasks.md"@,
        "task.md"@,
    ]
}

fn doc_candidates_exec() -> (r: Vec<&'static str>)
    ensures
        r@.map_values(|s: &'static str| s@) == doc_candidates(),
{
    let r = vec!["TODO.md", "todo.md", "CHANGELOG.md", "changelog.md", "README.md", "readme.md", "TASKS.md", "tasks.md", "task.md"];
    assert(r@.map_values(|s: &'static str| s@) =~= doc_candidates());
    r
}

/// The lower-case name of each candidate, by which duplicates are told apart.
pub open spec fn doc_keys() -> Seq<Seq<char>> {
    seq![
        "todo.md"@,
        "todo.md"@,
        "changelog.md"@,
        "changelog.md"@,
        "readme.md"@,
        "readme.md"@,
        "tasks.md"@,
        "tasks.md"@,
        "task.md"@,
    ]
}

fn doc_keys_exec() -> (r: Vec<&'static str>)
    ensures
        r@.map_values(|s: &'static str| s@) == doc_keys(),
{
    let r = vec!["todo.md", "todo.md", "changelog.md", "changelog.md", "readme.md", "readme.md", "tasks.md", "tasks.md", "task.md"];
    assert(r@.map_values(|s: &'static str| s@) =~= doc_keys());
    r
}

/// The lower-case names of the documents found among the first `n` candidates.
pub open spec fn keys_found(files: Seq<Seq<char>>, n: int) -> Seq<Seq<char>>
    decreases n,
{
    if n <= 0 {
        seq![]
    } else {
        let prev = keys_found(files, n - 1);
        if files.contains(doc_candidates()[n - 1]) && !prev.contains(doc_keys()[n - 1]) {
            prev.push(doc_keys()[n - 1])
        } else {
            prev
        }
    }
}

/// The documents found among the first `n` candidates: each candidate that is
/// a file, unless a document with the same lower-case name was found before.
pub open spec fn docs_found(files: Seq<Seq<char>>, n: int) -> Seq<Seq<char>>
    decreases n,
{
    if n <= 0 {
        seq![]
    } else {
        let prev = docs_found(files, n - 1);
        let name = doc_candidates()[n - 1];
        if files.contains(name) && !keys_found(files, n - 1).contains(doc_keys()[n - 1]) {
            prev.push(name)
        } else {
            prev
        }
    }
}

/// The positions, among the candidates, of the documents found among the
/// first `n` candidates.
pub open spec fn found_indices(files: Seq<Seq<char>>, n: int) -> Seq<int>
    decreases n,
{
    if n <= 0 {
        seq![]
    } else {
        let prev = found_indices(files, n - 1);
        if files.contains(doc_candidates()[n - 1]) && !keys_found(files, n - 1).contains(doc_keys()[n - 1]) {
            prev.push(n - 1)
        } else {
            prev
        }
    }
}

proof fn lemma_found_shape(files: Seq<Seq<char>>, n: int)
    requires
        0 <= n <= 9,
    ensures
        docs_found(files, n).len() == found_indices(files, n).len(),
        keys_found(files, n).len() == found_indices(files, n).len(),
        forall|i: int| 0 <= i < found_indices(files, n).len() ==> {
            let k = #[trigger] found_indices(files, n)[i];
            &&& 0 <= k < n
            &&& docs_found(files, n)[i] == doc_candidates()[k]
            &&& keys_found(files, n)[i] == doc_keys()[k]
            &&& files.contains(doc_candidates()[k])
        },
        forall|i: int, j: int| 0 <= i < j < found_indices(files, n).len() ==> #[trigger] found_indices(files, n)[i] < #[trigger] found_indices(files, n)[j],
        forall|i: int, j: int| 0 <= i < j < keys_found(files, n).len() ==> #[trigger] keys_found(files, n)[i] != #[trigger] keys_found(files, n)[j],
        forall|k: int| 0 <= k < n && files.contains(#[trigger] doc_candidates()[k]) ==> keys_found(files, n).contains(doc_keys()[k]),
    decreases n,
{
    if n > 0 {
        lemma_found_shape(files, n - 1);
        let pk = keys_found(files, n - 1);
        let key = doc_keys()[n - 1];
        if files.contains(doc_candidates()[n - 1]) && !pk.contains(key) {
            let ks = pk.push(key);
            assert forall|i: int, j: int| 0 <= i < j < ks.len() implies #[trigger] ks[i] != #[trigger] ks[j] by {
                if j == ks.len() - 1 {
                    assert(pk[i] == ks[i]);
                    assert(pk.contains(pk[i]));
                } else {
                    assert(ks[i] == pk[i] && ks[j] == pk[j]);
                }
            }
            assert forall|k: int| 0 <= k < n && files.contains(#[trigger] doc_candidates()[k]) implies ks.contains(doc_keys()[k]) by {
                if k < n - 1 {
                    let j = choose|j: int| 0 <= j < pk.len() && pk[j] == doc_keys()[k];
                    assert(ks[j] == pk[j]);
                } else {
                    assert(ks[ks.len() - 1] == key);
                }
            }
        } else {
            assert forall|k: int| 0 <= k < n && files.contains(#[trigger] doc_candidates()[k]) implies pk.contains(doc_keys()[k]) by {
                if k == n - 1 {
                    assert(pk.contains(key));
                }
            }
        }
    }
}

/// The documents a project offers are candidates, in candidate order, each a
/// file of the project, no two with the same lower-case name; a candidate
/// that is a file is left out only when a document with its lower-case name
/// was found.
pub proof fn lemma_docs_are_distinct_candidates(files: Seq<Seq<char>>)
    ensures
        forall|i: int| 0 <= i < docs_found(files, 9).len() ==> {
            let k = #[trigger] found_indices(files, 9)[i];
            &&& 0 <= k < 9
            &&& docs_found(files, 9)[i] == doc_candidates()[k]
            &&& files.contains(doc_candidates()[k])
        },
        forall|i: int, j: int| 0 <= i < j < docs_found(files, 9).len() ==> #[trigger] found_indices(files, 9)[i] < #[trigger] found_indices(files, 9)[j],
        forall|i: int, j: int| 0 <= i < j < docs_found(files, 9).len() ==> doc_keys()[#[trigger] found_indices(files, 9)[i]] != doc_keys()[#[trigger] found_indices(files, 9)[j]],
        forall|k: int| 0 <= k < 9 && files.contains(#[trigger] doc_candidates()[k]) ==> exists|i: int| 0 <= i < docs_found(files, 9).len() && doc_keys()[#[trigger] found_indices(files, 9)[i]] == doc_keys()[k],
{
    lemma_found_shape(files, 9);
    let ks = keys_found(files, 9);
    let fi = found_indices(files, 9);
    assert forall|i: int, j: int| 0 <= i < j < docs_found(files, 9).len() implies doc_keys()[#[trigger] fi[i]] != doc_keys()[#[trigger] fi[j]] by {
        assert(ks[i] == doc_keys()[fi[i]]);
        assert(ks[j] == doc_keys()[fi[j]]);
    }
    assert forall|k: int| 0 <= k < 9 && files.contains(#[trigger] doc_candidates()[k]) implies exists|i: int| 0 <= i < docs_found(files, 9).len() && doc_keys()[#[trigger] fi[i]] == doc_keys()[k] by {
        let i = choose|i: int| 0 <= i < ks.len() && ks[i] == doc_keys()[k];
        assert(ks[i] == doc_keys()[fi[i]]);
    }
}

/// The documentation files of a project, with their paths: the candidates
/// among `files` (the names of the regular files in the project directory),
/// in candidate order, at most one per lower-case name.
pub fn discover_docs(project_path: &str, files: &Vec<String>) -> (r: Vec<(String, String)>)
    ensures
        r@.map_values(|e: (String, String)| e.0@) == docs_found(files.deep_view(), 9),
        forall|i: int| 0 <= i < r@.len() ==> (#[trigger] r@[i]).1@ == join_path(project_path@, r@[i].0@),
{
    let cands = doc_candidates_exec();
    let keys = doc_keys_exec();
    assert(cands@.map_values(|s: &'static str| s@).len() == 9);
    assert(keys@.map_values(|s: &'static str| s@).len() == 9);
    let mut found: Vec<(String, String)> = Vec::new();
    let mut lowers: Vec<Vec<char>> = Vec::new();
    let mut k: usize = 0;
    while k < cands.len()
        invariant
            k <= cands.len(),
            cands@.map_values(|s: &'static str| s@) == doc_candidates(),
            found@.map_values(|e: (String, String)| e.0@) == docs_found(files.deep_view(), k as int),
            keys@.map_values(|s: &'static str| s@) == doc_keys(),
            cands.len() == 9,
            keys.len() == 9,
            crate::paths::char_seqs(lowers@) == keys_found(files.deep_view(), k as int),
            forall|i: int| 0 <= i < found@.len() ==> (#[trigger] found@[i]).1@ == join_path(project_path@, found@[i].0@),
        decreases cands.len() - k,
    {
        let name = cands[k];
        assert(cands@.map_values(|s: &'static str| s@)[k as int] == cands@[k as int]@);
        assert(name@ == doc_candidates()[k as int]);
        let lower = to_chars(keys[k]);
        assert(keys@.map_values(|s: &'static str| s@)[k as int] == keys@[k as int]@);
        assert(lower@ == doc_keys()[k as int]);
        let ghost prev = docs_found(files.deep_view(), k as int);
        let ghost pl = keys_found(files.deep_view(), k as int);
        let seen = crate::paths::holds_chars(&lowers, &lower);
        if !seen && crate::text::contains_name(files, name) {
            let path = join_path_exec(project_path, name);
            let ghost pf = found@;
            found.push((owned(name), path));
            lowers.push(lower);
            assert(found@.map_values(|e: (String, String)| e.0@) =~= prev.push(name@));
            assert(docs_found(files.deep_view(), k + 1) == prev.push(name@));
            assert(crate::paths::char_seqs(lowers@) =~= pl.push(lower@));
            assert forall|i: int| 0 <= i < found@.len() implies (#[trigger] found@[i]).1@ == join_path(project_path@, found@[i].0@) by {
                if i < pf.len() {
                    assert(found@[i] == pf[i]);
                }
            }
        } else {
            assert(docs_found(files.deep_view(), k + 1) == prev);
            assert(keys_found(files.deep_view(), k + 1) == pl);
        }
        k += 1;
    }
    found
}

/// Every occurrence of `from` replaced by `to`, left to right (`str::replace`).
pub open spec fn replace_all(s: Seq<char>, from: Seq<char>, to: Seq<char>) -> Seq<char>
    decreases s.len(),
{
    if from.len() == 0 || s.len() == 0 {
        s
    } else if crate::text::has_prefix(s, from) {
        to + replace_all(s.skip(from.len() as int), from, to)
    } else {
        seq![s[0]] + replace_all(s.drop_first(), from, to)
    }
}

/// A task line checked (`- [ ]` becomes `- [x]`) or unchecked (`- [x]` and
/// `- [X]` become `- [ ]`); `None` when the line has no box to change.
pub open spec fn toggled_line(line: Seq<char>, completed: bool) -> Option<Seq<char>> {
    if completed && contains_seq(line, "- [ ]"@) {
        Some(replace_all(line, "- [ ]"@, "- [x]"@))
    } else if !completed && (contains_seq(line, "- [x]"@) || contains_seq(line, "- [X]"@)) {
        Some(replace_all(replace_all(line, "- [x]"@, "- [ ]"@), "- [X]"@, "- [ ]"@))
    } else {
        None
    }
}

/// The first of the first `n` lines that mentions the task and has a box to change.
pub open spec fn first_toggle(lines: Seq<Seq<char>>, task_id: Seq<char>, completed: bool, n: int) -> Option<int>
    decreases n,
{
    if n <= 0 {
        None
    } else {
        match first_toggle(lines, task_id, completed, n - 1) {
            Some(i) => Some(i),
            None => if contains_seq(lines[n - 1], task_id) && toggled_line(lines[n - 1], completed) is Some {
                Some(n - 1)
            } else {
                None
            },
        }
    }
}

/// The document with the task toggled: the first line that mentions
/// `task_id` and has a box to change is changed, and the lines are joined by
/// `\n` with a final `\n`; `None` when no line changes.
pub open spec fn toggle_task_text(content: Seq<char>, task_id: Seq<char>, completed: bool) -> Option<Seq<char>> {
    let lines = text_lines(content);
    match first_toggle(lines, task_id, completed, lines.len() as int) {
        Some(i) => Some(
            join_with(lines.update(i, toggled_line(lines[i], completed)->0), "\n"@) + "\n"@,
        ),
        None => None,
    }
}

proof fn lemma_prefix_at(s: Seq<char>, p: Seq<char>, i: int)
    requires
        0 <= i <= s.len(),
    ensures
        crate::text::has_prefix(s.skip(i), p) == occurs_at(s, p, i),
{
    if p.len() <= s.len() - i {
        assert(s.skip(i).subrange(0, p.len() as int) =~= s.subrange(i, i + p.len()));
    }
}

/// Every occurrence of `from` replaced by `to`.
pub fn replace_all_exec(s: &Vec<char>, from: &str, to: &str) -> (r: Vec<char>)
    ensures
        r@ == replace_all(s@, from@, to@),
{
    let f = to_chars(from);
    let t = to_chars(to);
    if f.len() == 0 {
        return s.clone();
    }
    let mut out: Vec<char> = Vec::new();
    let mut i: usize = 0;
    assert(s@.skip(0) =~= s@);
    while i < s.len()
        invariant
            i <= s.len(),
            f@ == from@,
            t@ == to@,
            f.len() > 0,
            out@ + replace_all(s@.skip(i as int), from@, to@) == replace_all(s@, from@, to@),
        decreases s.len() - i,
    {
        proof {
            lemma_prefix_at(s@, from@, i as int);
        }
        if occurs_at_exec(s, &f, i) {
            let mut k: usize = 0;
            let ghost before = out@;
            while k < t.len()
                invariant
                    k <= t.len(),
                    out@ == before + t@.take(k as int),
                decreases t.len() - k,
            {
                out.push(t[k]);
                assert(t@.take(k + 1) =~= t@.take(k as int).push(t@[k as int]));
                k += 1;
            }
            assert(t@.take(t.len() as int) =~= t@);
            assert(s@.skip(i as int).skip(from@.len() as int) =~= s@.skip(i + f.len()));
            assert(before + (to@ + replace_all(s@.skip(i + f.len()), from@, to@)) =~= out@ + replace_all(s@.skip(i + f.len()), from@, to@));
            i = i + f.len();
        } else {
            let ghost before = out@;
            out.push(s[i]);
            assert(s@.skip(i as int).drop_first() =~= s@.skip(i + 1));
            assert(before + (seq![s@[i as int]] + replace_all(s@.skip(i + 1), from@, to@)) =~= out@ + replace_all(s@.skip(i + 1), from@, to@));
            i = i + 1;
        }
    }
    assert(out@ + replace_all(s@.skip(s.len() as int), from@, to@) =~= out@);
    out
}

fn toggled_line_exec(line: &Vec<char>, completed: bool) -> (r: Option<Vec<char>>)
    ensures
        crate::markdown::opt_chars(r) == toggled_line(line@, completed),
{
    if completed && contains_str(line, "- [ ]") {
        Some(replace_all_exec(line, "- [ ]", "- [x]"))
    } else if !completed && (contains_str(line, "- [x]") || contains_str(line, "- [X]")) {
        let a = replace_all_exec(line, "- [x]", "- [ ]");
        Some(replace_all_exec(&a, "- [X]", "- [ ]"))
    } else {
        None
    }
}

/// Checks (`completed`) or unchecks the first task line that mentions
/// `task_id`; the new document text, or `None` when nothing changed.
pub fn toggle_task(content: &str, task_id: &str, completed: bool) -> (r: Option<String>)
    ensures
        r.deep_view() == toggle_task_text(content@, task_id@, completed),
{
    let chars = to_chars(content);
    let mut lines = split_lines(&chars);
    let ghost ls = lines@.map_values(|l: Vec<char>| l@);
    let id = to_chars(task_id);
    let mut i: usize = 0;
    while i < lines.len()
        invariant
            i <= lines.len(),
            ls == lines@.map_values(|l: Vec<char>| l@),
            ls == text_lines(content@),
            id@ == task_id@,
            first_toggle(ls, task_id@, completed, i as int) is None,
        decreases lines.len() - i,
    {
        if contains_chars(&lines[i], &id) {
            match toggled_line_exec(&lines[i], completed) {
                Some(new_line) => {
                    assert(first_toggle(ls, task_id@, completed, i + 1) == Some(i as int));
                    proof {
                        lemma_first_toggle_stays(ls, task_id@, completed, i + 1);
                    }
                    let ghost nl = new_line@;
                    lines.set(i, new_line);
                    let mut texts: Vec<String> = Vec::new();
                    let mut k: usize = 0;
                    let ghost updated = ls.update(i as int, nl);
                    assert(lines@.map_values(|l: Vec<char>| l@) =~= updated);
                    while k < lines.len()
                        invariant
                            k <= lines.len(),
                            updated == lines@.map_values(|l: Vec<char>| l@),
                            texts.deep_view() == updated.take(k as int),
                        decreases lines.len() - k,
                    {
                        let ghost prev = texts.deep_view();
                        let s = from_chars(&lines[k]);
                        assert(s@ == updated[k as int]);
                        texts.push(s);
                        assert(texts.deep_view() =~= prev.push(updated[k as int]));
                        assert(updated.take(k + 1) =~= updated.take(k as int).push(updated[k as int]));
                        k += 1;
                    }
                    assert(updated.take(lines.len() as int) =~= updated);
                    let mut out = join_strings(&texts, "\n");
                    out.append("\n");
                    return Some(out);
                },
                None => {},
            }
        }
        assert(first_toggle(ls, task_id@, completed, i + 1) is None);
        i += 1;
    }
    None
}

proof fn lemma_first_toggle_stays(lines: Seq<Seq<char>>, task_id: Seq<char>, completed: bool, n: int)
    requires
        0 <= n <= lines.len(),
        first_toggle(lines, task_id, completed, n) is Some,
    ensures
        first_toggle(lines, task_id, completed, lines.len() as int) == first_toggle(lines, task_id, completed, n),
    decreases lines.len() - n,
{
    if n < lines.len() {
        lemma_first_toggle_stays(lines, task_id, completed, n + 1);
    }
}

} // verus!
