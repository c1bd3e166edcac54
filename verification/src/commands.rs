//! Discovery of the runnable commands of a project.
//!
//! Sources, from lowest to highest priority: the standard Cargo commands when
//! `Cargo.toml` exists, `package.json` scripts, justfile recipes, and the
//! `[commands]` table of `.rustodian.toml`. Exactly one command is kept per
//! name — the one from the highest-priority source — and the result is sorted
//! by name.

use vstd::prelude::*;

use crate::order::{TotalOrder, sorted, sort_stable};
use crate::text::{
    chars_le, chars_lt, contains_seq, contains_chars, concat2, find_char, from_chars, is_whitespace,
    is_ws, lemma_chars_le_total, lemma_chars_le_transitive, lemma_chars_trichotomy,
    lemma_chars_lt_irreflexive, owned, split_lines, str_eq, str_le, text_lines, to_chars, trim,
    trim_chars,
};
use crate::types::{CommandView, ProjectCommand};

verus! {

// ----------------------------------------------------------------------------
// Shell detection.
// ----------------------------------------------------------------------------

/// A command needs a shell when it uses `&&`, `||`, `|`, `>`, `<` or `$(`.
pub open spec fn needs_shell(s: Seq<char>) -> bool {
    ||| contains_seq(s, "&&"@)
    ||| contains_seq(s, "||"@)
    ||| contains_seq(s, "|"@)
    ||| contains_seq(s, ">"@)
    ||| contains_seq(s, "<"@)
    ||| contains_seq(s, "$("@)
}

pub fn needs_shell_exec(s: &str) -> (b: bool)
    ensures
        b == needs_shell(s@),
{
    let v = to_chars(s);
    crate::text::contains_str(&v, "&&") || crate::text::contains_str(&v, "||")
        || crate::text::contains_str(&v, "|") || crate::text::contains_str(&v, ">")
        || crate::text::contains_str(&v, "<") || crate::text::contains_str(&v, "$(")
}

// ----------------------------------------------------------------------------
// Command constructors and their specifications.
// ----------------------------------------------------------------------------

pub open spec fn cmd_view(
    name: Seq<char>,
    description: Seq<char>,
    command: Seq<char>,
    source: Seq<char>,
    use_shell: bool,
) -> CommandView {
    CommandView { name, description: Some(description), command, source, use_shell }
}

/// The standard Cargo commands.
pub open spec fn rust_default_views() -> Seq<CommandView> {
    seq![
        cmd_view("test"@, "Run cargo test"@, "cargo test"@, "Cargo.toml"@, false),
        cmd_view("build"@, "Run cargo build"@, "cargo build"@, "Cargo.toml"@, false),
        cmd_view("check"@, "Run cargo check"@, "cargo check"@, "Cargo.toml"@, false),
        cmd_view("clippy"@, "Run cargo clippy"@, "cargo clippy"@, "Cargo.toml"@, false),
        cmd_view("fmt"@, "Run cargo fmt"@, "cargo fmt"@, "Cargo.toml"@, false),
    ]
}

pub open spec fn script_view(name: Seq<char>) -> CommandView {
    cmd_view(name, "npm run script"@, "npm run "@ + name, "package.json"@, needs_shell(name))
}

pub open spec fn recipe_view(name: Seq<char>) -> CommandView {
    cmd_view(name, "just recipe"@, "just "@ + name, "justfile"@, needs_shell(name))
}

pub open spec fn config_view(name: Seq<char>, command: Seq<char>) -> CommandView {
    cmd_view(name, "rustodian config"@, command, ".rustodian.toml"@, needs_shell(command))
}

fn make_command(name: &str, description: &str, command: String, source: &str, use_shell: bool) -> (c: ProjectCommand)
    ensures
        c@ == cmd_view(name@, description@, command@, source@, use_shell),
{
    ProjectCommand {
        name: owned(name),
        description: Some(owned(description)),
        command,
        source: owned(source),
        use_shell,
    }
}

fn cargo_command(name: &str, description: &str, command: &str) -> (c: ProjectCommand)
    ensures
        c@ == cmd_view(name@, description@, command@, "Cargo.toml"@, false),
{
    make_command(name, description, owned(command), "Cargo.toml", false)
}

fn script_command(name: String) -> (c: ProjectCommand)
    ensures
        c@ == script_view(name@),
{
    let shell = needs_shell_exec(name.as_str());
    let command = concat2("npm run ", name.as_str());
    make_command(name.as_str(), "npm run script", command, "package.json", shell)
}

fn recipe_command(name: String) -> (c: ProjectCommand)
    ensures
        c@ == recipe_view(name@),
{
    let shell = needs_shell_exec(name.as_str());
    let command = concat2("just ", name.as_str());
    make_command(name.as_str(), "just recipe", command, "justfile", shell)
}

fn config_command(name: String, command: String) -> (c: ProjectCommand)
    ensures
        c@ == config_view(name@, command@),
{
    let shell = needs_shell_exec(command.as_str());
    make_command(name.as_str(), "rustodian config", command, ".rustodian.toml", shell)
}

// ----------------------------------------------------------------------------
// Justfile recipes.
// ----------------------------------------------------------------------------

pub open spec fn is_recipe_char(c: char) -> bool {
    ('a' <= c <= 'z') || ('A' <= c <= 'Z') || ('0' <= c <= '9') || c == '-' || c == '_'
}

/// The leading characters of `s` up to its first whitespace.
pub open spec fn first_word(s: Seq<char>) -> Seq<char>
    decreases s.len(),
{
    if s.len() == 0 || is_ws(s[0]) {
        seq![]
    } else {
        seq![s[0]] + first_word(s.drop_first())
    }
}

/// Index of the first `:` in `s`.
pub open spec fn colon_index(s: Seq<char>) -> Option<int>
    decreases s.len(),
{
    if s.len() == 0 {
        None
    } else if s.last() == ':' {
        match colon_index(s.drop_last()) {
            Some(i) => Some(i),
            None => Some(s.len() - 1),
        }
    } else {
        colon_index(s.drop_last())
    }
}

/// The recipe a justfile line defines: lines that are blank, comments, or
/// indented define none; otherwise the first word before the first `:`, when
/// it is made of ASCII letters, digits, `-` and `_`.
pub open spec fn recipe_name(line: Seq<char>) -> Option<Seq<char>> {
    let t = trim(line);
    if t.len() == 0 || t[0] == '#' || (line.len() > 0 && (line[0] == ' ' || line[0] == '\t')) {
        None
    } else {
        match colon_index(t) {
            None => None,
            Some(idx) => {
                let w = first_word(t.take(idx));
                if w.len() > 0 && (forall|k: int| 0 <= k < w.len() ==> is_recipe_char(#[trigger] w[k])) {
                    Some(w)
                } else {
                    None
                }
            },
        }
    }
}

/// The recipes of a justfile, in order.
pub open spec fn recipes_of(lines: Seq<Seq<char>>) -> Seq<Seq<char>>
    decreases lines.len(),
{
    if lines.len() == 0 {
        seq![]
    } else {
        let prev = recipes_of(lines.drop_last());
        match recipe_name(lines.last()) {
            Some(n) => prev.push(n),
            None => prev,
        }
    }
}

pub open spec fn justfile_recipes(text: Seq<char>) -> Seq<Seq<char>> {
    recipes_of(text_lines(text))
}

fn colon_index_exec(s: &Vec<char>) -> (r: Option<usize>)
    ensures
        match r {
            Some(i) => colon_index(s@) == Some(i as int) && i < s.len(),
            None => colon_index(s@) is None,
        },
{
    let r = find_char(s, ':');
    proof {
        lemma_colon_index(s@);
    }
    r
}

proof fn lemma_colon_index(s: Seq<char>)
    ensures
        match colon_index(s) {
            Some(i) => 0 <= i < s.len() && s[i] == ':' && forall|j: int| 0 <= j < i ==> s[j] != ':',
            None => forall|j: int| 0 <= j < s.len() ==> s[j] != ':',
        },
    decreases s.len(),
{
    if s.len() > 0 {
        lemma_colon_index(s.drop_last());
        assert forall|j: int| 0 <= j < s.len() - 1 implies s.drop_last()[j] == s[j] by {}
    }
}

fn first_word_exec(s: &Vec<char>) -> (r: Vec<char>)
    ensures
        r@ == first_word(s@),
{
    let mut k: usize = 0;
    while k < s.len() && !is_whitespace(s[k])
        invariant
            k <= s.len(),
            forall|j: int| 0 <= j < k ==> !is_ws(s@[j]),
        decreases s.len() - k,
    {
        k += 1;
    }
    proof {
        lemma_first_word(s@, k as int);
    }
    crate::text::slice_chars(s, 0, k)
}

proof fn lemma_first_word(s: Seq<char>, k: int)
    requires
        0 <= k <= s.len(),
        forall|j: int| 0 <= j < k ==> !is_ws(s[j]),
        k == s.len() || is_ws(s[k]),
    ensures
        first_word(s) == s.subrange(0, k),
    decreases s.len(),
{
    if k > 0 {
        lemma_first_word(s.drop_first(), k - 1);
        assert(s.subrange(0, k) =~= seq![s[0]] + s.drop_first().subrange(0, k - 1));
    } else {
        assert(s.subrange(0, k) =~= Seq::<char>::empty());
    }
}

/// The recipe a justfile line defines.
pub fn recipe_name_exec(line: &Vec<char>) -> (r: Option<Vec<char>>)
    ensures
        match r {
            Some(w) => recipe_name(line@) == Some(w@),
            None => recipe_name(line@) is None,
        },
{
    let t = trim_chars(line);
    if t.len() == 0 || t[0] == '#' || (line.len() > 0 && (line[0] == ' ' || line[0] == '\t')) {
        return None;
    }
    match colon_index_exec(&t) {
        None => None,
        Some(idx) => {
            let def = crate::text::slice_chars(&t, 0, idx);
            assert(def@ =~= t@.take(idx as int));
            let w = first_word_exec(&def);
            if w.len() == 0 {
                return None;
            }
            let mut k: usize = 0;
            while k < w.len()
                invariant
                    k <= w.len(),
                    forall|j: int| 0 <= j < k ==> is_recipe_char(#[trigger] w@[j]),
                    t@ == trim(line@),
                    w@ == first_word(t@.take(idx as int)),
                    colon_index(t@) == Some(idx as int),
                    t@.len() > 0,
                    t@[0] != '#',
                    !(line@.len() > 0 && (line@[0] == ' ' || line@[0] == '\t')),
                decreases w.len() - k,
            {
                let c = w[k];
                if !(('a' <= c && c <= 'z') || ('A' <= c && c <= 'Z') || ('0' <= c && c <= '9')
                    || c == '-' || c == '_') {
                    assert(!is_recipe_char(w@[k as int]));
                    assert(!(forall|j: int| 0 <= j < w@.len() ==> is_recipe_char(#[trigger] w@[j])));
                    assert(w@ == first_word(trim(line@).take(idx as int)));
                    return None;
                }
                k += 1;
            }
            Some(w)
        },
    }
}

/// The recipes defined by a justfile, in order of appearance.
pub fn justfile_recipes_exec(text: &str) -> (r: Vec<String>)
    ensures
        r@.map_values(|s: String| s@) == justfile_recipes(text@),
{
    let chars = to_chars(text);
    let lines = split_lines(&chars);
    let ghost ls = lines@.map_values(|l: Vec<char>| l@);
    let mut out: Vec<String> = Vec::new();
    let mut i: usize = 0;
    while i < lines.len()
        invariant
            i <= lines@.len(),
            ls == lines@.map_values(|l: Vec<char>| l@),
            out@.map_values(|s: String| s@) == recipes_of(ls.take(i as int)),
        decreases lines@.len() - i,
    {
        assert(ls.take(i + 1).drop_last() =~= ls.take(i as int));
        assert(ls.take(i + 1).last() == lines@[i as int]@);
        match recipe_name_exec(&lines[i]) {
            Some(w) => {
                let s = from_chars(&w);
                out.push(s);
                assert(out@.map_values(|s: String| s@) =~= recipes_of(ls.take(i as int)).push(w@));
            },
            None => {},
        }
        i += 1;
    }
    assert(ls.take(lines@.len() as int) =~= ls);
    out
}


// ----------------------------------------------------------------------------
// Resolution: one command per name, highest priority wins, sorted by name.
// ----------------------------------------------------------------------------

/// Names strictly increase along `r`.
pub open spec fn names_sorted(r: Seq<CommandView>) -> bool {
    forall|i: int, j: int| 0 <= i < j < r.len() ==> chars_lt(r[i].name, r[j].name)
}

/// No candidate after position `k` has the name of candidate `k`.
pub open spec fn is_last(cands: Seq<CommandView>, k: int) -> bool {
    forall|m: int| k < m < cands.len() ==> (#[trigger] cands[m]).name != cands[k].name
}

/// Entry `i` of `r` is a candidate that no later candidate overrides.
pub open spec fn won_by(r: Seq<CommandView>, cands: Seq<CommandView>, i: int) -> bool {
    exists|k: int| 0 <= k < cands.len() && r[i] == cands[k] && #[trigger] is_last(cands, k)
}

/// Each entry of `r` is the last candidate given under its name.
pub open spec fn all_winners(r: Seq<CommandView>, cands: Seq<CommandView>) -> bool {
    forall|i: int| 0 <= i < r.len() ==> #[trigger] won_by(r, cands, i)
}

/// Every candidate's name has an entry in `r`.
pub open spec fn covers(r: Seq<CommandView>, cands: Seq<CommandView>) -> bool {
    forall|k: int|
        #![trigger cands[k]]
        0 <= k < cands.len() ==> exists|i: int| 0 <= i < r.len() && r[i].name == cands[k].name
}

/// `r` holds one command per name among `cands` — for each name the last
/// (highest-priority) candidate with that name — sorted by name.
#[verifier::opaque]
pub open spec fn resolves(r: Seq<CommandView>, cands: Seq<CommandView>) -> bool {
    &&& names_sorted(r)
    &&& all_winners(r, cands)
    &&& covers(r, cands)
}

pub open spec fn views(v: Seq<ProjectCommand>) -> Seq<CommandView> {
    v.map_values(|c: ProjectCommand| c@)
}

proof fn lemma_sorted_distinct(a: Seq<CommandView>, x: int, y: int)
    requires
        names_sorted(a),
        0 <= x < a.len(),
        0 <= y < a.len(),
        x != y,
    ensures
        a[x].name != a[y].name,
{
    if x < y {
        lemma_chars_lt_irreflexive(a[x].name);
    } else {
        lemma_chars_lt_irreflexive(a[y].name);
    }
}

/// A candidate that was last among `p` stays last after `c` is appended,
/// unless `c` carries its name.
proof fn lemma_last_push(p: Seq<CommandView>, c: CommandView, k: int)
    requires
        0 <= k < p.len(),
        is_last(p, k),
        p[k].name != c.name,
    ensures
        is_last(p.push(c), k),
{
    let q = p.push(c);
    assert forall|m: int| k < m < q.len() implies (#[trigger] q[m]).name != q[k].name by {
        if m < p.len() {
            assert(q[m] == p[m]);
        }
    }
}

proof fn lemma_covers_push(
    old_a: Seq<CommandView>,
    na: Seq<CommandView>,
    p: Seq<CommandView>,
    c: CommandView,
)
    requires
        covers(old_a, p),
        exists|i: int| 0 <= i < na.len() && na[i].name == c.name,
        forall|i: int|
            0 <= i < old_a.len() ==> exists|i2: int| 0 <= i2 < na.len() && na[i2].name == (
            #[trigger] old_a[i]).name,
    ensures
        covers(na, p.push(c)),
{
    let q = p.push(c);
    assert forall|k: int| #![trigger q[k]] 0 <= k < q.len() implies exists|i: int|
        0 <= i < na.len() && na[i].name == q[k].name by {
        if k < p.len() {
            assert(q[k] == p[k]);
            let i = choose|i: int| 0 <= i < old_a.len() && old_a[i].name == p[k].name;
            assert(old_a[i] == old_a[i]);
        }
    }
}

proof fn lemma_resolve_replace(old_a: Seq<CommandView>, p: Seq<CommandView>, c: CommandView, j: int)
    requires
        resolves(old_a, p),
        0 <= j < old_a.len(),
        old_a[j].name == c.name,
    ensures
        resolves(old_a.update(j, c), p.push(c)),
{
    reveal(resolves);
    let na = old_a.update(j, c);
    let q = p.push(c);
    let idx = p.len() as int;
    assert forall|x: int, y: int| 0 <= x < y < na.len() implies chars_lt(na[x].name, na[y].name) by {
        assert(na[x].name == old_a[x].name);
        assert(na[y].name == old_a[y].name);
    }
    assert forall|i: int| 0 <= i < na.len() implies #[trigger] won_by(na, q, i) by {
        if i == j {
            assert(q[idx] == c);
            assert(is_last(q, idx));
        } else {
            assert(won_by(old_a, p, i));
            let k = choose|k: int| 0 <= k < p.len() && old_a[i] == p[k] && #[trigger] is_last(p, k);
            lemma_sorted_distinct(old_a, i, j);
            lemma_last_push(p, c, k);
            assert(q[k] == p[k]);
        }
    }
    assert forall|i: int| 0 <= i < old_a.len() implies exists|i2: int|
        0 <= i2 < na.len() && na[i2].name == (#[trigger] old_a[i]).name by {
        assert(na[i].name == old_a[i].name);
    }
    assert(na[j].name == c.name);
    lemma_covers_push(old_a, na, p, c);
}

proof fn lemma_insert_sorted(old_a: Seq<CommandView>, c: CommandView, j: int)
    requires
        names_sorted(old_a),
        0 <= j <= old_a.len(),
        forall|x: int| 0 <= x < j ==> chars_lt(old_a[x].name, c.name),
        j < old_a.len() ==> chars_lt(c.name, old_a[j].name),
    ensures
        names_sorted(old_a.insert(j, c)),
{
    let na = old_a.insert(j, c);
    assert forall|x: int, y: int| 0 <= x < y < na.len() implies chars_lt(na[x].name, na[y].name) by {
        if y == j {
            assert(na[x] == old_a[x]);
        } else if x == j {
            assert(na[y] == old_a[y - 1]);
            if y - 1 > j {
                crate::text::lemma_chars_lt_transitive(c.name, old_a[j].name, old_a[y - 1].name);
            }
        } else if y < j {
            assert(na[x] == old_a[x] && na[y] == old_a[y]);
        } else if x < j {
            assert(na[x] == old_a[x]);
            assert(na[y] == old_a[y - 1]);
        } else {
            assert(na[x] == old_a[x - 1]);
            assert(na[y] == old_a[y - 1]);
        }
    }
}

proof fn lemma_insert_fresh(old_a: Seq<CommandView>, c: CommandView, j: int, oi: int)
    requires
        names_sorted(old_a),
        0 <= j <= old_a.len(),
        0 <= oi < old_a.len(),
        forall|x: int| 0 <= x < j ==> chars_lt(old_a[x].name, c.name),
        j < old_a.len() ==> chars_lt(c.name, old_a[j].name),
    ensures
        old_a[oi].name != c.name,
{
    lemma_chars_lt_irreflexive(c.name);
    if oi > j {
        crate::text::lemma_chars_lt_transitive(c.name, old_a[j].name, old_a[oi].name);
    }
}

proof fn lemma_insert_winners(old_a: Seq<CommandView>, p: Seq<CommandView>, c: CommandView, j: int)
    requires
        names_sorted(old_a),
        all_winners(old_a, p),
        0 <= j <= old_a.len(),
        forall|x: int| 0 <= x < j ==> chars_lt(old_a[x].name, c.name),
        j < old_a.len() ==> chars_lt(c.name, old_a[j].name),
    ensures
        all_winners(old_a.insert(j, c), p.push(c)),
{
    let na = old_a.insert(j, c);
    let q = p.push(c);
    let idx = p.len() as int;
    assert forall|i: int| 0 <= i < na.len() implies #[trigger] won_by(na, q, i) by {
        if i == j {
            assert(q[idx] == c);
            assert(is_last(q, idx));
        } else {
            let oi = if i < j {
                i
            } else {
                i - 1
            };
            assert(na[i] == old_a[oi]);
            assert(won_by(old_a, p, oi));
            let k = choose|k: int| 0 <= k < p.len() && old_a[oi] == p[k] && #[trigger] is_last(p, k);
            lemma_insert_fresh(old_a, c, j, oi);
            lemma_last_push(p, c, k);
            assert(q[k] == p[k]);
        }
    }
}

proof fn lemma_insert_covers(old_a: Seq<CommandView>, p: Seq<CommandView>, c: CommandView, j: int)
    requires
        covers(old_a, p),
        0 <= j <= old_a.len(),
    ensures
        covers(old_a.insert(j, c), p.push(c)),
{
    let na = old_a.insert(j, c);
    assert forall|i: int| 0 <= i < old_a.len() implies exists|i2: int|
        0 <= i2 < na.len() && na[i2].name == (#[trigger] old_a[i]).name by {
        if i < j {
            assert(na[i] == old_a[i]);
        } else {
            assert(na[i + 1] == old_a[i]);
        }
    }
    assert(na[j].name == c.name);
    lemma_covers_push(old_a, na, p, c);
}

proof fn lemma_resolve_insert(old_a: Seq<CommandView>, p: Seq<CommandView>, c: CommandView, j: int)
    requires
        resolves(old_a, p),
        0 <= j <= old_a.len(),
        forall|x: int| 0 <= x < j ==> chars_lt(old_a[x].name, c.name),
        j < old_a.len() ==> chars_lt(c.name, old_a[j].name),
    ensures
        resolves(old_a.insert(j, c), p.push(c)),
{
    reveal(resolves);
    lemma_insert_sorted(old_a, c, j);
    lemma_insert_winners(old_a, p, c, j);
    lemma_insert_covers(old_a, p, c, j);
}

pub open spec fn names_of(r: Seq<CommandView>) -> Seq<Seq<char>> {
    r.map_values(|c: CommandView| c.name)
}

/// Two strictly increasing name sequences holding the same names are equal.
proof fn lemma_sorted_names_equal(a: Seq<Seq<char>>, b: Seq<Seq<char>>)
    requires
        forall|i: int, j: int| 0 <= i < j < a.len() ==> chars_lt(a[i], a[j]),
        forall|i: int, j: int| 0 <= i < j < b.len() ==> chars_lt(b[i], b[j]),
        forall|x: Seq<char>| a.contains(x) <==> b.contains(x),
    ensures
        a == b,
    decreases a.len() + b.len(),
{
    if a.len() == 0 || b.len() == 0 {
        if a.len() > 0 {
            assert(a.contains(a[0]));
        }
        if b.len() > 0 {
            assert(b.contains(b[0]));
        }
        assert(a =~= b);
    } else {
        assert(a.contains(a[0]));
        assert(b.contains(b[0]));
        let ia = choose|i: int| 0 <= i < a.len() && a[i] == b[0];
        let ib = choose|i: int| 0 <= i < b.len() && b[i] == a[0];
        if ia > 0 {
            assert(chars_lt(a[0], a[ia]));
        }
        if ib > 0 {
            assert(chars_lt(b[0], b[ib]));
        }
        lemma_chars_trichotomy(a[0], b[0]);
        if a[0] != b[0] {
            if ia > 0 && ib > 0 {
                assert(!(chars_lt(a[0], b[0]) && chars_lt(b[0], a[0])));
            }
        }
        assert(a[0] == b[0]);
        let a2 = a.drop_first();
        let b2 = b.drop_first();
        assert forall|x: Seq<char>| a2.contains(x) <==> b2.contains(x) by {
            if a2.contains(x) {
                let i = choose|i: int| 0 <= i < a2.len() && a2[i] == x;
                assert(a.contains(x)) by { assert(a[i + 1] == x); }
                assert(chars_lt(a[0], a[i + 1]));
                lemma_chars_lt_irreflexive(x);
                let j = choose|j: int| 0 <= j < b.len() && b[j] == x;
                assert(j != 0);
                assert(b2[j - 1] == x);
            }
            if b2.contains(x) {
                let i = choose|i: int| 0 <= i < b2.len() && b2[i] == x;
                assert(b.contains(x)) by { assert(b[i + 1] == x); }
                assert(chars_lt(b[0], b[i + 1]));
                lemma_chars_lt_irreflexive(x);
                let j = choose|j: int| 0 <= j < a.len() && a[j] == x;
                assert(j != 0);
                assert(a2[j - 1] == x);
            }
        }
        lemma_sorted_names_equal(a2, b2);
        assert(a =~= seq![a[0]] + a2);
        assert(b =~= seq![b[0]] + b2);
    }
}

/// The names of a resolution are exactly the candidates' names.
proof fn lemma_resolved_names(r: Seq<CommandView>, cands: Seq<CommandView>, x: Seq<char>)
    requires
        resolves(r, cands),
    ensures
        names_of(r).contains(x) <==> names_of(cands).contains(x),
{
    reveal(resolves);
    if names_of(r).contains(x) {
        let i = choose|i: int| 0 <= i < names_of(r).len() && names_of(r)[i] == x;
        assert(won_by(r, cands, i));
        let k = choose|k: int| 0 <= k < cands.len() && r[i] == cands[k] && #[trigger] is_last(cands, k);
        assert(names_of(cands)[k] == x);
    }
    if names_of(cands).contains(x) {
        let k = choose|k: int| 0 <= k < names_of(cands).len() && names_of(cands)[k] == x;
        assert(cands[k] == cands[k]);
        let i = choose|i: int| 0 <= i < r.len() && r[i].name == cands[k].name;
        assert(names_of(r)[i] == x);
    }
}

/// Command discovery is deterministic: for the same candidates there is
/// exactly one resolution, so discovering twice gives the same commands.
pub proof fn lemma_resolution_unique(r1: Seq<CommandView>, r2: Seq<CommandView>, cands: Seq<CommandView>)
    requires
        resolves(r1, cands),
        resolves(r2, cands),
    ensures
        r1 == r2,
{
    assert forall|x: Seq<char>| names_of(r1).contains(x) <==> names_of(r2).contains(x) by {
        lemma_resolved_names(r1, cands, x);
        lemma_resolved_names(r2, cands, x);
    }
    reveal(resolves);
    lemma_sorted_names_equal(names_of(r1), names_of(r2));
    assert(r1.len() == names_of(r1).len());
    assert(r2.len() == names_of(r2).len());
    assert forall|i: int| 0 <= i < r1.len() implies r1[i] == r2[i] by {
        assert(names_of(r1)[i] == names_of(r2)[i]);
        assert(won_by(r1, cands, i));
        assert(won_by(r2, cands, i));
        let k1 = choose|k: int| 0 <= k < cands.len() && r1[i] == cands[k] && #[trigger] is_last(cands, k);
        let k2 = choose|k: int| 0 <= k < cands.len() && r2[i] == cands[k] && #[trigger] is_last(cands, k);
        if k1 < k2 {
            assert(cands[k2].name != cands[k1].name);
        }
        if k2 < k1 {
            assert(cands[k1].name != cands[k2].name);
        }
    }
    assert(r1 =~= r2);
}

/// One command per name, and each is the highest-priority (last) candidate of
/// its name; every candidate name is present.
pub proof fn lemma_one_command_per_name(r: Seq<CommandView>, cands: Seq<CommandView>, i: int, j: int)
    requires
        resolves(r, cands),
        0 <= i < r.len(),
        0 <= j < r.len(),
        i != j,
    ensures
        r[i].name != r[j].name,
        exists|k: int| 0 <= k < cands.len() && r[i] == cands[k] && is_last(cands, k),
{
    reveal(resolves);
    lemma_sorted_distinct(r, i, j);
    assert(won_by(r, cands, i));
}

/// Keep one command per name, the last given for it, sorted by name.
pub fn resolve_commands(cands: Vec<ProjectCommand>) -> (r: Vec<ProjectCommand>)
    ensures
        resolves(views(r@), views(cands@)),
{
    let ghost all = views(cands@);
    let mut acc: Vec<ProjectCommand> = Vec::new();
    proof {
        reveal(resolves);
        assert(all.take(0) =~= Seq::<CommandView>::empty());
        assert(views(acc@) =~= Seq::<CommandView>::empty());
    }
    for c in it: cands.into_iter()
        invariant
            all == views(it.seq()),
            resolves(views(acc@), all.take(it.index() as int)),
    {
        let ghost idx = it.index() as int;
        let ghost p = all.take(idx);
        let ghost a = views(acc@);
        proof {
            assert(all.take(idx + 1) =~= p.push(c@));
        }
        let mut j: usize = 0;
        while j < acc.len() && crate::text::str_less(acc[j].name.as_str(), c.name.as_str())
            invariant
                j <= acc@.len(),
                a == views(acc@),
                forall|x: int| 0 <= x < j ==> chars_lt(a[x].name, c@.name),
            decreases acc@.len() - j,
        {
            j += 1;
        }
        if j < acc.len() && str_eq(acc[j].name.as_str(), c.name.as_str()) {
            let ghost cv = c@;
            acc.set(j, c);
            proof {
                assert(views(acc@) =~= a.update(j as int, cv));
                lemma_resolve_replace(a, p, cv, j as int);
            }
        } else {
            let ghost cv = c@;
            proof {
                if j < acc.len() {
                    lemma_chars_trichotomy(a[j as int].name, cv.name);
                }
            }
            acc.insert(j, c);
            proof {
                assert(views(acc@) =~= a.insert(j as int, cv));
                lemma_resolve_insert(a, p, cv, j as int);
            }
        }
    }
    proof {
        assert(all.take(all.len() as int) =~= all);
    }
    acc
}

// ----------------------------------------------------------------------------
// Reading the sources.
// ----------------------------------------------------------------------------

/// What `serde_json` finds in `text` under the top-level member `key`: the
/// keys of that member, when `text` is JSON and the member is an object;
/// `None` otherwise.
pub uninterp spec fn json_object_keys(text: Seq<char>, key: Seq<char>) -> Option<Seq<Seq<char>>>;

/// What `toml` finds in `text` under the top-level key `key`: each entry of
/// that table with its value when the value is a string, when `text` is TOML
/// and the key holds a table; `None` otherwise.
pub uninterp spec fn toml_table_entries(text: Seq<char>, key: Seq<char>) -> Option<
    Seq<(Seq<char>, Option<Seq<char>>)>,
>;

/// Parses `text` with `serde_json::from_str` into a `serde_json::Value`, looks
/// up the member `key` with `Value::get`, and lists the keys of that member
/// when `Value::as_object` finds an object. Trusted: the result is the named
/// `json_object_keys` of the arguments; nothing more is claimed of it.
#[verifier::external_body]
fn read_json_object_keys(text: &str, key: &str) -> (r: Option<Vec<String>>)
    ensures
        r.deep_view() == json_object_keys(text@, key@),
{
    let value: serde_json::Value = serde_json::from_str(text).ok()?;
    let object = value.get(key)?.as_object()?;
    Some(object.keys().cloned().collect())
}

/// Parses `text` with `toml::from_str` into a `toml::Value`, looks up `key`
/// with `Value::get`, and when `Value::as_table` finds a table lists its
/// entries, each with `Value::as_str` of its value. Trusted: the result is the
/// named `toml_table_entries` of the arguments; nothing more is claimed of it.
#[verifier::external_body]
fn read_toml_table_entries(text: &str, key: &str) -> (r: Option<Vec<(String, Option<String>)>>)
    ensures
        r.deep_view() == toml_table_entries(text@, key@),
{
    let value: toml::Value = toml::from_str(text).ok()?;
    let table = value.get(key)?.as_table()?;
    Some(table.iter().map(|(name, v)| (name.clone(), v.as_str().map(|s| s.to_owned()))).collect())
}

// ----------------------------------------------------------------------------
// Candidates in priority order and the discoverer.
// ----------------------------------------------------------------------------

/// The commands of a `[commands]` table: its string-valued entries, in order.
pub open spec fn config_views(es: Seq<(Seq<char>, Option<Seq<char>>)>) -> Seq<CommandView>
    decreases es.len(),
{
    if es.len() == 0 {
        seq![]
    } else {
        let prev = config_views(es.drop_last());
        match es.last().1 {
            Some(cmd) => prev.push(config_view(es.last().0, cmd)),
            None => prev,
        }
    }
}

/// All candidate commands, lowest priority first: Cargo defaults, then
/// package.json scripts, then justfile recipes, then `.rustodian.toml`.
pub open spec fn candidates(
    has_cargo_toml: bool,
    scripts: Option<Seq<Seq<char>>>,
    justfile: Option<Seq<char>>,
    config: Option<Seq<(Seq<char>, Option<Seq<char>>)>>,
) -> Seq<CommandView> {
    (if has_cargo_toml {
        rust_default_views()
    } else {
        seq![]
    }) + match scripts {
        Some(s) => s.map_values(|n: Seq<char>| script_view(n)),
        None => seq![],
    } + match justfile {
        Some(t) => justfile_recipes(t).map_values(|n: Seq<char>| recipe_view(n)),
        None => seq![],
    } + match config {
        Some(es) => config_views(es),
        None => seq![],
    }
}

/// `.rustodian.toml` defines a command named `n`.
pub open spec fn defined_in_config(config: Option<Seq<(Seq<char>, Option<Seq<char>>)>>, n: Seq<char>) -> bool {
    config is Some && exists|j: int| 0 <= j < config->0.len() && (#[trigger] config->0[j]).0 == n && config->0[j].1 is Some
}

/// The justfile has a recipe named `n`.
pub open spec fn defined_in_justfile(justfile: Option<Seq<char>>, n: Seq<char>) -> bool {
    justfile is Some && justfile_recipes(justfile->0).contains(n)
}

/// `package.json` has a script named `n`.
pub open spec fn defined_in_scripts(scripts: Option<Seq<Seq<char>>>, n: Seq<char>) -> bool {
    scripts is Some && scripts->0.contains(n)
}

/// `n` is one of the standard Cargo commands of a Rust project.
pub open spec fn cargo_default_name(has_cargo_toml: bool, n: Seq<char>) -> bool {
    has_cargo_toml && (n == "test"@ || n == "build"@ || n == "check"@ || n == "clippy"@ || n == "fmt"@)
}

proof fn lemma_top_wins(lo: Seq<CommandView>, hi: Seq<CommandView>, k: int, m: int)
    requires
        0 <= k < (lo + hi).len(),
        is_last(lo + hi, k),
        0 <= m < hi.len(),
        hi[m].name == (lo + hi)[k].name,
    ensures
        k >= lo.len(),
        (lo + hi)[k] == hi[k - lo.len()],
{
    if k < lo.len() {
        assert((lo + hi)[lo.len() + m] == hi[m]);
        assert(lo.len() + m > k);
    }
}

proof fn lemma_absent_above(lo: Seq<CommandView>, hi: Seq<CommandView>, k: int)
    requires
        0 <= k < (lo + hi).len(),
        is_last(lo + hi, k),
        forall|m: int| 0 <= m < hi.len() ==> (#[trigger] hi[m]).name != (lo + hi)[k].name,
    ensures
        k < lo.len(),
        (lo + hi)[k] == lo[k],
        is_last(lo, k),
{
    if k >= lo.len() {
        assert(hi[k - lo.len()] == (lo + hi)[k]);
    }
    assert forall|m: int| k < m < lo.len() implies (#[trigger] lo[m]).name != lo[k].name by {
        assert((lo + hi)[m] == lo[m]);
    }
}

proof fn lemma_config_views_shape(es: Seq<(Seq<char>, Option<Seq<char>>)>)
    ensures
        forall|m: int| 0 <= m < config_views(es).len() ==> {
            &&& (#[trigger] config_views(es)[m]).source == ".rustodian.toml"@
            &&& exists|j: int| 0 <= j < es.len() && (#[trigger] es[j]).0 == config_views(es)[m].name && es[j].1 is Some
        },
        forall|j: int| 0 <= j < es.len() && (#[trigger] es[j]).1 is Some ==> exists|m: int|
            0 <= m < config_views(es).len() && (#[trigger] config_views(es)[m]).name == es[j].0,
    decreases es.len(),
{
    if es.len() > 0 {
        let prev = es.drop_last();
        lemma_config_views_shape(prev);
        let pv = config_views(prev);
        let cv = config_views(es);
        assert forall|m: int| 0 <= m < cv.len() implies {
            &&& (#[trigger] cv[m]).source == ".rustodian.toml"@
            &&& exists|j: int| 0 <= j < es.len() && (#[trigger] es[j]).0 == cv[m].name && es[j].1 is Some
        } by {
            if m < pv.len() {
                assert(cv[m] == pv[m]);
                let j = choose|j: int| 0 <= j < prev.len() && (#[trigger] prev[j]).0 == pv[m].name && prev[j].1 is Some;
                assert(es[j] == prev[j]);
            } else {
                assert(es[es.len() - 1] == es.last());
            }
        }
        assert forall|j: int| 0 <= j < es.len() && (#[trigger] es[j]).1 is Some implies exists|m: int|
            0 <= m < cv.len() && (#[trigger] cv[m]).name == es[j].0 by {
            if j < prev.len() {
                assert(prev[j] == es[j]);
                let m = choose|m: int| 0 <= m < pv.len() && (#[trigger] pv[m]).name == prev[j].0;
                assert(cv[m] == pv[m]);
            } else {
                assert(cv[pv.len() as int].name == es[j].0);
            }
        }
    }
}

proof fn lemma_defaults_shape(n: Seq<char>)
    ensures
        forall|m: int|
            0 <= m < rust_default_views().len() ==> (#[trigger] rust_default_views()[m]).source == "Cargo.toml"@
                && rust_default_views()[m].command == "cargo "@ + rust_default_views()[m].name,
        (n == "test"@ || n == "build"@ || n == "check"@ || n == "clippy"@ || n == "fmt"@) <==> exists|m: int|
            0 <= m < rust_default_views().len() && (#[trigger] rust_default_views()[m]).name == n,
{
    let d = rust_default_views();
    reveal_strlit("cargo ");
    reveal_strlit("test");
    reveal_strlit("build");
    reveal_strlit("check");
    reveal_strlit("clippy");
    reveal_strlit("fmt");
    reveal_strlit("cargo test");
    reveal_strlit("cargo build");
    reveal_strlit("cargo check");
    reveal_strlit("cargo clippy");
    reveal_strlit("cargo fmt");
    assert("cargo "@ + "test"@ =~= "cargo test"@);
    assert("cargo "@ + "build"@ =~= "cargo build"@);
    assert("cargo "@ + "check"@ =~= "cargo check"@);
    assert("cargo "@ + "clippy"@ =~= "cargo clippy"@);
    assert("cargo "@ + "fmt"@ =~= "cargo fmt"@);
    if n == "test"@ {
        assert(d[0].name == n);
    } else if n == "build"@ {
        assert(d[1].name == n);
    } else if n == "check"@ {
        assert(d[2].name == n);
    } else if n == "clippy"@ {
        assert(d[3].name == n);
    } else if n == "fmt"@ {
        assert(d[4].name == n);
    }
}

proof fn lemma_named_views(xs: Seq<Seq<char>>, vs: Seq<CommandView>, n: Seq<char>)
    requires
        vs.len() == xs.len(),
        forall|m: int| 0 <= m < vs.len() ==> (#[trigger] vs[m]).name == xs[m],
    ensures
        xs.contains(n) <==> exists|m: int| 0 <= m < vs.len() && (#[trigger] vs[m]).name == n,
{
    if xs.contains(n) {
        let m = choose|m: int| 0 <= m < xs.len() && xs[m] == n;
        assert(vs[m].name == n);
    }
    if exists|m: int| 0 <= m < vs.len() && (#[trigger] vs[m]).name == n {
        let m = choose|m: int| 0 <= m < vs.len() && (#[trigger] vs[m]).name == n;
        assert(xs[m] == n);
    }
}

proof fn lemma_config_defined(es: Seq<(Seq<char>, Option<Seq<char>>)>, n: Seq<char>)
    ensures
        (exists|j: int| 0 <= j < es.len() && (#[trigger] es[j]).0 == n && es[j].1 is Some) <==> exists|m: int|
            0 <= m < config_views(es).len() && (#[trigger] config_views(es)[m]).name == n,
        forall|m: int| 0 <= m < config_views(es).len() ==> (#[trigger] config_views(es)[m]).source == ".rustodian.toml"@,
{
    lemma_config_views_shape(es);
    let cv = config_views(es);
    if exists|j: int| 0 <= j < es.len() && (#[trigger] es[j]).0 == n && es[j].1 is Some {
        let j = choose|j: int| 0 <= j < es.len() && (#[trigger] es[j]).0 == n && es[j].1 is Some;
        assert(es[j].1 is Some);
    }
    if exists|m: int| 0 <= m < cv.len() && (#[trigger] cv[m]).name == n {
        let m = choose|m: int| 0 <= m < cv.len() && (#[trigger] cv[m]).name == n;
        assert(cv[m].source == ".rustodian.toml"@);
    }
}

/// Command precedence: a name has a command exactly when some source defines
/// it, and the command comes from the highest-priority source that does, in
/// the order `.rustodian.toml`, justfile, `package.json`, Cargo defaults. A
/// justfile recipe runs `just <name>`, a `package.json` script runs
/// `npm run <name>` (so a script named like a Cargo default replaces it), and
/// a Cargo default runs `cargo <name>`.
#[verifier::rlimit(50)]
pub proof fn lemma_command_precedence(
    r: Seq<CommandView>,
    has_cargo_toml: bool,
    scripts: Option<Seq<Seq<char>>>,
    justfile: Option<Seq<char>>,
    config: Option<Seq<(Seq<char>, Option<Seq<char>>)>>,
    n: Seq<char>,
)
    requires
        resolves(r, candidates(has_cargo_toml, scripts, justfile, config)),
    ensures
        (defined_in_config(config, n) || defined_in_justfile(justfile, n) || defined_in_scripts(scripts, n)
            || cargo_default_name(has_cargo_toml, n)) <==> exists|i: int| 0 <= i < r.len() && (#[trigger] r[i]).name == n,
        forall|i: int|
            0 <= i < r.len() && (#[trigger] r[i]).name == n ==> {
                &&& defined_in_config(config, n) ==> r[i].source == ".rustodian.toml"@
                &&& (!defined_in_config(config, n) && defined_in_justfile(justfile, n)) ==> (r[i].source == "justfile"@
                    && r[i].command == "just "@ + n)
                &&& (!defined_in_config(config, n) && !defined_in_justfile(justfile, n) && defined_in_scripts(scripts, n))
                    ==> (r[i].source == "package.json"@ && r[i].command == "npm run "@ + n)
                &&& (!defined_in_config(config, n) && !defined_in_justfile(justfile, n) && !defined_in_scripts(scripts, n))
                    ==> (r[i].source == "Cargo.toml"@ && r[i].command == "cargo "@ + n)
            },
{
    reveal(resolves);
    let d = if has_cargo_toml { rust_default_views() } else { seq![] };
    let xs = match scripts {
        Some(x) => x,
        None => seq![],
    };
    let sv = xs.map_values(|q: Seq<char>| script_view(q));
    let rs = match justfile {
        Some(t) => justfile_recipes(t),
        None => seq![],
    };
    let jv = rs.map_values(|q: Seq<char>| recipe_view(q));
    let es = match config {
        Some(e) => e,
        None => seq![],
    };
    let cv = config_views(es);
    let a = d + sv;
    let b = a + jv;
    let cands = b + cv;
    assert(sv =~= match scripts {
        Some(x) => x.map_values(|q: Seq<char>| script_view(q)),
        None => seq![],
    });
    assert(jv =~= match justfile {
        Some(t) => justfile_recipes(t).map_values(|q: Seq<char>| recipe_view(q)),
        None => seq![],
    });
    assert(cv =~= match config {
        Some(e) => config_views(e),
        None => seq![],
    });
    assert(cands == candidates(has_cargo_toml, scripts, justfile, config));
    let in_c = defined_in_config(config, n);
    let in_j = defined_in_justfile(justfile, n);
    let in_s = defined_in_scripts(scripts, n);
    let in_d = cargo_default_name(has_cargo_toml, n);
    lemma_config_defined(es, n);
    lemma_named_views(rs, jv, n);
    lemma_named_views(xs, sv, n);
    lemma_defaults_shape(n);
    assert(in_c <==> exists|m: int| 0 <= m < cv.len() && (#[trigger] cv[m]).name == n);
    assert(in_j <==> exists|m: int| 0 <= m < jv.len() && (#[trigger] jv[m]).name == n);
    assert(in_s <==> exists|m: int| 0 <= m < sv.len() && (#[trigger] sv[m]).name == n);
    assert(in_d <==> exists|m: int| 0 <= m < d.len() && (#[trigger] d[m]).name == n);
    assert forall|i: int| 0 <= i < r.len() && (#[trigger] r[i]).name == n implies {
        &&& in_c ==> r[i].source == ".rustodian.toml"@
        &&& (!in_c && in_j) ==> (r[i].source == "justfile"@ && r[i].command == "just "@ + n)
        &&& (!in_c && !in_j && in_s) ==> (r[i].source == "package.json"@ && r[i].command == "npm run "@ + n)
        &&& (!in_c && !in_j && !in_s) ==> (r[i].source == "Cargo.toml"@ && r[i].command == "cargo "@ + n)
    } && (in_c || in_j || in_s || in_d) by {
        assert(won_by(r, cands, i));
        let k = choose|k: int| 0 <= k < cands.len() && r[i] == cands[k] && #[trigger] is_last(cands, k);
        if in_c {
            let m = choose|m: int| 0 <= m < cv.len() && (#[trigger] cv[m]).name == n;
            lemma_top_wins(b, cv, k, m);
            assert(cv[k - b.len()].source == ".rustodian.toml"@);
        } else {
            lemma_absent_above(b, cv, k);
            if in_j {
                let m = choose|m: int| 0 <= m < jv.len() && (#[trigger] jv[m]).name == n;
                lemma_top_wins(a, jv, k, m);
                assert(jv[k - a.len()] == recipe_view(rs[k - a.len()]));
            } else {
                lemma_absent_above(a, jv, k);
                if in_s {
                    let m = choose|m: int| 0 <= m < sv.len() && (#[trigger] sv[m]).name == n;
                    lemma_top_wins(d, sv, k, m);
                    assert(sv[k - d.len()] == script_view(xs[k - d.len()]));
                } else {
                    lemma_absent_above(d, sv, k);
                    assert(d[k].name == n);
                }
            }
        }
    }
    if in_c || in_j || in_s || in_d {
        let kk: int = if in_c {
            let m = choose|m: int| 0 <= m < cv.len() && (#[trigger] cv[m]).name == n;
            b.len() + m
        } else if in_j {
            let m = choose|m: int| 0 <= m < jv.len() && (#[trigger] jv[m]).name == n;
            a.len() + m
        } else if in_s {
            let m = choose|m: int| 0 <= m < sv.len() && (#[trigger] sv[m]).name == n;
            d.len() + m
        } else {
            choose|m: int| 0 <= m < d.len() && (#[trigger] d[m]).name == n
        };
        assert(cands[kk].name == n);
        assert(exists|i: int| 0 <= i < r.len() && r[i].name == cands[kk].name);
    }
}

/// The project files that commands are discovered from: whether `Cargo.toml`
/// exists, and the text of `package.json`, of the first justfile found
/// (`justfile`, then `Justfile`) and of `.rustodian.toml`, where readable.
#[derive(Debug, Clone)]
pub struct CommandSources {
    pub has_cargo_toml: bool,
    pub package_json: Option<String>,
    pub justfile: Option<String>,
    pub rustodian_toml: Option<String>,
}

pub open spec fn package_scripts(package_json: Option<Seq<char>>) -> Option<Seq<Seq<char>>> {
    match package_json {
        Some(t) => json_object_keys(t, "scripts"@),
        None => None,
    }
}

pub open spec fn config_entries(rustodian_toml: Option<Seq<char>>) -> Option<
    Seq<(Seq<char>, Option<Seq<char>>)>,
> {
    match rustodian_toml {
        Some(t) => toml_table_entries(t, "commands"@),
        None => None,
    }
}

#[derive(Debug)]
pub struct CommandDiscoverer;

fn push_views(cands: &mut Vec<ProjectCommand>, more: Vec<ProjectCommand>)
    ensures
        views(final(cands)@) == views(old(cands)@) + views(more@),
{
    let ghost start = views(cands@);
    for c in it: more.into_iter()
        invariant
            views(cands@) == start + views(it.seq()).take(it.index() as int),
    {
        proof {
            assert(views(it.seq()).take(it.index() + 1) =~= views(it.seq()).take(it.index() as int).push(c@));
        }
        let ghost prev = views(cands@);
        let ghost cv = c@;
        cands.push(c);
        proof {
            assert(views(cands@) =~= prev.push(cv));
        }
    }
    proof {
        assert(views(more@).take(views(more@).len() as int) =~= views(more@));
    }
}

impl CommandDiscoverer {
    /// The standard Cargo commands: test, build, check, clippy, fmt.
    pub fn rust_defaults() -> (v: Vec<ProjectCommand>)
        ensures
            views(v@) == rust_default_views(),
    {
        let mut v = Vec::new();
        v.push(cargo_command("test", "Run cargo test", "cargo test"));
        v.push(cargo_command("build", "Run cargo build", "cargo build"));
        v.push(cargo_command("check", "Run cargo check", "cargo check"));
        v.push(cargo_command("clippy", "Run cargo clippy", "cargo clippy"));
        v.push(cargo_command("fmt", "Run cargo fmt", "cargo fmt"));
        assert(views(v@) =~= rust_default_views());
        v
    }

    /// The commands of each source, in priority order (lowest first).
    pub fn candidates_from(
        has_cargo_toml: bool,
        scripts: Option<Vec<String>>,
        justfile: Option<String>,
        config: Option<Vec<(String, Option<String>)>>,
    ) -> (r: Vec<ProjectCommand>)
        ensures
            views(r@) == candidates(
                has_cargo_toml,
                scripts.deep_view(),
                justfile.deep_view(),
                config.deep_view(),
            ),
    {
        let mut cands: Vec<ProjectCommand> = Vec::new();
        if has_cargo_toml {
            let d = Self::rust_defaults();
            push_views(&mut cands, d);
        }
        let ghost base0 = views(cands@);
        assert(base0 =~= (if has_cargo_toml { rust_default_views() } else { seq![] }));
        match scripts {
            Some(names) => {
                let ghost ns = names.deep_view();
                let mut i: usize = 0;
                while i < names.len()
                    invariant
                        i <= names.len(),
                        ns == names.deep_view(),
                        views(cands@) == base0 + ns.take(i as int).map_values(|n: Seq<char>| script_view(n)),
                    decreases names.len() - i,
                {
                    let ghost prev = views(cands@);
                    let c = script_command(names[i].clone());
                    assert(ns[i as int] == names@[i as int]@);
                    assert(c@ == script_view(ns[i as int]));
                    cands.push(c);
                    proof {
                        assert(views(cands@) =~= prev.push(script_view(ns[i as int])));
                        assert(ns.take(i + 1) =~= ns.take(i as int).push(ns[i as int]));
                        assert(views(cands@) =~= base0 + ns.take(i + 1).map_values(|n: Seq<char>| script_view(n)));
                    }
                    i += 1;
                }
                assert(ns.take(names.len() as int) =~= ns);
            },
            None => {},
        }
        let ghost base1 = views(cands@);
        match justfile {
            Some(text) => {
                let recipes = justfile_recipes_exec(text.as_str());
                let ghost rs = recipes.deep_view();
                let mut i: usize = 0;
                while i < recipes.len()
                    invariant
                        i <= recipes.len(),
                        rs == recipes.deep_view(),
                        rs == justfile_recipes(text@),
                        views(cands@) == base1 + rs.take(i as int).map_values(|n: Seq<char>| recipe_view(n)),
                    decreases recipes.len() - i,
                {
                    let ghost prev = views(cands@);
                    let c = recipe_command(recipes[i].clone());
                    assert(rs[i as int] == recipes@[i as int]@);
                    cands.push(c);
                    proof {
                        assert(views(cands@) =~= prev.push(recipe_view(rs[i as int])));
                        assert(rs.take(i + 1) =~= rs.take(i as int).push(rs[i as int]));
                        assert(views(cands@) =~= base1 + rs.take(i + 1).map_values(|n: Seq<char>| recipe_view(n)));
                    }
                    i += 1;
                }
                assert(rs.take(recipes.len() as int) =~= rs);
            },
            None => {},
        }
        let ghost base2 = views(cands@);
        match config {
            Some(entries) => {
                let ghost es = entries.deep_view();
                let mut i: usize = 0;
                while i < entries.len()
                    invariant
                        i <= entries.len(),
                        es == entries.deep_view(),
                        views(cands@) == base2 + config_views(es.take(i as int)),
                    decreases entries.len() - i,
                {
                    proof {
                        assert(es.take(i + 1).drop_last() =~= es.take(i as int));
                    }
                    match &entries[i].1 {
                        Some(cmd) => {
                            let ghost prev = views(cands@);
                            let c = config_command(entries[i].0.clone(), cmd.clone());
                            assert(es[i as int].0 == entries@[i as int].0@);
                            assert(es[i as int].1 == Some(cmd@));
                            cands.push(c);
                            proof {
                                assert(views(cands@) =~= prev.push(config_view(es[i as int].0, cmd@)));
                                assert(views(cands@) =~= base2 + config_views(es.take(i + 1)));
                            }
                        },
                        None => {},
                    }
                    i += 1;
                }
                assert(es.take(entries.len() as int) =~= es);
            },
            None => {},
        }
        cands
    }

    /// The commands of a project: one per name, from the highest-priority
    /// source that defines it, sorted by name.
    pub fn resolve_parts(
        has_cargo_toml: bool,
        scripts: Option<Vec<String>>,
        justfile: Option<String>,
        config: Option<Vec<(String, Option<String>)>>,
    ) -> (r: Vec<ProjectCommand>)
        ensures
            resolves(
                views(r@),
                candidates(has_cargo_toml, scripts.deep_view(), justfile.deep_view(), config.deep_view()),
            ),
    {
        let cands = Self::candidates_from(has_cargo_toml, scripts, justfile, config);
        resolve_commands(cands)
    }

    /// Discovers the commands of a project from its files.
    pub fn discover(sources: &CommandSources) -> (r: Vec<ProjectCommand>)
        ensures
            resolves(
                views(r@),
                candidates(
                    sources.has_cargo_toml,
                    package_scripts(sources.package_json.deep_view()),
                    sources.justfile.deep_view(),
                    config_entries(sources.rustodian_toml.deep_view()),
                ),
            ),
    {
        let scripts = match &sources.package_json {
            Some(text) => read_json_object_keys(text.as_str(), "scripts"),
            None => None,
        };
        let config = match &sources.rustodian_toml {
            Some(text) => read_toml_table_entries(text.as_str(), "commands"),
            None => None,
        };
        let justfile = match &sources.justfile {
            Some(text) => Some(text.clone()),
            None => None,
        };
        Self::resolve_parts(sources.has_cargo_toml, scripts, justfile, config)
    }
}

} // verus!
