//! File-system paths as text: their components, order and ancestry.
//!
//! A path is split at `/`; empty and `.` segments carry no component. A path
//! that starts with `/` is absolute. Paths are ordered component by component
//! (absolute paths first), the way `Path`'s ordering compares components, and
//! one path is an ancestor of another when its components are a proper prefix
//! of the other's.

use vstd::prelude::*;

use crate::text::{chars_lt, chars_less, lemma_chars_lt_irreflexive, lemma_chars_lt_transitive,
    lemma_chars_trichotomy, to_chars};

verus! {

/// The texts of character vectors.
pub open spec fn char_seqs(v: Seq<Vec<char>>) -> Seq<Seq<char>> {
    v.map_values(|x: Vec<char>| x@)
}

/// Closes a segment: empty and `.` segments are dropped.
pub open spec fn close_segment(ss: Seq<Seq<char>>, cur: Seq<char>) -> Seq<Seq<char>> {
    if cur.len() == 0 || cur == seq!['.'] {
        ss
    } else {
        ss.push(cur)
    }
}

/// Completed components of `s` and the segment still open.
pub open spec fn segment_acc(s: Seq<char>) -> (Seq<Seq<char>>, Seq<char>)
    decreases s.len(),
{
    if s.len() == 0 {
        (seq![], seq![])
    } else {
        let (ss, cur) = segment_acc(s.drop_last());
        if s.last() == '/' {
            (close_segment(ss, cur), seq![])
        } else {
            (ss, cur.push(s.last()))
        }
    }
}

/// The components of a path.
pub open spec fn components(s: Seq<char>) -> Seq<Seq<char>> {
    let (ss, cur) = segment_acc(s);
    close_segment(ss, cur)
}

pub open spec fn is_absolute(s: Seq<char>) -> bool {
    s.len() > 0 && s[0] == '/'
}

/// Lexicographic order on component sequences.
pub open spec fn segs_lt(a: Seq<Seq<char>>, b: Seq<Seq<char>>) -> bool
    decreases a.len(),
{
    if b.len() == 0 {
        false
    } else if a.len() == 0 {
        true
    } else if a[0] != b[0] {
        chars_lt(a[0], b[0])
    } else {
        segs_lt(a.drop_first(), b.drop_first())
    }
}

/// `a` comes strictly before `b`: absolute paths first, then by components.
pub open spec fn path_lt(a: Seq<char>, b: Seq<char>) -> bool {
    if is_absolute(a) != is_absolute(b) {
        is_absolute(a)
    } else {
        segs_lt(components(a), components(b))
    }
}

/// `a` and `b` name the same path.
pub open spec fn same_path(a: Seq<char>, b: Seq<char>) -> bool {
    is_absolute(a) == is_absolute(b) && components(a) == components(b)
}

pub open spec fn path_le(a: Seq<char>, b: Seq<char>) -> bool {
    same_path(a, b) || path_lt(a, b)
}

/// `a` is a proper ancestor of `b`.
pub open spec fn is_ancestor(a: Seq<char>, b: Seq<char>) -> bool {
    &&& is_absolute(a) == is_absolute(b)
    &&& components(a).len() < components(b).len()
    &&& components(b).take(components(a).len() as int) == components(a)
}

/// `path` lies within `root` or is `root` itself (`Path::starts_with`).
pub open spec fn is_within(root: Seq<char>, path: Seq<char>) -> bool {
    &&& is_absolute(root) == is_absolute(path)
    &&& components(root).len() <= components(path).len()
    &&& components(path).take(components(root).len() as int) == components(root)
}

/// The last component of a path, unless it is `..` (`Path::file_name`).
pub open spec fn file_name(s: Seq<char>) -> Option<Seq<char>> {
    let cs = components(s);
    if cs.len() == 0 || cs.last() == seq!['.', '.'] {
        None
    } else {
        Some(cs.last())
    }
}

pub proof fn lemma_segs_lt_irreflexive(a: Seq<Seq<char>>)
    ensures
        !segs_lt(a, a),
    decreases a.len(),
{
    if a.len() > 0 {
        lemma_segs_lt_irreflexive(a.drop_first());
    }
}

pub proof fn lemma_segs_trichotomy(a: Seq<Seq<char>>, b: Seq<Seq<char>>)
    ensures
        segs_lt(a, b) || a == b || segs_lt(b, a),
        !(segs_lt(a, b) && segs_lt(b, a)),
    decreases a.len(),
{
    if a.len() > 0 && b.len() > 0 {
        if a[0] == b[0] {
            lemma_segs_trichotomy(a.drop_first(), b.drop_first());
            if a.drop_first() == b.drop_first() {
                assert(a =~= seq![a[0]] + a.drop_first());
                assert(b =~= seq![b[0]] + b.drop_first());
            }
        } else {
            lemma_chars_trichotomy(a[0], b[0]);
        }
    } else if a.len() == 0 && b.len() == 0 {
        assert(a =~= b);
    }
}

pub proof fn lemma_segs_lt_transitive(a: Seq<Seq<char>>, b: Seq<Seq<char>>, c: Seq<Seq<char>>)
    requires
        segs_lt(a, b),
        segs_lt(b, c),
    ensures
        segs_lt(a, c),
    decreases a.len(),
{
    if a.len() > 0 && b.len() > 0 && c.len() > 0 {
        if a[0] == b[0] && b[0] == c[0] {
            lemma_segs_lt_transitive(a.drop_first(), b.drop_first(), c.drop_first());
        } else if a[0] != b[0] && b[0] != c[0] {
            lemma_chars_lt_transitive(a[0], b[0], c[0]);
            lemma_chars_trichotomy(a[0], c[0]);
            if a[0] == c[0] {
                lemma_chars_trichotomy(a[0], b[0]);
            }
        }
    }
}

pub proof fn lemma_path_le_total(a: Seq<char>, b: Seq<char>)
    ensures
        path_le(a, b) || path_le(b, a),
{
    lemma_segs_trichotomy(components(a), components(b));
}

pub proof fn lemma_path_le_transitive(a: Seq<char>, b: Seq<char>, c: Seq<char>)
    requires
        path_le(a, b),
        path_le(b, c),
    ensures
        path_le(a, c),
{
    if path_lt(a, b) && path_lt(b, c) && is_absolute(a) == is_absolute(b) && is_absolute(b)
        == is_absolute(c) {
        lemma_segs_lt_transitive(components(a), components(b), components(c));
    }
}

fn close_segment_exec(ss: &mut Vec<Vec<char>>, cur: Vec<char>)
    ensures
        char_seqs(final(ss)@) == close_segment(char_seqs(old(ss)@), cur@),
{
    if cur.len() == 0 || (cur.len() == 1 && cur[0] == '.') {
        proof {
            if cur@.len() == 1 && cur@[0] == '.' {
                assert(cur@ =~= seq!['.']);
            }
        }
    } else {
        let ghost c = cur@;
        ss.push(cur);
        assert(char_seqs(ss@) =~= char_seqs(old(ss)@).push(c));
    }
}

/// The components of a path.
pub fn path_components(p: &str) -> (r: Vec<Vec<char>>)
    ensures
        char_seqs(r@) == components(p@),
{
    let s = to_chars(p);
    let mut ss: Vec<Vec<char>> = Vec::new();
    let mut cur: Vec<char> = Vec::new();
    let mut i: usize = 0;
    while i < s.len()
        invariant
            i <= s.len(),
            segment_acc(s@.take(i as int)) == (char_seqs(ss@), cur@),
        decreases s.len() - i,
    {
        assert(s@.take(i + 1).drop_last() =~= s@.take(i as int));
        if s[i] == '/' {
            let done = cur;
            cur = Vec::new();
            close_segment_exec(&mut ss, done);
        } else {
            cur.push(s[i]);
        }
        i += 1;
    }
    assert(s@.take(s.len() as int) =~= s@);
    close_segment_exec(&mut ss, cur);
    ss
}

pub fn path_is_absolute(p: &str) -> (b: bool)
    ensures
        b == is_absolute(p@),
{
    let s = to_chars(p);
    s.len() > 0 && s[0] == '/'
}

pub fn char_vecs_equal(a: &Vec<char>, b: &Vec<char>) -> (r: bool)
    ensures
        r == (a@ == b@),
{
    proof {
        lemma_chars_trichotomy(a@, b@);
        lemma_chars_lt_irreflexive(a@);
    }
    !chars_less(a, b) && !chars_less(b, a)
}

/// The file name of a path (`Path::file_name`), empty when it has none.
pub fn file_name_chars(path: &str) -> (r: Vec<char>)
    ensures
        r@ == match file_name(path@) {
            Some(n) => n,
            None => seq![],
        },
{
    let mut cs = path_components(path);
    let n = cs.len();
    if n == 0 || (cs[n - 1].len() == 2 && cs[n - 1][0] == '.' && cs[n - 1][1] == '.') {
        proof {
            if n > 0 {
                assert(char_seqs(cs@)[n - 1] == cs@[n - 1]@);
                assert(cs@[n - 1]@ =~= seq!['.', '.']);
            }
        }
        Vec::new()
    } else {
        proof {
            assert(char_seqs(cs@)[n - 1] == cs@[n - 1]@);
            assert(cs@[n - 1]@ != seq!['.', '.']);
        }
        let last = cs.pop();
        match last {
            Some(v) => v,
            None => Vec::new(),
        }
    }
}

/// Whether `v` holds the text `x`.
pub fn holds_chars(v: &Vec<Vec<char>>, x: &Vec<char>) -> (b: bool)
    ensures
        b == char_seqs(v@).contains(x@),
{
    let ghost vs = char_seqs(v@);
    let mut j: usize = 0;
    while j < v.len()
        invariant
            j <= v.len(),
            vs == char_seqs(v@),
            forall|m: int| 0 <= m < j ==> vs[m] != x@,
        decreases v.len() - j,
    {
        if char_vecs_equal(&v[j], x) {
            assert(vs[j as int] == x@);
            return true;
        }
        j += 1;
    }
    false
}

/// Lexicographic comparison of component sequences.
pub fn segs_less(a: &Vec<Vec<char>>, b: &Vec<Vec<char>>) -> (r: bool)
    ensures
        r == segs_lt(char_seqs(a@), char_seqs(b@)),
{
    let ghost av = char_seqs(a@);
    let ghost bv = char_seqs(b@);
    let mut i: usize = 0;
    assert(av.skip(0) =~= av);
    assert(bv.skip(0) =~= bv);
    while i < a.len() && i < b.len() && char_vecs_equal(&a[i], &b[i])
        invariant
            i <= a.len(),
            i <= b.len(),
            av == char_seqs(a@),
            bv == char_seqs(b@),
            segs_lt(av, bv) == segs_lt(av.skip(i as int), bv.skip(i as int)),
        decreases a.len() - i,
    {
        assert(av.skip(i as int).drop_first() =~= av.skip(i + 1));
        assert(bv.skip(i as int).drop_first() =~= bv.skip(i + 1));
        i += 1;
    }
    if i == b.len() {
        false
    } else if i == a.len() {
        true
    } else {
        assert(av.skip(i as int)[0] == a@[i as int]@);
        assert(bv.skip(i as int)[0] == b@[i as int]@);
        chars_less(&a[i], &b[i])
    }
}

/// Whether two component sequences are equal.
pub fn segs_equal(a: &Vec<Vec<char>>, b: &Vec<Vec<char>>) -> (r: bool)
    ensures
        r == (char_seqs(a@) == char_seqs(b@)),
{
    proof {
        lemma_segs_trichotomy(char_seqs(a@), char_seqs(b@));
        lemma_segs_lt_irreflexive(char_seqs(a@));
    }
    !segs_less(a, b) && !segs_less(b, a)
}

/// `a <= b` in path order.
pub fn path_less_eq(a: &str, b: &str) -> (r: bool)
    ensures
        r == path_le(a@, b@),
{
    let aa = path_is_absolute(a);
    let ba = path_is_absolute(b);
    let ac = path_components(a);
    let bc = path_components(b);
    if aa != ba {
        aa
    } else {
        segs_equal(&ac, &bc) || segs_less(&ac, &bc)
    }
}

/// Whether `a` is a proper ancestor of `b`.
pub fn path_is_ancestor(a: &str, b: &str) -> (r: bool)
    ensures
        r == is_ancestor(a@, b@),
{
    let ac = path_components(a);
    let bc = path_components(b);
    if path_is_absolute(a) != path_is_absolute(b) || ac.len() >= bc.len() {
        return false;
    }
    let ghost av = char_seqs(ac@);
    let ghost bv = char_seqs(bc@);
    let mut i: usize = 0;
    while i < ac.len()
        invariant
            i <= ac.len() < bc.len(),
            av == char_seqs(ac@),
            bv == char_seqs(bc@),
            forall|j: int| 0 <= j < i ==> bv[j] == av[j],
            is_absolute(a@) == is_absolute(b@),
            av == components(a@),
            bv == components(b@),
        decreases ac.len() - i,
    {
        if !char_vecs_equal(&ac[i], &bc[i]) {
            assert(bv[i as int] == bc@[i as int]@);
            assert(av[i as int] == ac@[i as int]@);
            assert(bv.take(av.len() as int)[i as int] != av[i as int]);
            assert(bv.take(av.len() as int) != av);
            return false;
        }
        i += 1;
    }
    assert(bv.take(av.len() as int) =~= av);
    true
}

/// Whether `path` lies within `root` (or is `root`).
pub fn path_is_within(root: &str, path: &str) -> (r: bool)
    ensures
        r == is_within(root@, path@),
{
    let ac = path_components(root);
    let bc = path_components(path);
    if path_is_absolute(root) != path_is_absolute(path) || ac.len() > bc.len() {
        return false;
    }
    let ghost av = char_seqs(ac@);
    let ghost bv = char_seqs(bc@);
    let mut i: usize = 0;
    while i < ac.len()
        invariant
            i <= ac.len() <= bc.len(),
            av == char_seqs(ac@),
            bv == char_seqs(bc@),
            forall|j: int| 0 <= j < i ==> bv[j] == av[j],
            is_absolute(root@) == is_absolute(path@),
            av == components(root@),
            bv == components(path@),
        decreases ac.len() - i,
    {
        if !char_vecs_equal(&ac[i], &bc[i]) {
            assert(bv[i as int] == bc@[i as int]@);
            assert(av[i as int] == ac@[i as int]@);
            assert(bv.take(av.len() as int)[i as int] != av[i as int]);
            assert(bv.take(av.len() as int) != av);
            return false;
        }
        i += 1;
    }
    assert(bv.take(av.len() as int) =~= av);
    true
}

} // verus!
