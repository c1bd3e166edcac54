//! Append-only ring buffer for captured log lines, and its thread-shared form.

use std::collections::VecDeque;
use std::sync::Arc;

use vstd::prelude::*;
use vstd::rwlock::{RwLock, RwLockPredicate};

verus! {

broadcast use vstd::std_specs::vecdeque::group_vec_dequeue_axioms;

/// Default maximum number of lines retained.
pub const DEFAULT_MAX_LINES: usize = 10_000;

/// The lines joined with a newline after each (`""` when there are none).
pub open spec fn join_lines(lines: Seq<Seq<char>>) -> Seq<char>
    decreases lines.len(),
{
    if lines.len() == 0 {
        seq![]
    } else {
        join_lines(lines.drop_last()) + lines.last() + seq!['\n']
    }
}

/// How many lines a buffer of the given capacity can hold: lines beyond the
/// capacity are evicted, so a zero capacity holds none.
pub open spec fn retained_limit(max_lines: usize) -> nat {
    max_lines as nat
}

/// The buffer after appending `line` with capacity `max_lines`: when full,
/// the oldest line is evicted first; with a zero capacity nothing is kept.
pub open spec fn after_push(lines: Seq<Seq<char>>, max_lines: usize, line: Seq<char>) -> Seq<
    Seq<char>,
> {
    if max_lines == 0 {
        seq![]
    } else if lines.len() >= max_lines {
        lines.drop_first().push(line)
    } else {
        lines.push(line)
    }
}

/// The buffer after appending each of `pushed` in turn.
pub open spec fn push_all(lines: Seq<Seq<char>>, max_lines: usize, pushed: Seq<Seq<char>>) -> Seq<
    Seq<char>,
>
    decreases pushed.len(),
{
    if pushed.len() == 0 {
        lines
    } else {
        after_push(push_all(lines, max_lines, pushed.drop_last()), max_lines, pushed.last())
    }
}

/// The last `n` elements of `s` (all of them when it has no more than `n`).
pub open spec fn last_n(s: Seq<Seq<char>>, n: usize) -> Seq<Seq<char>> {
    if s.len() <= n {
        s
    } else {
        s.skip(s.len() - n)
    }
}

/// Lines retained by a log buffer, oldest first.
pub struct LogLines {
    lines: VecDeque<String>,
    max_lines: usize,
}

impl LogLines {
    pub closed spec fn spec_lines(&self) -> Seq<Seq<char>> {
        self.lines@.map_values(|s: String| s@)
    }

    pub closed spec fn capacity(&self) -> usize {
        self.max_lines
    }

    /// Never more lines than the capacity allows.
    pub open spec fn wf(&self) -> bool {
        self.spec_lines().len() <= retained_limit(self.capacity())
    }

    /// An empty buffer holding at most `max_lines` lines.
    pub fn with_capacity(max_lines: usize) -> (r: LogLines)
        ensures
            r.spec_lines() == Seq::<Seq<char>>::empty(),
            r.capacity() == max_lines,
            r.wf(),
    {
        let r = LogLines { lines: VecDeque::new(), max_lines };
        assert(r.spec_lines() =~= Seq::<Seq<char>>::empty());
        r
    }

    /// Append a line, evicting the oldest when full.
    pub fn push_line(&mut self, line: String)
        requires
            old(self).wf(),
        ensures
            final(self).spec_lines() == after_push(old(self).spec_lines(), old(self).capacity(), line@),
            final(self).capacity() == old(self).capacity(),
            final(self).wf(),
    {
        let ghost before = self.spec_lines();
        if self.max_lines == 0 {
            assert(self.spec_lines() =~= Seq::<Seq<char>>::empty());
            return;
        }
        if self.lines.len() >= self.max_lines {
            let _ = self.lines.pop_front();
        }
        self.lines.push_back(line);
        proof {
            if before.len() >= self.max_lines {
                assert(self.spec_lines() =~= before.drop_first().push(line@));
            } else {
                assert(self.spec_lines() =~= before.push(line@));
            }
        }
    }

    /// Number of retained lines.
    pub fn line_count(&self) -> (n: usize)
        ensures
            n == self.spec_lines().len(),
    {
        self.lines.len()
    }

    /// All retained lines, each followed by a newline.
    pub fn snapshot(&self) -> (s: String)
        ensures
            s@ == join_lines(self.spec_lines()),
    {
        let mut s = String::new();
        let newline = "\n";
        proof {
            reveal_strlit("\n");
        }
        let mut i: usize = 0;
        while i < self.lines.len()
            invariant
                i <= self.lines@.len(),
                s@ == join_lines(self.spec_lines().take(i as int)),
                newline@ == seq!['\n'],
            decreases self.lines@.len() - i,
        {
            proof {
                assert(self.spec_lines().take(i + 1).drop_last() =~= self.spec_lines().take(
                    i as int,
                ));
            }
            s.append(self.lines[i].as_str());
            s.append(newline);
            i += 1;
        }
        assert(self.spec_lines().take(self.lines@.len() as int) =~= self.spec_lines());
        s
    }

    /// All retained lines, each followed by a newline; the buffer is empty afterwards.
    pub fn drain_all(&mut self) -> (s: String)
        requires
            old(self).wf(),
        ensures
            s@ == join_lines(old(self).spec_lines()),
            final(self).spec_lines() == Seq::<Seq<char>>::empty(),
            final(self).capacity() == old(self).capacity(),
            final(self).wf(),
    {
        let s = self.snapshot();
        self.lines = VecDeque::new();
        assert(self.spec_lines() =~= Seq::<Seq<char>>::empty());
        s
    }
}

/// The lock invariant of a shared buffer: the capacity it was made with and
/// the bound on the number of lines.
pub struct LinesInvariant {
    pub max_lines: usize,
}

impl RwLockPredicate<LogLines> for LinesInvariant {
    open spec fn inv(self, v: LogLines) -> bool {
        v.capacity() == self.max_lines && v.wf()
    }
}

/// Another handle to the same shared value (`Arc::clone`).
#[verifier::external_body]
fn share<T>(a: &Arc<T>) -> (r: Arc<T>)
    ensures
        r == *a,
{
    Arc::clone(a)
}

/// A thread-safe log buffer; clones share the same lines.
///
/// Its methods take `&self` and other clones may change the lines at any
/// time, so their contracts state the buffer's invariant (format and bound),
/// not the exact lines; `LogLines` carries the exact contracts.
pub struct LogBuffer {
    inner: Arc<RwLock<LogLines, LinesInvariant>>,
}

impl Clone for LogBuffer {
    fn clone(&self) -> (r: Self)
        ensures
            r == *self,
    {
        LogBuffer { inner: share(&self.inner) }
    }
}

impl LogBuffer {
    /// The capacity the buffer was made with.
    pub closed spec fn capacity(&self) -> usize {
        self.inner.pred().max_lines
    }

    /// A buffer holding at most `DEFAULT_MAX_LINES` lines.
    pub fn new() -> (r: LogBuffer)
        ensures
            r.capacity() == DEFAULT_MAX_LINES,
    {
        LogBuffer::with_capacity(DEFAULT_MAX_LINES)
    }

    /// A buffer holding at most `max_lines` lines (none when zero).
    pub fn with_capacity(max_lines: usize) -> (r: LogBuffer)
        ensures
            r.capacity() == max_lines,
    {
        let lines = LogLines::with_capacity(max_lines);
        let lock = RwLock::new(lines, Ghost(LinesInvariant { max_lines }));
        LogBuffer { inner: Arc::new(lock) }
    }

    /// Append a line, evicting the oldest when the buffer is full.
    pub fn push_line(&self, line: String) {
        let (mut lines, handle) = self.inner.acquire_write();
        lines.push_line(line);
        handle.release_write(lines);
    }

    /// Every buffered line followed by a newline.
    pub fn snapshot(&self) -> (s: String)
        ensures
            exists|lines: Seq<Seq<char>>|
                lines.len() <= retained_limit(self.capacity()) && s@ == join_lines(lines),
    {
        let handle = self.inner.acquire_read();
        let s = handle.borrow().snapshot();
        handle.release_read();
        s
    }

    /// Number of buffered lines.
    pub fn line_count(&self) -> (n: usize)
        ensures
            n <= retained_limit(self.capacity()),
    {
        let handle = self.inner.acquire_read();
        let n = handle.borrow().line_count();
        handle.release_read();
        n
    }

    /// Every buffered line followed by a newline; the buffer is emptied.
    pub fn drain_all(&self) -> (s: String)
        ensures
            exists|lines: Seq<Seq<char>>|
                lines.len() <= retained_limit(self.capacity()) && s@ == join_lines(lines),
    {
        let (mut lines, handle) = self.inner.acquire_write();
        let s = lines.drain_all();
        handle.release_write(lines);
        s
    }
}

impl Default for LogBuffer {
    fn default() -> (r: Self)
        ensures
            r.capacity() == DEFAULT_MAX_LINES,
    {
        LogBuffer::new()
    }
}

/// Appending then reading back: with a nonzero capacity the snapshot ends
/// with the new line; the buffer never exceeds its capacity, and a zero
/// capacity keeps nothing.
pub proof fn lemma_push_then_snapshot(lines: Seq<Seq<char>>, max_lines: usize, line: Seq<char>)
    requires
        lines.len() <= retained_limit(max_lines),
    ensures
        after_push(lines, max_lines, line).len() <= retained_limit(max_lines),
        max_lines == 0 ==> after_push(lines, max_lines, line).len() == 0,
        max_lines > 0 ==> after_push(lines, max_lines, line).last() == line,
        max_lines > 0 ==> join_lines(after_push(lines, max_lines, line)) == join_lines(
            after_push(lines, max_lines, line).drop_last(),
        ) + line + seq!['\n'],
        lines.len() < max_lines ==> after_push(lines, max_lines, line) == lines.push(line),
{
}

/// Pushing lines one by one onto a buffer within its capacity leaves the
/// last `max_lines` lines of all the lines seen, oldest first.
pub proof fn lemma_push_all(lines: Seq<Seq<char>>, max_lines: usize, pushed: Seq<Seq<char>>)
    requires
        lines.len() <= max_lines,
    ensures
        push_all(lines, max_lines, pushed) == last_n(lines + pushed, max_lines),
    decreases pushed.len(),
{
    if pushed.len() > 0 {
        let x = pushed.last();
        let prev = pushed.drop_last();
        lemma_push_all(lines, max_lines, prev);
        let s = lines + prev;
        let p = push_all(lines, max_lines, prev);
        assert((lines + pushed) =~= s.push(x));
        if max_lines == 0 {
            assert(last_n(s.push(x), max_lines) =~= Seq::<Seq<char>>::empty());
        } else if p.len() >= max_lines {
            assert(s.len() >= max_lines);
            assert(p.drop_first().push(x) =~= last_n(s.push(x), max_lines));
        } else {
            assert(p == s);
            assert(last_n(s.push(x), max_lines) =~= s.push(x));
        }
    }
}

/// A fresh buffer of capacity `max_lines` that has been given `pushed`
/// holds `min(pushed.len(), max_lines)` lines: the last ones pushed, oldest
/// first.
pub proof fn lemma_fresh_buffer_keeps_latest(max_lines: usize, pushed: Seq<Seq<char>>)
    ensures
        push_all(seq![], max_lines, pushed) == last_n(pushed, max_lines),
        push_all(seq![], max_lines, pushed).len() == if pushed.len() <= max_lines {
            pushed.len()
        } else {
            max_lines as nat
        },
{
    lemma_push_all(seq![], max_lines, pushed);
    assert(Seq::<Seq<char>>::empty() + pushed =~= pushed);
}

} // verus!
