//! A line-oriented reading of Markdown documents into display blocks.
//!
//! Each line is one block, read from its trimmed text: fenced code (between
//! lines starting with three backticks, the fences themselves dropped), blank
//! lines, horizontal rules, headers of levels 1 to 4, tasks (checked or not),
//! bullet items, numbered items, and plain text.

use vstd::prelude::*;

use crate::text::{
    from_chars, has_prefix, slice_chars, split_lines, starts_with, text_lines, to_chars, trim,
    trim_chars,
};

verus! {

/// A parsed Markdown block.
#[derive(Debug, Clone, PartialEq, Eq)]
pub enum MarkdownBlock {
    Header { level: usize, text: String },
    CodeFence { text: String },
    HorizontalRule,
    Task { text: String, checked: bool },
    BulletList { text: String },
    NumberedList { number: String, text: String },
    Text { text: String },
    BlankLine,
}

/// A parsed document.
#[derive(Debug, Clone)]
pub struct ParsedMarkdown {
    pub blocks: Vec<MarkdownBlock>,
}

pub enum BlockView {
    Header { level: usize, text: Seq<char> },
    CodeFence { text: Seq<char> },
    HorizontalRule,
    Task { text: Seq<char>, checked: bool },
    BulletList { text: Seq<char> },
    NumberedList { number: Seq<char>, text: Seq<char> },
    Text { text: Seq<char> },
    BlankLine,
}

impl View for MarkdownBlock {
    type V = BlockView;

    open spec fn view(&self) -> BlockView {
        match self {
            MarkdownBlock::Header { level, text } => BlockView::Header { level: *level, text: text@ },
            MarkdownBlock::CodeFence { text } => BlockView::CodeFence { text: text@ },
            MarkdownBlock::HorizontalRule => BlockView::HorizontalRule,
            MarkdownBlock::Task { text, checked } => BlockView::Task { text: text@, checked: *checked },
            MarkdownBlock::BulletList { text } => BlockView::BulletList { text: text@ },
            MarkdownBlock::NumberedList { number, text } => BlockView::NumberedList {
                number: number@,
                text: text@,
            },
            MarkdownBlock::Text { text } => BlockView::Text { text: text@ },
            MarkdownBlock::BlankLine => BlockView::BlankLine,
        }
    }
}

pub open spec fn block_views(bs: Seq<MarkdownBlock>) -> Seq<BlockView> {
    bs.map_values(|b: MarkdownBlock| b@)
}

/// `str::strip_prefix`.
pub open spec fn strip(s: Seq<char>, p: Seq<char>) -> Option<Seq<char>> {
    if has_prefix(s, p) {
        Some(s.skip(p.len() as int))
    } else {
        None
    }
}

/// The text of a task line after its marker: `- [x] `, `- [X] `, `* [x] `,
/// `* [X] ` when checked, `- [ ] `, `* [ ] ` when not, tried in that order.
pub open spec fn task_rest(line: Seq<char>, checked: bool) -> Option<Seq<char>> {
    if checked {
        if strip(line, "- [x] "@) is Some {
            strip(line, "- [x] "@)
        } else if strip(line, "- [X] "@) is Some {
            strip(line, "- [X] "@)
        } else if strip(line, "* [x] "@) is Some {
            strip(line, "* [x] "@)
        } else {
            strip(line, "* [X] "@)
        }
    } else {
        if strip(line, "- [ ] "@) is Some {
            strip(line, "- [ ] "@)
        } else {
            strip(line, "* [ ] "@)
        }
    }
}

/// The index of the first `. ` in `t`.
pub open spec fn dot_space(t: Seq<char>) -> Option<int>
    decreases t.len(),
{
    if t.len() < 2 {
        None
    } else {
        match dot_space(t.drop_last()) {
            Some(i) => Some(i),
            None => if t[t.len() - 2] == '.' && t[t.len() - 1] == ' ' {
                Some(t.len() - 2)
            } else {
                None
            },
        }
    }
}

pub open spec fn all_digits(s: Seq<char>) -> bool {
    forall|i: int| 0 <= i < s.len() ==> '0' <= #[trigger] s[i] <= '9'
}

/// The block of a line outside code fences (the line is not a fence).
pub open spec fn line_block(line: Seq<char>) -> BlockView {
    let t = trim(line);
    if t.len() == 0 {
        BlockView::BlankLine
    } else if t == "---"@ || t == "***"@ || t == "___"@ {
        BlockView::HorizontalRule
    } else if strip(t, "#### "@) is Some {
        BlockView::Header { level: 4, text: strip(t, "#### "@)->0 }
    } else if strip(t, "### "@) is Some {
        BlockView::Header { level: 3, text: strip(t, "### "@)->0 }
    } else if strip(t, "## "@) is Some {
        BlockView::Header { level: 2, text: strip(t, "## "@)->0 }
    } else if strip(t, "# "@) is Some {
        BlockView::Header { level: 1, text: strip(t, "# "@)->0 }
    } else if task_rest(t, true) is Some {
        BlockView::Task { text: task_rest(t, true)->0, checked: true }
    } else if task_rest(t, false) is Some {
        BlockView::Task { text: task_rest(t, false)->0, checked: false }
    } else if strip(t, "- "@) is Some {
        BlockView::BulletList { text: strip(t, "- "@)->0 }
    } else if strip(t, "* "@) is Some {
        BlockView::BulletList { text: strip(t, "* "@)->0 }
    } else {
        match dot_space(t) {
            Some(i) => if i > 0 && all_digits(t.take(i)) {
                BlockView::NumberedList { number: t.take(i + 1), text: t.skip(i + 2) }
            } else {
                BlockView::Text { text: line }
            },
            None => BlockView::Text { text: line },
        }
    }
}

/// The blocks of the lines so far, and whether a code fence is open.
pub open spec fn parse_lines(lines: Seq<Seq<char>>) -> (Seq<BlockView>, bool)
    decreases lines.len(),
{
    if lines.len() == 0 {
        (seq![], false)
    } else {
        let (bs, in_code) = parse_lines(lines.drop_last());
        let line = lines.last();
        if has_prefix(trim(line), "```"@) {
            (bs, !in_code)
        } else if in_code {
            (bs.push(BlockView::CodeFence { text: line }), true)
        } else {
            (bs.push(line_block(line)), false)
        }
    }
}

/// The blocks of a document.
pub open spec fn parse_blocks(text: Seq<char>) -> Seq<BlockView> {
    parse_lines(text_lines(text)).0
}

pub open spec fn opt_chars(r: Option<Vec<char>>) -> Option<Seq<char>> {
    match r {
        Some(v) => Some(v@),
        None => None,
    }
}

fn strip_lit(s: &Vec<char>, p: &str) -> (r: Option<Vec<char>>)
    ensures
        opt_chars(r) == strip(s@, p@),
{
    let pv = to_chars(p);
    if starts_with(s, &pv) {
        let rest = slice_chars(s, pv.len(), s.len());
        assert(rest@ =~= s@.skip(p@.len() as int));
        Some(rest)
    } else {
        None
    }
}

fn task_rest_chars(line: &Vec<char>, checked: bool) -> (r: Option<Vec<char>>)
    ensures
        opt_chars(r) == task_rest(line@, checked),
{
    if checked {
        let a = strip_lit(line, "- [x] ");
        if a.is_some() {
            return a;
        }
        let b = strip_lit(line, "- [X] ");
        if b.is_some() {
            return b;
        }
        let c = strip_lit(line, "* [x] ");
        if c.is_some() {
            return c;
        }
        strip_lit(line, "* [X] ")
    } else {
        let a = strip_lit(line, "- [ ] ");
        if a.is_some() {
            return a;
        }
        strip_lit(line, "* [ ] ")
    }
}

/// The text of a task line after its marker, when it is one (checked markers
/// when `checked`, unchecked ones otherwise).
pub fn strip_task_prefix(line: &str, checked: bool) -> (r: Option<String>)
    ensures
        r.deep_view() == task_rest(line@, checked),
{
    let chars = to_chars(line);
    match task_rest_chars(&chars, checked) {
        Some(rest) => Some(from_chars(&rest)),
        None => None,
    }
}

fn dot_space_exec(t: &Vec<char>) -> (r: Option<usize>)
    ensures
        match r {
            Some(i) => dot_space(t@) == Some(i as int) && i + 2 <= t.len(),
            None => dot_space(t@) is None,
        },
{
    if t.len() < 2 {
        return None;
    }
    let mut i: usize = 0;
    assert(t@.take(1).len() < 2);
    while i <= t.len() - 2
        invariant
            t.len() >= 2,
            i <= t.len() - 1,
            dot_space(t@.take(i + 1)) is None,
        decreases t.len() - i,
    {
        assert(t@.take(i + 2).drop_last() =~= t@.take(i + 1));
        if t[i] == '.' && t[i + 1] == ' ' {
            proof {
                lemma_dot_space_prefix(t@, i as int + 2);
            }
            return Some(i);
        }
        i += 1;
    }
    assert(t@.take(i + 1) =~= t@);
    None
}

/// Once `. ` occurs within the first `n` characters, later characters do not
/// change where it is first found.
proof fn lemma_dot_space_prefix(t: Seq<char>, n: int)
    requires
        2 <= n <= t.len(),
        dot_space(t.take(n)) is Some,
    ensures
        dot_space(t) == dot_space(t.take(n)),
    decreases t.len() - n,
{
    if n < t.len() {
        assert(t.take(n + 1).drop_last() =~= t.take(n));
        lemma_dot_space_prefix(t, n + 1);
    } else {
        assert(t.take(n) =~= t);
    }
}

fn all_digits_exec(s: &Vec<char>, n: usize) -> (b: bool)
    requires
        n <= s.len(),
    ensures
        b == all_digits(s@.take(n as int)),
{
    let mut i: usize = 0;
    while i < n
        invariant
            i <= n <= s.len(),
            forall|j: int| 0 <= j < i ==> '0' <= #[trigger] s@[j] <= '9',
        decreases n - i,
    {
        if !('0' <= s[i] && s[i] <= '9') {
            assert(!('0' <= s@.take(n as int)[i as int] <= '9'));
            return false;
        }
        i += 1;
    }
    assert forall|j: int| 0 <= j < n implies '0' <= #[trigger] s@.take(n as int)[j] <= '9' by {
        assert(s@.take(n as int)[j] == s@[j]);
    }
    true
}

fn is_lit(t: &Vec<char>, p: &str) -> (b: bool)
    ensures
        b == (t@ == p@),
{
    let pv = to_chars(p);
    if t.len() != pv.len() {
        return false;
    }
    let r = starts_with(t, &pv);
    assert(t@.subrange(0, pv@.len() as int) =~= t@);
    r
}

fn text_block(line: &Vec<char>) -> (b: MarkdownBlock)
    ensures
        b@ == (BlockView::Text { text: line@ }),
{
    MarkdownBlock::Text { text: from_chars(line) }
}

fn block_of_line(line: &Vec<char>) -> (b: MarkdownBlock)
    ensures
        b@ == line_block(line@),
{
    let t = trim_chars(line);
    if t.len() == 0 {
        return MarkdownBlock::BlankLine;
    }
    if is_lit(&t, "---") || is_lit(&t, "***") || is_lit(&t, "___") {
        return MarkdownBlock::HorizontalRule;
    }
    if let Some(rest) = strip_lit(&t, "#### ") {
        return MarkdownBlock::Header { level: 4, text: from_chars(&rest) };
    }
    if let Some(rest) = strip_lit(&t, "### ") {
        return MarkdownBlock::Header { level: 3, text: from_chars(&rest) };
    }
    if let Some(rest) = strip_lit(&t, "## ") {
        return MarkdownBlock::Header { level: 2, text: from_chars(&rest) };
    }
    if let Some(rest) = strip_lit(&t, "# ") {
        return MarkdownBlock::Header { level: 1, text: from_chars(&rest) };
    }
    if let Some(rest) = task_rest_chars(&t, true) {
        return MarkdownBlock::Task { text: from_chars(&rest), checked: true };
    }
    if let Some(rest) = task_rest_chars(&t, false) {
        return MarkdownBlock::Task { text: from_chars(&rest), checked: false };
    }
    if let Some(rest) = strip_lit(&t, "- ") {
        return MarkdownBlock::BulletList { text: from_chars(&rest) };
    }
    if let Some(rest) = strip_lit(&t, "* ") {
        return MarkdownBlock::BulletList { text: from_chars(&rest) };
    }
    match dot_space_exec(&t) {
        Some(i) => {
            if i > 0 && all_digits_exec(&t, i) {
                let number = slice_chars(&t, 0, i + 1);
                let text = slice_chars(&t, i + 2, t.len());
                assert(number@ =~= t@.take(i + 1));
                assert(text@ =~= t@.skip(i + 2));
                MarkdownBlock::NumberedList { number: from_chars(&number), text: from_chars(&text) }
            } else {
                text_block(line)
            }
        },
        None => text_block(line),
    }
}

/// Reads a document into blocks.
pub fn parse_markdown(text: &str) -> (r: ParsedMarkdown)
    ensures
        block_views(r.blocks@) == parse_blocks(text@),
{
    let chars = to_chars(text);
    let lines = split_lines(&chars);
    let ghost ls = lines@.map_values(|l: Vec<char>| l@);
    let mut blocks: Vec<MarkdownBlock> = Vec::new();
    let mut in_code = false;
    let mut i: usize = 0;
    while i < lines.len()
        invariant
            i <= lines.len(),
            ls == lines@.map_values(|l: Vec<char>| l@),
            ls == text_lines(text@),
            parse_lines(ls.take(i as int)) == (block_views(blocks@), in_code),
        decreases lines.len() - i,
    {
        assert(ls.take(i + 1).drop_last() =~= ls.take(i as int));
        assert(ls.take(i + 1).last() == lines@[i as int]@);
        let t = trim_chars(&lines[i]);
        let fence = to_chars("```");
        let ghost prev = block_views(blocks@);
        if starts_with(&t, &fence) {
            in_code = !in_code;
        } else if in_code {
            let b = MarkdownBlock::CodeFence { text: from_chars(&lines[i]) };
            let ghost bv = b@;
            blocks.push(b);
            assert(block_views(blocks@) =~= prev.push(bv));
        } else {
            let b = block_of_line(&lines[i]);
            let ghost bv = b@;
            blocks.push(b);
            assert(block_views(blocks@) =~= prev.push(bv));
        }
        i += 1;
    }
    assert(ls.take(lines.len() as int) =~= ls);
    ParsedMarkdown { blocks }
}


/// A code-fence line: its trimmed text starts with three backticks.
pub open spec fn is_fence(line: Seq<char>) -> bool {
    has_prefix(trim(line), "```"@)
}

/// The number of lines that are not fences.
pub open spec fn non_fence_count(lines: Seq<Seq<char>>) -> nat
    decreases lines.len(),
{
    if lines.len() == 0 {
        0
    } else {
        non_fence_count(lines.drop_last()) + if is_fence(lines.last()) {
            0nat
        } else {
            1nat
        }
    }
}

/// Whether an odd number of the lines are fences, so that a code block is open.
pub open spec fn fence_open(lines: Seq<Seq<char>>) -> bool
    decreases lines.len(),
{
    if lines.len() == 0 {
        false
    } else if is_fence(lines.last()) {
        !fence_open(lines.drop_last())
    } else {
        fence_open(lines.drop_last())
    }
}

/// The block of line `i`: inside an open code block the line itself, as
/// code; otherwise its own reading.
pub open spec fn block_at_line(lines: Seq<Seq<char>>, i: int) -> BlockView {
    if fence_open(lines.take(i)) {
        BlockView::CodeFence { text: lines[i] }
    } else {
        line_block(lines[i])
    }
}

/// Reading lines gives one block per line that is not a fence, in line
/// order: the block of line `i` stands at the number of non-fence lines
/// before it, and is the line unchanged as code after an odd number of
/// fences.
pub proof fn lemma_one_block_per_line(lines: Seq<Seq<char>>)
    ensures
        parse_lines(lines).0.len() == non_fence_count(lines),
        parse_lines(lines).1 == fence_open(lines),
        forall|i: int|
            0 <= i < lines.len() && !is_fence(lines[i]) ==> non_fence_count(lines.take(i)) < non_fence_count(lines)
                && parse_lines(lines).0[non_fence_count(lines.take(i)) as int] == #[trigger] block_at_line(lines, i),
    decreases lines.len(),
{
    if lines.len() > 0 {
        let prev = lines.drop_last();
        lemma_one_block_per_line(prev);
        let n = lines.len() - 1;
        assert(lines.take(n) =~= prev);
        assert forall|i: int|
            0 <= i < lines.len() && !is_fence(lines[i]) implies non_fence_count(lines.take(i)) < non_fence_count(lines)
                && parse_lines(lines).0[non_fence_count(lines.take(i)) as int] == #[trigger] block_at_line(lines, i) by {
            if i < n {
                assert(lines.take(i) =~= prev.take(i));
                assert(lines[i] == prev[i]);
                assert(block_at_line(lines, i) == block_at_line(prev, i));
            }
        }
    }
}

/// A document reads into one block per line that is not a code fence.
pub proof fn lemma_blocks_per_line(text: Seq<char>)
    ensures
        parse_blocks(text).len() == non_fence_count(text_lines(text)),
        forall|i: int|
            0 <= i < text_lines(text).len() && !is_fence(text_lines(text)[i]) ==> parse_blocks(text)[
                non_fence_count(text_lines(text).take(i)) as int
            ] == #[trigger] block_at_line(text_lines(text), i),
{
    lemma_one_block_per_line(text_lines(text));
}

} // verus!
