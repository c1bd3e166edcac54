//! What the command-line reports show: the order of janitor targets, the
//! shortening of long reasons, and the rows of the triage table.

use vstd::prelude::*;

use crate::brief::{BriefCategory, ProjectBrief};
use crate::janitor::{JanitorOutcome, JanitorTargetResult};
use crate::order::{TotalOrder, isort, sort_stable, sorted};
use crate::paths::{lemma_path_le_total, lemma_path_le_transitive, path_le, path_less_eq};
use crate::text::{from_chars, i64_to_decimal, int_decimal, owned, to_chars};
use crate::time::{format_rfc3339, rfc3339_text};

verus! {

/// Reasons longer than this are shortened.
pub const REASON_LIMIT: usize = 72;

/// A reason as the table shows it: unchanged up to `REASON_LIMIT` characters,
/// otherwise its first `REASON_LIMIT - 1` characters and an ellipsis.
pub open spec fn concise(reason: Seq<char>) -> Seq<char> {
    if reason.len() <= REASON_LIMIT {
        reason
    } else {
        reason.take(REASON_LIMIT - 1) + seq!['\u{2026}']
    }
}

pub fn concise_reason(reason: &str) -> (r: String)
    ensures
        r@ == concise(reason@),
{
    let chars = to_chars(reason);
    if chars.len() <= REASON_LIMIT {
        return owned(reason);
    }
    let mut head = crate::text::slice_chars(&chars, 0, REASON_LIMIT - 1);
    head.push('\u{2026}');
    assert(head@ =~= reason@.take(REASON_LIMIT - 1) + seq!['\u{2026}']);
    from_chars(&head)
}

/// `a` comes before `b` by size: larger first, an unknown size last.
pub open spec fn size_before(a: Option<u64>, b: Option<u64>) -> bool {
    match (a, b) {
        (Some(x), Some(y)) => x > y,
        (Some(_), None) => true,
        _ => false,
    }
}

/// The order of the janitor table: reclaimable and removed targets first, then
/// larger sizes first, then by path.
pub open spec fn target_le(a: JanitorTargetResult, b: JanitorTargetResult) -> bool {
    if a.outcome.actionable() != b.outcome.actionable() {
        a.outcome.actionable()
    } else if a.size_bytes != b.size_bytes {
        size_before(a.size_bytes, b.size_bytes)
    } else {
        path_le(a.path@, b.path@)
    }
}

impl TotalOrder for JanitorTargetResult {
    open spec fn le(self, other: Self) -> bool {
        target_le(self, other)
    }

    proof fn le_total(a: Self, b: Self) {
        lemma_path_le_total(a.path@, b.path@);
    }

    proof fn le_transitive(a: Self, b: Self, c: Self) {
        if a.outcome.actionable() == b.outcome.actionable() && b.outcome.actionable() == c.outcome.actionable()
            && a.size_bytes == b.size_bytes && b.size_bytes == c.size_bytes {
            lemma_path_le_transitive(a.path@, b.path@, c.path@);
        }
    }

    fn le_exec(&self, other: &Self) -> (r: bool) {
        let a = self.outcome.is_actionable();
        let b = other.outcome.is_actionable();
        if a != b {
            return a;
        }
        if self.size_bytes != other.size_bytes {
            return match (self.size_bytes, other.size_bytes) {
                (Some(x), Some(y)) => x > y,
                (Some(_), None) => true,
                _ => false,
            };
        }
        path_less_eq(self.path.as_str(), other.path.as_str())
    }
}

/// The janitor's targets in table order (a stable sort).
pub fn order_targets(targets: Vec<JanitorTargetResult>) -> (r: Vec<JanitorTargetResult>)
    ensures
        r@ == isort(targets@),
        sorted(r@),
        r@.to_multiset() == targets@.to_multiset(),
{
    sort_stable(targets)
}

/// The label of the total row: what was reclaimable, or what was reclaimed.
pub fn total_label(dry_run: bool) -> (s: &'static str)
    ensures
        s@ == (if dry_run { "reclaimable"@ } else { "reclaimed"@ }),
{
    if dry_run {
        "reclaimable"
    } else {
        "reclaimed"
    }
}

/// A purge that left failed targets fails the command.
pub fn janitor_outcome(dry_run: bool, has_failures: bool) -> (r: Result<(), String>)
    ensures
        match r {
            Ok(()) => dry_run || !has_failures,
            Err(m) => !dry_run && has_failures && m@ == "Janitor purge completed with target failures"@,
        },
{
    if !dry_run && has_failures {
        Err(owned("Janitor purge completed with target failures"))
    } else {
        Ok(())
    }
}

// ----------------------------------------------------------------------------
// The triage table.
// ----------------------------------------------------------------------------

/// The order in which the triage table shows its sections.
pub open spec fn section_order() -> Seq<BriefCategory> {
    seq![
        BriefCategory::NeedsAttention,
        BriefCategory::WorkInProgress,
        BriefCategory::Ready,
        BriefCategory::Unverified,
    ]
}

pub fn sections() -> (r: Vec<BriefCategory>)
    ensures
        r@ == section_order(),
{
    let r = vec![
        BriefCategory::NeedsAttention,
        BriefCategory::WorkInProgress,
        BriefCategory::Ready,
        BriefCategory::Unverified,
    ];
    assert(r@ =~= section_order());
    r
}

/// The cells of a project's row: name, branch (`-` when unknown), working
/// tree (`dirty`, `clean`, or `unavailable` without version control), the
/// latest command's name, result (its exit code, or `running`) and time, and
/// the suggested action (`-` when none).
pub open spec fn brief_row(p: ProjectBrief) -> Seq<Seq<char>> {
    let branch = match p.live_vcs {
        Some(v) => match v.branch {
            Some(b) => b@,
            None => "-"@,
        },
        None => "-"@,
    };
    let tree = match p.live_vcs {
        Some(v) => if v.is_dirty {
            "dirty"@
        } else {
            "clean"@
        },
        None => "unavailable"@,
    };
    let command = match p.latest_command {
        Some(l) => l.command_name@,
        None => "-"@,
    };
    let result = match p.latest_command {
        Some(l) => match l.exit_code {
            Some(c) => int_decimal(c as int),
            None => "running"@,
        },
        None => "-"@,
    };
    let time = match p.latest_command {
        Some(l) => rfc3339_text(l.run_at),
        None => "-"@,
    };
    let action = match p.suggested_action {
        Some(a) => a.spec_text(),
        None => "-"@,
    };
    seq![p.name@, branch, tree, command, result, time, action]
}

/// The rows of a section: its projects, in report order.
pub open spec fn section_rows(ps: Seq<ProjectBrief>, c: BriefCategory) -> Seq<Seq<Seq<char>>>
    decreases ps.len(),
{
    if ps.len() == 0 {
        seq![]
    } else {
        let prev = section_rows(ps.drop_last(), c);
        if ps.last().category == c {
            prev.push(brief_row(ps.last()))
        } else {
            prev
        }
    }
}

fn row_of(p: &ProjectBrief) -> (r: Vec<String>)
    ensures
        r.deep_view() == brief_row(*p),
{
    let branch = match &p.live_vcs {
        Some(v) => match &v.branch {
            Some(b) => b.clone(),
            None => owned("-"),
        },
        None => owned("-"),
    };
    let tree = match &p.live_vcs {
        Some(v) => if v.is_dirty {
            owned("dirty")
        } else {
            owned("clean")
        },
        None => owned("unavailable"),
    };
    let (command, result, time) = match &p.latest_command {
        Some(l) => (
            l.command_name.clone(),
            match l.exit_code {
                Some(c) => i64_to_decimal(c as i64),
                None => owned("running"),
            },
            format_rfc3339(l.run_at),
        ),
        None => (owned("-"), owned("-"), owned("-")),
    };
    let action = match &p.suggested_action {
        Some(a) => a.text(),
        None => owned("-"),
    };
    let r = vec![p.name.clone(), branch, tree, command, result, time, action];
    assert(r.deep_view() =~= brief_row(*p));
    r
}

/// The rows of one section of the triage table.
pub fn brief_section_rows(projects: &Vec<ProjectBrief>, category: BriefCategory) -> (r: Vec<Vec<String>>)
    ensures
        r@.map_values(|row: Vec<String>| row.deep_view()) == section_rows(projects@, category),
{
    let mut rows: Vec<Vec<String>> = Vec::new();
    let mut i: usize = 0;
    while i < projects.len()
        invariant
            i <= projects.len(),
            rows@.map_values(|row: Vec<String>| row.deep_view()) == section_rows(projects@.take(i as int), category),
        decreases projects.len() - i,
    {
        assert(projects@.take(i + 1).drop_last() =~= projects@.take(i as int));
        if projects[i].category == category {
            let row = row_of(&projects[i]);
            let ghost prev = rows@.map_values(|row: Vec<String>| row.deep_view());
            let ghost rv = row.deep_view();
            rows.push(row);
            assert(rows@.map_values(|row: Vec<String>| row.deep_view()) =~= prev.push(rv));
        }
        i += 1;
    }
    assert(projects@.take(projects.len() as int) =~= projects@);
    rows
}

} // verus!
