//! The Digital Janitor: language-aware cleanup of workspace artifacts.
//!
//! Which directories are cleanup targets follows from a project's languages.
//! Each target is inspected step by step ([`Inspection`]): it must lie within
//! the project root lexically and after resolving links, must be a real
//! directory (a symbolic link is never cleaned), and is re-checked immediately
//! before deletion. A dry run only measures. Reclaimed bytes count the targets
//! that are reclaimable or removed.

use vstd::prelude::*;

use crate::paths::{is_within, path_is_within};
use crate::text::{concat2, decimal, join_strings, join_with, owned, str_eq, u64_to_decimal};
use crate::types::{Language, LanguageDetection, ProjectId, ProjectLog, uuid_text};

verus! {

/// The disposition of one cleanup target.
#[derive(Debug, Clone, Copy, PartialEq, Eq, Structural)]
pub enum JanitorOutcome {
    Reclaimable,
    Removed,
    Skipped,
    Failed,
}

impl JanitorOutcome {
    pub open spec fn label(self) -> Seq<char> {
        match self {
            JanitorOutcome::Reclaimable => "reclaimable"@,
            JanitorOutcome::Removed => "removed"@,
            JanitorOutcome::Skipped => "skipped"@,
            JanitorOutcome::Failed => "failed"@,
        }
    }

    /// Stable label used in reports.
    pub fn as_str(self) -> (s: &'static str)
        ensures
            s@ == self.label(),
    {
        match self {
            JanitorOutcome::Reclaimable => "reclaimable",
            JanitorOutcome::Removed => "removed",
            JanitorOutcome::Skipped => "skipped",
            JanitorOutcome::Failed => "failed",
        }
    }

    pub open spec fn actionable(self) -> bool {
        self == JanitorOutcome::Reclaimable || self == JanitorOutcome::Removed
    }

    /// Whether the target's bytes count as reclaimed.
    pub fn is_actionable(self) -> (b: bool)
        ensures
            b == self.actionable(),
    {
        match self {
            JanitorOutcome::Reclaimable | JanitorOutcome::Removed => true,
            _ => false,
        }
    }
}

/// The result of inspecting or removing one cleanup target.
#[derive(Debug, Clone)]
pub struct JanitorTargetResult {
    pub target: String,
    pub path: String,
    pub size_bytes: Option<u64>,
    pub outcome: JanitorOutcome,
    pub reason: Option<String>,
}

pub struct TargetView {
    pub target: Seq<char>,
    pub path: Seq<char>,
    pub size_bytes: Option<u64>,
    pub outcome: JanitorOutcome,
    pub reason: Option<Seq<char>>,
}

impl View for JanitorTargetResult {
    type V = TargetView;

    open spec fn view(&self) -> TargetView {
        TargetView {
            target: self.target@,
            path: self.path@,
            size_bytes: self.size_bytes,
            outcome: self.outcome,
            reason: self.reason.deep_view(),
        }
    }
}

pub open spec fn target_views(ts: Seq<JanitorTargetResult>) -> Seq<TargetView> {
    ts.map_values(|t: JanitorTargetResult| t@)
}

/// The result for a target that could not be handled, with the error's text.
pub fn failed_result(target: &str, path: String, size_bytes: Option<u64>, error: String) -> (r:
    JanitorTargetResult)
    ensures
        r@ == (TargetView {
            target: target@,
            path: path@,
            size_bytes,
            outcome: JanitorOutcome::Failed,
            reason: Some(error@),
        }),
{
    JanitorTargetResult {
        target: owned(target),
        path,
        size_bytes,
        outcome: JanitorOutcome::Failed,
        reason: Some(error),
    }
}

/// Result of an inspection or a clean.
#[derive(Debug, Clone)]
pub struct JanitorReport {
    /// Every discovered target and any validation failure.
    pub targets: Vec<JanitorTargetResult>,
    /// Bytes reclaimable (or removed, when not a dry run).
    pub bytes_reclaimed: u64,
    /// Whether this was an inspection only.
    pub dry_run: bool,
}

/// The bytes a result counts for: its size when reclaimable or removed.
pub open spec fn counted(t: TargetView) -> nat {
    if t.outcome.actionable() {
        match t.size_bytes {
            Some(n) => n as nat,
            None => 0,
        }
    } else {
        0
    }
}

/// Bytes counted for the targets.
pub open spec fn reclaimed(ts: Seq<TargetView>) -> nat
    decreases ts.len(),
{
    if ts.len() == 0 {
        0
    } else {
        reclaimed(ts.drop_last()) + counted(ts.last())
    }
}

pub open spec fn any_failed(ts: Seq<TargetView>) -> bool {
    exists|i: int| 0 <= i < ts.len() && #[trigger] ts[i].outcome == JanitorOutcome::Failed
}

impl JanitorReport {
    /// An empty report.
    pub fn new(dry_run: bool) -> (r: Self)
        ensures
            r.targets@.len() == 0,
            r.bytes_reclaimed == 0,
            r.dry_run == dry_run,
    {
        JanitorReport { targets: Vec::new(), bytes_reclaimed: 0, dry_run }
    }

    /// Adds a result; its size counts when it is reclaimable or removed.
    pub fn record(&mut self, result: JanitorTargetResult)
        requires
            old(self).bytes_reclaimed + counted(result@) <= u64::MAX,
        ensures
            target_views(final(self).targets@) == target_views(old(self).targets@).push(result@),
            final(self).bytes_reclaimed == old(self).bytes_reclaimed + counted(result@),
            final(self).dry_run == old(self).dry_run,
    {
        let ghost rv = result@;
        if result.outcome.is_actionable() {
            match result.size_bytes {
                Some(n) => {
                    self.bytes_reclaimed = self.bytes_reclaimed + n;
                },
                None => {},
            }
        }
        self.targets.push(result);
        assert(target_views(self.targets@) =~= target_views(old(self).targets@).push(rv));
    }

    /// Whether any target failed.
    pub fn has_failures(&self) -> (b: bool)
        ensures
            b == any_failed(target_views(self.targets@)),
    {
        let ghost ts = target_views(self.targets@);
        let mut i: usize = 0;
        while i < self.targets.len()
            invariant
                i <= self.targets.len(),
                ts == target_views(self.targets@),
                forall|j: int| 0 <= j < i ==> ts[j].outcome != JanitorOutcome::Failed,
            decreases self.targets.len() - i,
        {
            if self.targets[i].outcome == JanitorOutcome::Failed {
                assert(ts[i as int].outcome == JanitorOutcome::Failed);
                return true;
            }
            i += 1;
        }
        false
    }
}

// ----------------------------------------------------------------------------
// Which directories are targets.
// ----------------------------------------------------------------------------

pub open spec fn speaks(langs: Seq<LanguageDetection>, pick: spec_fn(Language) -> bool) -> bool {
    exists|i: int| 0 <= i < langs.len() && pick(#[trigger] langs[i].language)
}

/// The cleanup directories of a project's languages, in order: `target` (Rust),
/// `node_modules` and `.next` (Node), `.venv` (Python), `.gopath` (Go).
pub open spec fn cleanup_target_names(langs: Seq<LanguageDetection>) -> Seq<Seq<char>> {
    (if speaks(langs, |l: Language| l is Rust) { seq!["target"@] } else { seq![] }) + (if speaks(
        langs,
        |l: Language| l is Node,
    ) {
        seq!["node_modules"@, ".next"@]
    } else {
        seq![]
    }) + (if speaks(langs, |l: Language| l is Python) { seq![".venv"@] } else { seq![] }) + (
    if speaks(langs, |l: Language| l is Go) {
        seq![".gopath"@]
    } else {
        seq![]
    })
}

#[derive(Debug, Clone, Copy, PartialEq, Eq, Structural)]
pub enum LanguageKind {
    Rust,
    Node,
    Python,
    Go,
}

pub open spec fn kind_pick(k: LanguageKind) -> spec_fn(Language) -> bool {
    match k {
        LanguageKind::Rust => |l: Language| l is Rust,
        LanguageKind::Node => |l: Language| l is Node,
        LanguageKind::Python => |l: Language| l is Python,
        LanguageKind::Go => |l: Language| l is Go,
    }
}

/// Whether the project speaks a language of this kind.
pub fn supports_language(langs: &Vec<LanguageDetection>, kind: LanguageKind) -> (b: bool)
    ensures
        b == speaks(langs@, kind_pick(kind)),
{
    let mut i: usize = 0;
    while i < langs.len()
        invariant
            i <= langs.len(),
            forall|j: int| 0 <= j < i ==> !(kind_pick(kind))(#[trigger] langs@[j].language),
        decreases langs.len() - i,
    {
        let hit = match (&langs[i].language, kind) {
            (Language::Rust, LanguageKind::Rust) => true,
            (Language::Node, LanguageKind::Node) => true,
            (Language::Python, LanguageKind::Python) => true,
            (Language::Go, LanguageKind::Go) => true,
            _ => false,
        };
        if hit {
            assert((kind_pick(kind))(langs@[i as int].language));
            return true;
        }
        i += 1;
    }
    false
}

/// The cleanup directories of a project's languages.
pub fn cleanup_targets(langs: &Vec<LanguageDetection>) -> (r: Vec<&'static str>)
    ensures
        r@.map_values(|s: &'static str| s@) == cleanup_target_names(langs@),
{
    let mut r: Vec<&'static str> = Vec::new();
    if supports_language(langs, LanguageKind::Rust) {
        r.push("target");
    }
    if supports_language(langs, LanguageKind::Node) {
        r.push("node_modules");
        r.push(".next");
    }
    if supports_language(langs, LanguageKind::Python) {
        r.push(".venv");
    }
    if supports_language(langs, LanguageKind::Go) {
        r.push(".gopath");
    }
    assert(kind_pick(LanguageKind::Rust) == (|l: Language| l is Rust));
    assert(kind_pick(LanguageKind::Node) == (|l: Language| l is Node));
    assert(kind_pick(LanguageKind::Python) == (|l: Language| l is Python));
    assert(kind_pick(LanguageKind::Go) == (|l: Language| l is Go));
    assert(r@.map_values(|s: &'static str| s@) =~= cleanup_target_names(langs@));
    r
}

pub open spec fn cleanup_directory(name: Seq<char>) -> bool {
    name == "target"@ || name == "node_modules"@ || name == ".next"@ || name == ".venv"@ || name
        == ".gopath"@
}

/// Whether a directory name is itself a cleanup target (the cache walk does
/// not descend into those).
pub fn is_cleanup_directory(name: &str) -> (b: bool)
    ensures
        b == cleanup_directory(name@),
{
    str_eq(name, "target") || str_eq(name, "node_modules") || str_eq(name, ".next") || str_eq(
        name,
        ".venv",
    ) || str_eq(name, ".gopath")
}

/// What a directory entry is, without following links.
#[derive(Debug, Clone, Copy, PartialEq, Eq, Structural)]
pub enum EntryKind {
    Symlink,
    Directory,
    Other,
}

/// What the `__pycache__` walk does with an entry.
#[derive(Debug, Clone, Copy, PartialEq, Eq, Structural)]
pub enum CacheEntry {
    /// A `__pycache__` entry: a cleanup candidate.
    Candidate,
    /// A real directory that is not a cleanup directory: walk into it.
    Descend,
    Ignore,
}

pub open spec fn cache_entry(name: Seq<char>, kind: EntryKind) -> CacheEntry {
    if name == "__pycache__"@ {
        CacheEntry::Candidate
    } else if kind == EntryKind::Directory && !cleanup_directory(name) {
        CacheEntry::Descend
    } else {
        CacheEntry::Ignore
    }
}

/// The `__pycache__` walk: every entry named `__pycache__` is a cleanup
/// candidate; the walk enters only real directories (never links or files),
/// and never one that is itself a cleanup target (`target`, `node_modules`,
/// `.next`, `.venv`, `.gopath`), which it leaves alone.
pub proof fn lemma_cache_walk(name: Seq<char>, kind: EntryKind)
    ensures
        cache_entry(name, kind) == CacheEntry::Candidate <==> name == "__pycache__"@,
        cache_entry(name, kind) == CacheEntry::Descend <==> (kind == EntryKind::Directory && name != "__pycache__"@
            && name != "target"@ && name != "node_modules"@ && name != ".next"@ && name != ".venv"@ && name
            != ".gopath"@),
        (name == "target"@ || name == "node_modules"@ || name == ".next"@ || name == ".venv"@ || name == ".gopath"@)
            ==> cache_entry(name, kind) == CacheEntry::Ignore,
{
    reveal_strlit("__pycache__");
    reveal_strlit("target");
    reveal_strlit("node_modules");
    reveal_strlit(".next");
    reveal_strlit(".venv");
    reveal_strlit(".gopath");
    assert("__pycache__"@.len() == 11);
    assert("target"@.len() == 6);
    assert("node_modules"@.len() == 12);
    assert(".next"@.len() == 5);
    assert(".venv"@.len() == 5);
    assert(".gopath"@.len() == 7);
}

/// What measuring a directory does with an entry inside it: links are
/// skipped (never followed), directories are measured in turn, and any other
/// entry adds its length.
#[derive(Debug, Clone, Copy, PartialEq, Eq, Structural)]
pub enum SizeStep {
    Skip,
    Descend,
    Add(u64),
}

pub open spec fn size_step_of(kind: EntryKind, len: u64) -> SizeStep {
    match kind {
        EntryKind::Symlink => SizeStep::Skip,
        EntryKind::Directory => SizeStep::Descend,
        EntryKind::Other => SizeStep::Add(len),
    }
}

/// The step for an entry of kind `kind` and length `len`.
pub fn size_step(kind: EntryKind, len: u64) -> (r: SizeStep)
    ensures
        r == size_step_of(kind, len),
{
    match kind {
        EntryKind::Symlink => SizeStep::Skip,
        EntryKind::Directory => SizeStep::Descend,
        EntryKind::Other => SizeStep::Add(len),
    }
}

/// Measuring starts at the target itself: a link is refused, a directory is
/// walked (`None`), and anything else is its own length.
pub fn size_root(kind: EntryKind, len: u64) -> (r: Result<Option<u64>, String>)
    ensures
        match kind {
            EntryKind::Symlink => r matches Err(e) && e@ == "refusing to size symbolic link"@,
            EntryKind::Directory => r == Ok::<Option<u64>, String>(None),
            EntryKind::Other => r == Ok::<Option<u64>, String>(Some(len)),
        },
{
    match kind {
        EntryKind::Symlink => Err(owned("refusing to size symbolic link")),
        EntryKind::Directory => Ok(None),
        EntryKind::Other => Ok(Some(len)),
    }
}

pub fn classify_cache_entry(name: &str, kind: EntryKind) -> (r: CacheEntry)
    ensures
        r == cache_entry(name@, kind),
{
    if str_eq(name, "__pycache__") {
        CacheEntry::Candidate
    } else if kind == EntryKind::Directory && !is_cleanup_directory(name) {
        CacheEntry::Descend
    } else {
        CacheEntry::Ignore
    }
}

/// The check of a project root: it must be a directory or a link to one.
pub open spec fn root_kind_problem(kind: EntryKind) -> Option<Seq<char>> {
    if kind == EntryKind::Other {
        Some("project root is not a directory"@)
    } else {
        None
    }
}

pub fn check_root_kind(kind: EntryKind) -> (r: Option<String>)
    ensures
        r.deep_view() == root_kind_problem(kind),
{
    if kind == EntryKind::Other {
        Some(owned("project root is not a directory"))
    } else {
        None
    }
}

/// The check of a resolved project root: it must be a directory.
pub fn check_resolved_root(is_dir: bool) -> (r: Option<String>)
    ensures
        r.deep_view() == (if is_dir { None } else { Some("resolved project root is not a directory"@) }),
{
    if is_dir {
        None
    } else {
        Some(owned("resolved project root is not a directory"))
    }
}

/// The result recorded when the project root itself fails validation.
pub fn root_failure(path: String, reason: String) -> (r: JanitorTargetResult)
    ensures
        r@ == (TargetView {
            target: "project root"@,
            path: path@,
            size_bytes: None,
            outcome: JanitorOutcome::Failed,
            reason: Some(reason@),
        }),
{
    failed_result("project root", path, None, reason)
}

// ----------------------------------------------------------------------------
// Inspecting one target.
// ----------------------------------------------------------------------------

/// Where the inspection of a target stands.
#[derive(Debug, Clone, Copy, PartialEq, Eq, Structural)]
pub enum InspectStage {
    Metadata,
    Canonical,
    Size,
    /// Re-checking before deletion, with the measured size.
    RecheckMetadata(u64),
    RecheckCanonical(u64),
    Remove(u64),
    Done,
}

/// What the inspection asks of the file system about the target's path.
#[derive(Debug, Clone, Copy, PartialEq, Eq, Structural)]
pub enum Probe {
    /// `symlink_metadata`: what the entry is.
    Metadata,
    /// `canonicalize`: the path with links resolved.
    CanonicalPath,
    /// The total size of the directory, links not followed.
    Size,
    /// `remove_dir_all`.
    Remove,
}

/// The answer to a probe; errors carry their text.
#[derive(Debug)]
pub enum ProbeAnswer {
    Metadata(Result<EntryKind, String>),
    CanonicalPath(Result<String, String>),
    Size(Result<u64, String>),
    Removed(Result<(), String>),
}

pub enum AnswerView {
    Metadata(Result<EntryKind, Seq<char>>),
    CanonicalPath(Result<Seq<char>, Seq<char>>),
    Size(Result<u64, Seq<char>>),
    Removed(Result<(), Seq<char>>),
}

impl View for ProbeAnswer {
    type V = AnswerView;

    open spec fn view(&self) -> AnswerView {
        match self {
            ProbeAnswer::Metadata(Ok(k)) => AnswerView::Metadata(Ok(*k)),
            ProbeAnswer::Metadata(Err(e)) => AnswerView::Metadata(Err(e@)),
            ProbeAnswer::CanonicalPath(Ok(p)) => AnswerView::CanonicalPath(Ok(p@)),
            ProbeAnswer::CanonicalPath(Err(e)) => AnswerView::CanonicalPath(Err(e@)),
            ProbeAnswer::Size(Ok(n)) => AnswerView::Size(Ok(*n)),
            ProbeAnswer::Size(Err(e)) => AnswerView::Size(Err(e@)),
            ProbeAnswer::Removed(Ok(())) => AnswerView::Removed(Ok(())),
            ProbeAnswer::Removed(Err(e)) => AnswerView::Removed(Err(e@)),
        }
    }
}

/// The next thing to do for a target.
#[derive(Debug)]
pub enum InspectStep {
    Ask(Probe),
    Done(JanitorTargetResult),
}

pub enum StepView {
    Ask(Probe),
    Done(TargetView),
}

impl View for InspectStep {
    type V = StepView;

    open spec fn view(&self) -> StepView {
        match self {
            InspectStep::Ask(p) => StepView::Ask(*p),
            InspectStep::Done(r) => StepView::Done(r@),
        }
    }
}

/// The inspection of one cleanup target.
#[derive(Debug)]
pub struct Inspection {
    /// The canonical project root.
    pub root: String,
    pub target: String,
    pub path: String,
    pub dry_run: bool,
    pub stage: InspectStage,
}

pub struct InspectionView {
    pub root: Seq<char>,
    pub target: Seq<char>,
    pub path: Seq<char>,
    pub dry_run: bool,
    pub stage: InspectStage,
}

impl View for Inspection {
    type V = InspectionView;

    open spec fn view(&self) -> InspectionView {
        InspectionView {
            root: self.root@,
            target: self.target@,
            path: self.path@,
            dry_run: self.dry_run,
            stage: self.stage,
        }
    }
}

pub open spec fn outcome_view(
    s: InspectionView,
    size: Option<u64>,
    outcome: JanitorOutcome,
    reason: Option<Seq<char>>,
) -> StepView {
    StepView::Done(TargetView { target: s.target, path: s.path, size_bytes: size, outcome, reason })
}

pub open spec fn failed_view(s: InspectionView, size: Option<u64>, reason: Seq<char>) -> StepView {
    outcome_view(s, size, JanitorOutcome::Failed, Some(reason))
}

pub open spec fn not_lexically_contained() -> Seq<char> {
    "candidate is not lexically contained in the project root"@
}

pub open spec fn not_canonically_contained() -> Seq<char> {
    "candidate is not canonically contained in the project root"@
}

pub open spec fn symlink_refused() -> Seq<char> {
    "refusing symbolic link cleanup target"@
}

pub open spec fn at(s: InspectionView, stage: InspectStage) -> InspectionView {
    InspectionView { stage, ..s }
}

/// The first step of an inspection.
pub open spec fn inspect_start(s: InspectionView) -> (InspectionView, StepView) {
    if is_within(s.root, s.path) {
        (at(s, InspectStage::Metadata), StepView::Ask(Probe::Metadata))
    } else {
        (at(s, InspectStage::Done), failed_view(s, None, not_lexically_contained()))
    }
}

/// One step of an inspection.
pub open spec fn inspect_next(s: InspectionView, a: AnswerView) -> (InspectionView, StepView) {
    let done = at(s, InspectStage::Done);
    match (s.stage, a) {
        (InspectStage::Metadata, AnswerView::Metadata(m)) => match m {
            Err(e) => (done, failed_view(s, None, e)),
            Ok(EntryKind::Symlink) => (
                done,
                outcome_view(s, None, JanitorOutcome::Skipped, Some(symlink_refused())),
            ),
            Ok(EntryKind::Other) => (
                done,
                outcome_view(s, None, JanitorOutcome::Skipped, Some("cleanup target is not a directory"@)),
            ),
            Ok(EntryKind::Directory) => (at(s, InspectStage::Canonical), StepView::Ask(Probe::CanonicalPath)),
        },
        (InspectStage::Canonical, AnswerView::CanonicalPath(c)) => match c {
            Err(e) => (done, failed_view(s, None, e)),
            Ok(p) => if is_within(s.root, p) {
                (at(s, InspectStage::Size), StepView::Ask(Probe::Size))
            } else {
                (done, failed_view(s, None, not_canonically_contained()))
            },
        },
        (InspectStage::Size, AnswerView::Size(z)) => match z {
            Err(e) => (done, failed_view(s, None, e)),
            Ok(n) => if s.dry_run {
                (done, outcome_view(s, Some(n), JanitorOutcome::Reclaimable, None))
            } else {
                (at(s, InspectStage::RecheckMetadata(n)), StepView::Ask(Probe::Metadata))
            },
        },
        (InspectStage::RecheckMetadata(n), AnswerView::Metadata(m)) => match m {
            Err(e) => (done, failed_view(s, Some(n), e)),
            Ok(EntryKind::Symlink) => (
                done,
                outcome_view(s, Some(n), JanitorOutcome::Skipped, Some(symlink_refused())),
            ),
            Ok(EntryKind::Other) => (
                done,
                outcome_view(
                    s,
                    Some(n),
                    JanitorOutcome::Skipped,
                    Some("cleanup target is no longer a directory"@),
                ),
            ),
            Ok(EntryKind::Directory) => (
                at(s, InspectStage::RecheckCanonical(n)),
                StepView::Ask(Probe::CanonicalPath),
            ),
        },
        (InspectStage::RecheckCanonical(n), AnswerView::CanonicalPath(c)) => match c {
            Err(e) => (done, failed_view(s, Some(n), e)),
            Ok(p) => if is_within(s.root, p) {
                (at(s, InspectStage::Remove(n)), StepView::Ask(Probe::Remove))
            } else {
                (done, failed_view(s, Some(n), not_canonically_contained()))
            },
        },
        (InspectStage::Remove(n), AnswerView::Removed(r)) => match r {
            Err(e) => (done, failed_view(s, Some(n), e)),
            Ok(()) => (done, outcome_view(s, Some(n), JanitorOutcome::Removed, None)),
        },
        _ => (s, StepView::Ask(Probe::Metadata)),
    }
}

/// The answer a stage waits for.
pub open spec fn expects(stage: InspectStage, a: AnswerView) -> bool {
    match stage {
        InspectStage::Metadata => a is Metadata,
        InspectStage::RecheckMetadata(_) => a is Metadata,
        InspectStage::Canonical => a is CanonicalPath,
        InspectStage::RecheckCanonical(_) => a is CanonicalPath,
        InspectStage::Size => a is Size,
        InspectStage::Remove(_) => a is Removed,
        InspectStage::Done => false,
    }
}

/// A dry run never deletes: no step asks for removal or reports a target removed.
pub proof fn lemma_dry_run_never_removes(s: InspectionView, a: AnswerView)
    requires
        s.dry_run,
        !(s.stage is RecheckMetadata || s.stage is RecheckCanonical || s.stage is Remove),
    ensures
        inspect_next(s, a).1 != StepView::Ask(Probe::Remove),
        forall|t: TargetView| inspect_next(s, a).1 == StepView::Done(t) ==> t.outcome != JanitorOutcome::Removed,
        !(inspect_next(s, a).0.stage is RecheckMetadata),
        !(inspect_next(s, a).0.stage is RecheckCanonical),
        !(inspect_next(s, a).0.stage is Remove),
{
}

/// Removal is asked for only right after a re-check found the target, with
/// links resolved, still within the project root.
pub proof fn lemma_remove_only_after_recheck(s: InspectionView, a: AnswerView)
    requires
        inspect_next(s, a).1 == StepView::Ask(Probe::Remove),
        expects(s.stage, a),
    ensures
        s.stage is RecheckCanonical,
        a matches AnswerView::CanonicalPath(Ok(p)) && is_within(s.root, p),
{
}

/// A symbolic link is never cleaned: it is skipped when found, and when found
/// on the re-check before deletion.
pub proof fn lemma_symlink_skipped(s: InspectionView)
    requires
        s.stage is Metadata || s.stage is RecheckMetadata,
    ensures
        inspect_next(s, AnswerView::Metadata(Ok(EntryKind::Symlink))).1 matches StepView::Done(t)
            && t.outcome == JanitorOutcome::Skipped && t.reason == Some(symlink_refused()),
{
}

/// Recording results keeps the report's byte count equal to the bytes of its
/// reclaimable and removed targets.
pub proof fn lemma_record_tally(ts: Seq<TargetView>, bytes: nat, t: TargetView)
    requires
        bytes == reclaimed(ts),
    ensures
        bytes + counted(t) == reclaimed(ts.push(t)),
{
    assert(ts.push(t).drop_last() =~= ts);
}

fn done_result(s: &Inspection, size: Option<u64>, outcome: JanitorOutcome, reason: Option<String>) -> (r:
    InspectStep)
    ensures
        r@ == outcome_view(s@, size, outcome, reason.deep_view()),
{
    InspectStep::Done(
        JanitorTargetResult { target: s.target.clone(), path: s.path.clone(), size_bytes: size, outcome, reason },
    )
}

impl Inspection {
    /// Starts the inspection of `path` (a target named `target`) under the
    /// canonical project root `root`.
    pub fn start(root: String, target: String, path: String, dry_run: bool) -> (r: (Inspection, InspectStep))
        ensures
            (r.0@, r.1@) == inspect_start(
                InspectionView { root: root@, target: target@, path: path@, dry_run, stage: InspectStage::Done },
            ),
    {
        let mut s = Inspection { root, target, path, dry_run, stage: InspectStage::Done };
        if path_is_within(s.root.as_str(), s.path.as_str()) {
            s.stage = InspectStage::Metadata;
            (s, InspectStep::Ask(Probe::Metadata))
        } else {
            let step = done_result(
                &s,
                None,
                JanitorOutcome::Failed,
                Some(owned("candidate is not lexically contained in the project root")),
            );
            (s, step)
        }
    }

    /// One step: the answer to the last probe decides the next.
    pub fn advance(&mut self, answer: ProbeAnswer) -> (r: InspectStep)
        requires
            expects(old(self).stage, answer@),
        ensures
            (final(self)@, r@) == inspect_next(old(self)@, answer@),
    {
        match (self.stage, answer) {
            (InspectStage::Metadata, ProbeAnswer::Metadata(m)) => {
                match m {
                    Err(e) => {
                        self.stage = InspectStage::Done;
                        done_result(self, None, JanitorOutcome::Failed, Some(e))
                    },
                    Ok(EntryKind::Symlink) => {
                        self.stage = InspectStage::Done;
                        done_result(
                            self,
                            None,
                            JanitorOutcome::Skipped,
                            Some(owned("refusing symbolic link cleanup target")),
                        )
                    },
                    Ok(EntryKind::Other) => {
                        self.stage = InspectStage::Done;
                        done_result(
                            self,
                            None,
                            JanitorOutcome::Skipped,
                            Some(owned("cleanup target is not a directory")),
                        )
                    },
                    Ok(EntryKind::Directory) => {
                        self.stage = InspectStage::Canonical;
                        InspectStep::Ask(Probe::CanonicalPath)
                    },
                }
            },
            (InspectStage::Canonical, ProbeAnswer::CanonicalPath(c)) => {
                match c {
                    Err(e) => {
                        self.stage = InspectStage::Done;
                        done_result(self, None, JanitorOutcome::Failed, Some(e))
                    },
                    Ok(p) => if path_is_within(self.root.as_str(), p.as_str()) {
                        self.stage = InspectStage::Size;
                        InspectStep::Ask(Probe::Size)
                    } else {
                        self.stage = InspectStage::Done;
                        done_result(
                            self,
                            None,
                            JanitorOutcome::Failed,
                            Some(owned("candidate is not canonically contained in the project root")),
                        )
                    },
                }
            },
            (InspectStage::Size, ProbeAnswer::Size(z)) => {
                match z {
                    Err(e) => {
                        self.stage = InspectStage::Done;
                        done_result(self, None, JanitorOutcome::Failed, Some(e))
                    },
                    Ok(n) => if self.dry_run {
                        self.stage = InspectStage::Done;
                        done_result(self, Some(n), JanitorOutcome::Reclaimable, None)
                    } else {
                        self.stage = InspectStage::RecheckMetadata(n);
                        InspectStep::Ask(Probe::Metadata)
                    },
                }
            },
            (InspectStage::RecheckMetadata(n), ProbeAnswer::Metadata(m)) => {
                match m {
                    Err(e) => {
                        self.stage = InspectStage::Done;
                        done_result(self, Some(n), JanitorOutcome::Failed, Some(e))
                    },
                    Ok(EntryKind::Symlink) => {
                        self.stage = InspectStage::Done;
                        done_result(
                            self,
                            Some(n),
                            JanitorOutcome::Skipped,
                            Some(owned("refusing symbolic link cleanup target")),
                        )
                    },
                    Ok(EntryKind::Other) => {
                        self.stage = InspectStage::Done;
                        done_result(
                            self,
                            Some(n),
                            JanitorOutcome::Skipped,
                            Some(owned("cleanup target is no longer a directory")),
                        )
                    },
                    Ok(EntryKind::Directory) => {
                        self.stage = InspectStage::RecheckCanonical(n);
                        InspectStep::Ask(Probe::CanonicalPath)
                    },
                }
            },
            (InspectStage::RecheckCanonical(n), ProbeAnswer::CanonicalPath(c)) => {
                match c {
                    Err(e) => {
                        self.stage = InspectStage::Done;
                        done_result(self, Some(n), JanitorOutcome::Failed, Some(e))
                    },
                    Ok(p) => if path_is_within(self.root.as_str(), p.as_str()) {
                        self.stage = InspectStage::Remove(n);
                        InspectStep::Ask(Probe::Remove)
                    } else {
                        self.stage = InspectStage::Done;
                        done_result(
                            self,
                            Some(n),
                            JanitorOutcome::Failed,
                            Some(owned("candidate is not canonically contained in the project root")),
                        )
                    },
                }
            },
            (InspectStage::Remove(n), ProbeAnswer::Removed(r)) => {
                self.stage = InspectStage::Done;
                match r {
                    Err(e) => done_result(self, Some(n), JanitorOutcome::Failed, Some(e)),
                    Ok(()) => done_result(self, Some(n), JanitorOutcome::Removed, None),
                }
            },
            _ => InspectStep::Ask(Probe::Metadata),
        }
    }
}

// ----------------------------------------------------------------------------
// The audit log of a purge.
// ----------------------------------------------------------------------------

pub open spec fn size_text(size: Option<u64>) -> Seq<char> {
    match size {
        Some(n) => decimal(n as nat),
        None => "unavailable"@,
    }
}

/// One target's entry in the audit log.
pub open spec fn target_entry(t: TargetView) -> Seq<char> {
    "target="@ + t.target + " path="@ + t.path + " outcome="@ + t.outcome.label() + " size_bytes="@
        + size_text(t.size_bytes) + " reason="@ + match t.reason {
        Some(r) => r,
        None => "none"@,
    }
}

/// The paths of the failed targets, in order.
pub open spec fn failed_paths(ts: Seq<TargetView>) -> Seq<Seq<char>>
    decreases ts.len(),
{
    if ts.len() == 0 {
        seq![]
    } else {
        let prev = failed_paths(ts.drop_last());
        if ts.last().outcome == JanitorOutcome::Failed {
            prev.push(ts.last().path)
        } else {
            prev
        }
    }
}

/// The text of a purge's audit log.
pub open spec fn purge_text(ts: Seq<TargetView>, bytes: u64) -> Seq<char> {
    "Digital Janitor purge: targets=["@ + join_with(ts.map_values(|t: TargetView| target_entry(t)), "; "@)
        + "]; bytes_reclaimed="@ + decimal(bytes as nat) + "; failures=["@ + join_with(
        failed_paths(ts),
        ", "@,
    ) + "]; success="@ + if failed_paths(ts).len() == 0 {
        "true"@
    } else {
        "false"@
    }
}

fn target_entry_exec(t: &JanitorTargetResult) -> (s: String)
    ensures
        s@ == target_entry(t@),
{
    let mut s = concat2("target=", t.target.as_str());
    s.append(" path=");
    s.append(t.path.as_str());
    s.append(" outcome=");
    s.append(t.outcome.as_str());
    s.append(" size_bytes=");
    match t.size_bytes {
        Some(n) => {
            let d = u64_to_decimal(n);
            s.append(d.as_str());
        },
        None => s.append("unavailable"),
    }
    s.append(" reason=");
    match &t.reason {
        Some(r) => s.append(r.as_str()),
        None => s.append("none"),
    }
    s
}

/// The text of the audit log of a purge.
#[verifier::rlimit(40)]
pub fn purge_log_text(report: &JanitorReport) -> (s: String)
    ensures
        s@ == purge_text(target_views(report.targets@), report.bytes_reclaimed),
{
    let ghost ts = target_views(report.targets@);
    let mut entries: Vec<String> = Vec::new();
    let mut failures: Vec<String> = Vec::new();
    let mut i: usize = 0;
    while i < report.targets.len()
        invariant
            i <= report.targets.len(),
            ts == target_views(report.targets@),
            entries.deep_view() == ts.take(i as int).map_values(|t: TargetView| target_entry(t)),
            failures.deep_view() == failed_paths(ts.take(i as int)),
        decreases report.targets.len() - i,
    {
        assert(ts.take(i + 1).drop_last() =~= ts.take(i as int));
        let e = target_entry_exec(&report.targets[i]);
        let ghost prev_entries = entries.deep_view();
        assert(ts[i as int] == report.targets@[i as int]@);
        assert(ts.take(i + 1).map_values(|t: TargetView| target_entry(t)) =~= prev_entries.push(target_entry(ts[i as int])));
        entries.push(e);
        assert(entries.deep_view() =~= ts.take(i + 1).map_values(|t: TargetView| target_entry(t)));
        if report.targets[i].outcome == JanitorOutcome::Failed {
            let ghost prev = failures.deep_view();
            failures.push(report.targets[i].path.clone());
            assert(failures.deep_view() =~= prev.push(ts[i as int].path));
        }
        i += 1;
    }
    assert(ts.take(report.targets.len() as int) =~= ts);
    let joined = join_strings(&entries, "; ");
    let failed = join_strings(&failures, ", ");
    let bytes = u64_to_decimal(report.bytes_reclaimed);
    let mut s = concat2("Digital Janitor purge: targets=[", joined.as_str());
    s.append("]; bytes_reclaimed=");
    s.append(bytes.as_str());
    s.append("; failures=[");
    s.append(failed.as_str());
    s.append("]; success=");
    if failures.len() == 0 {
        s.append("true");
    } else {
        s.append("false");
    }
    s
}

#[derive(Debug)]
pub struct DigitalJanitor;

impl DigitalJanitor {
    /// The audit log of a purge: command `janitor:clean`, exit code 1 when a
    /// target failed and 0 otherwise, and the purge text.
    pub fn purge_log(project_id: &ProjectId, report: &JanitorReport, run_at: i64) -> (log: ProjectLog)
        ensures
            exists|v: u128| log.id@ == uuid_text(v),
            log.project_id@ == uuid_text(project_id.0),
            log.command_name@ == "janitor:clean"@,
            log.exit_code == Some(if failed_paths(target_views(report.targets@)).len() == 0 {
                0i32
            } else {
                1i32
            }),
            log.log_text@ == purge_text(target_views(report.targets@), report.bytes_reclaimed),
            log.run_at == run_at,
    {
        let id = ProjectId::new();
        let text = purge_log_text(report);
        let failed = report.has_failures();
        proof {
            lemma_failed_paths_empty(target_views(report.targets@));
        }
        ProjectLog {
            id: id.text(),
            project_id: project_id.text(),
            command_name: owned("janitor:clean"),
            exit_code: Some(if failed { 1 } else { 0 }),
            log_text: text,
            run_at,
        }
    }
}

proof fn lemma_failed_paths_empty(ts: Seq<TargetView>)
    ensures
        (failed_paths(ts).len() == 0) == !any_failed(ts),
    decreases ts.len(),
{
    if ts.len() > 0 {
        lemma_failed_paths_empty(ts.drop_last());
        if any_failed(ts.drop_last()) {
            let i = choose|i: int| 0 <= i < ts.drop_last().len() && #[trigger] ts.drop_last()[i].outcome
                == JanitorOutcome::Failed;
            assert(ts[i].outcome == JanitorOutcome::Failed);
        }
        if any_failed(ts) && ts.last().outcome != JanitorOutcome::Failed {
            let i = choose|i: int| 0 <= i < ts.len() && #[trigger] ts[i].outcome == JanitorOutcome::Failed;
            assert(ts.drop_last()[i].outcome == JanitorOutcome::Failed);
        }
    }
}

} // verus!
