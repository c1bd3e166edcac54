//! Deterministic project triage reports.
//!
//! A report classifies each tracked project from what was observed about it
//! (does its path exist, what did Git inspection say, which commands ran) and
//! orders the projects by category, latest health activity and name.

use vstd::prelude::*;

use crate::order::{TotalOrder, isort, sorted, sort_stable};
use crate::text::{
    chars_le, chars_lt, concat2, concat3, has_prefix, lemma_chars_le_total, lemma_chars_le_transitive,
    lemma_chars_lt_irreflexive, lemma_chars_trichotomy, owned, starts_with, str_eq, str_le,
    to_chars, trim, trim_chars,
};
use crate::types::{LanguageDetection, Project, ProjectCommand, ProjectId, ProjectLog, VcsInfo};

verus! {

/// Triage category of a project.
#[derive(Debug, Clone, Copy, PartialEq, Eq, Structural)]
pub enum BriefCategory {
    NeedsAttention,
    WorkInProgress,
    Ready,
    Unverified,
}

impl BriefCategory {
    pub open spec fn spec_heading(self) -> Seq<char> {
        match self {
            BriefCategory::NeedsAttention => "Needs Attention"@,
            BriefCategory::WorkInProgress => "Work in Progress"@,
            BriefCategory::Ready => "Ready"@,
            BriefCategory::Unverified => "Unverified"@,
        }
    }

    /// Section heading of the category.
    pub fn heading(&self) -> (s: &'static str)
        ensures
            s@ == self.spec_heading(),
    {
        match self {
            BriefCategory::NeedsAttention => "Needs Attention",
            BriefCategory::WorkInProgress => "Work in Progress",
            BriefCategory::Ready => "Ready",
            BriefCategory::Unverified => "Unverified",
        }
    }

    /// Precedence in reports: Needs Attention first, Unverified last.
    pub open spec fn rank(self) -> nat {
        match self {
            BriefCategory::NeedsAttention => 0,
            BriefCategory::WorkInProgress => 1,
            BriefCategory::Ready => 2,
            BriefCategory::Unverified => 3,
        }
    }

    pub fn category_rank(&self) -> (r: u8)
        ensures
            r as nat == self.rank(),
    {
        match self {
            BriefCategory::NeedsAttention => 0,
            BriefCategory::WorkInProgress => 1,
            BriefCategory::Ready => 2,
            BriefCategory::Unverified => 3,
        }
    }
}

/// Why a project needs attention (or lacks evidence).
#[derive(Debug, Clone, PartialEq, Eq)]
pub enum AttentionReason {
    MissingProjectPath,
    GitInspectionFailed { message: String },
    LatestCommandFailed { command: String, exit_code: Option<i32> },
    DirtyWorkingTree,
    NoCommandHistory,
}

/// The next step suggested for a project.
#[derive(Debug, Clone, PartialEq, Eq)]
pub enum SuggestedAction {
    InspectLatestCommandFailure { command: String },
    RefreshTrackedProjects,
    InspectRepositoryGitState,
    ReviewUncommittedChanges,
    RunCommand { command: String },
}

impl SuggestedAction {
    pub open spec fn spec_text(&self) -> Seq<char> {
        match self {
            SuggestedAction::InspectLatestCommandFailure { command } => "Inspect the latest "@
                + command@ + " failure"@,
            SuggestedAction::RefreshTrackedProjects => "Run rustodian scan to refresh tracked projects"@,
            SuggestedAction::InspectRepositoryGitState => "Inspect repository Git state"@,
            SuggestedAction::ReviewUncommittedChanges => "Review uncommitted changes"@,
            SuggestedAction::RunCommand { command } => "Run rustodian run <project> "@ + command@,
        }
    }

    /// Human-readable text of the action.
    pub fn text(&self) -> (s: String)
        ensures
            s@ == self.spec_text(),
    {
        match self {
            SuggestedAction::InspectLatestCommandFailure { command } => concat3(
                "Inspect the latest ",
                command.as_str(),
                " failure",
            ),
            SuggestedAction::RefreshTrackedProjects => owned(
                "Run rustodian scan to refresh tracked projects",
            ),
            SuggestedAction::InspectRepositoryGitState => owned("Inspect repository Git state"),
            SuggestedAction::ReviewUncommittedChanges => owned("Review uncommitted changes"),
            SuggestedAction::RunCommand { command } => concat2(
                "Run rustodian run <project> ",
                command.as_str(),
            ),
        }
    }
}

/// Number of projects in each category.
#[derive(Debug, Clone)]
pub struct BriefCounts {
    pub needs_attention: usize,
    pub work_in_progress: usize,
    pub ready: usize,
    pub unverified: usize,
}

/// The triage of one project.
#[derive(Debug, Clone)]
pub struct ProjectBrief {
    pub project_id: ProjectId,
    pub name: String,
    pub path: String,
    pub languages: Vec<LanguageDetection>,
    pub live_vcs: Option<VcsInfo>,
    pub latest_command: Option<ProjectLog>,
    pub category: BriefCategory,
    pub attention_reasons: Vec<AttentionReason>,
    pub suggested_action: Option<SuggestedAction>,
}

/// A triage report.
#[derive(Debug, Clone)]
pub struct BriefReport {
    /// When the report was built, Unix nanoseconds.
    pub generated_at: i64,
    pub project_count: usize,
    pub category_counts: BriefCounts,
    pub projects: Vec<ProjectBrief>,
}

/// What was observed about one tracked project.
#[derive(Debug)]
pub struct ProjectObservation {
    pub project: Project,
    /// Whether the project's path exists.
    pub path_exists: bool,
    /// Outcome of Git inspection; the error text on failure. Consulted only
    /// when the path exists (a missing path is never inspected).
    pub git: Result<Option<VcsInfo>, String>,
    /// Recent execution logs of the project.
    pub logs: Vec<ProjectLog>,
}

// ----------------------------------------------------------------------------
// Specification of the triage of one project.
// ----------------------------------------------------------------------------

/// Housekeeping logs (`janitor:...`) record cleanup, not project health.
pub open spec fn is_housekeeping(name: Seq<char>) -> bool {
    has_prefix(name, "janitor:"@)
}

/// A log counts for health when its trimmed command name is non-empty and
/// not housekeeping.
pub open spec fn health_relevant(log: ProjectLog) -> bool {
    trim(log.command_name@).len() > 0 && !is_housekeeping(trim(log.command_name@))
}

/// The latest health-relevant log: the last one with the greatest `run_at`
/// (the choice of `Iterator::max_by_key`).
pub open spec fn latest_relevant(logs: Seq<ProjectLog>) -> Option<ProjectLog>
    decreases logs.len(),
{
    if logs.len() == 0 {
        None
    } else {
        let prev = latest_relevant(logs.drop_last());
        let l = logs.last();
        if health_relevant(l) && (prev is None || prev->0.run_at <= l.run_at) {
            Some(l)
        } else {
            prev
        }
    }
}

pub open spec fn log_failed(log: ProjectLog) -> bool {
    log.exit_code is Some && log.exit_code->0 != 0
}

pub open spec fn opt_failed(latest: Option<ProjectLog>) -> bool {
    latest is Some && log_failed(latest->0)
}

pub open spec fn opt_succeeded(latest: Option<ProjectLog>) -> bool {
    latest is Some && latest->0.exit_code == Some(0i32)
}

/// Version control state used by the report.
pub open spec fn observed_vcs(o: ProjectObservation) -> Option<VcsInfo> {
    if o.path_exists {
        match o.git {
            Ok(v) => v,
            Err(_) => None,
        }
    } else {
        None
    }
}

/// Git inspection error used by the report.
pub open spec fn observed_git_error(o: ProjectObservation) -> Option<String> {
    if o.path_exists {
        match o.git {
            Ok(_) => None,
            Err(m) => Some(m),
        }
    } else {
        None
    }
}

pub open spec fn observed_dirty(o: ProjectObservation) -> bool {
    observed_vcs(o) is Some && observed_vcs(o)->0.is_dirty
}

/// Category precedence: a missing path, a Git error or a failed latest
/// command need attention; then a dirty tree is work in progress; a clean
/// repository whose latest command succeeded is ready; anything else is
/// unverified.
pub open spec fn spec_category(
    path_exists: bool,
    git_error: bool,
    latest: Option<ProjectLog>,
    dirty: bool,
    has_vcs: bool,
) -> BriefCategory {
    if !path_exists || git_error || opt_failed(latest) {
        BriefCategory::NeedsAttention
    } else if dirty {
        BriefCategory::WorkInProgress
    } else if has_vcs && opt_succeeded(latest) {
        BriefCategory::Ready
    } else {
        BriefCategory::Unverified
    }
}

pub open spec fn reason_matches(r: AttentionReason, expected: AttentionReason) -> bool {
    match (r, expected) {
        (AttentionReason::GitInspectionFailed { message: a }, AttentionReason::GitInspectionFailed {
            message: b,
        }) => a@ == b@,
        (
            AttentionReason::LatestCommandFailed { command: a, exit_code: x },
            AttentionReason::LatestCommandFailed { command: b, exit_code: y },
        ) => a@ == b@ && x == y,
        (AttentionReason::MissingProjectPath, AttentionReason::MissingProjectPath) => true,
        (AttentionReason::DirtyWorkingTree, AttentionReason::DirtyWorkingTree) => true,
        (AttentionReason::NoCommandHistory, AttentionReason::NoCommandHistory) => true,
        _ => false,
    }
}

pub open spec fn opt_seq<A>(present: bool, a: A) -> Seq<A> {
    if present {
        seq![a]
    } else {
        seq![]
    }
}

/// The attention reasons, in this order: missing path, Git failure, failed
/// latest command, dirty tree, no command history.
pub open spec fn spec_reasons(o: ProjectObservation) -> Seq<AttentionReason> {
    let latest = latest_relevant(o.logs@);
    opt_seq(!o.path_exists, AttentionReason::MissingProjectPath) + opt_seq(
        observed_git_error(o) is Some,
        AttentionReason::GitInspectionFailed { message: observed_git_error(o)->0 },
    ) + opt_seq(
        opt_failed(latest),
        AttentionReason::LatestCommandFailed {
            command: latest->0.command_name,
            exit_code: latest->0.exit_code,
        },
    ) + opt_seq(observed_dirty(o), AttentionReason::DirtyWorkingTree) + opt_seq(
        latest is None,
        AttentionReason::NoCommandHistory,
    )
}

/// Index of the first command with the given name.
pub open spec fn first_command_named(cmds: Seq<ProjectCommand>, name: Seq<char>) -> Option<int>
    decreases cmds.len(),
{
    if cmds.len() == 0 {
        None
    } else if cmds[0].name@ == name {
        Some(0)
    } else {
        match first_command_named(cmds.drop_first(), name) {
            Some(i) => Some(i + 1),
            None => None,
        }
    }
}

/// The command suggested when nothing else is wrong: the first of `test`,
/// `check`, `verify` that the project has.
pub open spec fn suggested_command(cmds: Seq<ProjectCommand>) -> Option<Seq<char>> {
    if first_command_named(cmds, "test"@) is Some {
        Some("test"@)
    } else if first_command_named(cmds, "check"@) is Some {
        Some("check"@)
    } else if first_command_named(cmds, "verify"@) is Some {
        Some("verify"@)
    } else {
        None
    }
}

/// The kinds of suggested action.
pub enum ActionKind {
    InspectFailure(Seq<char>),
    Refresh,
    InspectGit,
    ReviewChanges,
    Run(Seq<char>),
}

pub open spec fn spec_action_kind(o: ProjectObservation) -> Option<ActionKind> {
    let latest = latest_relevant(o.logs@);
    if opt_failed(latest) {
        Some(ActionKind::InspectFailure(latest->0.command_name@))
    } else if !o.path_exists {
        Some(ActionKind::Refresh)
    } else if observed_git_error(o) is Some {
        Some(ActionKind::InspectGit)
    } else if observed_dirty(o) {
        Some(ActionKind::ReviewChanges)
    } else if latest is Some {
        None
    } else {
        match suggested_command(o.project.metadata.commands@) {
            Some(c) => Some(ActionKind::Run(c)),
            None => None,
        }
    }
}

pub open spec fn action_kind(a: Option<SuggestedAction>) -> Option<ActionKind> {
    match a {
        None => None,
        Some(SuggestedAction::InspectLatestCommandFailure { command }) => Some(
            ActionKind::InspectFailure(command@),
        ),
        Some(SuggestedAction::RefreshTrackedProjects) => Some(ActionKind::Refresh),
        Some(SuggestedAction::InspectRepositoryGitState) => Some(ActionKind::InspectGit),
        Some(SuggestedAction::ReviewUncommittedChanges) => Some(ActionKind::ReviewChanges),
        Some(SuggestedAction::RunCommand { command }) => Some(ActionKind::Run(command@)),
    }
}

/// `b` is the triage of the observed project `o`.
pub open spec fn brief_of(b: ProjectBrief, o: ProjectObservation) -> bool {
    let latest = latest_relevant(o.logs@);
    &&& b.project_id == o.project.id
    &&& b.name == o.project.name
    &&& b.path == o.project.path
    &&& b.languages == o.project.languages
    &&& b.live_vcs == observed_vcs(o)
    &&& b.latest_command == latest
    &&& b.category == spec_category(
        o.path_exists,
        observed_git_error(o) is Some,
        latest,
        observed_dirty(o),
        observed_vcs(o) is Some,
    )
    &&& b.attention_reasons@.len() == spec_reasons(o).len()
    &&& forall|i: int|
        0 <= i < b.attention_reasons@.len() ==> reason_matches(
            #[trigger] b.attention_reasons@[i],
            spec_reasons(o)[i],
        )
    &&& action_kind(b.suggested_action) == spec_action_kind(o)
}

// ----------------------------------------------------------------------------
// Triage of one project.
// ----------------------------------------------------------------------------

/// Whether a command name is housekeeping (`janitor:...`), which records
/// cleanup bookkeeping rather than project health.
pub fn is_housekeeping_log(command_name: &str) -> (b: bool)
    ensures
        b == is_housekeeping(command_name@),
{
    let name = to_chars(command_name);
    let prefix = to_chars("janitor:");
    starts_with(&name, &prefix)
}

/// Whether a log's command name counts for project health.
pub fn is_health_relevant(log: &ProjectLog) -> (b: bool)
    ensures
        b == health_relevant(*log),
{
    let name = to_chars(log.command_name.as_str());
    let t = trim_chars(&name);
    let trimmed = crate::text::from_chars(&t);
    t.len() > 0 && !is_housekeeping_log(trimmed.as_str())
}

/// Whether Git inspection failed, among the reasons a project needs attention.
pub fn git_error_was_present(reasons: &Vec<AttentionReason>) -> (b: bool)
    ensures
        b == exists|i: int| 0 <= i < reasons@.len() && #[trigger] reasons@[i] is GitInspectionFailed,
{
    let mut i: usize = 0;
    while i < reasons.len()
        invariant
            i <= reasons.len(),
            forall|j: int| 0 <= j < i ==> !(#[trigger] reasons@[j] is GitInspectionFailed),
        decreases reasons.len() - i,
    {
        match &reasons[i] {
            AttentionReason::GitInspectionFailed { .. } => {
                assert(reasons@[i as int] is GitInspectionFailed);
                return true;
            },
            _ => {},
        }
        i += 1;
    }
    false
}

/// The latest health-relevant log.
pub fn select_latest_command(logs: Vec<ProjectLog>) -> (r: Option<ProjectLog>)
    ensures
        r == latest_relevant(logs@),
{
    let ghost all = logs@;
    let mut best: Option<ProjectLog> = None;
    for log in it: logs.into_iter()
        invariant
            it.seq() == all,
            best == latest_relevant(all.take(it.index() as int)),
    {
        proof {
            assert(all.take(it.index() + 1).drop_last() =~= all.take(it.index() as int));
            assert(all.take(it.index() + 1).last() == log);
        }
        let relevant = is_health_relevant(&log);
        let newer = match &best {
            None => true,
            Some(b) => b.run_at <= log.run_at,
        };
        if relevant && newer {
            best = Some(log);
        }
    }
    proof {
        assert(all.take(all.len() as int) =~= all);
    }
    best
}

fn first_command_index(cmds: &Vec<ProjectCommand>, name: &str) -> (r: Option<usize>)
    ensures
        match r {
            Some(i) => first_command_named(cmds@, name@) == Some(i as int),
            None => first_command_named(cmds@, name@) is None,
        },
{
    let mut i = cmds.len();
    let mut found: Option<usize> = None;
    while i > 0
        invariant
            i <= cmds.len(),
            match found {
                Some(k) => first_command_named(cmds@.skip(i as int), name@) == Some(k - i),
                None => first_command_named(cmds@.skip(i as int), name@) is None,
            },
            found matches Some(k) ==> i <= k < cmds.len(),
        decreases i,
    {
        assert(cmds@.skip(i - 1).drop_first() =~= cmds@.skip(i as int));
        assert(cmds@.skip(i - 1)[0] == cmds@[i - 1]);
        if str_eq(cmds[i - 1].name.as_str(), name) {
            found = Some(i - 1);
        }
        i -= 1;
    }
    assert(cmds@.skip(0) =~= cmds@);
    found
}

fn suggested_run_command(cmds: &Vec<ProjectCommand>) -> (r: Option<String>)
    ensures
        match r {
            Some(s) => suggested_command(cmds@) == Some(s@),
            None => suggested_command(cmds@) is None,
        },
{
    if first_command_index(cmds, "test").is_some() {
        Some(owned("test"))
    } else if first_command_index(cmds, "check").is_some() {
        Some(owned("check"))
    } else if first_command_index(cmds, "verify").is_some() {
        Some(owned("verify"))
    } else {
        None
    }
}

/// Triage one observed project.
pub fn brief_project(o: ProjectObservation) -> (b: ProjectBrief)
    ensures
        brief_of(b, o),
{
    let ghost og = o;
    let ProjectObservation { project, path_exists, git, logs } = o;
    let (live_vcs, git_error): (Option<VcsInfo>, Option<String>) = if path_exists {
        match git {
            Ok(v) => (v, None),
            Err(m) => (None, Some(m)),
        }
    } else {
        (None, None)
    };
    let latest = select_latest_command(logs);
    let failed = match &latest {
        Some(l) => match l.exit_code {
            Some(c) => c != 0,
            None => false,
        },
        None => false,
    };
    let succeeded = match &latest {
        Some(l) => match l.exit_code {
            Some(c) => c == 0,
            None => false,
        },
        None => false,
    };
    let dirty = match &live_vcs {
        Some(v) => v.is_dirty,
        None => false,
    };
    let has_git_error = git_error.is_some();

    let mut reasons: Vec<AttentionReason> = Vec::new();
    let ghost expected = spec_reasons(og);
    if !path_exists {
        reasons.push(AttentionReason::MissingProjectPath);
    }
    let ghost r1 = opt_seq(!path_exists, AttentionReason::MissingProjectPath);
    assert(reasons@.len() == r1.len());
    match &git_error {
        Some(m) => {
            reasons.push(AttentionReason::GitInspectionFailed { message: m.clone() });
        },
        None => {},
    }
    if failed {
        match &latest {
            Some(l) => {
                reasons.push(
                    AttentionReason::LatestCommandFailed {
                        command: l.command_name.clone(),
                        exit_code: l.exit_code,
                    },
                );
            },
            None => {},
        }
    }
    if dirty {
        reasons.push(AttentionReason::DirtyWorkingTree);
    }
    if latest.is_none() {
        reasons.push(AttentionReason::NoCommandHistory);
    }
    assert(reasons@.len() == expected.len());
    assert forall|i: int| 0 <= i < reasons@.len() implies reason_matches(
        #[trigger] reasons@[i],
        expected[i],
    ) by {
        let n0: int = if !path_exists { 1 } else { 0 };
        let n1: int = n0 + if has_git_error { 1int } else { 0int };
        let n2: int = n1 + if failed { 1int } else { 0int };
        let n3: int = n2 + if dirty { 1int } else { 0int };
        if i < n0 {
        } else if i < n1 {
        } else if i < n2 {
        } else if i < n3 {
        } else {
        }
    }

    let category = if !path_exists || has_git_error || failed {
        BriefCategory::NeedsAttention
    } else if dirty {
        BriefCategory::WorkInProgress
    } else if live_vcs.is_some() && succeeded {
        BriefCategory::Ready
    } else {
        BriefCategory::Unverified
    };

    let suggested_action = if failed {
        match &latest {
            Some(l) => Some(
                SuggestedAction::InspectLatestCommandFailure { command: l.command_name.clone() },
            ),
            None => None,
        }
    } else if !path_exists {
        Some(SuggestedAction::RefreshTrackedProjects)
    } else if has_git_error {
        Some(SuggestedAction::InspectRepositoryGitState)
    } else if dirty {
        Some(SuggestedAction::ReviewUncommittedChanges)
    } else if latest.is_some() {
        None
    } else {
        match suggested_run_command(&project.metadata.commands) {
            Some(c) => Some(SuggestedAction::RunCommand { command: c }),
            None => None,
        }
    };

    ProjectBrief {
        project_id: project.id,
        name: project.name,
        path: project.path,
        languages: project.languages,
        live_vcs,
        latest_command: latest,
        category,
        attention_reasons: reasons,
        suggested_action,
    }
}


// ----------------------------------------------------------------------------
// Report order and counts.
// ----------------------------------------------------------------------------

/// Time of the latest health-relevant command of a project, if any.
pub open spec fn activity(b: ProjectBrief) -> Option<i64> {
    match b.latest_command {
        Some(l) => Some(l.run_at),
        None => None,
    }
}

/// Descending activity: later activity first, no activity last.
pub open spec fn activity_before(a: Option<i64>, b: Option<i64>) -> bool {
    match (a, b) {
        (Some(x), Some(y)) => x > y,
        (Some(_), None) => true,
        _ => false,
    }
}

/// Report order: category precedence, then latest activity (most recent
/// first), then name.
impl TotalOrder for ProjectBrief {
    open spec fn le(self, other: Self) -> bool {
        ||| self.category.rank() < other.category.rank()
        ||| self.category.rank() == other.category.rank() && activity_before(
            activity(self),
            activity(other),
        )
        ||| self.category.rank() == other.category.rank() && activity(self) == activity(other)
            && chars_le(self.name@, other.name@)
    }

    proof fn le_total(a: Self, b: Self) {
        lemma_chars_le_total(a.name@, b.name@);
    }

    proof fn le_transitive(a: Self, b: Self, c: Self) {
        if a.category.rank() == b.category.rank() && b.category.rank() == c.category.rank()
            && activity(a) == activity(b) && activity(b) == activity(c) {
            lemma_chars_le_transitive(a.name@, b.name@, c.name@);
        }
    }

    fn le_exec(&self, other: &Self) -> (r: bool) {
        let ra = self.category.category_rank();
        let rb = other.category.category_rank();
        if ra != rb {
            return ra < rb;
        }
        let aa: Option<i64> = match &self.latest_command {
            Some(l) => Some(l.run_at),
            None => None,
        };
        let ab: Option<i64> = match &other.latest_command {
            Some(l) => Some(l.run_at),
            None => None,
        };
        match (aa, ab) {
            (Some(x), Some(y)) => {
                if x != y {
                    return x > y;
                }
            },
            (Some(_), None) => {
                return true;
            },
            (None, Some(_)) => {
                return false;
            },
            (None, None) => {},
        }
        str_le(self.name.as_str(), other.name.as_str())
    }
}

/// Number of projects of category `c` in `s`.
pub open spec fn count_in(s: Seq<ProjectBrief>, c: BriefCategory) -> nat
    decreases s.len(),
{
    if s.len() == 0 {
        0
    } else {
        count_in(s.drop_last(), c) + if s.last().category == c {
            1nat
        } else {
            0nat
        }
    }
}

pub open spec fn counts_of(k: BriefCounts, s: Seq<ProjectBrief>) -> bool {
    &&& k.needs_attention == count_in(s, BriefCategory::NeedsAttention)
    &&& k.work_in_progress == count_in(s, BriefCategory::WorkInProgress)
    &&& k.ready == count_in(s, BriefCategory::Ready)
    &&& k.unverified == count_in(s, BriefCategory::Unverified)
}

/// What a project's category means, in terms of what was observed:
/// - it needs attention exactly when its path is missing, Git inspection
///   failed, or its latest health-relevant command exited with a nonzero code;
/// - otherwise it is work in progress exactly when it is a Git repository with
///   a dirty working tree;
/// - otherwise it is ready exactly when it is a Git repository (clean) and
///   its latest health-relevant command exited with 0;
/// - in every other case (no repository, no command history, a command still
///   running) it is unverified. Without a repository a project is never ready.
pub proof fn lemma_category_meaning(b: ProjectBrief, o: ProjectObservation)
    requires
        brief_of(b, o),
    ensures
        b.category == BriefCategory::NeedsAttention <==> (!o.path_exists || o.git is Err || (
        b.latest_command is Some && b.latest_command->0.exit_code is Some
            && b.latest_command->0.exit_code->0 != 0)),
        b.category == BriefCategory::WorkInProgress <==> (b.category != BriefCategory::NeedsAttention
            && o.git is Ok && o.git->Ok_0 is Some && o.git->Ok_0->0.is_dirty),
        b.category == BriefCategory::Ready <==> (b.category != BriefCategory::NeedsAttention && o.git is Ok
            && o.git->Ok_0 is Some && !o.git->Ok_0->0.is_dirty && b.latest_command is Some
            && b.latest_command->0.exit_code == Some(0i32)),
        o.git is Ok && o.git->Ok_0 is None ==> b.category != BriefCategory::Ready,
        b.category == BriefCategory::Ready ==> (b.live_vcs is Some && b.latest_command is Some
            && b.latest_command->0.exit_code == Some(0i32)),
{
}

/// The four category counts add up to the number of projects.
pub proof fn lemma_counts_total(s: Seq<ProjectBrief>)
    ensures
        count_in(s, BriefCategory::NeedsAttention) + count_in(s, BriefCategory::WorkInProgress)
            + count_in(s, BriefCategory::Ready) + count_in(s, BriefCategory::Unverified) == s.len(),
    decreases s.len(),
{
    if s.len() > 0 {
        lemma_counts_total(s.drop_last());
    }
}

/// Count the projects of each category.
pub fn count_categories(records: &Vec<ProjectBrief>) -> (k: BriefCounts)
    ensures
        counts_of(k, records@),
{
    let mut k = BriefCounts { needs_attention: 0, work_in_progress: 0, ready: 0, unverified: 0 };
    let mut i: usize = 0;
    while i < records.len()
        invariant
            i <= records.len(),
            counts_of(k, records@.take(i as int)),
        decreases records.len() - i,
    {
        proof {
            assert(records@.take(i + 1).drop_last() =~= records@.take(i as int));
            lemma_counts_total(records@.take(i as int));
        }
        match records[i].category {
            BriefCategory::NeedsAttention => k.needs_attention = k.needs_attention + 1,
            BriefCategory::WorkInProgress => k.work_in_progress = k.work_in_progress + 1,
            BriefCategory::Ready => k.ready = k.ready + 1,
            BriefCategory::Unverified => k.unverified = k.unverified + 1,
        }
        i += 1;
    }
    assert(records@.take(records.len() as int) =~= records@);
    k
}

/// Order triaged projects deterministically (stable): category precedence,
/// then latest activity with the most recent first, then name.
pub fn order_briefs(records: Vec<ProjectBrief>) -> (r: Vec<ProjectBrief>)
    ensures
        r@ == isort(records@),
        sorted(r@),
        r@.to_multiset() == records@.to_multiset(),
{
    sort_stable(records)
}

/// Build the triage report of the observed projects.
pub fn build_brief(observations: Vec<ProjectObservation>, generated_at: i64) -> (r: BriefReport)
    ensures
        r.generated_at == generated_at,
        r.project_count == observations@.len(),
        exists|b: Seq<ProjectBrief>|
            {
                &&& b.len() == observations@.len()
                &&& forall|i: int| 0 <= i < b.len() ==> brief_of(#[trigger] b[i], observations@[i])
                &&& r.projects@ == isort(b)
            },
        counts_of(r.category_counts, r.projects@),
{
    let ghost obs = observations@;
    let mut records: Vec<ProjectBrief> = Vec::new();
    for o in it: observations.into_iter()
        invariant
            it.seq() == obs,
            records@.len() == it.index(),
            forall|i: int| 0 <= i < records@.len() ==> brief_of(#[trigger] records@[i], obs[i]),
    {
        let b = brief_project(o);
        records.push(b);
    }
    let ghost unsorted = records@;
    let projects = order_briefs(records);
    let counts = count_categories(&projects);
    proof {
        crate::order::lemma_isort_permutation(unsorted);
    }
    BriefReport {
        generated_at,
        project_count: projects.len(),
        category_counts: counts,
        projects,
    }
}

// ----------------------------------------------------------------------------
// Laws.
// ----------------------------------------------------------------------------

/// The latest command is health-relevant, is one of the logs, and no relevant
/// log ran later; there is none only when no log is health-relevant.
pub proof fn lemma_latest_is_latest(logs: Seq<ProjectLog>)
    ensures
        match latest_relevant(logs) {
            Some(l) => {
                &&& health_relevant(l)
                &&& logs.contains(l)
                &&& forall|i: int|
                    0 <= i < logs.len() && health_relevant(#[trigger] logs[i]) ==> logs[i].run_at
                        <= l.run_at
            },
            None => forall|i: int| 0 <= i < logs.len() ==> !health_relevant(#[trigger] logs[i]),
        },
    decreases logs.len(),
{
    if logs.len() > 0 {
        let prev = logs.drop_last();
        lemma_latest_is_latest(prev);
        assert forall|i: int| 0 <= i < logs.len() - 1 implies #[trigger] logs[i] == prev[i] by {}
        match latest_relevant(prev) {
            Some(p) => {
                assert(prev.contains(p));
                let k = choose|k: int| 0 <= k < prev.len() && prev[k] == p;
                assert(logs[k] == p);
            },
            None => {},
        }
        assert(logs[logs.len() - 1] == logs.last());
    }
}

/// Housekeeping logs never change which command counts as latest: adding one
/// anywhere leaves the latest health-relevant command as it was.
pub proof fn lemma_housekeeping_ignored(logs: Seq<ProjectLog>, pos: int, h: ProjectLog)
    requires
        0 <= pos <= logs.len(),
        !health_relevant(h),
    ensures
        latest_relevant(logs.insert(pos, h)) == latest_relevant(logs),
    decreases logs.len(),
{
    let with = logs.insert(pos, h);
    if pos == logs.len() {
        assert(with.drop_last() =~= logs);
    } else {
        lemma_housekeeping_ignored(logs.drop_last(), pos, h);
        assert(with.drop_last() =~= logs.drop_last().insert(pos, h));
        assert(with.last() == logs.last());
    }
}

/// A report lists its projects in report order.
pub proof fn lemma_report_sorted(b: Seq<ProjectBrief>)
    ensures
        sorted(isort(b)),
        isort(b).to_multiset() == b.to_multiset(),
{
    crate::order::lemma_isort_sorted(b);
    crate::order::lemma_isort_permutation(b);
}

} // verus!
