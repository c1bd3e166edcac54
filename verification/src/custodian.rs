//! Decisions of the orchestrator: how a scan folds discovered projects into the
//! tracked ones, how stale records are pruned, how a project and a command are
//! found, what a command's exit status means, and the status summary.
//!
//! Scans are additive: they never delete tracked projects. Only an explicit
//! prune removes records, and a prune is a dry run unless it purges.

use vstd::prelude::*;

use crate::error::CoreError;
use crate::order::{TotalOrder, isort, sort_stable, sorted};
use crate::scanner::DiscoveredProject;
use crate::text::{chars_le, chars_lt, concat2, lemma_chars_le_total, lemma_chars_le_transitive,
    owned, str_eq, str_le};
use crate::types::{
    Language, Project, ProjectCommand, ProjectId, ProjectLog, ProjectMetadata, ProjectRootMarker,
    ScanId, ScanRecord, ScanStatus, VcsInfo, is_random_uuid, uuid_text,
};

verus! {

// ----------------------------------------------------------------------------
// Scans.
// ----------------------------------------------------------------------------

/// Report of a scan.
#[derive(Debug, Clone)]
pub struct ScanReport {
    pub scan_id: ScanId,
    pub projects_found: usize,
    pub projects_new: usize,
    pub projects_updated: usize,
    /// Always zero: scans never delete tracked projects.
    pub projects_purged: usize,
}

/// The platform of the first project-root marker, if any.
pub open spec fn first_platform(roots: Seq<ProjectRootMarker>) -> Option<Seq<char>> {
    if roots.len() == 0 {
        None
    } else {
        Some(roots[0].spec_platform())
    }
}

/// `r` is the discovered project `d` folded into the tracked one at its path,
/// if any, with version-control state `vcs`, at instant `now`.
pub open spec fn merge_of(
    r: (Project, bool),
    existing: Option<Project>,
    d: DiscoveredProject,
    vcs: Option<VcsInfo>,
    now: i64,
) -> bool {
    &&& r.1 == existing is None
    &&& r.0.name == d.name
    &&& r.0.languages == d.languages
    &&& r.0.metadata.commands == d.commands
    &&& r.0.vcs == vcs
    &&& r.0.last_scanned_at == Some(now)
    &&& match existing {
        Some(e) => {
            &&& r.0.id == e.id
            &&& r.0.path == e.path
            &&& r.0.discovered_at == e.discovered_at
            &&& r.0.metadata.description == e.metadata.description
            &&& r.0.metadata.tags == e.metadata.tags
            &&& r.0.metadata.platform == e.metadata.platform
            &&& r.0.metadata.extra == e.metadata.extra
        },
        None => {
            &&& is_random_uuid(r.0.id.0)
            &&& r.0.path == d.path
            &&& r.0.discovered_at == now
            &&& r.0.metadata.description is None
            &&& r.0.metadata.tags@.len() == 0
            &&& r.0.metadata.platform.deep_view() == first_platform(d.project_roots@)
            &&& r.0.metadata.extra@.len() == 0
        },
    }
}

/// A discovered project folded into the tracked one at its path, if any.
///
/// A tracked project keeps its identity, path, discovery time and the rest of
/// its metadata; its name, languages, commands and version-control state are
/// replaced and it is marked scanned at `now`. A new project gets a fresh
/// random (version 4) identifier, is discovered and scanned at `now`, and
/// records the platform of its first project-root marker. The flag says
/// whether the project is new.
pub fn merge_discovered(
    existing: Option<Project>,
    d: DiscoveredProject,
    vcs: Option<VcsInfo>,
    now: i64,
) -> (r: (Project, bool))
    ensures
        merge_of(r, existing, d, vcs, now),
{
    match existing {
        Some(e) => {
            let Project { id, name: _, path, languages: _, vcs: _, discovered_at, last_scanned_at: _, metadata } = e;
            let ProjectMetadata { description, tags, commands: _, platform, extra } = metadata;
            let project = Project {
                id,
                name: d.name,
                path,
                languages: d.languages,
                vcs,
                discovered_at,
                last_scanned_at: Some(now),
                metadata: ProjectMetadata { description, tags, commands: d.commands, platform, extra },
            };
            (project, false)
        },
        None => {
            let platform = if d.project_roots.len() > 0 {
                Some(owned(d.project_roots[0].platform()))
            } else {
                None
            };
            let project = Project {
                id: ProjectId::new(),
                name: d.name,
                path: d.path,
                languages: d.languages,
                vcs,
                discovered_at: now,
                last_scanned_at: Some(now),
                metadata: ProjectMetadata {
                    description: None,
                    tags: Vec::new(),
                    commands: d.commands,
                    platform,
                    extra: Vec::new(),
                },
            };
            (project, true)
        },
    }
}

/// Counts of new and updated projects while a scan is folded in.
#[derive(Debug)]
pub struct ScanTally {
    pub found: usize,
    pub new: usize,
    pub updated: usize,
}

impl ScanTally {
    pub fn new() -> (t: Self)
        ensures
            t.found == 0 && t.new == 0 && t.updated == 0,
    {
        ScanTally { found: 0, new: 0, updated: 0 }
    }

    /// Counts one stored project, new or updated.
    pub fn record(&mut self, is_new: bool)
        requires
            old(self).found < usize::MAX,
            old(self).new + old(self).updated == old(self).found,
        ensures
            final(self).found == old(self).found + 1,
            final(self).new == old(self).new + (if is_new { 1usize } else { 0usize }),
            final(self).updated == old(self).updated + (if is_new { 0usize } else { 1usize }),
            final(self).new + final(self).updated == final(self).found,
    {
        self.found = self.found + 1;
        if is_new {
            self.new = self.new + 1;
        } else {
            self.updated = self.updated + 1;
        }
    }

    /// The report of a finished scan; nothing is ever purged by a scan.
    pub fn report(&self, scan_id: ScanId) -> (r: ScanReport)
        ensures
            r.scan_id == scan_id,
            r.projects_found == self.found,
            r.projects_new == self.new,
            r.projects_updated == self.updated,
            r.projects_purged == 0,
    {
        ScanReport {
            scan_id,
            projects_found: self.found,
            projects_new: self.new,
            projects_updated: self.updated,
            projects_purged: 0,
        }
    }
}

/// What a scan knows of one discovered project before folding it in: the
/// tracked project at its path, if any, its version-control state, and the
/// instant it is folded in.
#[derive(Debug)]
pub struct ScanItem {
    pub discovered: DiscoveredProject,
    pub existing: Option<Project>,
    pub vcs: Option<VcsInfo>,
    pub now: i64,
}

/// The number of items with no tracked project at their path.
pub open spec fn count_new(items: Seq<ScanItem>) -> nat
    decreases items.len(),
{
    if items.len() == 0 {
        0
    } else {
        count_new(items.drop_last()) + if items.last().existing is None {
            1nat
        } else {
            0nat
        }
    }
}

proof fn lemma_count_new_bound(items: Seq<ScanItem>)
    ensures
        count_new(items) <= items.len(),
    decreases items.len(),
{
    if items.len() > 0 {
        lemma_count_new_bound(items.drop_last());
    }
}

/// Folds every discovered project of a scan into the tracked ones: one
/// project to store per discovered project, each the fold of its item, and
/// the tally of the scan. Every discovered project is counted, as new exactly
/// when nothing was tracked at its path and as updated otherwise; a scan
/// removes no tracked project.
pub fn fold_scan(items: Vec<ScanItem>) -> (r: (Vec<Project>, ScanTally))
    ensures
        r.0@.len() == items@.len(),
        forall|i: int|
            0 <= i < items@.len() ==> merge_of(
                (#[trigger] r.0@[i], items@[i].existing is None),
                items@[i].existing,
                items@[i].discovered,
                items@[i].vcs,
                items@[i].now,
            ),
        r.1.found == items@.len(),
        r.1.new == count_new(items@),
        r.1.updated == items@.len() - count_new(items@),
{
    let ghost all = items@;
    let total: usize = items.len();
    let mut rest = items;
    let mut projects: Vec<Project> = Vec::new();
    let mut tally = ScanTally::new();
    let mut i: usize = 0;
    while rest.len() > 0
        invariant
            i + rest@.len() == all.len(),
            all.len() == total,
            rest@ == all.skip(i as int),
            projects@.len() == i,
            forall|k: int|
                0 <= k < i ==> merge_of(
                    (#[trigger] projects@[k], all[k].existing is None),
                    all[k].existing,
                    all[k].discovered,
                    all[k].vcs,
                    all[k].now,
                ),
            tally.found == i,
            tally.new == count_new(all.take(i as int)),
            tally.new + tally.updated == tally.found,
        decreases rest@.len(),
    {
        let item = rest.remove(0);
        assert(item == all[i as int]);
        let ScanItem { discovered, existing, vcs, now } = item;
        let (project, is_new) = merge_discovered(existing, discovered, vcs, now);
        proof {
            assert(all.take(i + 1).drop_last() =~= all.take(i as int));
            assert(all.take(i + 1).last() == all[i as int]);
            lemma_count_new_bound(all.take(i as int));
        }
        tally.record(is_new);
        projects.push(project);
        i = i + 1;
        proof {
            assert(rest@ =~= all.skip(i as int));
        }
    }
    assert(all.take(i as int) =~= all);
    (projects, tally)
}

/// The version-control state a scan records: what inspection found, or none
/// when inspection failed (the project is indexed without it).
pub fn inspection_vcs(inspected: Result<Option<VcsInfo>, CoreError>) -> (v: Option<VcsInfo>)
    ensures
        v == match inspected {
            Ok(found) => found,
            Err(_) => None,
        },
{
    match inspected {
        Ok(found) => found,
        Err(_) => None,
    }
}

/// The record of a completed scan of `root_path` that found `found` projects.
pub fn completed_scan(root_path: String, started_at: i64, completed_at: i64, found: usize) -> (r:
    ScanRecord)
    ensures
        r.root_path == root_path,
        r.started_at == started_at,
        r.completed_at == Some(completed_at),
        r.projects_found == found,
        r.status == ScanStatus::Completed,
{
    ScanRecord {
        id: ScanId::new(),
        root_path,
        started_at,
        completed_at: Some(completed_at),
        projects_found: found,
        status: ScanStatus::Completed,
    }
}

// ----------------------------------------------------------------------------
// Pruning.
// ----------------------------------------------------------------------------

/// Disposition of one stale project during a prune.
#[derive(Debug, Clone, Copy, PartialEq, Eq, Structural)]
pub enum PruneOutcome {
    /// The path is missing; the record was kept (dry run).
    Detected,
    /// The path is missing; the record was deleted.
    Purged,
}

impl PruneOutcome {
    pub open spec fn label(self) -> Seq<char> {
        match self {
            PruneOutcome::Detected => "detected"@,
            PruneOutcome::Purged => "purged"@,
        }
    }

    /// Stable label used in reports.
    pub fn as_str(self) -> (s: &'static str)
        ensures
            s@ == self.label(),
    {
        match self {
            PruneOutcome::Detected => "detected",
            PruneOutcome::Purged => "purged",
        }
    }

    /// The outcome for a stale project: purged when purging, detected otherwise.
    pub fn for_prune(purge: bool) -> (o: Self)
        ensures
            o == (if purge { PruneOutcome::Purged } else { PruneOutcome::Detected }),
    {
        if purge {
            PruneOutcome::Purged
        } else {
            PruneOutcome::Detected
        }
    }
}

/// One stale project of a prune.
#[derive(Debug, Clone)]
pub struct PruneProjectResult {
    pub id: ProjectId,
    pub name: String,
    pub path: String,
    pub outcome: PruneOutcome,
}

/// Report of a prune.
#[derive(Debug, Clone)]
pub struct PruneReport {
    /// True when nothing was mutated.
    pub dry_run: bool,
    /// Number of tracked projects whose path no longer exists.
    pub stale_project_count: usize,
    /// One result per stale project.
    pub projects: Vec<PruneProjectResult>,
}

impl PruneReport {
    /// The report of a prune that found these stale projects.
    pub fn new(purge: bool, projects: Vec<PruneProjectResult>) -> (r: Self)
        ensures
            r.dry_run == !purge,
            r.stale_project_count == projects@.len(),
            r.projects == projects,
    {
        PruneReport { dry_run: !purge, stale_project_count: projects.len(), projects }
    }
}

// ----------------------------------------------------------------------------
// Finding projects and commands; exit statuses.
// ----------------------------------------------------------------------------

/// Where `query` finds a project: the first one named `query`, else the first
/// whose identifier's text is `query`.
pub open spec fn found_at(all: Seq<Project>, query: Seq<char>) -> Option<int> {
    if exists|i: int| 0 <= i < all.len() && #[trigger] all[i].name@ == query {
        Some(choose|i: int| 0 <= i < all.len() && all[i].name@ == query && forall|j: int| 0 <= j < i ==> #[trigger] all[j].name@ != query)
    } else if exists|i: int| 0 <= i < all.len() && #[trigger] uuid_text(all[i].id.0) == query {
        Some(choose|i: int| 0 <= i < all.len() && uuid_text(all[i].id.0) == query && forall|j: int| 0 <= j < i ==> uuid_text(#[trigger] all[j].id.0) != query)
    } else {
        None
    }
}

/// The index of the first project satisfying a test, as computed below.
fn first_named(all: &Vec<Project>, query: &str) -> (r: Option<usize>)
    ensures
        match r {
            Some(i) => i < all@.len() && all@[i as int].name@ == query@ && forall|j: int| 0 <= j < i ==> #[trigger] all@[j].name@ != query@,
            None => forall|j: int| 0 <= j < all@.len() ==> #[trigger] all@[j].name@ != query@,
        },
{
    let mut i: usize = 0;
    while i < all.len()
        invariant
            i <= all.len(),
            forall|j: int| 0 <= j < i ==> #[trigger] all@[j].name@ != query@,
        decreases all.len() - i,
    {
        if str_eq(all[i].name.as_str(), query) {
            return Some(i);
        }
        i += 1;
    }
    None
}

fn first_with_id(all: &Vec<Project>, query: &str) -> (r: Option<usize>)
    ensures
        match r {
            Some(i) => i < all@.len() && uuid_text(all@[i as int].id.0) == query@ && forall|j: int| 0 <= j < i ==> uuid_text(#[trigger] all@[j].id.0) != query@,
            None => forall|j: int| 0 <= j < all@.len() ==> uuid_text(#[trigger] all@[j].id.0) != query@,
        },
{
    let mut i: usize = 0;
    while i < all.len()
        invariant
            i <= all.len(),
            forall|j: int| 0 <= j < i ==> uuid_text(#[trigger] all@[j].id.0) != query@,
        decreases all.len() - i,
    {
        let t = all[i].id.text();
        if str_eq(t.as_str(), query) {
            return Some(i);
        }
        i += 1;
    }
    None
}

proof fn lemma_first_unique(all: Seq<Project>, query: Seq<char>, i: int, by_name: bool)
    requires
        0 <= i < all.len(),
        by_name ==> all[i].name@ == query && forall|j: int| 0 <= j < i ==> #[trigger] all[j].name@ != query,
        !by_name ==> uuid_text(all[i].id.0) == query && forall|j: int| 0 <= j < i ==> uuid_text(#[trigger] all[j].id.0) != query,
    ensures
        by_name ==> (choose|k: int| 0 <= k < all.len() && all[k].name@ == query && forall|j: int| 0 <= j < k ==> #[trigger] all[j].name@ != query) == i,
        !by_name ==> (choose|k: int| 0 <= k < all.len() && uuid_text(all[k].id.0) == query && forall|j: int| 0 <= j < k ==> uuid_text(#[trigger] all[j].id.0) != query) == i,
{
    if by_name {
        let k = choose|k: int| 0 <= k < all.len() && all[k].name@ == query && forall|j: int| 0 <= j < k ==> #[trigger] all[j].name@ != query;
        assert(0 <= k < all.len() && all[k].name@ == query);
        if k < i {
            assert(all[k].name@ != query);
        }
        if i < k {
            assert(all[i].name@ != query);
        }
    } else {
        let k = choose|k: int| 0 <= k < all.len() && uuid_text(all[k].id.0) == query && forall|j: int| 0 <= j < k ==> uuid_text(#[trigger] all[j].id.0) != query;
        assert(0 <= k < all.len() && uuid_text(all[k].id.0) == query);
        if k < i {
            assert(uuid_text(all[k].id.0) != query);
        }
        if i < k {
            assert(uuid_text(all[i].id.0) != query);
        }
    }
}

/// Finds a project by name, else by identifier text.
pub fn find_project(all: Vec<Project>, query: &str) -> (r: Option<Project>)
    ensures
        match found_at(all@, query@) {
            Some(i) => r == Some(all@[i]),
            None => r is None,
        },
{
    let mut all = all;
    let ghost a = all@;
    match first_named(&all, query) {
        Some(i) => {
            proof {
                lemma_first_unique(a, query@, i as int, true);
            }
            Some(all.remove(i))
        },
        None => match first_with_id(&all, query) {
            Some(i) => {
                proof {
                    lemma_first_unique(a, query@, i as int, false);
                }
                Some(all.remove(i))
            },
            None => None,
        },
    }
}

/// The first command of `commands` named `name`.
pub open spec fn command_named(commands: Seq<ProjectCommand>, name: Seq<char>) -> Option<int> {
    if exists|i: int| 0 <= i < commands.len() && #[trigger] commands[i].name@ == name {
        Some(choose|i: int| 0 <= i < commands.len() && commands[i].name@ == name && forall|j: int| 0 <= j < i ==> #[trigger] commands[j].name@ != name)
    } else {
        None
    }
}

/// The command named `command_name` of a project, or the error the run
/// reports: `Command '<name>' not found in project '<project>'` (a storage error).
pub fn select_command(project: &Project, command_name: &str) -> (r: Result<ProjectCommand, CoreError>)
    ensures
        match command_named(project.metadata.commands@, command_name@) {
            Some(i) => r matches Ok(c) && c == project.metadata.commands@[i],
            None => r matches Err(e) && e@ == crate::error::ErrorView::Storage(
                "Command '"@ + command_name@ + "' not found in project '"@ + project.name@ + "'"@,
            ),
        },
{
    let cmds = &project.metadata.commands;
    let mut i: usize = 0;
    while i < cmds.len()
        invariant
            i <= cmds.len(),
            cmds == project.metadata.commands,
            forall|j: int| 0 <= j < i ==> #[trigger] cmds@[j].name@ != command_name@,
        decreases cmds.len() - i,
    {
        if str_eq(cmds[i].name.as_str(), command_name) {
            proof {
                let k = choose|k: int| 0 <= k < cmds@.len() && cmds@[k].name@ == command_name@ && forall|j: int| 0 <= j < k ==> #[trigger] cmds@[j].name@ != command_name@;
                assert(0 <= k < cmds@.len() && cmds@[k].name@ == command_name@);
                if k < i {
                    assert(cmds@[k].name@ != command_name@);
                }
                if (i as int) < k {
                    assert(cmds@[i as int].name@ != command_name@);
                }
            }
            return Ok(cmds[i].clone());
        }
        i += 1;
    }
    let mut m = concat2("Command '", command_name);
    m.append("' not found in project '");
    m.append(project.name.as_str());
    m.append("'");
    Err(CoreError::Storage(m))
}

/// The error a run reports when no project matches the query.
pub fn project_not_found(query: &str) -> (e: CoreError)
    ensures
        e@ == crate::error::ErrorView::Storage("Project not found: "@ + query@),
{
    CoreError::Storage(concat2("Project not found: ", query))
}

/// What a command's exit status means: only exit code 0 succeeds; another code
/// is a failure with that code, and termination without a code is a failure too.
pub open spec fn exit_outcome(command_name: Seq<char>, exit_code: Option<i32>) -> Result<(), crate::error::ErrorView> {
    match exit_code {
        Some(code) => if code == 0 {
            Ok(())
        } else {
            Err(crate::error::ErrorView::CommandFailed { command_name, exit_code: code })
        },
        None => Err(crate::error::ErrorView::CommandTerminated { command_name }),
    }
}

pub fn exit_result(command_name: &str, exit_code: Option<i32>) -> (r: Result<(), CoreError>)
    ensures
        crate::error::result_view(r) == exit_outcome(command_name@, exit_code),
{
    match exit_code {
        Some(code) => if code == 0 {
            Ok(())
        } else {
            Err(CoreError::CommandFailed { command_name: owned(command_name), exit_code: code })
        },
        None => Err(CoreError::CommandTerminated { command_name: owned(command_name) }),
    }
}

/// The execution log of a command run.
pub fn command_log(
    project_id: &ProjectId,
    command_name: &str,
    exit_code: Option<i32>,
    log_text: String,
    run_at: i64,
) -> (log: ProjectLog)
    ensures
        exists|v: u128| log.id@ == uuid_text(v),
        log.project_id@ == uuid_text(project_id.0),
        log.command_name@ == command_name@,
        log.exit_code == exit_code,
        log.log_text == log_text,
        log.run_at == run_at,
{
    let id = ProjectId::new();
    ProjectLog {
        id: id.text(),
        project_id: project_id.text(),
        command_name: owned(command_name),
        exit_code,
        log_text,
        run_at,
    }
}

// ----------------------------------------------------------------------------
// Status.
// ----------------------------------------------------------------------------

/// Overall status summary.
#[derive(Debug, Clone)]
pub struct StatusReport {
    pub total_projects: usize,
    pub last_scan: Option<ScanRecord>,
    /// Primary languages by name with their project counts, most common first,
    /// ties by name.
    pub languages: Vec<(String, usize)>,
}

/// The primary languages of the projects (the first detection of each
/// project that has one), in order.
pub open spec fn primaries(ps: Seq<Project>) -> Seq<Language>
    decreases ps.len(),
{
    if ps.len() == 0 {
        seq![]
    } else {
        let prev = primaries(ps.drop_last());
        if ps.last().languages@.len() > 0 {
            prev.push(ps.last().languages@[0].language)
        } else {
            prev
        }
    }
}

/// Where the tally holds language `l`.
pub open spec fn tally_index(t: Seq<(Language, nat)>, l: Language) -> Option<int>
    decreases t.len(),
{
    if t.len() == 0 {
        None
    } else if t.last().0@ == l@ {
        Some(t.len() - 1)
    } else {
        tally_index(t.drop_last(), l)
    }
}

/// Each language with how many times it occurs, in order of first occurrence.
pub open spec fn tally(ls: Seq<Language>) -> Seq<(Language, nat)>
    decreases ls.len(),
{
    if ls.len() == 0 {
        seq![]
    } else {
        let t = tally(ls.drop_last());
        match tally_index(t, ls.last()) {
            Some(i) => t.update(i, (t[i].0, t[i].1 + 1)),
            None => t.push((ls.last(), 1nat)),
        }
    }
}

/// A language's display name with its count.
#[derive(Debug)]
pub struct LanguageCount {
    pub name: String,
    pub count: usize,
}

impl TotalOrder for LanguageCount {
    /// More projects first; equal counts by name.
    open spec fn le(self, other: Self) -> bool {
        self.count > other.count || (self.count == other.count && chars_le(self.name@, other.name@))
    }

    proof fn le_total(a: Self, b: Self) {
        lemma_chars_le_total(a.name@, b.name@);
    }

    proof fn le_transitive(a: Self, b: Self, c: Self) {
        if a.count == b.count && b.count == c.count {
            lemma_chars_le_transitive(a.name@, b.name@, c.name@);
        }
    }

    fn le_exec(&self, other: &Self) -> (r: bool) {
        self.count > other.count || (self.count == other.count && str_le(self.name.as_str(), other.name.as_str()))
    }
}

pub open spec fn count_entry(e: (Language, nat)) -> (Seq<char>, nat) {
    (e.0.spec_name(), e.1)
}

pub open spec fn count_views(cs: Seq<LanguageCount>) -> Seq<(Seq<char>, nat)> {
    cs.map_values(|c: LanguageCount| (c.name@, c.count as nat))
}

proof fn lemma_tally_index(t: Seq<(Language, nat)>, l: Language)
    ensures
        match tally_index(t, l) {
            Some(i) => 0 <= i < t.len() && t[i].0@ == l@,
            None => forall|j: int| 0 <= j < t.len() ==> (#[trigger] t[j]).0@ != l@,
        },
    decreases t.len(),
{
    if t.len() > 0 && t.last().0@ != l@ {
        lemma_tally_index(t.drop_last(), l);
        if tally_index(t.drop_last(), l) is None {
            assert forall|j: int| 0 <= j < t.len() implies (#[trigger] t[j]).0@ != l@ by {
                if j < t.len() - 1 {
                    assert(t[j] == t.drop_last()[j]);
                }
            }
        }
    }
}

proof fn lemma_tally_bounded(ls: Seq<Language>)
    ensures
        tally(ls).len() <= ls.len(),
        forall|j: int| 0 <= j < tally(ls).len() ==> 1 <= (#[trigger] tally(ls)[j]).1 <= ls.len(),
    decreases ls.len(),
{
    if ls.len() > 0 {
        lemma_tally_bounded(ls.drop_last());
        lemma_tally_index(tally(ls.drop_last()), ls.last());
    }
}

/// The order of the status summary: more projects first, equal counts by name.
pub open spec fn count_le(a: (Seq<char>, nat), b: (Seq<char>, nat)) -> bool {
    a.1 > b.1 || (a.1 == b.1 && chars_le(a.0, b.0))
}

pub open spec fn count_insert_pos(s: Seq<(Seq<char>, nat)>, x: (Seq<char>, nat)) -> nat
    decreases s.len(),
{
    if s.len() == 0 {
        0
    } else if count_le(s.last(), x) {
        s.len()
    } else {
        count_insert_pos(s.drop_last(), x)
    }
}

/// Stable insertion sort of name/count entries in the summary's order.
pub open spec fn count_sort(s: Seq<(Seq<char>, nat)>) -> Seq<(Seq<char>, nat)>
    decreases s.len(),
{
    if s.len() == 0 {
        s
    } else {
        let r = count_sort(s.drop_last());
        r.insert(count_insert_pos(r, s.last()) as int, s.last())
    }
}

pub open spec fn count_view(c: LanguageCount) -> (Seq<char>, nat) {
    (c.name@, c.count as nat)
}

proof fn lemma_insert_pos_views(s: Seq<LanguageCount>, x: LanguageCount)
    ensures
        crate::order::insert_pos(s, x) == count_insert_pos(count_views(s), count_view(x)),
    decreases s.len(),
{
    if s.len() > 0 {
        assert(count_views(s).drop_last() =~= count_views(s.drop_last()));
        lemma_insert_pos_views(s.drop_last(), x);
    }
}

proof fn lemma_sort_views(s: Seq<LanguageCount>)
    ensures
        count_views(isort(s)) == count_sort(count_views(s)),
    decreases s.len(),
{
    if s.len() > 0 {
        let r = isort(s.drop_last());
        lemma_sort_views(s.drop_last());
        assert(count_views(s).drop_last() =~= count_views(s.drop_last()));
        lemma_insert_pos_views(r, s.last());
        crate::order::lemma_isort_permutation(s.drop_last());
        let p = crate::order::insert_pos(r, s.last()) as int;
        lemma_insert_pos_bound(r, s.last());
        assert(count_views(r.insert(p, s.last())) =~= count_views(r).insert(p, count_view(s.last())));
    }
}

proof fn lemma_insert_pos_bound(s: Seq<LanguageCount>, x: LanguageCount)
    ensures
        crate::order::insert_pos(s, x) <= s.len(),
    decreases s.len(),
{
    if s.len() > 0 {
        lemma_insert_pos_bound(s.drop_last(), x);
    }
}

pub open spec fn tally_view(t: Seq<(Language, usize)>) -> Seq<(Language, nat)> {
    t.map_values(|e: (Language, usize)| (e.0, e.1 as nat))
}

/// Counts the primary languages of the projects: one entry per language, with
/// its display name and number of projects, sorted by count (highest first),
/// then by name.
pub fn language_counts(projects: &Vec<Project>) -> (r: Vec<(String, usize)>)
    ensures
        r@.map_values(|e: (String, usize)| (e.0@, e.1 as nat)) == count_sort(
            tally(primaries(projects@)).map_values(|e: (Language, nat)| count_entry(e)),
        ),
{
    let ghost ps = projects@;
    let mut t: Vec<(Language, usize)> = Vec::new();
    let mut i: usize = 0;
    while i < projects.len()
        invariant
            i <= projects.len(),
            ps == projects@,
            tally_view(t@) == tally(primaries(ps.take(i as int))),
            primaries(ps.take(i as int)).len() <= i,
        decreases projects.len() - i,
    {
        let ghost before = primaries(ps.take(i as int));
        assert(ps.take(i + 1).drop_last() =~= ps.take(i as int));
        if projects[i].languages.len() > 0 {
            let lang = projects[i].languages[0].language.clone();
            let ghost ls = primaries(ps.take(i + 1));
            assert(ls == before.push(lang));
            assert(ls.drop_last() =~= before);
            proof {
                lemma_tally_bounded(before);
                lemma_tally_index(tally(before), lang);
            }
            let pos = tally_find(&t, &lang);
            if let Some(j) = pos {
                proof {
                    lemma_tally_distinct(before);
                    let ti = tally_index(tally(before), lang);
                    assert(tally(before)[j as int] == (t@[j as int].0, t@[j as int].1 as nat));
                    assert(tally(before)[j as int].0@ == lang@);
                    if ti != Some(j as int) {
                        assert(tally(before)[ti->0].0@ == lang@);
                    }
                    assert(tally(before)[j as int].1 <= before.len());
                }
                let (l0, c0) = t.remove(j);
                t.insert(j, (l0, c0 + 1));
                assert(tally_view(t@) =~= tally(ls));
            } else {
                proof {
                    assert forall|k: int| 0 <= k < tally(before).len() implies (#[trigger] tally(before)[k]).0@ != lang@ by {
                        assert(tally(before)[k] == (t@[k].0, t@[k].1 as nat));
                    }
                }
                t.push((lang, 1));
                assert(tally_view(t@) =~= tally(ls));
            }
        } else {
            assert(primaries(ps.take(i + 1)) == before);
        }
        i += 1;
    }
    assert(ps.take(projects.len() as int) =~= ps);
    let ghost tv = tally_view(t@);
    let mut counts: Vec<LanguageCount> = Vec::new();
    let mut k: usize = 0;
    while k < t.len()
        invariant
            k <= t.len(),
            tv == tally_view(t@),
            count_views(counts@) == tv.take(k as int).map_values(|e: (Language, nat)| count_entry(e)),
        decreases t.len() - k,
    {
        let name = t[k].0.name();
        let ghost prev = count_views(counts@);
        assert(tv[k as int] == (t@[k as int].0, t@[k as int].1 as nat));
        assert(tv.take(k + 1) =~= tv.take(k as int).push(tv[k as int]));
        let entry = LanguageCount { name, count: t[k].1 };
        assert(count_view(entry) == count_entry(tv[k as int]));
        counts.push(entry);
        assert(count_views(counts@) =~= prev.push(count_entry(tv[k as int])));
        assert(tv.take(k + 1).map_values(|e: (Language, nat)| count_entry(e)) =~= tv.take(k as int).map_values(
            |e: (Language, nat)| count_entry(e),
        ).push(count_entry(tv[k as int])));
        k += 1;
    }
    assert(tv.take(t.len() as int) =~= tv);
    let ghost unsorted = counts@;
    let sorted_counts = sort_stable(counts);
    proof {
        lemma_sort_views(unsorted);
    }
    let mut r: Vec<(String, usize)> = Vec::new();
    let ghost sv = count_views(sorted_counts@);
    for c in it: sorted_counts.into_iter()
        invariant
            sv == count_views(it.seq()),
            r@.map_values(|e: (String, usize)| (e.0@, e.1 as nat)) == sv.take(it.index() as int),
    {
        let ghost prev = r@.map_values(|e: (String, usize)| (e.0@, e.1 as nat));
        let ghost cv = count_view(c);
        r.push((c.name, c.count));
        assert(r@.map_values(|e: (String, usize)| (e.0@, e.1 as nat)) =~= prev.push(cv));
        assert(sv.take(it.index() + 1) =~= sv.take(it.index() as int).push(cv));
    }
    assert(sv.take(sv.len() as int) =~= sv);
    r
}

fn tally_find(t: &Vec<(Language, usize)>, lang: &Language) -> (r: Option<usize>)
    ensures
        match r {
            Some(j) => j < t@.len() && t@[j as int].0@ == lang@,
            None => forall|k: int| 0 <= k < t@.len() ==> (#[trigger] t@[k]).0@ != lang@,
        },
{
    let mut j: usize = 0;
    while j < t.len()
        invariant
            j <= t.len(),
            forall|k: int| 0 <= k < j ==> (#[trigger] t@[k]).0@ != lang@,
        decreases t.len() - j,
    {
        if t[j].0.same(lang) {
            return Some(j);
        }
        j += 1;
    }
    None
}

proof fn lemma_tally_distinct(ls: Seq<Language>)
    ensures
        forall|a: int, b: int|
            0 <= a < b < tally(ls).len() ==> (#[trigger] tally(ls)[a]).0@ != (#[trigger] tally(ls)[b]).0@,
    decreases ls.len(),
{
    if ls.len() > 0 {
        lemma_tally_distinct(ls.drop_last());
        lemma_tally_index(tally(ls.drop_last()), ls.last());
    }
}

} // verus!
