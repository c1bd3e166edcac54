//! From the directories a walk visited to the projects a scan reports.
//!
//! Every visited directory that shows a language is a candidate project.
//! Candidates are ordered by path. A candidate nested inside another
//! candidate is reported only when it carries an independence signal (its own
//! `.git`, or a `.rustodian.toml`); otherwise it is an ordinary workspace
//! member and stays under its parent. A maximum depth of zero means no
//! traversal and no projects.

use vstd::prelude::*;

use crate::commands::{
    CommandDiscoverer, CommandSources, candidates, config_entries, package_scripts, resolves,
    views,
};
use crate::detection::{detect_languages, detect_project_roots, detection_views, detections_of, root_files, wrangler_files};
use crate::order::{TotalOrder, isort, sort_stable};
use crate::paths::{
    file_name, is_ancestor, lemma_path_le_total, lemma_path_le_transitive, path_components,
    path_is_ancestor, path_le, path_less_eq,
};
use crate::text::{contains_name, from_chars, owned};
use crate::types::{LanguageDetection, ProjectCommand, ProjectRootMarker, ScanConfig};

verus! {

/// A project found by a scan, before it is stored.
#[derive(Debug, Clone)]
pub struct DiscoveredProject {
    pub name: String,
    pub path: String,
    pub languages: Vec<LanguageDetection>,
    pub commands: Vec<ProjectCommand>,
    /// Project-root markers found in the directory.
    pub project_roots: Vec<ProjectRootMarker>,
}

/// What a walk saw in one directory: its path, the names of its entries, and
/// the text of the files that commands are read from, where readable.
#[derive(Debug, Clone)]
pub struct DirectoryListing {
    pub path: String,
    pub entries: Vec<String>,
    pub package_json: Option<String>,
    /// The first of `justfile`, `Justfile` that could be read.
    pub justfile: Option<String>,
    pub rustodian_toml: Option<String>,
}

impl TotalOrder for DirectoryListing {
    open spec fn le(self, other: Self) -> bool {
        path_le(self.path@, other.path@)
    }

    proof fn le_total(a: Self, b: Self) {
        lemma_path_le_total(a.path@, b.path@);
    }

    proof fn le_transitive(a: Self, b: Self, c: Self) {
        lemma_path_le_transitive(a.path@, b.path@, c.path@);
    }

    fn le_exec(&self, other: &Self) -> (r: bool) {
        path_less_eq(self.path.as_str(), other.path.as_str())
    }
}

/// The directory shows at least one language.
pub open spec fn is_project_dir(d: DirectoryListing) -> bool {
    detections_of(d.entries.deep_view()).len() > 0
}

/// The directories that show a language, in walk order.
pub open spec fn project_dirs(ds: Seq<DirectoryListing>) -> Seq<DirectoryListing>
    decreases ds.len(),
{
    if ds.len() == 0 {
        seq![]
    } else {
        let prev = project_dirs(ds.drop_last());
        if is_project_dir(ds.last()) {
            prev.push(ds.last())
        } else {
            prev
        }
    }
}

/// A directory is independently managed when it has its own `.git` (a
/// directory or a file) or a `.rustodian.toml`.
pub open spec fn independent(entries: Seq<Seq<char>>) -> bool {
    entries.contains(".git"@) || entries.contains(".rustodian.toml"@)
}

/// Some other candidate lies above `d`.
pub open spec fn nested(d: DirectoryListing, cands: Seq<DirectoryListing>) -> bool {
    exists|j: int| 0 <= j < cands.len() && #[trigger] is_ancestor(cands[j].path@, d.path@)
}

/// A candidate is reported unless it is nested without an independence signal.
pub open spec fn reported(d: DirectoryListing, cands: Seq<DirectoryListing>) -> bool {
    independent(d.entries.deep_view()) || !nested(d, cands)
}

pub open spec fn reported_of(s: Seq<DirectoryListing>, cands: Seq<DirectoryListing>) -> Seq<
    DirectoryListing,
>
    decreases s.len(),
{
    if s.len() == 0 {
        seq![]
    } else {
        let prev = reported_of(s.drop_last(), cands);
        if reported(s.last(), cands) {
            prev.push(s.last())
        } else {
            prev
        }
    }
}

/// The directories a scan reports, in the order it reports them.
pub open spec fn scan_selection(max_depth: usize, dirs: Seq<DirectoryListing>) -> Seq<
    DirectoryListing,
> {
    if max_depth == 0 {
        seq![]
    } else {
        let cands = project_dirs(dirs);
        reported_of(isort(cands), cands)
    }
}

/// The name of a project directory: its last component, or `unknown`.
pub open spec fn dir_name(path: Seq<char>) -> Seq<char> {
    match file_name(path) {
        Some(n) => n,
        None => "unknown"@,
    }
}

/// `p` is the project that directory `d` describes.
pub open spec fn describes(p: DiscoveredProject, d: DirectoryListing) -> bool {
    &&& p.name@ == dir_name(d.path@)
    &&& p.path@ == d.path@
    &&& detection_views(p.languages@) == detections_of(d.entries.deep_view())
    &&& root_files(p.project_roots@) == wrangler_files(d.entries.deep_view())
    &&& resolves(
        views(p.commands@),
        candidates(
            d.entries.deep_view().contains("Cargo.toml"@),
            package_scripts(d.package_json.deep_view()),
            d.justfile.deep_view(),
            config_entries(d.rustodian_toml.deep_view()),
        ),
    )
}

proof fn lemma_reported_members(s: Seq<DirectoryListing>, cands: Seq<DirectoryListing>, d: DirectoryListing)
    ensures
        reported_of(s, cands).contains(d) <==> (s.contains(d) && reported(d, cands)),
    decreases s.len(),
{
    if s.len() > 0 {
        lemma_reported_members(s.drop_last(), cands, d);
        let prev = reported_of(s.drop_last(), cands);
        if s.drop_last().contains(d) {
            let j = choose|j: int| 0 <= j < s.drop_last().len() && s.drop_last()[j] == d;
            assert(s[j] == d);
        }
        if s.contains(d) && d != s.last() {
            let j = choose|j: int| 0 <= j < s.len() && s[j] == d;
            assert(s.drop_last()[j] == d);
        }
        if reported(s.last(), cands) {
            assert(prev.push(s.last()).contains(s.last())) by {
                assert(prev.push(s.last())[prev.len() as int] == s.last());
            }
            if prev.push(s.last()).contains(d) && d != s.last() {
                let j = choose|j: int| 0 <= j < prev.push(s.last()).len() && prev.push(s.last())[j] == d;
                assert(prev[j] == d);
            }
            if prev.contains(d) {
                let j = choose|j: int| 0 <= j < prev.len() && prev[j] == d;
                assert(prev.push(s.last())[j] == d);
            }
        }
        if s.contains(d) {
            let j = choose|j: int| 0 <= j < s.len() && s[j] == d;
            assert(s[j] == d);
        }
    }
}

proof fn lemma_reported_sorted(s: Seq<DirectoryListing>, cands: Seq<DirectoryListing>)
    requires
        crate::order::sorted(s),
    ensures
        crate::order::sorted(reported_of(s, cands)),
    decreases s.len(),
{
    if s.len() > 0 {
        let prev = reported_of(s.drop_last(), cands);
        assert(crate::order::sorted(s.drop_last())) by {
            assert forall|i: int, j: int| 0 <= i < j < s.drop_last().len() implies #[trigger] s.drop_last()[i].le(
                #[trigger] s.drop_last()[j],
            ) by {
                assert(s.drop_last()[i] == s[i] && s.drop_last()[j] == s[j]);
            }
        }
        lemma_reported_sorted(s.drop_last(), cands);
        if reported(s.last(), cands) {
            let out = prev.push(s.last());
            assert forall|i: int, j: int| 0 <= i < j < out.len() implies #[trigger] out[i].le(#[trigger] out[j]) by {
                if j == out.len() - 1 {
                    assert(prev.contains(out[i])) by {
                        assert(prev[i] == out[i]);
                    }
                    lemma_reported_members(s.drop_last(), cands, out[i]);
                    let k = choose|k: int| 0 <= k < s.drop_last().len() && s.drop_last()[k] == out[i];
                    assert(s[k] == out[i]);
                    assert(s[k].le(s[s.len() - 1]));
                } else {
                    assert(out[i] == prev[i] && out[j] == prev[j]);
                }
            }
        }
    }
}

/// A scan reports its projects ordered by path, whatever order the walk
/// visited them in.
pub proof fn lemma_scan_sorted(max_depth: usize, dirs: Seq<DirectoryListing>)
    ensures
        crate::order::sorted(scan_selection(max_depth, dirs)),
{
    if max_depth != 0 {
        let cands = project_dirs(dirs);
        crate::order::lemma_isort_sorted(cands);
        lemma_reported_sorted(isort(cands), cands);
    }
}

/// A directory that shows a language is reported exactly when it carries an
/// independence signal or no other candidate lies above it (unless the
/// maximum depth is zero, which reports nothing).
pub proof fn lemma_scan_reports(max_depth: usize, dirs: Seq<DirectoryListing>, d: DirectoryListing)
    requires
        max_depth != 0,
        project_dirs(dirs).contains(d),
    ensures
        scan_selection(max_depth, dirs).contains(d) <==> reported(d, project_dirs(dirs)),
{
    let cands = project_dirs(dirs);
    crate::order::lemma_isort_permutation(cands);
    assert(isort(cands).to_multiset() == cands.to_multiset());
    cands.to_multiset_ensures();
    isort(cands).to_multiset_ensures();
    assert(cands.to_multiset().count(d) > 0);
    assert(isort(cands).to_multiset().count(d) > 0);
    assert(isort(cands).contains(d));
    lemma_reported_members(isort(cands), cands, d);
}

/// Whether a directory carries an independence signal.
pub fn has_independence_signal(entries: &Vec<String>) -> (b: bool)
    ensures
        b == independent(entries.deep_view()),
{
    contains_name(entries, ".git") || contains_name(entries, ".rustodian.toml")
}

/// The name of a project directory (`Path::file_name`, or `unknown`).
pub fn directory_name(path: &str) -> (r: String)
    ensures
        r@ == dir_name(path@),
{
    let cs = path_components(path);
    let n = cs.len();
    if n == 0 || (cs[n - 1].len() == 2 && cs[n - 1][0] == '.' && cs[n - 1][1] == '.') {
        proof {
            if n > 0 {
                assert(cs@[n - 1]@ =~= seq!['.', '.']);
            }
        }
        owned("unknown")
    } else {
        proof {
            assert(cs@[n - 1]@ != seq!['.', '.']);
        }
        from_chars(&cs[n - 1])
    }
}

/// The project a directory describes.
fn describe(d: DirectoryListing) -> (p: DiscoveredProject)
    ensures
        describes(p, d),
{
    let name = directory_name(d.path.as_str());
    let languages = detect_languages(&d.entries);
    let project_roots = detect_project_roots(&d.entries);
    let sources = CommandSources {
        has_cargo_toml: contains_name(&d.entries, "Cargo.toml"),
        package_json: d.package_json,
        justfile: d.justfile,
        rustodian_toml: d.rustodian_toml,
    };
    let commands = CommandDiscoverer::discover(&sources);
    DiscoveredProject { name, path: d.path, languages, commands, project_roots }
}

fn is_nested(d: &DirectoryListing, paths: &Vec<String>, Ghost(cands): Ghost<Seq<DirectoryListing>>) -> (b: bool)
    requires
        paths@.len() == cands.len(),
        forall|j: int| 0 <= j < cands.len() ==> paths@[j]@ == cands[j].path@,
    ensures
        b == nested(*d, cands),
{
    let mut j: usize = 0;
    while j < paths.len()
        invariant
            j <= paths.len(),
            paths@.len() == cands.len(),
            forall|k: int| 0 <= k < cands.len() ==> paths@[k]@ == cands[k].path@,
            forall|k: int| 0 <= k < j ==> !is_ancestor(#[trigger] cands[k].path@, d.path@),
        decreases paths.len() - j,
    {
        if path_is_ancestor(paths[j].as_str(), d.path.as_str()) {
            assert(is_ancestor(cands[j as int].path@, d.path@));
            return true;
        }
        j += 1;
    }
    assert forall|k: int| 0 <= k < cands.len() implies !#[trigger] is_ancestor(cands[k].path@, d.path@) by {}
    false
}

/// The directories that show a language, in walk order.
fn select_projects(dirs: Vec<DirectoryListing>) -> (r: Vec<DirectoryListing>)
    ensures
        r@ == project_dirs(dirs@),
{
    let ghost all = dirs@;
    let mut out: Vec<DirectoryListing> = Vec::new();
    for d in it: dirs.into_iter()
        invariant
            it.seq() == all,
            out@ == project_dirs(all.take(it.index() as int)),
    {
        proof {
            assert(all.take(it.index() + 1).drop_last() =~= all.take(it.index() as int));
        }
        let langs = detect_languages(&d.entries);
        if langs.len() > 0 {
            out.push(d);
        }
    }
    proof {
        assert(all.take(all.len() as int) =~= all);
    }
    out
}

/// Errors of file-system scanning.
#[derive(Debug)]
pub enum ScannerError {
    /// An I/O error at a path, with the error's text.
    Io { path: String, message: String },
    /// The scan root does not exist or is not a directory.
    NotADirectory(String),
}

impl ScannerError {
    pub open spec fn spec_message(&self) -> Seq<char> {
        match self {
            ScannerError::Io { path, message } => "io error at "@ + path@ + ": "@ + message@,
            ScannerError::NotADirectory(path) => "scan root is not a directory: "@ + path@,
        }
    }

    /// The text of the error.
    pub fn message(&self) -> (s: String)
        ensures
            s@ == self.spec_message(),
    {
        match self {
            ScannerError::Io { path, message } => {
                let mut s = crate::text::concat3("io error at ", path.as_str(), ": ");
                s.append(message.as_str());
                s
            },
            ScannerError::NotADirectory(path) => crate::text::concat2(
                "scan root is not a directory: ",
                path.as_str(),
            ),
        }
    }

    /// The domain error a scanner error becomes: a scan error with its text.
    pub fn into_core_error(self) -> (r: crate::error::CoreError)
        ensures
            r@ == crate::error::ErrorView::Scan(self.spec_message()),
    {
        crate::error::CoreError::Scan(self.message())
    }
}

/// Whether `globset::Glob::new` accepts a pattern.
pub uninterp spec fn glob_valid(pattern: Seq<char>) -> bool;

/// Whether the `globset::GlobSet` built from `patterns` matches `path`;
/// `None` when the set cannot be built.
pub uninterp spec fn globset_match(patterns: Seq<Seq<char>>, path: Seq<char>) -> Option<bool>;

/// Calls `globset::Glob::new` on a pattern. Trusted: the result is the named
/// `glob_valid` of the pattern.
#[verifier::external_body]
fn check_glob(pattern: &str) -> (b: bool)
    ensures
        b == glob_valid(pattern@),
{
    globset::Glob::new(pattern).is_ok()
}

/// Builds a `globset::GlobSet` from `patterns` (`Glob::new`,
/// `GlobSetBuilder::add`, `GlobSetBuilder::build`) and asks `GlobSet::is_match`
/// about `path`. Trusted: the result is the named `globset_match` of the
/// arguments.
#[verifier::external_body]
pub(crate) fn match_globset(patterns: &Vec<String>, path: &str) -> (r: Option<bool>)
    ensures
        r == globset_match(patterns.deep_view(), path@),
{
    let mut builder = globset::GlobSetBuilder::new();
    for pattern in patterns {
        builder.add(globset::Glob::new(pattern).ok()?);
    }
    let set = builder.build().ok()?;
    Some(set.is_match(path))
}

/// The patterns that are valid globs, in order; invalid ones are skipped.
pub open spec fn valid_patterns(ps: Seq<Seq<char>>) -> Seq<Seq<char>>
    decreases ps.len(),
{
    if ps.len() == 0 {
        seq![]
    } else {
        let prev = valid_patterns(ps.drop_last());
        if glob_valid(ps.last()) {
            prev.push(ps.last())
        } else {
            prev
        }
    }
}

/// A walk skips `path` when there are exclude patterns and the set of the
/// valid ones matches it; a set that cannot be built excludes nothing.
pub open spec fn excluded(patterns: Seq<Seq<char>>, path: Seq<char>) -> bool {
    patterns.len() > 0 && globset_match(valid_patterns(patterns), path) == Some(true)
}

/// The patterns that are valid globs, in order.
pub(crate) fn valid_globs(patterns: &Vec<String>) -> (valid: Vec<String>)
    ensures
        valid.deep_view() == valid_patterns(patterns.deep_view()),
{
    let ghost ps = patterns.deep_view();
    let mut valid: Vec<String> = Vec::new();
    let mut i: usize = 0;
    while i < patterns.len()
        invariant
            i <= patterns.len(),
            ps == patterns.deep_view(),
            valid.deep_view() == valid_patterns(ps.take(i as int)),
        decreases patterns.len() - i,
    {
        assert(ps.take(i + 1).drop_last() =~= ps.take(i as int));
        if check_glob(patterns[i].as_str()) {
            let ghost prev = valid.deep_view();
            valid.push(patterns[i].clone());
            assert(valid.deep_view() =~= prev.push(ps[i as int]));
        }
        i += 1;
    }
    assert(ps.take(patterns.len() as int) =~= ps);
    valid
}

#[derive(Debug)]
pub struct FsScanner;

impl FsScanner {
    /// Whether the walk skips `path` under the exclude patterns of `config`.
    pub fn is_excluded(config: &ScanConfig, path: &str) -> (b: bool)
        ensures
            b == excluded(config.exclude_patterns.deep_view(), path@),
    {
        let patterns = &config.exclude_patterns;
        if patterns.len() == 0 {
            return false;
        }
        let valid = valid_globs(patterns);
        match match_globset(&valid, path) {
            Some(m) => m,
            None => false,
        }
    }

    /// The projects found in the directories a walk visited.
    pub fn scan(&self, config: &ScanConfig, dirs: Vec<DirectoryListing>) -> (r: Vec<DiscoveredProject>)
        ensures
            r@.len() == scan_selection(config.max_depth, dirs@).len(),
            forall|i: int|
                0 <= i < r@.len() ==> describes(#[trigger] r@[i], scan_selection(config.max_depth, dirs@)[i]),
    {
        if config.max_depth == 0 {
            return Vec::new();
        }
        let cands = select_projects(dirs);
        let ghost cs = cands@;
        let mut paths: Vec<String> = Vec::new();
        let mut k: usize = 0;
        while k < cands.len()
            invariant
                k <= cands.len(),
                cs == cands@,
                paths@.len() == k,
                forall|j: int| 0 <= j < k ==> paths@[j]@ == cs[j].path@,
            decreases cands.len() - k,
        {
            paths.push(cands[k].path.clone());
            k += 1;
        }
        let sorted = sort_stable(cands);
        let ghost ss = sorted@;
        let mut out: Vec<DiscoveredProject> = Vec::new();
        let ghost chosen: Seq<DirectoryListing> = seq![];
        for d in it: sorted.into_iter()
            invariant
                it.seq() == ss,
                ss == isort(cs),
                paths@.len() == cs.len(),
                forall|j: int| 0 <= j < cs.len() ==> paths@[j]@ == cs[j].path@,
                chosen == reported_of(ss.take(it.index() as int), cs),
                out@.len() == chosen.len(),
                forall|i: int| 0 <= i < out@.len() ==> describes(#[trigger] out@[i], chosen[i]),
        {
            proof {
                assert(ss.take(it.index() + 1).drop_last() =~= ss.take(it.index() as int));
                assert(ss.take(it.index() + 1).last() == d);
            }
            let keep = has_independence_signal(&d.entries) || !is_nested(&d, &paths, Ghost(cs));
            if keep {
                let ghost dv = d;
                let ghost prev_out = out@;
                let p = describe(d);
                out.push(p);
                proof {
                    chosen = chosen.push(dv);
                    assert forall|i: int| 0 <= i < out@.len() implies describes(#[trigger] out@[i], chosen[i]) by {
                        if i < out@.len() - 1 {
                            assert(out@[i] == prev_out[i]);
                        }
                    }
                }
            }
        }
        proof {
            assert(ss.take(ss.len() as int) =~= ss);
        }
        out
    }
}

} // verus!
