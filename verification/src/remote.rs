//! Rules for fetching repositories from a forge: where archives and pull
//! requests are fetched, how answers are judged, and which archive entries may
//! be extracted.
//!
//! Archives are tried on the `main` branch first and on `master` when `main` is
//! not found. Extraction accepts regular files and directories only: a link or
//! any other entry type rejects the whole archive. The first component of every
//! entry path (the archive's top directory) is dropped; what remains must not
//! leave the destination (no `..`, no root), files matching a preserve pattern
//! are left as they are, and each parent directory, with links resolved, must
//! lie within the resolved destination.

use vstd::prelude::*;

use crate::error::{CoreError, ErrorView};
use crate::scanner::{globset_match, match_globset, valid_globs, valid_patterns};
use crate::text::from_chars;
use crate::text::{concat2, concat3, join_strings, join_with, owned, str_eq, to_chars, u64_to_decimal, decimal};

verus! {

/// Storage of the repositories tracked on a forge, implemented by the
/// application's store.
pub trait RemoteProjectStore {
    fn save_remote_project(&self, project: &crate::types::RemoteProject) -> Result<(), CoreError>;

    fn list_remote_projects(&self) -> Result<Vec<crate::types::RemoteProject>, CoreError>;

    /// Deletes the repository's record; whether it existed.
    fn delete_remote_project(&self, repo_slug: &str) -> Result<bool, CoreError>;
}

/// The public GitHub API.
pub open spec fn github_api() -> Seq<char> {
    "https://api.github.com"@
}

/// Where archives are downloaded from: `https://github.com` for the public
/// API, the API base itself otherwise.
pub open spec fn download_base(api_base: Seq<char>) -> Seq<char> {
    if api_base == github_api() {
        "https://github.com"@
    } else {
        api_base
    }
}

/// The archive URL of a branch.
pub open spec fn archive_url(api_base: Seq<char>, slug: Seq<char>, branch: Seq<char>) -> Seq<char> {
    download_base(api_base) + "/"@ + slug + "/archive/refs/heads/"@ + branch + ".tar.gz"@
}

/// The archive URL of `branch` (`main` or `master`) of a repository.
pub fn archive_url_exec(api_base: &str, slug: &str, branch: &str) -> (r: String)
    ensures
        r@ == archive_url(api_base@, slug@, branch@),
{
    let base = if str_eq(api_base, "https://api.github.com") {
        owned("https://github.com")
    } else {
        owned(api_base)
    };
    let mut r = concat3(base.as_str(), "/", slug);
    r.append("/archive/refs/heads/");
    r.append(branch);
    r.append(".tar.gz");
    r
}

/// After the `main` archive answered with `status`, the `master` archive is
/// tried when `main` was not found (404).
pub fn try_master(status: u16) -> (b: bool)
    ensures
        b == (status == 404),
{
    status == 404
}

/// A status is a success when it lies in 200..=299.
pub open spec fn is_success(status: u16) -> bool {
    200 <= status <= 299
}

/// The download fails unless its final status is a success:
/// `Failed to download <slug>: status <status text>`.
pub fn download_status_error(slug: &str, status: u16, status_text: &str) -> (r: Option<CoreError>)
    ensures
        match r {
            None => is_success(status),
            Some(e) => !is_success(status) && e@ == ErrorView::Internal(
                "Failed to download "@ + slug@ + ": status "@ + status_text@,
            ),
        },
{
    if 200 <= status && status <= 299 {
        None
    } else {
        let mut m = concat3("Failed to download ", slug, ": status ");
        m.append(status_text);
        Some(CoreError::Internal(m))
    }
}

/// The URL of the open pull requests of a repository.
pub fn pulls_url(api_base: &str, slug: &str) -> (r: String)
    ensures
        r@ == api_base@ + "/repos/"@ + slug@ + "/pulls?state=open"@,
{
    let mut r = concat3(api_base, "/repos/", slug);
    r.append("/pulls?state=open");
    r
}

/// How a pull-request listing answer is judged: 403 with
/// `X-RateLimit-Remaining: 0` is the rate limit; any other status outside
/// 200..=299 fails with `Failed to fetch PRs for <slug>: status <status text>`.
pub open spec fn pulls_error(
    slug: Seq<char>,
    status: u16,
    rate_limit_remaining: Option<Seq<char>>,
    status_text: Seq<char>,
) -> Option<ErrorView> {
    if status == 403 && rate_limit_remaining == Some("0"@) {
        Some(ErrorView::RateLimitExceeded)
    } else if !is_success(status) {
        Some(ErrorView::Internal("Failed to fetch PRs for "@ + slug + ": status "@ + status_text))
    } else {
        None
    }
}

pub fn pulls_status_error(
    slug: &str,
    status: u16,
    rate_limit_remaining: Option<String>,
    status_text: &str,
) -> (r: Option<CoreError>)
    ensures
        match r {
            Some(e) => pulls_error(slug@, status, rate_limit_remaining.deep_view(), status_text@) == Some(e@),
            None => pulls_error(slug@, status, rate_limit_remaining.deep_view(), status_text@) is None,
        },
{
    let limited = match &rate_limit_remaining {
        Some(v) => str_eq(v.as_str(), "0"),
        None => false,
    };
    if status == 403 && limited {
        Some(CoreError::RateLimitExceeded)
    } else if !(200 <= status && status <= 299) {
        let mut m = concat3("Failed to fetch PRs for ", slug, ": status ");
        m.append(status_text);
        Some(CoreError::Internal(m))
    } else {
        None
    }
}

// ----------------------------------------------------------------------------
// Archive entries.
// ----------------------------------------------------------------------------

/// The type of an archive entry.
#[derive(Debug)]
pub enum ArchiveEntryKind {
    Regular,
    Directory,
    Symlink,
    HardLink,
    /// Any other type, with its debug text.
    Other(String),
}

pub enum KindView {
    Regular,
    Directory,
    Symlink,
    HardLink,
    Other(Seq<char>),
}

impl View for ArchiveEntryKind {
    type V = KindView;

    open spec fn view(&self) -> KindView {
        match self {
            ArchiveEntryKind::Regular => KindView::Regular,
            ArchiveEntryKind::Directory => KindView::Directory,
            ArchiveEntryKind::Symlink => KindView::Symlink,
            ArchiveEntryKind::HardLink => KindView::HardLink,
            ArchiveEntryKind::Other(d) => KindView::Other(d@),
        }
    }
}

/// A component of an entry path (`std::path::Component`).
pub enum PathPart {
    Root,
    Current,
    Parent,
    Normal(Seq<char>),
}

/// The slash-separated segments of `s` before the last slash, and the rest.
pub open spec fn raw_segments_acc(s: Seq<char>) -> (Seq<Seq<char>>, Seq<char>)
    decreases s.len(),
{
    if s.len() == 0 {
        (seq![], seq![])
    } else {
        let (ss, cur) = raw_segments_acc(s.drop_last());
        if s.last() == '/' {
            (ss.push(cur), seq![])
        } else {
            (ss, cur.push(s.last()))
        }
    }
}

/// The slash-separated segments of `s`, empty ones included.
pub open spec fn raw_segments(s: Seq<char>) -> Seq<Seq<char>> {
    let (ss, cur) = raw_segments_acc(s);
    ss.push(cur)
}

/// The component a segment makes: empty and `.` segments make none, except
/// a `.` at the very start of a relative path.
pub open spec fn segment_part(seg: Seq<char>, at_start: bool) -> Seq<PathPart> {
    if seg.len() == 0 {
        seq![]
    } else if seg == seq!['.'] {
        if at_start {
            seq![PathPart::Current]
        } else {
            seq![]
        }
    } else if seg == seq!['.', '.'] {
        seq![PathPart::Parent]
    } else {
        seq![PathPart::Normal(seg)]
    }
}

/// The components of the first `n` segments.
pub open spec fn parts_upto(segs: Seq<Seq<char>>, n: int, relative: bool) -> Seq<PathPart>
    decreases n,
{
    if n <= 0 {
        seq![]
    } else {
        parts_upto(segs, n - 1, relative) + segment_part(segs[n - 1], relative && n == 1)
    }
}

/// The components of a path (`Path::components`).
pub open spec fn path_parts(s: Seq<char>) -> Seq<PathPart> {
    let segs = raw_segments(s);
    if s.len() > 0 && s[0] == '/' {
        seq![PathPart::Root] + parts_upto(segs, segs.len() as int, false)
    } else {
        parts_upto(segs, segs.len() as int, true)
    }
}

/// A `.` component only ever starts a path, so after the top directory only
/// normal components may remain.
pub open spec fn only_normal(ps: Seq<PathPart>) -> bool {
    forall|i: int| 0 <= i < ps.len() ==> #[trigger] ps[i] is Normal
}

pub open spec fn part_names(ps: Seq<PathPart>) -> Seq<Seq<char>> {
    ps.map_values(|p: PathPart| match p {
        PathPart::Normal(n) => n,
        _ => seq![],
    })
}

/// What extraction does with an entry.
#[derive(Debug)]
pub enum EntryDecision {
    /// Refuse the whole archive.
    Reject(CoreError),
    /// The top directory itself: nothing to write.
    Skip,
    /// Matches a preserve pattern: the existing file is left as it is.
    Preserve,
    /// Extract to this path relative to the destination.
    Extract(String),
}

pub enum DecisionView {
    Reject(ErrorView),
    Skip,
    Preserve,
    Extract(Seq<char>),
}

impl View for EntryDecision {
    type V = DecisionView;

    open spec fn view(&self) -> DecisionView {
        match self {
            EntryDecision::Reject(e) => DecisionView::Reject(e@),
            EntryDecision::Skip => DecisionView::Skip,
            EntryDecision::Preserve => DecisionView::Preserve,
            EntryDecision::Extract(p) => DecisionView::Extract(p@),
        }
    }
}

pub open spec fn violation(path_debug: Seq<char>, what: Seq<char>) -> ErrorView {
    ErrorView::Internal("Security violation: archive entry "@ + path_debug + what)
}

/// Whether the preserve patterns keep a relative path: the set of the valid
/// patterns matches it (a set that cannot be built keeps nothing).
pub open spec fn preserved(patterns: Seq<Seq<char>>, relative: Seq<char>) -> bool {
    globset_match(valid_patterns(patterns), relative) == Some(true)
}

/// The path an entry keeps once the archive's top directory is dropped.
pub open spec fn stripped(path: Seq<char>) -> Seq<PathPart> {
    let parts = path_parts(path);
    if parts.len() == 0 {
        parts
    } else {
        parts.drop_first()
    }
}

/// The decision for an entry of type `kind` at `path` (`path_debug` is its
/// debug text, as error messages show it).
pub open spec fn entry_decision(
    kind: KindView,
    path: Seq<char>,
    path_debug: Seq<char>,
    preserve: Seq<Seq<char>>,
) -> DecisionView {
    match kind {
        KindView::Symlink => DecisionView::Reject(
            violation(path_debug, " is a symbolic link; symbolic links are not supported for extraction"@),
        ),
        KindView::HardLink => DecisionView::Reject(
            violation(path_debug, " is a hard link; hard links are not supported for extraction"@),
        ),
        KindView::Other(k) => DecisionView::Reject(violation(path_debug, " has unsupported entry type "@ + k)),
        _ => {
            let rest = stripped(path);
            if rest.len() == 0 {
                DecisionView::Skip
            } else if !only_normal(rest) {
                DecisionView::Reject(
                    ErrorView::Internal(
                        "Security violation: Path traversal detected in archive entry "@ + path_debug,
                    ),
                )
            } else if preserved(preserve, join_with(part_names(rest), "/"@)) {
                DecisionView::Preserve
            } else {
                DecisionView::Extract(join_with(part_names(rest), "/"@))
            }
        },
    }
}

/// The error when a parent directory, links resolved, leaves the destination.
pub open spec fn zip_slip(path_debug: Seq<char>) -> ErrorView {
    ErrorView::Internal("Security violation: Zip Slip path traversal detected in archive entry "@ + path_debug)
}

/// Link entries, and entries of any type other than regular files and
/// directories, reject the whole archive, wherever they stand.
pub proof fn lemma_links_reject_archive(kind: KindView, path: Seq<char>, dbg: Seq<char>, preserve: Seq<Seq<char>>)
    requires
        !(kind is Regular || kind is Directory),
    ensures
        entry_decision(kind, path, dbg, preserve) is Reject,
{
}

/// An entry is extracted only when it is a regular file or a directory whose
/// path, past the archive's top directory, has only normal components (no
/// `..`, no root), and no preserve pattern keeps it.
pub proof fn lemma_extract_stays_inside(kind: KindView, path: Seq<char>, dbg: Seq<char>, preserve: Seq<Seq<char>>)
    requires
        entry_decision(kind, path, dbg, preserve) is Extract,
    ensures
        kind is Regular || kind is Directory,
        stripped(path).len() > 0,
        only_normal(stripped(path)),
        !preserved(preserve, join_with(part_names(stripped(path)), "/"@)),
{
}

/// A path component, as computed.
#[derive(Debug)]
pub enum Part {
    Root,
    Current,
    Parent,
    Normal(Vec<char>),
}

impl View for Part {
    type V = PathPart;

    open spec fn view(&self) -> PathPart {
        match self {
            Part::Root => PathPart::Root,
            Part::Current => PathPart::Current,
            Part::Parent => PathPart::Parent,
            Part::Normal(n) => PathPart::Normal(n@),
        }
    }
}

pub open spec fn part_views(ps: Seq<Part>) -> Seq<PathPart> {
    ps.map_values(|p: Part| p@)
}

fn raw_split(s: &Vec<char>) -> (r: Vec<Vec<char>>)
    ensures
        crate::paths::char_seqs(r@) == raw_segments(s@),
{
    let mut out: Vec<Vec<char>> = Vec::new();
    let mut cur: Vec<char> = Vec::new();
    let mut i: usize = 0;
    while i < s.len()
        invariant
            i <= s.len(),
            raw_segments_acc(s@.take(i as int)) == (crate::paths::char_seqs(out@), cur@),
        decreases s.len() - i,
    {
        assert(s@.take(i + 1).drop_last() =~= s@.take(i as int));
        if s[i] == '/' {
            let done = cur;
            cur = Vec::new();
            let ghost prev = crate::paths::char_seqs(out@);
            let ghost dv = done@;
            out.push(done);
            assert(crate::paths::char_seqs(out@) =~= prev.push(dv));
        } else {
            cur.push(s[i]);
        }
        i += 1;
    }
    assert(s@.take(s.len() as int) =~= s@);
    let ghost prev = crate::paths::char_seqs(out@);
    let ghost cv = cur@;
    out.push(cur);
    assert(crate::paths::char_seqs(out@) =~= prev.push(cv));
    out
}

fn push_segment_part(parts: &mut Vec<Part>, seg: &Vec<char>, at_start: bool)
    ensures
        part_views(final(parts)@) == part_views(old(parts)@) + segment_part(seg@, at_start),
{
    let ghost prev = part_views(parts@);
    if seg.len() == 0 {
        assert(part_views(parts@) =~= prev + seq![]);
    } else if seg.len() == 1 && seg[0] == '.' {
        assert(seg@ =~= seq!['.']);
        if at_start {
            parts.push(Part::Current);
            assert(part_views(parts@) =~= prev + seq![PathPart::Current]);
        } else {
            assert(part_views(parts@) =~= prev + seq![]);
        }
    } else if seg.len() == 2 && seg[0] == '.' && seg[1] == '.' {
        assert(seg@ =~= seq!['.', '.']);
        parts.push(Part::Parent);
        assert(part_views(parts@) =~= prev + seq![PathPart::Parent]);
    } else {
        assert(seg@ != seq!['.']);
        assert(seg@ != seq!['.', '.']);
        let ghost sv = seg@;
        parts.push(Part::Normal(seg.clone()));
        assert(part_views(parts@) =~= prev + seq![PathPart::Normal(sv)]);
    }
}

/// The components of a path.
fn path_parts_exec(path: &str) -> (r: Vec<Part>)
    ensures
        part_views(r@) == path_parts(path@),
{
    let s = to_chars(path);
    let segs = raw_split(&s);
    let ghost sv = crate::paths::char_seqs(segs@);
    let absolute = s.len() > 0 && s[0] == '/';
    let mut parts: Vec<Part> = Vec::new();
    if absolute {
        parts.push(Part::Root);
    }
    let ghost base = part_views(parts@);
    assert(base =~= (if absolute { seq![PathPart::Root] } else { seq![] }));
    let mut n: usize = 0;
    while n < segs.len()
        invariant
            n <= segs.len(),
            sv == crate::paths::char_seqs(segs@),
            part_views(parts@) == base + parts_upto(sv, n as int, !absolute),
        decreases segs.len() - n,
    {
        assert(sv[n as int] == segs@[n as int]@);
        push_segment_part(&mut parts, &segs[n], !absolute && n == 0);
        n += 1;
    }
    proof {
        if !absolute {
            assert(base + parts_upto(sv, sv.len() as int, true) =~= parts_upto(sv, sv.len() as int, true));
        }
    }
    parts
}

/// What extraction does with an entry of type `kind` at `path`.
pub fn decide_entry(
    kind: &ArchiveEntryKind,
    path: &str,
    path_debug: &str,
    preserve: &Vec<String>,
) -> (r: EntryDecision)
    ensures
        r@ == entry_decision(kind@, path@, path_debug@, preserve.deep_view()),
{
    match kind {
        ArchiveEntryKind::Symlink => {
            let m = concat3(
                "Security violation: archive entry ",
                path_debug,
                " is a symbolic link; symbolic links are not supported for extraction",
            );
            return EntryDecision::Reject(CoreError::Internal(m));
        },
        ArchiveEntryKind::HardLink => {
            let m = concat3(
                "Security violation: archive entry ",
                path_debug,
                " is a hard link; hard links are not supported for extraction",
            );
            return EntryDecision::Reject(CoreError::Internal(m));
        },
        ArchiveEntryKind::Other(k) => {
            let mut m = concat3("Security violation: archive entry ", path_debug, " has unsupported entry type ");
            m.append(k.as_str());
            assert(m@ =~= "Security violation: archive entry "@ + path_debug@ + (" has unsupported entry type "@ + k@));
            return EntryDecision::Reject(CoreError::Internal(m));
        },
        _ => {},
    }
    let mut parts = path_parts_exec(path);
    if parts.len() > 0 {
        parts.remove(0);
        assert(part_views(parts@) =~= path_parts(path@).drop_first());
    }
    let ghost rest = part_views(parts@);
    assert(rest == stripped(path@));
    assert(kind@ is Regular || kind@ is Directory);
    if parts.len() == 0 {
        return EntryDecision::Skip;
    }
    let mut names: Vec<String> = Vec::new();
    let mut i: usize = 0;
    while i < parts.len()
        invariant
            i <= parts.len(),
            rest == part_views(parts@),
            forall|j: int| 0 <= j < i ==> #[trigger] rest[j] is Normal,
            names.deep_view() == part_names(rest.take(i as int)),
            kind@ is Regular || kind@ is Directory,
            rest == stripped(path@),
            rest.len() > 0,
        decreases parts.len() - i,
    {
        match &parts[i] {
            Part::Normal(n) => {
                let ghost prev = names.deep_view();
                names.push(from_chars(n));
                assert(rest[i as int] == PathPart::Normal(n@));
                assert(names.deep_view() =~= prev.push(n@));
                assert(part_names(rest.take(i + 1)) =~= part_names(rest.take(i as int)).push(n@));
            },
            _ => {
                assert(!(rest[i as int] is Normal));
                assert(!only_normal(rest));
                assert(rest.len() != 0);
                return EntryDecision::Reject(
                    CoreError::Internal(
                        concat2("Security violation: Path traversal detected in archive entry ", path_debug),
                    ),
                );
            },
        }
        i += 1;
    }
    assert(rest.take(parts.len() as int) =~= rest);
    let relative = join_strings(&names, "/");
    let valid = valid_globs(preserve);
    match match_globset(&valid, relative.as_str()) {
        Some(true) => EntryDecision::Preserve,
        _ => EntryDecision::Extract(relative),
    }
}

/// Each parent directory, links resolved, must lie within the resolved
/// destination.
pub fn check_parent(canonical_dest: &str, canonical_parent: &str, path_debug: &str) -> (r: Result<(), CoreError>)
    ensures
        match r {
            Ok(()) => crate::paths::is_within(canonical_dest@, canonical_parent@),
            Err(e) => !crate::paths::is_within(canonical_dest@, canonical_parent@) && e@ == zip_slip(path_debug@),
        },
{
    if crate::paths::path_is_within(canonical_dest, canonical_parent) {
        Ok(())
    } else {
        Err(CoreError::Internal(
            concat2("Security violation: Zip Slip path traversal detected in archive entry ", path_debug),
        ))
    }
}

} // verus!
