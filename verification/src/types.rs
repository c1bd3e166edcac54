//! Shared domain data: languages, projects, commands, scans, version control.
//!
//! Instants are Unix timestamps in nanoseconds (`i64`); identifiers are the
//! 128-bit values of UUIDs.

use vstd::prelude::*;

use crate::text::{owned, concat3};

verus! {

/// Languages that can be detected.
#[derive(Debug, PartialEq, Eq)]
pub enum Language {
    Rust,
    Python,
    Node,
    Go,
    Ruby,
    Zig,
    /// A language without first-class support.
    Unknown(String),
}

impl Language {
    /// The display name of a language.
    pub open spec fn spec_name(&self) -> Seq<char> {
        match self {
            Language::Rust => "Rust"@,
            Language::Python => "Python"@,
            Language::Node => "Node"@,
            Language::Go => "Go"@,
            Language::Ruby => "Ruby"@,
            Language::Zig => "Zig"@,
            Language::Unknown(name) => name@,
        }
    }

    /// The display name of a language (its `Display` text).
    pub fn name(&self) -> (s: String)
        ensures
            s@ == self.spec_name(),
    {
        match self {
            Language::Rust => owned("Rust"),
            Language::Python => owned("Python"),
            Language::Node => owned("Node"),
            Language::Go => owned("Go"),
            Language::Ruby => owned("Ruby"),
            Language::Zig => owned("Zig"),
            Language::Unknown(name) => name.clone(),
        }
    }

    /// The `Debug` text of a language.
    pub open spec fn spec_debug_text(&self) -> Seq<char> {
        match self {
            Language::Unknown(name) => "Unknown(\""@ + name@ + "\")"@,
            _ => self.spec_name(),
        }
    }

    pub fn debug_text(&self) -> (s: String)
        ensures
            s@ == self.spec_debug_text(),
    {
        match self {
            Language::Unknown(name) => concat3("Unknown(\"", name.as_str(), "\")"),
            _ => self.name(),
        }
    }
}

/// The value of a language, an unsupported one by its name.
pub enum LanguageView {
    Rust,
    Python,
    Node,
    Go,
    Ruby,
    Zig,
    Unknown(Seq<char>),
}

impl View for Language {
    type V = LanguageView;

    open spec fn view(&self) -> LanguageView {
        match self {
            Language::Rust => LanguageView::Rust,
            Language::Python => LanguageView::Python,
            Language::Node => LanguageView::Node,
            Language::Go => LanguageView::Go,
            Language::Ruby => LanguageView::Ruby,
            Language::Zig => LanguageView::Zig,
            Language::Unknown(n) => LanguageView::Unknown(n@),
        }
    }
}

impl Language {
    /// Whether two languages are the same.
    pub fn same(&self, other: &Language) -> (b: bool)
        ensures
            b == (self@ == other@),
    {
        match (self, other) {
            (Language::Rust, Language::Rust) => true,
            (Language::Python, Language::Python) => true,
            (Language::Node, Language::Node) => true,
            (Language::Go, Language::Go) => true,
            (Language::Ruby, Language::Ruby) => true,
            (Language::Zig, Language::Zig) => true,
            (Language::Unknown(a), Language::Unknown(b)) => crate::text::str_eq(a.as_str(), b.as_str()),
            _ => false,
        }
    }
}

impl Clone for Language {
    fn clone(&self) -> (r: Self)
        ensures
            r == *self,
    {
        match self {
            Language::Rust => Language::Rust,
            Language::Python => Language::Python,
            Language::Node => Language::Node,
            Language::Go => Language::Go,
            Language::Ruby => Language::Ruby,
            Language::Zig => Language::Zig,
            Language::Unknown(n) => Language::Unknown(n.clone()),
        }
    }
}

/// How confident a language detection is.
#[derive(Debug, Clone, Copy, PartialEq, Eq, Structural)]
pub enum DetectionConfidence {
    /// A definitive marker was found (e.g. `Cargo.toml`).
    High,
    /// Supporting evidence only (e.g. a lock file).
    Medium,
    /// A weak signal.
    Low,
}

impl DetectionConfidence {
    pub open spec fn spec_label(self) -> Seq<char> {
        match self {
            DetectionConfidence::High => "high"@,
            DetectionConfidence::Medium => "medium"@,
            DetectionConfidence::Low => "low"@,
        }
    }

    /// The stored label (`Display` text).
    pub fn label(self) -> (s: &'static str)
        ensures
            s@ == self.spec_label(),
    {
        match self {
            DetectionConfidence::High => "high",
            DetectionConfidence::Medium => "medium",
            DetectionConfidence::Low => "low",
        }
    }
}

/// Evidence for a language detection.
#[derive(Debug, PartialEq, Eq)]
pub enum LanguageMarker {
    /// A package manifest (e.g. `Cargo.toml`).
    ManifestFile(String),
    /// A lock file (e.g. `Cargo.lock`).
    LockFile(String),
    /// A configuration file (e.g. `requirements.txt`).
    ConfigFile(String),
    /// Source files with this extension.
    FileExtension(String),
}

impl Clone for LanguageMarker {
    fn clone(&self) -> (r: Self)
        ensures
            r == *self,
    {
        match self {
            LanguageMarker::ManifestFile(s) => LanguageMarker::ManifestFile(s.clone()),
            LanguageMarker::LockFile(s) => LanguageMarker::LockFile(s.clone()),
            LanguageMarker::ConfigFile(s) => LanguageMarker::ConfigFile(s.clone()),
            LanguageMarker::FileExtension(s) => LanguageMarker::FileExtension(s.clone()),
        }
    }
}

/// The value of a marker, its file name as text.
pub enum MarkerView {
    Manifest(Seq<char>),
    Lock(Seq<char>),
    Config(Seq<char>),
    Extension(Seq<char>),
}

impl View for LanguageMarker {
    type V = MarkerView;

    open spec fn view(&self) -> MarkerView {
        match self {
            LanguageMarker::ManifestFile(s) => MarkerView::Manifest(s@),
            LanguageMarker::LockFile(s) => MarkerView::Lock(s@),
            LanguageMarker::ConfigFile(s) => MarkerView::Config(s@),
            LanguageMarker::FileExtension(s) => MarkerView::Extension(s@),
        }
    }
}

/// The value of a detection: language, confidence and marker values.
pub struct DetectionView {
    pub language: Language,
    pub confidence: DetectionConfidence,
    pub markers: Seq<MarkerView>,
}

/// A detected language with its confidence and evidence.
#[derive(Debug)]
pub struct LanguageDetection {
    pub language: Language,
    pub confidence: DetectionConfidence,
    pub markers: Vec<LanguageMarker>,
}

impl Clone for LanguageDetection {
    fn clone(&self) -> (r: Self)
        ensures
            r.language == self.language,
            r.confidence == self.confidence,
            r.markers@ == self.markers@,
    {
        let markers = self.markers.clone();
        assert forall|i: int| 0 <= i < markers.len() implies markers[i] == self.markers[i] by {
            assert(cloned::<LanguageMarker>(self.markers[i], markers[i]));
        }
        assert(markers@ =~= self.markers@);
        LanguageDetection {
            language: self.language.clone(),
            confidence: self.confidence,
            markers,
        }
    }
}

pub open spec fn marker_views(ms: Seq<LanguageMarker>) -> Seq<MarkerView> {
    ms.map_values(|m: LanguageMarker| m@)
}

impl View for LanguageDetection {
    type V = DetectionView;

    open spec fn view(&self) -> DetectionView {
        DetectionView {
            language: self.language,
            confidence: self.confidence,
            markers: marker_views(self.markers@),
        }
    }
}

/// Evidence that a directory is a project or deployment root, independent of
/// its language.
#[derive(Debug, Clone, PartialEq, Eq)]
pub enum ProjectRootMarker {
    /// A Cloudflare Wrangler configuration file (by name).
    CloudflareWrangler(String),
}

impl ProjectRootMarker {
    pub open spec fn spec_platform(&self) -> Seq<char> {
        match self {
            ProjectRootMarker::CloudflareWrangler(_) => "cloudflare-wrangler"@,
        }
    }

    /// The platform this marker belongs to.
    pub fn platform(&self) -> (s: &'static str)
        ensures
            s@ == self.spec_platform(),
    {
        match self {
            ProjectRootMarker::CloudflareWrangler(_) => "cloudflare-wrangler",
        }
    }
}

/// A runnable command discovered in a project.
#[derive(Debug)]
pub struct ProjectCommand {
    pub name: String,
    pub description: Option<String>,
    pub command: String,
    /// Where the command came from, e.g. `Cargo.toml`, `package.json`, `justfile`.
    pub source: String,
    pub use_shell: bool,
}

/// The value of a command as text.
pub struct CommandView {
    pub name: Seq<char>,
    pub description: Option<Seq<char>>,
    pub command: Seq<char>,
    pub source: Seq<char>,
    pub use_shell: bool,
}

impl View for ProjectCommand {
    type V = CommandView;

    open spec fn view(&self) -> CommandView {
        CommandView {
            name: self.name@,
            description: match self.description {
                Some(d) => Some(d@),
                None => None,
            },
            command: self.command@,
            source: self.source@,
            use_shell: self.use_shell,
        }
    }
}

impl Clone for ProjectCommand {
    fn clone(&self) -> (r: Self)
        ensures
            r == *self,
    {
        ProjectCommand {
            name: self.name.clone(),
            description: match &self.description {
                Some(d) => Some(d.clone()),
                None => None,
            },
            command: self.command.clone(),
            source: self.source.clone(),
            use_shell: self.use_shell,
        }
    }
}

/// Extensible project metadata.
#[derive(Debug, Clone)]
pub struct ProjectMetadata {
    pub description: Option<String>,
    pub tags: Vec<String>,
    pub commands: Vec<ProjectCommand>,
    /// The platform recorded from a project-root marker, if any.
    pub platform: Option<String>,
    /// Any other stored metadata, kept as it was read: each key with the
    /// JSON text of its value.
    pub extra: Vec<(String, String)>,
}

impl Default for ProjectMetadata {
    /// Empty metadata.
    fn default() -> (m: Self)
        ensures
            m.description is None,
            m.tags@.len() == 0,
            m.commands@.len() == 0,
            m.platform is None,
            m.extra@.len() == 0,
    {
        ProjectMetadata { description: None, tags: Vec::new(), commands: Vec::new(), platform: None, extra: Vec::new() }
    }
}

/// A repository tracked on a remote forge.
#[derive(Debug, Clone)]
pub struct RemoteProject {
    /// `owner/name` of the repository.
    pub repo_slug: String,
    /// Glob patterns of files kept across refreshes.
    pub preserve_patterns: Vec<String>,
}

/// State of a scan.
#[derive(Debug, Clone, Copy, PartialEq, Eq, Structural)]
pub enum ScanStatus {
    Running,
    Completed,
    Failed,
}

impl ScanStatus {
    pub open spec fn spec_label(self) -> Seq<char> {
        match self {
            ScanStatus::Running => "running"@,
            ScanStatus::Completed => "completed"@,
            ScanStatus::Failed => "failed"@,
        }
    }

    /// The stored label (`Display` text).
    pub fn label(self) -> (s: &'static str)
        ensures
            s@ == self.spec_label(),
    {
        match self {
            ScanStatus::Running => "running",
            ScanStatus::Completed => "completed",
            ScanStatus::Failed => "failed",
        }
    }

    /// Reads a stored label back; `None` for any other text.
    pub fn parse(s: &str) -> (r: Option<ScanStatus>)
        ensures
            match r {
                Some(st) => st.spec_label() == s@,
                None => s@ != "running"@ && s@ != "completed"@ && s@ != "failed"@,
            },
    {
        if crate::text::str_eq(s, "running") {
            Some(ScanStatus::Running)
        } else if crate::text::str_eq(s, "completed") {
            Some(ScanStatus::Completed)
        } else if crate::text::str_eq(s, "failed") {
            Some(ScanStatus::Failed)
        } else {
            None
        }
    }
}

/// The default maximum traversal depth of a scan.
pub const DEFAULT_MAX_DEPTH: usize = 5;

/// Configuration of a scan.
#[derive(Debug, Clone)]
pub struct ScanConfig {
    /// Maximum directory depth to traverse.
    pub max_depth: usize,
    /// Glob patterns of paths to skip.
    pub exclude_patterns: Vec<String>,
    /// Whether symbolic links are followed.
    pub follow_symlinks: bool,
}

impl Default for ScanConfig {
    /// Depth `DEFAULT_MAX_DEPTH`, no exclusions, symbolic links not followed.
    fn default() -> (c: Self)
        ensures
            c.max_depth == DEFAULT_MAX_DEPTH,
            c.exclude_patterns@.len() == 0,
            !c.follow_symlinks,
    {
        ScanConfig { max_depth: DEFAULT_MAX_DEPTH, exclude_patterns: Vec::new(), follow_symlinks: false }
    }
}

/// Supported version control systems.
#[derive(Debug, Clone, Copy, PartialEq, Eq, Structural)]
pub enum VcsType {
    Git,
}

impl VcsType {
    pub fn label(self) -> (s: &'static str)
        ensures
            s@ == "Git"@,
    {
        match self {
            VcsType::Git => "Git",
        }
    }
}

/// A commit.
#[derive(Debug, Clone)]
pub struct CommitInfo {
    pub sha: String,
    pub message: String,
    pub author: String,
    /// Commit time, Unix nanoseconds.
    pub timestamp: i64,
}

/// Version control state of a project.
#[derive(Debug, Clone)]
pub struct VcsInfo {
    pub vcs_type: VcsType,
    pub branch: Option<String>,
    pub remote_url: Option<String>,
    pub is_dirty: bool,
    pub last_commit: Option<CommitInfo>,
}

/// A command execution record.
#[derive(Debug)]
pub struct ProjectLog {
    pub id: String,
    pub project_id: String,
    pub command_name: String,
    /// `None` when the process ended without an exit code.
    pub exit_code: Option<i32>,
    pub log_text: String,
    /// When the command ran, Unix nanoseconds.
    pub run_at: i64,
}

impl Clone for ProjectLog {
    fn clone(&self) -> (r: Self)
        ensures
            r == *self,
    {
        ProjectLog {
            id: self.id.clone(),
            project_id: self.project_id.clone(),
            command_name: self.command_name.clone(),
            exit_code: self.exit_code,
            log_text: self.log_text.clone(),
            run_at: self.run_at,
        }
    }
}

/// An open pull request.
#[derive(Debug, Clone)]
pub struct PullRequest {
    pub number: u64,
    pub title: String,
    pub author: String,
    pub branch: String,
    pub url: String,
    /// Last update, Unix nanoseconds.
    pub updated_at: i64,
    pub is_draft: bool,
}


/// Lower-case hexadecimal digit of `d` (below 16).
pub open spec fn hex_lower(d: nat) -> char {
    if d < 10 {
        crate::text::digit_char(d)
    } else if d == 10 {
        'a'
    } else if d == 11 {
        'b'
    } else if d == 12 {
        'c'
    } else if d == 13 {
        'd'
    } else if d == 14 {
        'e'
    } else {
        'f'
    }
}

/// The `n`-th of the 32 hexadecimal digits of `v`, most significant first.
pub open spec fn uuid_nibble(v: u128, n: int) -> nat {
    ((v as nat) / vstd::arithmetic::power2::pow2((4 * (31 - n)) as nat)) % 16
}

/// Hyphenated lower-case text of a UUID (8-4-4-4-12 hexadecimal digits).
pub open spec fn uuid_text(v: u128) -> Seq<char> {
    Seq::new(
        36,
        |k: int|
            if k == 8 || k == 13 || k == 18 || k == 23 {
                '-'
            } else {
                let dashes: int = if k < 8 {
                    0
                } else if k < 13 {
                    1
                } else if k < 18 {
                    2
                } else if k < 23 {
                    3
                } else {
                    4
                };
                hex_lower(uuid_nibble(v, k - dashes))
            },
    )
}

/// A random UUID of version 4 in the RFC 4122 variant: its version digit
/// (the thirteenth hexadecimal digit) is `4`, and the first digit of its
/// fourth group is one of `8`, `9`, `a`, `b`; the other digits are random.
pub open spec fn is_random_uuid(v: u128) -> bool {
    &&& uuid_nibble(v, 12) == 4
    &&& 8 <= uuid_nibble(v, 16) <= 11
}

/// A fresh random UUID value (`uuid::Uuid::new_v4`, taken by `as_u128`).
/// Trusted: `new_v4` masks random bits with `0xFFFFFFFFFFFF4FFFBFFFFFFFFFFFFFFF`
/// and sets `0x40008000000000000000`, so the value is a random UUID as
/// `is_random_uuid` says; which one is left unsaid.
#[verifier::external_body]
fn random_uuid() -> (v: u128)
    ensures
        is_random_uuid(v),
{
    uuid::Uuid::new_v4().as_u128()
}

/// The hyphenated lower-case text of a UUID (`Display` of `uuid::Uuid`): the
/// 32 hexadecimal digits of the value, most significant first, split 8-4-4-4-12
/// by hyphens.
#[verifier::external_body]
fn uuid_to_text(v: u128) -> (s: String)
    ensures
        s@ == uuid_text(v),
{
    uuid::Uuid::from_u128(v).hyphenated().to_string()
}

/// Opaque project identifier (the value of a UUID).
#[derive(Debug, Clone, Copy, PartialEq, Eq, Structural)]
pub struct ProjectId(pub u128);

impl ProjectId {
    /// A new random identifier: a version 4 UUID.
    pub fn new() -> (id: ProjectId)
        ensures
            is_random_uuid(id.0),
    {
        ProjectId(random_uuid())
    }

    /// The hyphenated text of the identifier (its `Display` text).
    pub fn text(&self) -> (s: String)
        ensures
            s@ == uuid_text(self.0),
    {
        uuid_to_text(self.0)
    }
}

/// Opaque scan identifier (the value of a UUID).
#[derive(Debug, Clone, Copy, PartialEq, Eq, Structural)]
pub struct ScanId(pub u128);

impl ScanId {
    /// A new random identifier: a version 4 UUID.
    pub fn new() -> (id: ScanId)
        ensures
            is_random_uuid(id.0),
    {
        ScanId(random_uuid())
    }

    /// The hyphenated text of the identifier.
    pub fn text(&self) -> (s: String)
        ensures
            s@ == uuid_text(self.0),
    {
        uuid_to_text(self.0)
    }
}

/// A tracked software project.
#[derive(Debug, Clone)]
pub struct Project {
    pub id: ProjectId,
    pub name: String,
    /// Filesystem path of the project root.
    pub path: String,
    pub languages: Vec<LanguageDetection>,
    pub vcs: Option<VcsInfo>,
    /// First time the project was seen, Unix nanoseconds.
    pub discovered_at: i64,
    /// Last scan that saw the project, Unix nanoseconds.
    pub last_scanned_at: Option<i64>,
    pub metadata: ProjectMetadata,
}

/// Record of a scan.
#[derive(Debug, Clone)]
pub struct ScanRecord {
    pub id: ScanId,
    pub root_path: String,
    pub started_at: i64,
    pub completed_at: Option<i64>,
    pub projects_found: usize,
    pub status: ScanStatus,
}

} // verus!
