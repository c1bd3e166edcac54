//! Detection of languages and project roots from the files a directory holds.
//!
//! A directory is described by the names of its entries. Each detector looks
//! for the marker files of one language; project-root markers (Cloudflare
//! Wrangler configuration) establish a deployment root without claiming a
//! language.

use vstd::prelude::*;

use crate::text::{contains_name, ends_with_str, has_suffix, owned};
use crate::types::{
    DetectionConfidence, DetectionView, Language, LanguageDetection, LanguageMarker, MarkerView,
    ProjectRootMarker, marker_views,
};

verus! {

/// The kinds of marker a detector records.
#[derive(Debug, Clone, Copy, PartialEq, Eq, Structural)]
pub enum MarkerKind {
    Manifest,
    Lock,
    Config,
}

pub open spec fn kind_view(kind: MarkerKind, name: Seq<char>) -> MarkerView {
    match kind {
        MarkerKind::Manifest => MarkerView::Manifest(name),
        MarkerKind::Lock => MarkerView::Lock(name),
        MarkerKind::Config => MarkerView::Config(name),
    }
}

/// The marker for `name` when the directory holds it.
pub open spec fn present(entries: Seq<Seq<char>>, name: Seq<char>, kind: MarkerKind) -> Seq<MarkerView> {
    if entries.contains(name) {
        seq![kind_view(kind, name)]
    } else {
        seq![]
    }
}

pub open spec fn rust_markers(es: Seq<Seq<char>>) -> Seq<MarkerView> {
    present(es, "Cargo.toml"@, MarkerKind::Manifest) + present(es, "Cargo.lock"@, MarkerKind::Lock)
}

pub open spec fn python_markers(es: Seq<Seq<char>>) -> Seq<MarkerView> {
    present(es, "pyproject.toml"@, MarkerKind::Manifest) + present(es, "setup.py"@, MarkerKind::Manifest)
        + present(es, "setup.cfg"@, MarkerKind::Manifest) + present(es, "poetry.lock"@, MarkerKind::Lock)
        + present(es, "Pipfile.lock"@, MarkerKind::Lock) + present(es, "uv.lock"@, MarkerKind::Lock)
        + present(es, "requirements.txt"@, MarkerKind::Config)
}

pub open spec fn node_markers(es: Seq<Seq<char>>) -> Seq<MarkerView> {
    present(es, "package.json"@, MarkerKind::Manifest) + present(es, "package-lock.json"@, MarkerKind::Lock)
        + present(es, "yarn.lock"@, MarkerKind::Lock) + present(es, "pnpm-lock.yaml"@, MarkerKind::Lock)
        + present(es, "bun.lockb"@, MarkerKind::Lock)
}

pub open spec fn go_markers(es: Seq<Seq<char>>) -> Seq<MarkerView> {
    present(es, "go.mod"@, MarkerKind::Manifest) + present(es, "go.sum"@, MarkerKind::Lock)
}

/// The `.gemspec` entries of a directory, in order, as manifests.
pub open spec fn gemspec_markers(es: Seq<Seq<char>>) -> Seq<MarkerView>
    decreases es.len(),
{
    if es.len() == 0 {
        seq![]
    } else {
        let prev = gemspec_markers(es.drop_last());
        if has_suffix(es.last(), ".gemspec"@) {
            prev.push(MarkerView::Manifest(es.last()))
        } else {
            prev
        }
    }
}

pub open spec fn ruby_markers(es: Seq<Seq<char>>) -> Seq<MarkerView> {
    present(es, "Gemfile"@, MarkerKind::Manifest) + gemspec_markers(es) + present(
        es,
        "Gemfile.lock"@,
        MarkerKind::Lock,
    )
}

pub open spec fn zig_markers(es: Seq<Seq<char>>) -> Seq<MarkerView> {
    present(es, "build.zig"@, MarkerKind::Manifest) + present(es, "build.zig.zon"@, MarkerKind::Lock)
}

pub open spec fn has_manifest(ms: Seq<MarkerView>) -> bool {
    exists|i: int| 0 <= i < ms.len() && #[trigger] ms[i] is Manifest
}

/// A detection from markers: none without markers; high confidence with a
/// manifest (or always, when `always_high`), medium otherwise.
pub open spec fn detection_from(language: Language, ms: Seq<MarkerView>, always_high: bool) -> Option<
    DetectionView,
> {
    if ms.len() == 0 {
        None
    } else {
        Some(
            DetectionView {
                language,
                confidence: if always_high || has_manifest(ms) {
                    DetectionConfidence::High
                } else {
                    DetectionConfidence::Medium
                },
                markers: ms,
            },
        )
    }
}

pub open spec fn opt_seq(d: Option<DetectionView>) -> Seq<DetectionView> {
    match d {
        Some(v) => seq![v],
        None => seq![],
    }
}

/// The languages a directory shows, in the order Rust, Python, Node, Go, Ruby, Zig.
pub open spec fn detections_of(es: Seq<Seq<char>>) -> Seq<DetectionView> {
    opt_seq(detection_from(Language::Rust, rust_markers(es), false)) + opt_seq(
        detection_from(Language::Python, python_markers(es), false),
    ) + opt_seq(detection_from(Language::Node, node_markers(es), true)) + opt_seq(
        detection_from(Language::Go, go_markers(es), true),
    ) + opt_seq(detection_from(Language::Ruby, ruby_markers(es), false)) + opt_seq(
        detection_from(Language::Zig, zig_markers(es), false),
    )
}

/// Every file name a language detector looks for (besides `*.gemspec`).
pub open spec fn marker_names() -> Seq<Seq<char>> {
    seq![
        "Cargo.toml"@, "Cargo.lock"@, "pyproject.toml"@, "setup.py"@, "setup.cfg"@, "poetry.lock"@,
        "Pipfile.lock"@, "uv.lock"@, "requirements.txt"@, "package.json"@, "package-lock.json"@,
        "yarn.lock"@, "pnpm-lock.yaml"@, "bun.lockb"@, "go.mod"@, "go.sum"@, "Gemfile"@,
        "Gemfile.lock"@, "build.zig"@, "build.zig.zon"@,
    ]
}

proof fn lemma_present_push(es: Seq<Seq<char>>, n: Seq<char>, name: Seq<char>, kind: MarkerKind)
    requires
        name != n,
    ensures
        present(es.push(n), name, kind) == present(es, name, kind),
{
    if es.push(n).contains(name) {
        let i = choose|i: int| 0 <= i < es.push(n).len() && es.push(n)[i] == name;
        assert(i < es.len());
        assert(es[i] == name);
    }
    if es.contains(name) {
        let i = choose|i: int| 0 <= i < es.len() && es[i] == name;
        assert(es.push(n)[i] == name);
    }
}

/// A file that is no language marker (not one of the names the detectors look
/// for, nor a `.gemspec`) never changes the detected languages: a Wrangler
/// configuration, for one, marks a deployment root and claims no language.
pub proof fn lemma_other_files_claim_no_language(es: Seq<Seq<char>>, n: Seq<char>)
    requires
        !marker_names().contains(n),
        !has_suffix(n, ".gemspec"@),
    ensures
        detections_of(es.push(n)) == detections_of(es),
{
    let ms = marker_names();
    assert forall|i: int| 0 <= i < ms.len() implies ms[i] != n by {
        if ms[i] == n {
            assert(ms.contains(n));
        }
    }
    assert(ms[0] == "Cargo.toml"@ && ms[1] == "Cargo.lock"@ && ms[2] == "pyproject.toml"@);
    assert(ms[3] == "setup.py"@ && ms[4] == "setup.cfg"@ && ms[5] == "poetry.lock"@);
    assert(ms[6] == "Pipfile.lock"@ && ms[7] == "uv.lock"@ && ms[8] == "requirements.txt"@);
    assert(ms[9] == "package.json"@ && ms[10] == "package-lock.json"@ && ms[11] == "yarn.lock"@);
    assert(ms[12] == "pnpm-lock.yaml"@ && ms[13] == "bun.lockb"@ && ms[14] == "go.mod"@);
    assert(ms[15] == "go.sum"@ && ms[16] == "Gemfile"@ && ms[17] == "Gemfile.lock"@);
    assert(ms[18] == "build.zig"@ && ms[19] == "build.zig.zon"@);
    lemma_present_push(es, n, "Cargo.toml"@, MarkerKind::Manifest);
    lemma_present_push(es, n, "Cargo.lock"@, MarkerKind::Lock);
    lemma_present_push(es, n, "pyproject.toml"@, MarkerKind::Manifest);
    lemma_present_push(es, n, "setup.py"@, MarkerKind::Manifest);
    lemma_present_push(es, n, "setup.cfg"@, MarkerKind::Manifest);
    lemma_present_push(es, n, "poetry.lock"@, MarkerKind::Lock);
    lemma_present_push(es, n, "Pipfile.lock"@, MarkerKind::Lock);
    lemma_present_push(es, n, "uv.lock"@, MarkerKind::Lock);
    lemma_present_push(es, n, "requirements.txt"@, MarkerKind::Config);
    lemma_present_push(es, n, "package.json"@, MarkerKind::Manifest);
    lemma_present_push(es, n, "package-lock.json"@, MarkerKind::Lock);
    lemma_present_push(es, n, "yarn.lock"@, MarkerKind::Lock);
    lemma_present_push(es, n, "pnpm-lock.yaml"@, MarkerKind::Lock);
    lemma_present_push(es, n, "bun.lockb"@, MarkerKind::Lock);
    lemma_present_push(es, n, "go.mod"@, MarkerKind::Manifest);
    lemma_present_push(es, n, "go.sum"@, MarkerKind::Lock);
    lemma_present_push(es, n, "Gemfile"@, MarkerKind::Manifest);
    lemma_present_push(es, n, "Gemfile.lock"@, MarkerKind::Lock);
    lemma_present_push(es, n, "build.zig"@, MarkerKind::Manifest);
    lemma_present_push(es, n, "build.zig.zon"@, MarkerKind::Lock);
    assert(es.push(n).drop_last() =~= es);
    assert(gemspec_markers(es.push(n)) == gemspec_markers(es));
}

/// The place of a language in detection order: Rust, Python, Node, Go, Ruby,
/// Zig (an unsupported language last).
pub open spec fn language_rank(l: Language) -> int {
    match l {
        Language::Rust => 0,
        Language::Python => 1,
        Language::Node => 2,
        Language::Go => 3,
        Language::Ruby => 4,
        Language::Zig => 5,
        Language::Unknown(_) => 6,
    }
}

/// The file a marker names.
pub open spec fn marker_file(m: MarkerView) -> Seq<char> {
    match m {
        MarkerView::Manifest(n) => n,
        MarkerView::Lock(n) => n,
        MarkerView::Config(n) => n,
        MarkerView::Extension(n) => n,
    }
}

/// Every marker names an entry of the directory, and none is an extension.
pub open spec fn markers_in(ms: Seq<MarkerView>, es: Seq<Seq<char>>) -> bool {
    forall|k: int| 0 <= k < ms.len() ==> es.contains(marker_file(#[trigger] ms[k])) && !(ms[k] is Extension)
}

/// A detection with evidence from the directory, for a supported language.
pub open spec fn grounded(d: DetectionView, es: Seq<Seq<char>>) -> bool {
    &&& d.markers.len() > 0
    &&& markers_in(d.markers, es)
    &&& !(d.language is Unknown)
}

/// Detections in strictly increasing language order, each grounded, all
/// before language place `bound`.
pub open spec fn ordered_below(ds: Seq<DetectionView>, bound: int, es: Seq<Seq<char>>) -> bool {
    &&& forall|i: int, j: int| 0 <= i < j < ds.len() ==> language_rank(#[trigger] ds[i].language) < language_rank(#[trigger] ds[j].language)
    &&& forall|i: int| 0 <= i < ds.len() ==> language_rank(#[trigger] ds[i].language) < bound && grounded(ds[i], es)
}

proof fn lemma_present_in(es: Seq<Seq<char>>, name: Seq<char>, kind: MarkerKind)
    ensures
        markers_in(present(es, name, kind), es),
{
}

proof fn lemma_markers_in_concat(a: Seq<MarkerView>, b: Seq<MarkerView>, es: Seq<Seq<char>>)
    requires
        markers_in(a, es),
        markers_in(b, es),
    ensures
        markers_in(a + b, es),
{
    assert forall|k: int| 0 <= k < (a + b).len() implies es.contains(marker_file(#[trigger] (a + b)[k])) && !((a + b)[k] is Extension) by {
        if k < a.len() {
            assert((a + b)[k] == a[k]);
        } else {
            assert((a + b)[k] == b[k - a.len()]);
        }
    }
}

proof fn lemma_gemspecs_in(es: Seq<Seq<char>>)
    ensures
        markers_in(gemspec_markers(es), es),
    decreases es.len(),
{
    if es.len() > 0 {
        let prev = es.drop_last();
        lemma_gemspecs_in(prev);
        let g = gemspec_markers(prev);
        assert forall|k: int| 0 <= k < g.len() implies es.contains(marker_file(#[trigger] g[k])) by {
            let j = choose|j: int| 0 <= j < prev.len() && prev[j] == marker_file(g[k]);
            assert(es[j] == prev[j]);
        }
        assert(es.contains(es.last())) by {
            assert(es[es.len() - 1] == es.last());
        }
        if has_suffix(es.last(), ".gemspec"@) {
            let out = g.push(MarkerView::Manifest(es.last()));
            assert forall|k: int| 0 <= k < out.len() implies es.contains(marker_file(#[trigger] out[k])) && !(out[k] is Extension) by {
                if k < g.len() {
                    assert(out[k] == g[k]);
                }
            }
        }
    }
}

proof fn lemma_python_in(es: Seq<Seq<char>>)
    ensures
        markers_in(python_markers(es), es),
{
    let a = present(es, "pyproject.toml"@, MarkerKind::Manifest);
    let b = present(es, "setup.py"@, MarkerKind::Manifest);
    let c = present(es, "setup.cfg"@, MarkerKind::Manifest);
    let d = present(es, "poetry.lock"@, MarkerKind::Lock);
    let e = present(es, "Pipfile.lock"@, MarkerKind::Lock);
    let f = present(es, "uv.lock"@, MarkerKind::Lock);
    let g = present(es, "requirements.txt"@, MarkerKind::Config);
    lemma_present_in(es, "pyproject.toml"@, MarkerKind::Manifest);
    lemma_present_in(es, "setup.py"@, MarkerKind::Manifest);
    lemma_present_in(es, "setup.cfg"@, MarkerKind::Manifest);
    lemma_present_in(es, "poetry.lock"@, MarkerKind::Lock);
    lemma_present_in(es, "Pipfile.lock"@, MarkerKind::Lock);
    lemma_present_in(es, "uv.lock"@, MarkerKind::Lock);
    lemma_present_in(es, "requirements.txt"@, MarkerKind::Config);
    lemma_markers_in_concat(a, b, es);
    lemma_markers_in_concat(a + b, c, es);
    lemma_markers_in_concat(a + b + c, d, es);
    lemma_markers_in_concat(a + b + c + d, e, es);
    lemma_markers_in_concat(a + b + c + d + e, f, es);
    lemma_markers_in_concat(a + b + c + d + e + f, g, es);
}

proof fn lemma_node_in(es: Seq<Seq<char>>)
    ensures
        markers_in(node_markers(es), es),
{
    let a = present(es, "package.json"@, MarkerKind::Manifest);
    let b = present(es, "package-lock.json"@, MarkerKind::Lock);
    let c = present(es, "yarn.lock"@, MarkerKind::Lock);
    let d = present(es, "pnpm-lock.yaml"@, MarkerKind::Lock);
    let e = present(es, "bun.lockb"@, MarkerKind::Lock);
    lemma_present_in(es, "package.json"@, MarkerKind::Manifest);
    lemma_present_in(es, "package-lock.json"@, MarkerKind::Lock);
    lemma_present_in(es, "yarn.lock"@, MarkerKind::Lock);
    lemma_present_in(es, "pnpm-lock.yaml"@, MarkerKind::Lock);
    lemma_present_in(es, "bun.lockb"@, MarkerKind::Lock);
    lemma_markers_in_concat(a, b, es);
    lemma_markers_in_concat(a + b, c, es);
    lemma_markers_in_concat(a + b + c, d, es);
    lemma_markers_in_concat(a + b + c + d, e, es);
}

proof fn lemma_append_detection(
    ds: Seq<DetectionView>,
    language: Language,
    ms: Seq<MarkerView>,
    always_high: bool,
    es: Seq<Seq<char>>,
)
    requires
        ordered_below(ds, language_rank(language), es),
        markers_in(ms, es),
        !(language is Unknown),
    ensures
        ordered_below(ds + opt_seq(detection_from(language, ms, always_high)), language_rank(language) + 1, es),
{
    let out = ds + opt_seq(detection_from(language, ms, always_high));
    assert forall|i: int| 0 <= i < out.len() implies language_rank(#[trigger] out[i].language) < language_rank(language) + 1 && grounded(out[i], es) by {
        if i < ds.len() {
            assert(out[i] == ds[i]);
        }
    }
    assert forall|i: int, j: int| 0 <= i < j < out.len() implies language_rank(#[trigger] out[i].language) < language_rank(#[trigger] out[j].language) by {
        assert(out[i] == ds[i]);
        if j < ds.len() {
            assert(out[j] == ds[j]);
        }
    }
}

/// The detected languages are distinct and come in the order Rust, Python,
/// Node, Go, Ruby, Zig; each has at least one marker, every marker names a
/// file the directory holds (never a bare extension), and no detection is of
/// an unsupported language.
pub proof fn lemma_detections_ordered(es: Seq<Seq<char>>)
    ensures
        forall|i: int, j: int|
            0 <= i < j < detections_of(es).len() ==> language_rank(#[trigger] detections_of(es)[i].language)
                < language_rank(#[trigger] detections_of(es)[j].language),
        forall|i: int| 0 <= i < detections_of(es).len() ==> grounded(#[trigger] detections_of(es)[i], es),
{
    lemma_present_in(es, "Cargo.toml"@, MarkerKind::Manifest);
    lemma_present_in(es, "Cargo.lock"@, MarkerKind::Lock);
    lemma_markers_in_concat(present(es, "Cargo.toml"@, MarkerKind::Manifest), present(es, "Cargo.lock"@, MarkerKind::Lock), es);
    lemma_python_in(es);
    lemma_node_in(es);
    lemma_present_in(es, "go.mod"@, MarkerKind::Manifest);
    lemma_present_in(es, "go.sum"@, MarkerKind::Lock);
    lemma_markers_in_concat(present(es, "go.mod"@, MarkerKind::Manifest), present(es, "go.sum"@, MarkerKind::Lock), es);
    lemma_present_in(es, "Gemfile"@, MarkerKind::Manifest);
    lemma_gemspecs_in(es);
    lemma_present_in(es, "Gemfile.lock"@, MarkerKind::Lock);
    lemma_markers_in_concat(present(es, "Gemfile"@, MarkerKind::Manifest), gemspec_markers(es), es);
    lemma_markers_in_concat(
        present(es, "Gemfile"@, MarkerKind::Manifest) + gemspec_markers(es),
        present(es, "Gemfile.lock"@, MarkerKind::Lock),
        es,
    );
    lemma_present_in(es, "build.zig"@, MarkerKind::Manifest);
    lemma_present_in(es, "build.zig.zon"@, MarkerKind::Lock);
    lemma_markers_in_concat(present(es, "build.zig"@, MarkerKind::Manifest), present(es, "build.zig.zon"@, MarkerKind::Lock), es);

    let d0 = Seq::<DetectionView>::empty();
    let d1 = d0 + opt_seq(detection_from(Language::Rust, rust_markers(es), false));
    lemma_append_detection(d0, Language::Rust, rust_markers(es), false, es);
    let d2 = d1 + opt_seq(detection_from(Language::Python, python_markers(es), false));
    lemma_append_detection(d1, Language::Python, python_markers(es), false, es);
    let d3 = d2 + opt_seq(detection_from(Language::Node, node_markers(es), true));
    lemma_append_detection(d2, Language::Node, node_markers(es), true, es);
    let d4 = d3 + opt_seq(detection_from(Language::Go, go_markers(es), true));
    lemma_append_detection(d3, Language::Go, go_markers(es), true, es);
    let d5 = d4 + opt_seq(detection_from(Language::Ruby, ruby_markers(es), false));
    lemma_append_detection(d4, Language::Ruby, ruby_markers(es), false, es);
    let d6 = d5 + opt_seq(detection_from(Language::Zig, zig_markers(es), false));
    lemma_append_detection(d5, Language::Zig, zig_markers(es), false, es);
    assert(d1 =~= opt_seq(detection_from(Language::Rust, rust_markers(es), false)));
    assert(d6 == detections_of(es));
}

/// A directory holding `pyproject.toml`, `setup.py` or `setup.cfg` is a
/// Python project with high confidence, and that file is recorded as a
/// manifest; likewise `Cargo.toml` for Rust, `package.json` for Node, `go.mod`
/// for Go, `Gemfile` for Ruby and `build.zig` for Zig.
pub proof fn lemma_manifests_detect_with_high_confidence(es: Seq<Seq<char>>, name: Seq<char>, language: Language)
    requires
        es.contains(name),
        (language == Language::Python && (name == "pyproject.toml"@ || name == "setup.py"@ || name == "setup.cfg"@))
            || (language == Language::Rust && name == "Cargo.toml"@) || (language == Language::Node && name
            == "package.json"@) || (language == Language::Go && name == "go.mod"@) || (language
            == Language::Ruby && name == "Gemfile"@) || (language == Language::Zig && name == "build.zig"@),
    ensures
        exists|i: int|
            0 <= i < detections_of(es).len() && (#[trigger] detections_of(es)[i]).language == language
                && detections_of(es)[i].confidence == DetectionConfidence::High && detections_of(es)[i].markers.contains(
                MarkerView::Manifest(name),
            ),
{
    let r = opt_seq(detection_from(Language::Rust, rust_markers(es), false));
    let p = opt_seq(detection_from(Language::Python, python_markers(es), false));
    let n = opt_seq(detection_from(Language::Node, node_markers(es), true));
    let g = opt_seq(detection_from(Language::Go, go_markers(es), true));
    let rb = opt_seq(detection_from(Language::Ruby, ruby_markers(es), false));
    let z = opt_seq(detection_from(Language::Zig, zig_markers(es), false));
    let ds = detections_of(es);
    assert(ds == r + p + n + g + rb + z);
    let m = MarkerView::Manifest(name);
    let (part, offset, ms): (Seq<DetectionView>, int, Seq<MarkerView>) = if language == Language::Rust {
        (r, 0, rust_markers(es))
    } else if language == Language::Python {
        (p, r.len() as int, python_markers(es))
    } else if language == Language::Node {
        (n, (r.len() + p.len()) as int, node_markers(es))
    } else if language == Language::Go {
        (g, (r.len() + p.len() + n.len()) as int, go_markers(es))
    } else if language == Language::Ruby {
        (rb, (r.len() + p.len() + n.len() + g.len()) as int, ruby_markers(es))
    } else {
        (z, (r.len() + p.len() + n.len() + g.len() + rb.len()) as int, zig_markers(es))
    };
    // the manifest is among the language's markers
    reveal_strlit("pyproject.toml");
    reveal_strlit("setup.py");
    reveal_strlit("setup.cfg");
    assert("pyproject.toml"@.len() == 14 && "setup.py"@.len() == 8 && "setup.cfg"@.len() == 9);
    let k: int = if language != Language::Python {
        0
    } else if name == "setup.py"@ {
        present(es, "pyproject.toml"@, MarkerKind::Manifest).len() as int
    } else if name == "setup.cfg"@ {
        (present(es, "pyproject.toml"@, MarkerKind::Manifest).len() + present(es, "setup.py"@, MarkerKind::Manifest).len()) as int
    } else {
        0
    };
    assert(ms[k] == m);
    assert(ms.contains(m));
    assert(has_manifest(ms));
    assert(part.len() == 1);
    assert(part[0].language == language);
    assert(ds[offset] == part[0]);
}

pub open spec fn detection_views(ds: Seq<LanguageDetection>) -> Seq<DetectionView> {
    ds.map_values(|d: LanguageDetection| d@)
}

pub open spec fn option_view(d: Option<LanguageDetection>) -> Option<DetectionView> {
    match d {
        Some(x) => Some(x@),
        None => None,
    }
}

fn make_marker(kind: MarkerKind, name: &str) -> (m: LanguageMarker)
    ensures
        m@ == kind_view(kind, name@),
{
    match kind {
        MarkerKind::Manifest => LanguageMarker::ManifestFile(owned(name)),
        MarkerKind::Lock => LanguageMarker::LockFile(owned(name)),
        MarkerKind::Config => LanguageMarker::ConfigFile(owned(name)),
    }
}

/// Records the marker `name` when the directory holds it.
fn note(entries: &Vec<String>, markers: &mut Vec<LanguageMarker>, name: &str, kind: MarkerKind)
    ensures
        marker_views(final(markers)@) == marker_views(old(markers)@) + present(
            entries.deep_view(),
            name@,
            kind,
        ),
{
    if contains_name(entries, name) {
        let m = make_marker(kind, name);
        markers.push(m);
        assert(marker_views(markers@) =~= marker_views(old(markers)@) + seq![kind_view(kind, name@)]);
    } else {
        assert(marker_views(markers@) =~= marker_views(old(markers)@) + seq![]);
    }
}

fn any_manifest(markers: &Vec<LanguageMarker>) -> (b: bool)
    ensures
        b == has_manifest(marker_views(markers@)),
{
    let ghost ms = marker_views(markers@);
    let mut i: usize = 0;
    while i < markers.len()
        invariant
            i <= markers.len(),
            ms == marker_views(markers@),
            forall|j: int| 0 <= j < i ==> !(#[trigger] ms[j] is Manifest),
        decreases markers.len() - i,
    {
        match &markers[i] {
            LanguageMarker::ManifestFile(_) => {
                assert(ms[i as int] is Manifest);
                return true;
            },
            _ => {},
        }
        i += 1;
    }
    false
}

fn detection(language: Language, markers: Vec<LanguageMarker>, always_high: bool) -> (r: Option<
    LanguageDetection,
>)
    ensures
        option_view(r) == detection_from(language, marker_views(markers@), always_high),
{
    if markers.len() == 0 {
        return None;
    }
    let confidence = if always_high || any_manifest(&markers) {
        DetectionConfidence::High
    } else {
        DetectionConfidence::Medium
    };
    Some(LanguageDetection { language, confidence, markers })
}

/// Rust: `Cargo.toml` (manifest), `Cargo.lock` (lock).
pub fn detect_rust(entries: &Vec<String>) -> (r: Option<LanguageDetection>)
    ensures
        option_view(r) == detection_from(Language::Rust, rust_markers(entries.deep_view()), false),
{
    let mut markers: Vec<LanguageMarker> = Vec::new();
    note(entries, &mut markers, "Cargo.toml", MarkerKind::Manifest);
    note(entries, &mut markers, "Cargo.lock", MarkerKind::Lock);
    assert(marker_views(markers@) =~= rust_markers(entries.deep_view()));
    detection(Language::Rust, markers, false)
}

/// Python: `pyproject.toml`, `setup.py`, `setup.cfg` (manifests), `poetry.lock`,
/// `Pipfile.lock`, `uv.lock` (locks), `requirements.txt` (configuration).
pub fn detect_python(entries: &Vec<String>) -> (r: Option<LanguageDetection>)
    ensures
        option_view(r) == detection_from(Language::Python, python_markers(entries.deep_view()), false),
{
    let mut markers: Vec<LanguageMarker> = Vec::new();
    note(entries, &mut markers, "pyproject.toml", MarkerKind::Manifest);
    note(entries, &mut markers, "setup.py", MarkerKind::Manifest);
    note(entries, &mut markers, "setup.cfg", MarkerKind::Manifest);
    note(entries, &mut markers, "poetry.lock", MarkerKind::Lock);
    note(entries, &mut markers, "Pipfile.lock", MarkerKind::Lock);
    note(entries, &mut markers, "uv.lock", MarkerKind::Lock);
    note(entries, &mut markers, "requirements.txt", MarkerKind::Config);
    assert(marker_views(markers@) =~= python_markers(entries.deep_view()));
    detection(Language::Python, markers, false)
}

/// Node: `package.json` (manifest) and its lock files; always high confidence.
pub fn detect_node(entries: &Vec<String>) -> (r: Option<LanguageDetection>)
    ensures
        option_view(r) == detection_from(Language::Node, node_markers(entries.deep_view()), true),
{
    let mut markers: Vec<LanguageMarker> = Vec::new();
    note(entries, &mut markers, "package.json", MarkerKind::Manifest);
    note(entries, &mut markers, "package-lock.json", MarkerKind::Lock);
    note(entries, &mut markers, "yarn.lock", MarkerKind::Lock);
    note(entries, &mut markers, "pnpm-lock.yaml", MarkerKind::Lock);
    note(entries, &mut markers, "bun.lockb", MarkerKind::Lock);
    assert(marker_views(markers@) =~= node_markers(entries.deep_view()));
    detection(Language::Node, markers, true)
}

/// Go: `go.mod` (manifest), `go.sum` (lock); always high confidence.
pub fn detect_go(entries: &Vec<String>) -> (r: Option<LanguageDetection>)
    ensures
        option_view(r) == detection_from(Language::Go, go_markers(entries.deep_view()), true),
{
    let mut markers: Vec<LanguageMarker> = Vec::new();
    note(entries, &mut markers, "go.mod", MarkerKind::Manifest);
    note(entries, &mut markers, "go.sum", MarkerKind::Lock);
    assert(marker_views(markers@) =~= go_markers(entries.deep_view()));
    detection(Language::Go, markers, true)
}

/// Ruby: `Gemfile` and every `*.gemspec` (manifests), `Gemfile.lock` (lock).
pub fn detect_ruby(entries: &Vec<String>) -> (r: Option<LanguageDetection>)
    ensures
        option_view(r) == detection_from(Language::Ruby, ruby_markers(entries.deep_view()), false),
{
    let ghost es = entries.deep_view();
    let mut markers: Vec<LanguageMarker> = Vec::new();
    note(entries, &mut markers, "Gemfile", MarkerKind::Manifest);
    let ghost base = marker_views(markers@);
    let mut i: usize = 0;
    while i < entries.len()
        invariant
            i <= entries.len(),
            es == entries.deep_view(),
            marker_views(markers@) == base + gemspec_markers(es.take(i as int)),
        decreases entries.len() - i,
    {
        assert(es.take(i + 1).drop_last() =~= es.take(i as int));
        assert(es[i as int] == entries@[i as int]@);
        if ends_with_str(entries[i].as_str(), ".gemspec") {
            let ghost prev = marker_views(markers@);
            markers.push(LanguageMarker::ManifestFile(entries[i].clone()));
            assert(marker_views(markers@) =~= prev.push(MarkerView::Manifest(es[i as int])));
        }
        i += 1;
    }
    assert(es.take(entries.len() as int) =~= es);
    let ghost mid = marker_views(markers@);
    note(entries, &mut markers, "Gemfile.lock", MarkerKind::Lock);
    assert(marker_views(markers@) =~= ruby_markers(es));
    detection(Language::Ruby, markers, false)
}

/// Zig: `build.zig` (manifest), `build.zig.zon` (lock).
pub fn detect_zig(entries: &Vec<String>) -> (r: Option<LanguageDetection>)
    ensures
        option_view(r) == detection_from(Language::Zig, zig_markers(entries.deep_view()), false),
{
    let mut markers: Vec<LanguageMarker> = Vec::new();
    note(entries, &mut markers, "build.zig", MarkerKind::Manifest);
    note(entries, &mut markers, "build.zig.zon", MarkerKind::Lock);
    assert(marker_views(markers@) =~= zig_markers(entries.deep_view()));
    detection(Language::Zig, markers, false)
}

fn push_detection(ds: &mut Vec<LanguageDetection>, d: Option<LanguageDetection>)
    ensures
        detection_views(final(ds)@) == detection_views(old(ds)@) + opt_seq(option_view(d)),
{
    match d {
        Some(x) => {
            let ghost v = x@;
            ds.push(x);
            assert(detection_views(ds@) =~= detection_views(old(ds)@) + seq![v]);
        },
        None => {
            assert(detection_views(ds@) =~= detection_views(old(ds)@) + seq![]);
        },
    }
}

/// All languages detected in a directory, given the names of its entries.
pub fn detect_languages(entries: &Vec<String>) -> (r: Vec<LanguageDetection>)
    ensures
        detection_views(r@) == detections_of(entries.deep_view()),
{
    let mut ds: Vec<LanguageDetection> = Vec::new();
    push_detection(&mut ds, detect_rust(entries));
    push_detection(&mut ds, detect_python(entries));
    push_detection(&mut ds, detect_node(entries));
    push_detection(&mut ds, detect_go(entries));
    push_detection(&mut ds, detect_ruby(entries));
    push_detection(&mut ds, detect_zig(entries));
    assert(detection_views(ds@) =~= detections_of(entries.deep_view()));
    ds
}

/// The Wrangler configuration files that mark a deployment root, in order.
pub open spec fn wrangler_files(es: Seq<Seq<char>>) -> Seq<Seq<char>> {
    (if es.contains("wrangler.jsonc"@) { seq!["wrangler.jsonc"@] } else { seq![] }) + (if es.contains(
        "wrangler.json"@,
    ) {
        seq!["wrangler.json"@]
    } else {
        seq![]
    }) + (if es.contains("wrangler.toml"@) { seq!["wrangler.toml"@] } else { seq![] })
}

pub open spec fn root_files(ms: Seq<ProjectRootMarker>) -> Seq<Seq<char>> {
    ms.map_values(|m: ProjectRootMarker| match m {
        ProjectRootMarker::CloudflareWrangler(f) => f@,
    })
}

fn note_root(entries: &Vec<String>, markers: &mut Vec<ProjectRootMarker>, name: &str)
    ensures
        root_files(final(markers)@) == root_files(old(markers)@) + (if entries.deep_view().contains(
            name@,
        ) {
            seq![name@]
        } else {
            seq![]
        }),
{
    if contains_name(entries, name) {
        markers.push(ProjectRootMarker::CloudflareWrangler(owned(name)));
        assert(root_files(markers@) =~= root_files(old(markers)@) + seq![name@]);
    } else {
        assert(root_files(markers@) =~= root_files(old(markers)@) + seq![]);
    }
}

/// The project-root markers of a directory: each Wrangler configuration file
/// it holds (`wrangler.jsonc`, `wrangler.json`, `wrangler.toml`). Presence
/// alone counts; contents are never read.
pub fn detect_project_roots(entries: &Vec<String>) -> (r: Vec<ProjectRootMarker>)
    ensures
        root_files(r@) == wrangler_files(entries.deep_view()),
{
    let mut markers: Vec<ProjectRootMarker> = Vec::new();
    note_root(entries, &mut markers, "wrangler.jsonc");
    note_root(entries, &mut markers, "wrangler.json");
    note_root(entries, &mut markers, "wrangler.toml");
    assert(root_files(markers@) =~= wrangler_files(entries.deep_view()));
    markers
}

} // verus!
