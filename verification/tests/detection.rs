use rustodian::detection::{detect_languages, detect_project_roots};
use rustodian::types::{DetectionConfidence, Language, LanguageMarker, ProjectRootMarker};

fn entries(names: &[&str]) -> Vec<String> {
    names.iter().map(|n| n.to_string()).collect()
}

#[test]
fn test_detect_rust_project() {
    let detections = detect_languages(&entries(&["Cargo.toml", "Cargo.lock"]));
    assert_eq!(detections.len(), 1);
    assert_eq!(detections[0].language, Language::Rust);
    assert_eq!(detections[0].confidence, DetectionConfidence::High);
    assert_eq!(detections[0].markers.len(), 2);
}

#[test]
fn test_detect_python_project() {
    let detections = detect_languages(&entries(&["pyproject.toml"]));
    assert_eq!(detections.len(), 1);
    assert_eq!(detections[0].language, Language::Python);
}

#[test]
fn test_detect_node_project() {
    let detections = detect_languages(&entries(&["package.json"]));
    assert_eq!(detections.len(), 1);
    assert_eq!(detections[0].language, Language::Node);
}

#[test]
fn test_detect_go_project() {
    let detections = detect_languages(&entries(&["go.mod"]));
    assert_eq!(detections.len(), 1);
    assert_eq!(detections[0].language, Language::Go);
}

#[test]
fn test_detect_ruby_project() {
    let detections = detect_languages(&entries(&["Gemfile"]));
    assert_eq!(detections.len(), 1);
    assert_eq!(detections[0].language, Language::Ruby);
}

#[test]
fn test_detect_multi_language() {
    let detections = detect_languages(&entries(&["Cargo.toml", "package.json"]));
    assert_eq!(detections.len(), 2);
}

#[test]
fn test_detect_zig_project() {
    let detections = detect_languages(&entries(&["build.zig"]));
    assert_eq!(detections.len(), 1);
    assert_eq!(detections[0].language, Language::Zig);
}

#[test]
fn test_detect_empty_directory() {
    let e = entries(&[]);
    assert!(detect_languages(&e).is_empty());
    assert!(detect_project_roots(&e).is_empty());
}

#[test]
fn test_detect_wrangler_only_project_claims_no_language() {
    let e = entries(&["wrangler.jsonc"]);
    assert!(detect_languages(&e).is_empty());
    let roots = detect_project_roots(&e);
    assert_eq!(roots.len(), 1);
    assert!(matches!(&roots[0], ProjectRootMarker::CloudflareWrangler(f) if f == "wrangler.jsonc"));
    assert_eq!(roots[0].platform(), "cloudflare-wrangler");
}

#[test]
fn test_detect_wrangler_all_config_filenames() {
    for file in ["wrangler.jsonc", "wrangler.json", "wrangler.toml"] {
        let e = entries(&[file]);
        let roots = detect_project_roots(&e);
        assert_eq!(roots.len(), 1, "expected {file} to be detected");
        assert!(matches!(&roots[0], ProjectRootMarker::CloudflareWrangler(f) if f == file));
        assert!(detect_languages(&e).is_empty());
    }
}

#[test]
fn test_detect_wrangler_with_node_keeps_node_detection() {
    let e = entries(&["wrangler.jsonc", "package.json"]);
    let detections = detect_languages(&e);
    assert_eq!(detections.len(), 1);
    assert_eq!(detections[0].language, Language::Node);
    assert_eq!(detections[0].confidence, DetectionConfidence::High);
    assert_eq!(detect_project_roots(&e).len(), 1);
}

#[test]
fn test_detect_wrangler_with_python_keeps_python_detection() {
    let e = entries(&["wrangler.toml", "pyproject.toml"]);
    let detections = detect_languages(&e);
    assert_eq!(detections.len(), 1);
    assert_eq!(detections[0].language, Language::Python);
    assert_eq!(detect_project_roots(&e).len(), 1);
}

#[test]
fn test_detect_package_json_without_wrangler_has_no_project_roots() {
    let e = entries(&["package.json"]);
    assert_eq!(detect_languages(&e).len(), 1);
    assert!(detect_project_roots(&e).is_empty());
}

#[test]
fn lock_file_alone_gives_medium_confidence() {
    let detections = detect_languages(&entries(&["Cargo.lock"]));
    assert_eq!(detections[0].confidence, DetectionConfidence::Medium);
    let detections = detect_languages(&entries(&["requirements.txt"]));
    assert_eq!(detections[0].language, Language::Python);
    assert_eq!(detections[0].confidence, DetectionConfidence::Medium);
    assert!(matches!(&detections[0].markers[0], LanguageMarker::ConfigFile(f) if f == "requirements.txt"));
    // Go and Node are always high.
    let detections = detect_languages(&entries(&["go.sum", "yarn.lock"]));
    assert_eq!(detections.len(), 2);
    assert_eq!(detections[0].language, Language::Node);
    assert_eq!(detections[0].confidence, DetectionConfidence::High);
    assert_eq!(detections[1].language, Language::Go);
    assert_eq!(detections[1].confidence, DetectionConfidence::High);
}

#[test]
fn gemspecs_are_ruby_manifests_in_listing_order() {
    let detections = detect_languages(&entries(&["b.gemspec", "Gemfile.lock", "a.gemspec"]));
    assert_eq!(detections.len(), 1);
    let m: Vec<String> = detections[0].markers.iter().map(|m| format!("{m:?}")).collect();
    assert_eq!(
        m,
        vec![
            "ManifestFile(\"b.gemspec\")".to_string(),
            "ManifestFile(\"a.gemspec\")".to_string(),
            "LockFile(\"Gemfile.lock\")".to_string(),
        ]
    );
    assert_eq!(detections[0].confidence, DetectionConfidence::High);
}

#[test]
fn detections_come_in_fixed_language_order() {
    let detections = detect_languages(&entries(&["build.zig", "Gemfile", "go.mod", "package.json", "setup.py", "Cargo.toml"]));
    let langs: Vec<Language> = detections.into_iter().map(|d| d.language).collect();
    assert_eq!(
        langs,
        vec![Language::Rust, Language::Python, Language::Node, Language::Go, Language::Ruby, Language::Zig]
    );
}
