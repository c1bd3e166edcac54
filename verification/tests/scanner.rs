use rustodian::scanner::{DirectoryListing, DiscoveredProject, FsScanner, directory_name, has_independence_signal};
use rustodian::types::ScanConfig;

fn dir(path: &str, entries: &[&str]) -> DirectoryListing {
    DirectoryListing {
        path: path.to_string(),
        entries: entries.iter().map(|e| e.to_string()).collect(),
        package_json: None,
        justfile: None,
        rustodian_toml: None,
    }
}

fn config(max_depth: usize, exclude: &[&str]) -> ScanConfig {
    ScanConfig {
        max_depth,
        exclude_patterns: exclude.iter().map(|e| e.to_string()).collect(),
        follow_symlinks: false,
    }
}

/// What a walk would hand over: the directories not excluded by the config.
fn walk(cfg: &ScanConfig, dirs: Vec<DirectoryListing>) -> Vec<DiscoveredProject> {
    let kept = dirs.into_iter().filter(|d| !FsScanner::is_excluded(cfg, &d.path)).collect();
    FsScanner.scan(cfg, kept)
}

fn names(projs: &[DiscoveredProject]) -> Vec<&str> {
    projs.iter().map(|p| p.name.as_str()).collect()
}

#[test]
fn scanner_basic_and_exclusions() {
    let dirs = || {
        vec![
            dir("/tmp/r", &["project_a", "project_b", "excluded_folder"]),
            dir("/tmp/r/project_b", &["requirements.txt"]),
            dir("/tmp/r/excluded_folder", &["Cargo.toml"]),
            dir("/tmp/r/project_a", &["Cargo.toml"]),
        ]
    };
    let projs = walk(&config(3, &[]), dirs());
    assert_eq!(projs.len(), 3);
    let projs_excl = walk(&config(3, &["**/excluded_folder"]), dirs());
    assert_eq!(projs_excl.len(), 2);
    assert_eq!(projs_excl[0].name, "project_a");
    assert_eq!(projs_excl[1].name, "project_b");
}

#[test]
fn scanner_multi_language_project() {
    let projs = walk(&config(3, &[]), vec![dir("/t/multi_proj", &["Cargo.toml", "package.json"])]);
    assert_eq!(projs.len(), 1);
    assert_eq!(projs[0].name, "multi_proj");
    assert_eq!(projs[0].languages.len(), 2);
}

#[test]
fn scanner_workspace_member_remains_suppressed() {
    let projs = walk(
        &config(6, &[]),
        vec![dir("/t/app", &["Cargo.toml", "crates"]), dir("/t/app/crates/foo", &["Cargo.toml"])],
    );
    assert_eq!(names(&projs), vec!["app"]);
}

#[test]
fn scanner_nested_git_repo_survives() {
    let projs = walk(
        &config(6, &[]),
        vec![dir("/t/corpus/filed.fyi", &[".git", "package.json"]), dir("/t/corpus", &["Cargo.toml"])],
    );
    assert_eq!(names(&projs), vec!["corpus", "filed.fyi"]);
}

#[test]
fn scanner_nested_rustodian_managed_survives() {
    let mut widget = dir("/t/app/tools/widget", &[".rustodian.toml", "package.json"]);
    widget.rustodian_toml = Some("[commands]\n".to_string());
    let projs = walk(&config(6, &[]), vec![dir("/t/app", &["Cargo.toml"]), widget]);
    assert_eq!(names(&projs), vec!["app", "widget"]);
}

#[test]
fn scanner_sibling_projects_both_survive() {
    let projs = walk(
        &config(3, &[]),
        vec![dir("/t/beta", &["Cargo.toml"]), dir("/t/alpha", &["Cargo.toml"])],
    );
    assert_eq!(names(&projs), vec!["alpha", "beta"]);
}

#[test]
fn scanner_deeply_nested_independent_repo_survives() {
    let projs = walk(
        &config(8, &[]),
        vec![dir("/t/corpus", &["Cargo.toml"]), dir("/t/corpus/a/b/c/d/repo", &[".git", "go.mod"])],
    );
    assert_eq!(names(&projs), vec!["corpus", "repo"]);
}

#[test]
fn scanner_output_deterministic_across_runs() {
    let dirs = |rev: bool| {
        let mut v = vec![
            dir("/t/corpus", &["Cargo.toml"]),
            dir("/t/corpus/filed.fyi", &[".git", "package.json"]),
            dir("/t/corpus/crates/foo", &["Cargo.toml"]),
        ];
        if rev {
            v.reverse();
        }
        v
    };
    let keyed = |projs: &[DiscoveredProject]| {
        projs.iter().map(|p| (p.name.clone(), p.path.clone())).collect::<Vec<_>>()
    };
    let first = walk(&config(6, &[]), dirs(false));
    let second = walk(&config(6, &[]), dirs(true));
    let mut sorted = keyed(&first);
    sorted.sort();
    assert_eq!(keyed(&first), sorted);
    assert_eq!(keyed(&first), keyed(&second));
    assert_eq!(names(&first), vec!["corpus", "filed.fyi"]);
}

#[test]
fn scanner_nested_repo_direct_scan_equivalent() {
    let nested = || {
        let mut d = dir("/t/corpus/filed.fyi", &[".git", "package.json"]);
        d.package_json = Some(r#"{"scripts": {"dev": "vite"}}"#.to_string());
        d
    };
    let from_parent = walk(&config(6, &[]), vec![dir("/t/corpus", &["Cargo.toml"]), nested()]);
    let p = from_parent.iter().find(|p| p.name == "filed.fyi").unwrap();
    let direct = walk(&config(6, &[]), vec![nested()]);
    assert_eq!(direct.len(), 1);
    assert_eq!(p.name, direct[0].name);
    assert_eq!(p.path, direct[0].path);
    assert_eq!(format!("{:?}", p.languages), format!("{:?}", direct[0].languages));
    assert_eq!(format!("{:?}", p.commands), format!("{:?}", direct[0].commands));
    assert_eq!(p.commands.len(), 1);
    assert_eq!(p.commands[0].command, "npm run dev");
}

#[test]
fn max_depth_zero_means_no_projects() {
    let projs = walk(&config(0, &[]), vec![dir("/t/a", &["Cargo.toml"])]);
    assert!(projs.is_empty());
}

#[test]
fn directories_without_languages_are_not_projects() {
    let projs = walk(&config(3, &[]), vec![dir("/t/docs", &["README.md", "wrangler.toml"])]);
    assert!(projs.is_empty());
}

#[test]
fn project_roots_are_recorded() {
    let projs = walk(&config(3, &[]), vec![dir("/t/site", &["package.json", "wrangler.toml"])]);
    assert_eq!(projs[0].project_roots.len(), 1);
    assert_eq!(projs[0].project_roots[0].platform(), "cloudflare-wrangler");
}

#[test]
fn directory_names_and_signals() {
    assert_eq!(directory_name("/a/b/"), "b");
    assert_eq!(directory_name("/"), "unknown");
    assert_eq!(directory_name("/a/.."), "unknown");
    assert!(has_independence_signal(&vec![".git".to_string()]));
    assert!(!has_independence_signal(&vec!["git".to_string()]));
}

#[test]
fn invalid_exclude_patterns_are_skipped() {
    let cfg = config(3, &["a[", "**/skip"]);
    assert!(FsScanner::is_excluded(&cfg, "/x/skip"));
    assert!(!FsScanner::is_excluded(&cfg, "/x/keep"));
    assert!(!FsScanner::is_excluded(&config(3, &[]), "/x/skip"));
}
