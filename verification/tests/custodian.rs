use rustodian::custodian::{
    PruneOutcome, PruneProjectResult, PruneReport, ScanItem, ScanTally, command_log, completed_scan,
    exit_result, find_project, fold_scan, inspection_vcs, language_counts, merge_discovered,
    project_not_found, select_command,
};
use rustodian::error::CoreError;
use rustodian::scanner::DiscoveredProject;
use rustodian::types::{
    DetectionConfidence, Language, LanguageDetection, Project, ProjectCommand, ProjectId, ProjectMetadata,
    ProjectRootMarker, ScanId, ScanStatus, VcsInfo, VcsType,
};

fn command(name: &str, cmd: &str) -> ProjectCommand {
    ProjectCommand {
        name: name.to_string(),
        description: None,
        command: cmd.to_string(),
        source: "Cargo.toml".to_string(),
        use_shell: false,
    }
}

fn project(id: u128, name: &str, langs: Vec<Language>) -> Project {
    let mut metadata = ProjectMetadata::default();
    metadata.commands = vec![command("run", "cargo run")];
    Project {
        id: ProjectId(id),
        name: name.to_string(),
        path: format!("/tmp/{name}"),
        languages: langs
            .into_iter()
            .map(|language| LanguageDetection { language, confidence: DetectionConfidence::High, markers: vec![] })
            .collect(),
        vcs: None,
        discovered_at: 10,
        last_scanned_at: None,
        metadata,
    }
}

fn discovered(name: &str, roots: Vec<ProjectRootMarker>) -> DiscoveredProject {
    DiscoveredProject {
        name: name.to_string(),
        path: format!("/w/{name}"),
        languages: vec![],
        commands: vec![command("build", "cargo build")],
        project_roots: roots,
    }
}

#[test]
fn test_run_command_exit_zero_succeeds() {
    assert!(exit_result("run", Some(0)).is_ok());
}

#[test]
fn test_run_command_exit_one_fails() {
    match exit_result("run", Some(1)) {
        Err(CoreError::CommandFailed { command_name, exit_code }) => {
            assert_eq!(command_name, "run");
            assert_eq!(exit_code, 1);
        }
        other => panic!("unexpected {other:?}"),
    }
    assert_eq!(
        exit_result("run", Some(1)).unwrap_err().message(),
        "command 'run' failed with exit code 1"
    );
}

#[test]
fn test_run_command_arbitrary_nonzero_exit_fails() {
    let err = exit_result("demo-cmd", Some(42)).unwrap_err();
    assert!(matches!(&err, CoreError::CommandFailed { exit_code: 42, .. }));
    assert!(err.message().contains("exit code 42"));
    let log = command_log(&ProjectId(7), "demo-cmd", Some(42), String::new(), 0);
    assert_eq!(log.exit_code, Some(42));
    for code in [2, 127, -1] {
        match exit_result("demo-cmd", Some(code)) {
            Err(CoreError::CommandFailed { exit_code, .. }) => assert_eq!(exit_code, code),
            other => panic!("unexpected {other:?}"),
        }
    }
}

#[test]
fn test_run_command_termination_without_exit_code_fails() {
    match exit_result("demo-cmd", None) {
        Err(CoreError::CommandTerminated { command_name }) => assert_eq!(command_name, "demo-cmd"),
        other => panic!("unexpected {other:?}"),
    }
    let log = command_log(&ProjectId(7), "demo-cmd", None, String::new(), 0);
    assert_eq!(log.exit_code, None);
}

#[test]
fn commands_are_found_by_name() {
    let p = project(1, "demo", vec![Language::Rust]);
    assert_eq!(select_command(&p, "run").unwrap().command, "cargo run");
    match select_command(&p, "nope") {
        Err(e) => assert_eq!(e.message(), "storage error: Command 'nope' not found in project 'demo'"),
        Ok(_) => panic!("expected an error"),
    }
    assert_eq!(project_not_found("x").message(), "storage error: Project not found: x");
}

#[test]
fn projects_are_found_by_name_before_identifier() {
    let all = || {
        vec![
            project(0xabc, "alpha", vec![]),
            project(0x1, "00000000-0000-0000-0000-000000000abc", vec![]),
        ]
    };
    // The name of the second project is the identifier text of the first: the name wins.
    let found = find_project(all(), "00000000-0000-0000-0000-000000000abc").unwrap();
    assert_eq!(found.id, ProjectId(0x1));
    let found = find_project(all(), "00000000-0000-0000-0000-000000000001").unwrap();
    assert_eq!(found.name, "00000000-0000-0000-0000-000000000abc");
    assert!(find_project(all(), "beta").is_none());
    assert_eq!(find_project(all(), "alpha").unwrap().id, ProjectId(0xabc));
}

#[test]
fn test_scan_stores_platform_marker_for_wrangler_root() {
    let d = discovered("site", vec![ProjectRootMarker::CloudflareWrangler("wrangler.toml".to_string())]);
    let (p, is_new) = merge_discovered(None, d, None, 99);
    assert!(is_new);
    assert_eq!(p.metadata.platform.as_deref(), Some("cloudflare-wrangler"));
    assert_eq!(p.discovered_at, 99);
    assert_eq!(p.last_scanned_at, Some(99));
    assert_eq!(p.path, "/w/site");
}

#[test]
fn test_scan_without_project_roots_has_no_platform_marker() {
    let (p, _) = merge_discovered(None, discovered("plain", vec![]), None, 5);
    assert_eq!(p.metadata.platform, None);
}

#[test]
fn existing_projects_keep_identity_and_history() {
    let mut existing = project(77, "old", vec![Language::Go]);
    existing.metadata.tags = vec!["keep".to_string()];
    let (p, is_new) = merge_discovered(Some(existing), discovered("new-name", vec![]), None, 500);
    assert!(!is_new);
    assert_eq!(p.id, ProjectId(77));
    assert_eq!(p.name, "new-name");
    assert_eq!(p.path, "/tmp/old");
    assert_eq!(p.discovered_at, 10);
    assert_eq!(p.last_scanned_at, Some(500));
    assert_eq!(p.metadata.tags, vec!["keep".to_string()]);
    assert_eq!(p.metadata.commands.len(), 1);
    assert_eq!(p.metadata.commands[0].name, "build");
}

#[test]
fn test_scan_does_not_delete_missing_tracked_project() {
    let mut tally = ScanTally::new();
    tally.record(true);
    tally.record(false);
    tally.record(false);
    let report = tally.report(ScanId(3));
    assert_eq!(report.projects_found, 3);
    assert_eq!(report.projects_new, 1);
    assert_eq!(report.projects_updated, 2);
    assert_eq!(report.projects_purged, 0);
    let rec = completed_scan("/w".to_string(), 1, 2, 3);
    assert_eq!(rec.status, ScanStatus::Completed);
    assert_eq!(rec.completed_at, Some(2));
    assert_eq!(rec.projects_found, 3);
}

#[test]
fn test_prune_dry_run_detects_stale_but_keeps_record() {
    let outcome = PruneOutcome::for_prune(false);
    assert_eq!(outcome, PruneOutcome::Detected);
    let p = project(5, "gone", vec![]);
    let report = PruneReport::new(
        false,
        vec![PruneProjectResult { id: p.id, name: p.name.clone(), path: p.path.clone(), outcome }],
    );
    assert!(report.dry_run);
    assert_eq!(report.stale_project_count, 1);
    assert_eq!(report.projects[0].outcome.as_str(), "detected");
}

#[test]
fn test_prune_purge_removes_stale_record() {
    let outcome = PruneOutcome::for_prune(true);
    assert_eq!(outcome, PruneOutcome::Purged);
    assert_eq!(outcome.as_str(), "purged");
    let report = PruneReport::new(true, vec![]);
    assert!(!report.dry_run);
}

#[test]
fn test_prune_empty_database_succeeds() {
    let report = PruneReport::new(false, vec![]);
    assert!(report.dry_run);
    assert_eq!(report.stale_project_count, 0);
    assert!(report.projects.is_empty());
}

#[test]
fn status_counts_primary_languages() {
    let projects = vec![
        project(1, "a", vec![Language::Rust, Language::Node]),
        project(2, "b", vec![Language::Node]),
        project(3, "c", vec![Language::Rust]),
        project(4, "d", vec![]),
        project(5, "e", vec![Language::Go]),
        project(6, "f", vec![Language::Unknown("Elixir".to_string())]),
    ];
    let counts = language_counts(&projects);
    assert_eq!(
        counts,
        vec![
            ("Rust".to_string(), 2),
            ("Elixir".to_string(), 1),
            ("Go".to_string(), 1),
            ("Node".to_string(), 1),
        ]
    );
    assert!(language_counts(&vec![]).is_empty());
}

#[test]
fn command_logs_record_the_run() {
    let log = command_log(&ProjectId(0xff), "test", Some(3), "out\n".to_string(), 9);
    assert_eq!(log.project_id, "00000000-0000-0000-0000-0000000000ff");
    assert_eq!(log.command_name, "test");
    assert_eq!(log.exit_code, Some(3));
    assert_eq!(log.log_text, "out\n");
    assert_eq!(log.run_at, 9);
}

#[test]
fn a_scan_folds_every_discovered_project() {
    let known = project(77, "old", vec![Language::Go]);
    let items = vec![
        ScanItem { discovered: discovered("a", vec![]), existing: None, vcs: None, now: 1 },
        ScanItem { discovered: discovered("b", vec![]), existing: Some(known), vcs: None, now: 2 },
        ScanItem { discovered: discovered("c", vec![]), existing: None, vcs: None, now: 3 },
    ];
    let (projects, tally) = fold_scan(items);
    assert_eq!(projects.len(), 3);
    assert_eq!((tally.found, tally.new, tally.updated), (3, 2, 1));
    assert_eq!(projects[1].id, ProjectId(77));
    assert_eq!(projects[1].discovered_at, 10);
    assert_eq!(projects[1].name, "b");
    assert_eq!(projects[2].last_scanned_at, Some(3));
    assert_eq!(projects[0].id.text().as_bytes()[14], b'4');
    assert_eq!(tally.report(ScanId(1)).projects_purged, 0);
    let (none, empty) = fold_scan(vec![]);
    assert!(none.is_empty());
    assert_eq!((empty.found, empty.new, empty.updated), (0, 0, 0));
}

#[test]
fn failed_git_inspection_indexes_without_vcs() {
    let vcs = VcsInfo { vcs_type: VcsType::Git, branch: None, remote_url: None, is_dirty: false, last_commit: None };
    assert!(inspection_vcs(Ok(Some(vcs))).is_some());
    assert!(inspection_vcs(Ok(None)).is_none());
    assert!(inspection_vcs(Err(CoreError::Git("broken".to_string()))).is_none());
}
