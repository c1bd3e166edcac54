use rustodian::brief::{
    AttentionReason, BriefCategory, ProjectObservation, SuggestedAction, build_brief, brief_project,
    is_health_relevant, select_latest_command,
};
use rustodian::types::{Project, ProjectId, ProjectLog, ProjectMetadata, VcsInfo, VcsType};

const NOW: i64 = 1_700_000_000_000_000_000;
const MINUTE: i64 = 60_000_000_000;

fn project_named(path: &str, name: &str) -> Project {
    Project {
        id: ProjectId::new(),
        name: name.to_string(),
        path: path.to_string(),
        languages: vec![],
        vcs: None,
        discovered_at: NOW,
        last_scanned_at: None,
        metadata: ProjectMetadata::default(),
    }
}

fn project(path: &str) -> Project {
    project_named(path, "demo")
}

fn log_named(project: &Project, command_name: &str, exit_code: Option<i32>, run_at: i64) -> ProjectLog {
    ProjectLog {
        id: "log".to_string(),
        project_id: project.id.text(),
        command_name: command_name.to_string(),
        exit_code,
        log_text: String::new(),
        run_at,
    }
}

fn log(project: &Project, exit_code: Option<i32>) -> ProjectLog {
    log_named(project, "test", exit_code, NOW)
}

fn vcs(dirty: bool) -> Option<VcsInfo> {
    Some(VcsInfo {
        vcs_type: VcsType::Git,
        branch: Some("main".to_string()),
        remote_url: None,
        is_dirty: dirty,
        last_commit: None,
    })
}

fn observe(project: Project, logs: Vec<ProjectLog>, git: Result<Option<VcsInfo>, String>) -> ProjectObservation {
    ProjectObservation { project, path_exists: true, git, logs }
}

#[test]
fn brief_categories_obey_precedence_and_empty_history() {
    let failed = project("/tmp/demo");
    let l = log(&failed, Some(1));
    let report = build_brief(vec![observe(failed, vec![l], Ok(vcs(true)))], NOW);
    assert_eq!(report.projects[0].category, BriefCategory::NeedsAttention);
    assert!(report.projects[0]
        .attention_reasons
        .iter()
        .any(|reason| matches!(reason, AttentionReason::LatestCommandFailed { .. })));

    let dirty = project("/tmp/demo");
    let report = build_brief(vec![observe(dirty, vec![], Ok(vcs(true)))], NOW);
    assert_eq!(report.projects[0].category, BriefCategory::WorkInProgress);

    let empty = project("/tmp/demo");
    let report = build_brief(vec![observe(empty, vec![], Ok(vcs(false)))], NOW);
    assert_eq!(report.projects[0].category, BriefCategory::Unverified);
}

#[test]
fn git_error_is_project_scoped() {
    let broken = project("/tmp/x/broken");
    let healthy = project("/tmp/x/healthy");
    let report = build_brief(
        vec![
            observe(broken, vec![], Err("git error: broken repository".to_string())),
            observe(healthy, vec![], Ok(None)),
        ],
        NOW,
    );
    assert_eq!(report.projects.len(), 2);
    assert!(matches!(
        report.projects[0].attention_reasons[0],
        AttentionReason::GitInspectionFailed { .. }
    ));
    assert_eq!(report.projects[1].category, BriefCategory::Unverified);
}

#[test]
fn failed_latest_command_gets_failure_action() {
    let p = project("/tmp/demo");
    let l = log(&p, Some(2));
    let report = build_brief(vec![observe(p, vec![l], Ok(vcs(false)))], NOW);
    assert!(matches!(
        report.projects[0].suggested_action,
        Some(SuggestedAction::InspectLatestCommandFailure { .. })
    ));
}

#[test]
fn missing_path_is_reported_without_inspection() {
    let p = project("/definitely/not/a/rustodian/project");
    let obs = ProjectObservation {
        project: p,
        path_exists: false,
        git: Err("must not be consulted".to_string()),
        logs: vec![],
    };
    let report = build_brief(vec![obs], NOW);
    assert_eq!(report.projects[0].category, BriefCategory::NeedsAttention);
    assert!(matches!(
        report.projects[0].suggested_action,
        Some(SuggestedAction::RefreshTrackedProjects)
    ));
    assert!(report.projects[0].live_vcs.is_none());
}

#[test]
fn failed_test_is_not_masked_by_later_janitor_clean() {
    let failed = project("/tmp/demo");
    let logs = vec![
        log_named(&failed, "test", Some(1), NOW - 5 * MINUTE),
        log_named(&failed, "janitor:clean", Some(0), NOW),
    ];
    let report = build_brief(vec![observe(failed, logs, Ok(vcs(false)))], NOW);
    let brief = &report.projects[0];
    assert_eq!(brief.category, BriefCategory::NeedsAttention);
    assert_eq!(brief.latest_command.as_ref().unwrap().command_name, "test");
    assert_eq!(brief.latest_command.as_ref().unwrap().exit_code, Some(1));
    assert!(brief
        .attention_reasons
        .iter()
        .any(|reason| matches!(reason, AttentionReason::LatestCommandFailed { .. })));
}

#[test]
fn successful_test_stays_ready_after_janitor_clean() {
    let passing = project("/tmp/demo");
    let logs = vec![
        log_named(&passing, "test", Some(0), NOW - 5 * MINUTE),
        log_named(&passing, "janitor:clean", Some(0), NOW),
    ];
    let report = build_brief(vec![observe(passing, logs, Ok(vcs(false)))], NOW);
    let brief = &report.projects[0];
    assert_eq!(brief.category, BriefCategory::Ready);
    assert_eq!(brief.latest_command.as_ref().unwrap().command_name, "test");
}

#[test]
fn janitor_only_history_is_unverified() {
    let p = project("/tmp/demo");
    let logs = vec![log_named(&p, "janitor:clean", Some(0), NOW)];
    let report = build_brief(vec![observe(p, logs, Ok(vcs(false)))], NOW);
    let brief = &report.projects[0];
    assert_eq!(brief.category, BriefCategory::Unverified);
    assert!(brief.latest_command.is_none());
    assert!(brief
        .attention_reasons
        .iter()
        .any(|reason| matches!(reason, AttentionReason::NoCommandHistory)));
}

#[test]
fn bootstrap_and_verify_logs_remain_health_relevant() {
    let p = project("/tmp/demo");
    let logs = vec![
        log_named(&p, "bootstrap:rust", Some(0), NOW - 5 * MINUTE),
        log_named(&p, "verify:rust", Some(1), NOW),
    ];
    let report = build_brief(vec![observe(p, logs, Ok(vcs(false)))], NOW);
    let brief = &report.projects[0];
    assert_eq!(brief.category, BriefCategory::NeedsAttention);
    assert_eq!(brief.latest_command.as_ref().unwrap().command_name, "verify:rust");
}

#[test]
fn brief_ordering_is_deterministic() {
    let needs = project_named("/tmp/b", "needs");
    let beta = project_named("/tmp/b", "beta");
    let alpha = project_named("/tmp/b", "alpha");
    let zeta = project_named("/tmp/b", "zeta");
    let empty = project_named("/tmp/b", "empty");
    let needs_log = log_named(&needs, "test", Some(1), NOW);
    let beta_log = log_named(&beta, "test", Some(0), NOW + 1_000_000_000);
    let alpha_log = log_named(&alpha, "test", Some(0), NOW);
    let zeta_log = log_named(&zeta, "test", Some(0), NOW);
    let report = build_brief(
        vec![
            observe(zeta, vec![zeta_log], Ok(vcs(false))),
            observe(needs, vec![needs_log], Ok(vcs(false))),
            observe(empty, vec![], Ok(vcs(false))),
            observe(beta, vec![beta_log], Ok(vcs(false))),
            observe(alpha, vec![alpha_log], Ok(vcs(false))),
        ],
        NOW,
    );
    let names: Vec<&str> = report.projects.iter().map(|p| p.name.as_str()).collect();
    assert_eq!(names, vec!["needs", "beta", "alpha", "zeta", "empty"]);
    assert_eq!(report.project_count, 5);
    assert_eq!(report.category_counts.needs_attention, 1);
    assert_eq!(report.category_counts.ready, 3);
    assert_eq!(report.category_counts.unverified, 1);
    assert_eq!(report.category_counts.work_in_progress, 0);
}

#[test]
fn counts_always_sum_to_the_project_count() {
    let a = project_named("/a", "a");
    let b = project_named("/b", "b");
    let la = log(&a, Some(0));
    let report = build_brief(
        vec![observe(a, vec![la], Ok(vcs(true))), observe(b, vec![], Ok(None))],
        NOW,
    );
    let c = &report.category_counts;
    assert_eq!(c.needs_attention + c.work_in_progress + c.ready + c.unverified, report.project_count);
    assert_eq!(report.generated_at, NOW);
}

#[test]
fn housekeeping_logs_are_not_health_relevant() {
    let p = project("/tmp/demo");
    assert!(!is_health_relevant(&log_named(&p, "janitor:clean", Some(0), NOW)));
    assert!(is_health_relevant(&log_named(&p, "verify:go", Some(0), NOW)));
    let latest = select_latest_command(vec![
        log_named(&p, "build", Some(0), NOW - MINUTE),
        log_named(&p, "test", Some(3), NOW - MINUTE),
        log_named(&p, "janitor:clean", Some(0), NOW),
    ]);
    // Equal times: the later record wins.
    assert_eq!(latest.unwrap().command_name, "test");
}

#[test]
fn dirty_tree_suggests_review() {
    let p = project("/tmp/demo");
    let l = log(&p, Some(0));
    let brief = brief_project(observe(p, vec![l], Ok(vcs(true))));
    assert_eq!(brief.category, BriefCategory::WorkInProgress);
    assert_eq!(brief.suggested_action.unwrap().text(), "Review uncommitted changes");
}
