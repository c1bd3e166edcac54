use rustodian::brief::{BriefCategory, ProjectObservation, build_brief};
use rustodian::error::CoreError;
use rustodian::git::Git2Inspector;
use rustodian::report::{brief_section_rows, sections};
use rustodian::storage::{parse_row_identity, parse_timestamp, timestamp_text};
use rustodian::types::{
    CommitInfo, Project, ProjectId, ProjectLog, ProjectMetadata, ScanId, VcsInfo, VcsType,
};

#[test]
fn timestamps_are_rfc3339_text() {
    assert_eq!(timestamp_text(0), "1970-01-01T00:00:00+00:00");
    assert_eq!(timestamp_text(1_500_000_000), "1970-01-01T00:00:01.500+00:00");
}

#[test]
fn timestamps_read_back() {
    for n in [0i64, 1, 1_700_000_000_123_456_789, -86_400_000_000_000] {
        assert_eq!(parse_timestamp(&timestamp_text(n)).unwrap(), n);
    }
    assert_eq!(parse_timestamp("2023-10-01T12:00:00Z").unwrap(), 1_696_161_600_000_000_000);
}

#[test]
fn unreadable_timestamps_are_storage_errors() {
    match parse_timestamp("yesterday") {
        Err(CoreError::Storage(m)) => assert!(m.starts_with("invalid timestamp 'yesterday': "), "{m}"),
        other => panic!("unexpected {other:?}"),
    }
    match parse_timestamp("9999-12-31T23:59:59Z") {
        Err(CoreError::Storage(m)) => assert_eq!(m, "invalid timestamp '9999-12-31T23:59:59Z': out of range"),
        other => panic!("unexpected {other:?}"),
    }
}

#[test]
fn identifiers_are_uuid_text() {
    assert_eq!(ProjectId(0).text(), "00000000-0000-0000-0000-000000000000");
    assert_eq!(
        ScanId(0x0123_4567_89ab_cdef_0123_4567_89ab_cdef).text(),
        "01234567-89ab-cdef-0123-456789abcdef"
    );
    assert_ne!(ProjectId::new(), ProjectId::new());
}

#[test]
fn stored_rows_are_read_or_rejected_in_order() {
    let (id, d, s) = parse_row_identity(
        "01234567-89ab-cdef-0123-456789abcdef",
        "1970-01-01T00:00:00+00:00",
        Some("1970-01-01T00:00:01+00:00".to_string()),
    )
    .unwrap();
    assert_eq!(id, ProjectId(0x0123_4567_89ab_cdef_0123_4567_89ab_cdef));
    assert_eq!(d, 0);
    assert_eq!(s, Some(1_000_000_000));

    match parse_row_identity("nope", "also bad", None) {
        Err(CoreError::Storage(m)) => assert!(m.starts_with("invalid project UUID 'nope': "), "{m}"),
        other => panic!("unexpected {other:?}"),
    }
    match parse_row_identity("01234567-89ab-cdef-0123-456789abcdef", "1970-01-01T00:00:00Z", Some("bad".to_string())) {
        Err(CoreError::Storage(m)) => assert!(m.starts_with("invalid timestamp 'bad': "), "{m}"),
        other => panic!("unexpected {other:?}"),
    }
}

#[test]
fn working_tree_is_dirty_only_when_listing_finds_files() {
    let commit = CommitInfo { sha: "abc".to_string(), message: "m".to_string(), author: "a".to_string(), timestamp: 7 };
    let v = Git2Inspector::vcs_info(Some("main".to_string()), None, &Ok(vec!["new.txt".to_string()]), Some(commit));
    assert_eq!(v.vcs_type, VcsType::Git);
    assert_eq!(v.branch.as_deref(), Some("main"));
    assert!(v.is_dirty);
    assert_eq!(v.last_commit.unwrap().sha, "abc");
    assert!(!Git2Inspector::vcs_info(None, None, &Ok(vec![]), None).is_dirty);
    assert!(!Git2Inspector::vcs_info(None, None, &Err(CoreError::Git("locked".to_string())), None).is_dirty);
}

#[test]
fn brief_rows_by_section() {
    let project = Project {
        id: ProjectId(1),
        name: "demo".to_string(),
        path: "/tmp/demo".to_string(),
        languages: vec![],
        vcs: None,
        discovered_at: 0,
        last_scanned_at: None,
        metadata: ProjectMetadata::default(),
    };
    let log = ProjectLog {
        id: "l".to_string(),
        project_id: project.id.text(),
        command_name: "test".to_string(),
        exit_code: Some(2),
        log_text: String::new(),
        run_at: 0,
    };
    let vcs = VcsInfo {
        vcs_type: VcsType::Git,
        branch: Some("main".to_string()),
        remote_url: None,
        is_dirty: true,
        last_commit: None,
    };
    let obs = ProjectObservation { project, path_exists: true, git: Ok(Some(vcs)), logs: vec![log] };
    let report = build_brief(vec![obs], 0);
    assert_eq!(
        sections(),
        vec![BriefCategory::NeedsAttention, BriefCategory::WorkInProgress, BriefCategory::Ready, BriefCategory::Unverified]
    );
    let rows = brief_section_rows(&report.projects, BriefCategory::NeedsAttention);
    assert_eq!(
        rows,
        vec![vec![
            "demo".to_string(),
            "main".to_string(),
            "dirty".to_string(),
            "test".to_string(),
            "2".to_string(),
            "1970-01-01T00:00:00+00:00".to_string(),
            "Inspect the latest test failure".to_string(),
        ]]
    );
    assert!(brief_section_rows(&report.projects, BriefCategory::Ready).is_empty());
}
