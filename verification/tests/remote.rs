use rustodian::error::CoreError;
use rustodian::remote::{
    ArchiveEntryKind, EntryDecision, archive_url_exec, check_parent, decide_entry, download_status_error,
    pulls_status_error, pulls_url, try_master,
};

fn decide(kind: ArchiveEntryKind, path: &str, preserve: &[&str]) -> EntryDecision {
    let preserve: Vec<String> = preserve.iter().map(|p| p.to_string()).collect();
    decide_entry(&kind, path, &format!("{path:?}"), &preserve)
}

#[test]
fn archive_urls() {
    assert_eq!(
        archive_url_exec("https://api.github.com", "octo/repo", "main"),
        "https://github.com/octo/repo/archive/refs/heads/main.tar.gz"
    );
    assert_eq!(
        archive_url_exec("http://127.0.0.1:9", "octo/repo", "master"),
        "http://127.0.0.1:9/octo/repo/archive/refs/heads/master.tar.gz"
    );
    assert!(try_master(404));
    assert!(!try_master(500));
    assert!(download_status_error("o/r", 200, "200 OK").is_none());
    assert_eq!(
        download_status_error("o/r", 500, "500 Internal Server Error").unwrap().message(),
        "internal error: Failed to download o/r: status 500 Internal Server Error"
    );
}

#[test]
fn pull_request_answers() {
    assert_eq!(
        pulls_url("https://api.github.com", "drawmeanelephant/rustodian"),
        "https://api.github.com/repos/drawmeanelephant/rustodian/pulls?state=open"
    );
    assert!(matches!(
        pulls_status_error("o/r", 403, Some("0".to_string()), "403 Forbidden"),
        Some(CoreError::RateLimitExceeded)
    ));
    assert!(matches!(
        pulls_status_error("o/r", 403, Some("12".to_string()), "403 Forbidden"),
        Some(CoreError::Internal(m)) if m == "Failed to fetch PRs for o/r: status 403 Forbidden"
    ));
    assert!(pulls_status_error("o/r", 200, None, "200 OK").is_none());
}

#[test]
fn normal_entries_lose_their_top_directory() {
    assert!(matches!(decide(ArchiveEntryKind::Directory, "repo/", &[]), EntryDecision::Skip));
    assert!(matches!(
        decide(ArchiveEntryKind::Regular, "repo/src/main.rs", &[]),
        EntryDecision::Extract(p) if p == "src/main.rs"
    ));
    assert!(matches!(
        decide(ArchiveEntryKind::Regular, "./repo/a//b", &[]),
        EntryDecision::Extract(p) if p == "repo/a/b"
    ));
}

#[test]
fn parent_traversal_is_rejected() {
    match decide(ArchiveEntryKind::Regular, "repo/../escape.txt", &[]) {
        EntryDecision::Reject(e) => assert!(e.message().contains("Path traversal")),
        other => panic!("unexpected {other:?}"),
    }
}

#[test]
fn links_are_rejected() {
    match decide(ArchiveEntryKind::Symlink, "repo/link", &[]) {
        EntryDecision::Reject(e) => assert!(e.message().contains("symbolic link")),
        other => panic!("unexpected {other:?}"),
    }
    match decide(ArchiveEntryKind::HardLink, "repo/hardlink.txt", &[]) {
        EntryDecision::Reject(e) => assert!(e.message().contains("hard link")),
        other => panic!("unexpected {other:?}"),
    }
    match decide(ArchiveEntryKind::Other("Fifo".to_string()), "repo/p", &[]) {
        EntryDecision::Reject(e) => assert!(e.message().ends_with("has unsupported entry type Fifo")),
        other => panic!("unexpected {other:?}"),
    }
}

#[test]
fn preserved_files_are_left_alone() {
    assert!(matches!(decide(ArchiveEntryKind::Regular, "repo/.env", &[".env"]), EntryDecision::Preserve));
    assert!(matches!(
        decide(ArchiveEntryKind::Regular, "repo/README.md", &[".env"]),
        EntryDecision::Extract(p) if p == "README.md"
    ));
}

#[test]
fn parents_must_stay_in_the_destination() {
    assert!(check_parent("/dest", "/dest/src", "\"repo/src/x\"").is_ok());
    let e = check_parent("/dest", "/outside", "\"repo/foo/bar\"").unwrap_err();
    assert!(e.message().contains("Zip Slip"));
}
