use rustodian::janitor::{
    SizeStep, size_root, size_step,
    CacheEntry, EntryKind, InspectStep, Inspection, JanitorOutcome, JanitorReport, JanitorTargetResult, Probe,
    ProbeAnswer, classify_cache_entry, cleanup_targets, failed_result, is_cleanup_directory, purge_log_text,
    root_failure, DigitalJanitor,
};
use rustodian::types::{DetectionConfidence, Language, LanguageDetection, ProjectId};

fn detection(language: Language) -> LanguageDetection {
    LanguageDetection { language, confidence: DetectionConfidence::High, markers: vec![] }
}

/// Runs an inspection with the given answers to its probes.
fn inspect(path: &str, dry_run: bool, answers: Vec<ProbeAnswer>) -> (Vec<Probe>, JanitorTargetResult) {
    let (mut ins, mut step) = Inspection::start("/proj".to_string(), "target".to_string(), path.to_string(), dry_run);
    let mut asked = Vec::new();
    let mut answers = answers.into_iter();
    loop {
        match step {
            InspectStep::Ask(p) => {
                asked.push(p);
                step = ins.advance(answers.next().expect("an answer for each probe"));
            }
            InspectStep::Done(r) => return (asked, r),
        }
    }
}

#[test]
fn targets_follow_the_languages() {
    let t = cleanup_targets(&vec![detection(Language::Go), detection(Language::Node), detection(Language::Rust)]);
    assert_eq!(t, vec!["target", "node_modules", ".next", ".gopath"]);
    let t = cleanup_targets(&vec![detection(Language::Python), detection(Language::Zig)]);
    assert_eq!(t, vec![".venv"]);
    assert!(cleanup_targets(&vec![]).is_empty());
}

#[test]
fn cache_walk_decisions() {
    assert_eq!(classify_cache_entry("__pycache__", EntryKind::Symlink), CacheEntry::Candidate);
    assert_eq!(classify_cache_entry("pkg", EntryKind::Directory), CacheEntry::Descend);
    assert_eq!(classify_cache_entry("node_modules", EntryKind::Directory), CacheEntry::Ignore);
    assert_eq!(classify_cache_entry("link", EntryKind::Symlink), CacheEntry::Ignore);
    assert_eq!(classify_cache_entry("a.py", EntryKind::Other), CacheEntry::Ignore);
    assert!(is_cleanup_directory(".gopath"));
    assert!(!is_cleanup_directory("src"));
}

#[test]
fn dry_run_measures_and_never_removes() {
    let (asked, r) = inspect(
        "/proj/target",
        true,
        vec![
            ProbeAnswer::Metadata(Ok(EntryKind::Directory)),
            ProbeAnswer::CanonicalPath(Ok("/proj/target".to_string())),
            ProbeAnswer::Size(Ok(11)),
        ],
    );
    assert_eq!(asked, vec![Probe::Metadata, Probe::CanonicalPath, Probe::Size]);
    assert_eq!(r.outcome, JanitorOutcome::Reclaimable);
    assert_eq!(r.size_bytes, Some(11));
    assert_eq!(r.reason, None);
}

#[test]
fn purge_rechecks_before_removing() {
    let (asked, r) = inspect(
        "/proj/target",
        false,
        vec![
            ProbeAnswer::Metadata(Ok(EntryKind::Directory)),
            ProbeAnswer::CanonicalPath(Ok("/proj/target".to_string())),
            ProbeAnswer::Size(Ok(4)),
            ProbeAnswer::Metadata(Ok(EntryKind::Directory)),
            ProbeAnswer::CanonicalPath(Ok("/proj/target".to_string())),
            ProbeAnswer::Removed(Ok(())),
        ],
    );
    assert_eq!(
        asked,
        vec![Probe::Metadata, Probe::CanonicalPath, Probe::Size, Probe::Metadata, Probe::CanonicalPath, Probe::Remove]
    );
    assert_eq!(r.outcome, JanitorOutcome::Removed);
    assert_eq!(r.size_bytes, Some(4));
}

#[test]
fn swapped_for_a_symlink_before_deletion_is_skipped() {
    let (asked, r) = inspect(
        "/proj/target",
        false,
        vec![
            ProbeAnswer::Metadata(Ok(EntryKind::Directory)),
            ProbeAnswer::CanonicalPath(Ok("/proj/target".to_string())),
            ProbeAnswer::Size(Ok(4)),
            ProbeAnswer::Metadata(Ok(EntryKind::Symlink)),
        ],
    );
    assert!(!asked.contains(&Probe::Remove));
    assert_eq!(r.outcome, JanitorOutcome::Skipped);
    assert_eq!(r.size_bytes, Some(4));
    assert_eq!(r.reason.as_deref(), Some("refusing symbolic link cleanup target"));
}

#[test]
fn escaping_targets_fail() {
    let (asked, r) = inspect("/elsewhere/target", true, vec![]);
    assert!(asked.is_empty());
    assert_eq!(r.outcome, JanitorOutcome::Failed);
    assert_eq!(r.reason.as_deref(), Some("candidate is not lexically contained in the project root"));
    let (_, r) = inspect(
        "/proj/target",
        true,
        vec![ProbeAnswer::Metadata(Ok(EntryKind::Directory)), ProbeAnswer::CanonicalPath(Ok("/tmp/x".to_string()))],
    );
    assert_eq!(r.outcome, JanitorOutcome::Failed);
    assert_eq!(r.reason.as_deref(), Some("candidate is not canonically contained in the project root"));
    let (_, r) = inspect("/proj/f", true, vec![ProbeAnswer::Metadata(Ok(EntryKind::Other))]);
    assert_eq!(r.outcome, JanitorOutcome::Skipped);
    assert_eq!(r.reason.as_deref(), Some("cleanup target is not a directory"));
    let (_, r) = inspect("/proj/f", true, vec![ProbeAnswer::Metadata(Err("denied".to_string()))]);
    assert_eq!(r.outcome, JanitorOutcome::Failed);
    assert_eq!(r.reason.as_deref(), Some("denied"));
}

#[test]
fn report_counts_actionable_bytes_and_failures() {
    let mut report = JanitorReport::new(false);
    report.record(JanitorTargetResult {
        target: "target".to_string(),
        path: "/p/target".to_string(),
        size_bytes: Some(100),
        outcome: JanitorOutcome::Removed,
        reason: None,
    });
    report.record(failed_result(".venv", "/p/.venv".to_string(), Some(7), "busy".to_string()));
    assert_eq!(report.bytes_reclaimed, 100);
    assert!(report.has_failures());
    assert_eq!(
        purge_log_text(&report),
        "Digital Janitor purge: targets=[target=target path=/p/target outcome=removed size_bytes=100 reason=none; \
         target=.venv path=/p/.venv outcome=failed size_bytes=7 reason=busy]; bytes_reclaimed=100; \
         failures=[/p/.venv]; success=false"
    );
    let id = ProjectId(7);
    let log = DigitalJanitor::purge_log(&id, &report, 42);
    assert_eq!(log.command_name, "janitor:clean");
    assert_eq!(log.exit_code, Some(1));
    assert_eq!(log.project_id, "00000000-0000-0000-0000-000000000007");
    assert_eq!(log.id.len(), 36);
    assert_eq!(log.run_at, 42);
}

#[test]
fn empty_purge_succeeds() {
    let report = JanitorReport::new(false);
    assert!(!report.has_failures());
    assert_eq!(
        purge_log_text(&report),
        "Digital Janitor purge: targets=[]; bytes_reclaimed=0; failures=[]; success=true"
    );
    let log = DigitalJanitor::purge_log(&ProjectId(1), &report, 0);
    assert_eq!(log.exit_code, Some(0));
    let root = root_failure("/p".to_string(), "project root is not a directory".to_string());
    assert_eq!(root.target, "project root");
    assert_eq!(root.outcome, JanitorOutcome::Failed);
    assert_eq!(JanitorOutcome::Reclaimable.as_str(), "reclaimable");
    assert!(JanitorOutcome::Removed.is_actionable());
    assert!(!JanitorOutcome::Skipped.is_actionable());
}

#[test]
fn sizing_skips_links_and_refuses_a_linked_target() {
    assert_eq!(size_step(EntryKind::Symlink, 128), SizeStep::Skip);
    assert_eq!(size_step(EntryKind::Directory, 4096), SizeStep::Descend);
    assert_eq!(size_step(EntryKind::Other, 11), SizeStep::Add(11));
    assert_eq!(size_root(EntryKind::Symlink, 9), Err("refusing to size symbolic link".to_string()));
    assert_eq!(size_root(EntryKind::Directory, 4096), Ok(None));
    assert_eq!(size_root(EntryKind::Other, 11), Ok(Some(11)));
}
