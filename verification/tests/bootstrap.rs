use std::collections::VecDeque;

use rustodian::bootstrap::{BootAction, BootEvent, ProjectBootstrapper};
use rustodian::error::CoreError;
use rustodian::types::Language;

/// Drives a bootstrap: commands exit with the queued codes (0 once the queue
/// is empty) and only the listed paths exist. Returns the programs run, the
/// environments they ran with, and the outcome.
fn drive(
    languages: Vec<Language>,
    path: &str,
    exit_codes: Vec<i32>,
    existing: &[&str],
) -> (Vec<String>, Vec<Vec<(String, String)>>, Result<(), CoreError>) {
    let mut codes: VecDeque<i32> = VecDeque::from(exit_codes);
    let mut programs = Vec::new();
    let mut envs = Vec::new();
    let (mut state, mut action) = ProjectBootstrapper::start(languages, path.to_string());
    loop {
        action = match action {
            BootAction::Run { program, env, .. } => {
                programs.push(program);
                envs.push(env);
                let code = codes.pop_front().unwrap_or(0);
                ProjectBootstrapper::advance(&mut state, BootEvent::Ran(Ok(Some(code))))
            }
            BootAction::CheckExists(p) => {
                let found = existing.contains(&p.as_str());
                ProjectBootstrapper::advance(&mut state, BootEvent::Exists(found))
            }
            BootAction::Finish(result) => return (programs, envs, result),
        };
    }
}

#[test]
fn test_bootstrap_rust_project() {
    let (run_list, _, result) = drive(vec![Language::Rust], "/tmp/test_rust", vec![], &[]);
    assert!(result.is_ok());
    assert_eq!(run_list.len(), 2);
    assert_eq!(run_list[0], "cargo build");
    assert_eq!(run_list[1], "cargo test");
}

#[test]
fn test_rust_build_failure_stops_before_test() {
    let (run_list, _, result) = drive(vec![Language::Rust], "/tmp/test_rust_fail", vec![1], &[]);
    let err = result.unwrap_err();
    // `cargo test` must never run after a failed `cargo build`.
    assert_eq!(run_list.len(), 1);
    assert_eq!(run_list[0], "cargo build");
    assert!(err.message().contains("bootstrap:rust"));
}

#[test]
fn test_rust_test_failure_returns_failure() {
    let (run_list, _, result) = drive(vec![Language::Rust], "/tmp/test_rust_test_fail", vec![0, 1], &[]);
    let err = result.unwrap_err();
    assert_eq!(run_list.len(), 2);
    assert_eq!(run_list[0], "cargo build");
    assert_eq!(run_list[1], "cargo test");
    assert!(err.message().contains("verify:rust"));
}

#[test]
fn test_bootstrap_go_project() {
    let (run_list, envs, result) = drive(vec![Language::Go], "/tmp/test_go", vec![], &[]);
    assert!(result.is_ok());
    assert_eq!(run_list.len(), 2);
    assert_eq!(run_list[0], "go mod download");
    assert_eq!(run_list[1], "go test ./...");
    assert_eq!(envs[0], vec![("GOPATH".to_string(), "/tmp/test_go/.gopath".to_string())]);
    assert_eq!(envs[1], envs[0]);
}

#[test]
fn test_go_verification_failure_propagates() {
    let (run_list, _, result) = drive(vec![Language::Go], "/tmp/test_go_fail", vec![0, 1], &[]);
    let err = result.unwrap_err();
    assert_eq!(run_list.len(), 2);
    assert_eq!(run_list[0], "go mod download");
    assert_eq!(run_list[1], "go test ./...");
    assert!(err.message().contains("verify:go"));
}

#[test]
fn test_node_install_failure_stops_before_test() {
    let (run_list, _, result) = drive(vec![Language::Node], "/tmp/test_node_fail", vec![1], &[]);
    let err = result.unwrap_err();
    // `npm test` must never run after a failed install.
    assert_eq!(run_list.len(), 1);
    assert_eq!(run_list[0], "npm install");
    assert!(err.message().contains("bootstrap:node"));
}

#[test]
fn test_python_venv_fallback_first_fails_second_succeeds() {
    let (run_list, _, result) =
        drive(vec![Language::Python], "/tmp/test_python_fallback", vec![1, 0, 0], &[]);
    assert!(result.is_ok());
    assert_eq!(run_list.len(), 3);
    assert_eq!(run_list[0], "python3 -m venv .venv");
    assert_eq!(run_list[1], "python -m venv .venv");
    assert_eq!(run_list[2], ".venv/bin/python -m unittest discover");
}

#[test]
fn test_python_both_venv_commands_fail() {
    let (run_list, _, result) = drive(vec![Language::Python], "/tmp/test_python_venv_fail", vec![1, 1], &[]);
    let err = result.unwrap_err();
    // No dependency install or verification may run when the venv cannot be created.
    assert_eq!(run_list.len(), 2);
    assert_eq!(run_list[0], "python3 -m venv .venv");
    assert_eq!(run_list[1], "python -m venv .venv");
    assert!(err.message().contains(".venv"));
}

#[test]
fn test_python_dependency_failure_propagates() {
    let (run_list, _, result) = drive(
        vec![Language::Python],
        "/tmp/test_python_deps",
        vec![0, 1],
        &["/tmp/test_python_deps/requirements.txt"],
    );
    let err = result.unwrap_err();
    // A failed dependency install must fail the whole bootstrap before verification.
    assert_eq!(run_list.len(), 2);
    assert_eq!(run_list[0], "python3 -m venv .venv");
    assert_eq!(run_list[1], ".venv/bin/pip install -r requirements.txt");
    assert!(err.message().contains("bootstrap:python_deps"));
}

#[test]
fn node_uses_the_package_manager_of_its_lock_file() {
    let (run_list, _, result) =
        drive(vec![Language::Node], "/srv/app", vec![], &["/srv/app/pnpm-lock.yaml"]);
    assert!(result.is_ok());
    assert_eq!(run_list, vec!["pnpm install".to_string(), "pnpm test".to_string()]);
}

#[test]
fn python_uses_pytest_and_installs_the_project_when_present() {
    let (run_list, _, result) = drive(
        vec![Language::Python],
        "/srv/py/",
        vec![],
        &["/srv/py/setup.py", "/srv/py/.venv/bin/pytest"],
    );
    assert!(result.is_ok());
    assert_eq!(
        run_list,
        vec![
            "python3 -m venv .venv".to_string(),
            ".venv/bin/pip install .".to_string(),
            ".venv/bin/pytest -v".to_string(),
        ]
    );
}

#[test]
fn languages_without_bootstrap_are_skipped_and_gopath_persists() {
    let (run_list, envs, result) = drive(
        vec![Language::Ruby, Language::Go, Language::Zig, Language::Rust],
        "/w",
        vec![],
        &[],
    );
    assert!(result.is_ok());
    assert_eq!(
        run_list,
        vec![
            "go mod download".to_string(),
            "go test ./...".to_string(),
            "cargo build".to_string(),
            "cargo test".to_string(),
        ]
    );
    let gopath = vec![("GOPATH".to_string(), "/w/.gopath".to_string())];
    assert!(envs.iter().all(|e| *e == gopath));
}

#[test]
fn terminated_command_fails_the_bootstrap() {
    let (mut state, action) = ProjectBootstrapper::start(vec![Language::Rust], "/p".to_string());
    assert!(matches!(action, BootAction::Run { .. }));
    let next = ProjectBootstrapper::advance(&mut state, BootEvent::Ran(Ok(None)));
    match next {
        BootAction::Finish(Err(e)) => assert_eq!(
            e.message(),
            "command 'bootstrap:rust' was terminated without reporting an exit code"
        ),
        other => panic!("unexpected {other:?}"),
    }
}

#[test]
fn nothing_to_bootstrap_finishes_at_once() {
    let (_, action) = ProjectBootstrapper::start(vec![], "/p".to_string());
    assert!(matches!(action, BootAction::Finish(Ok(()))));
}
