use rustodian::error::CoreError;
use rustodian::paths::{path_is_ancestor, path_is_within, path_less_eq};
use rustodian::rag::{Category, ReadOutcome, RagExport, WriteOp, categorize, skip_directory, skip_file};
use rustodian::report::{concise_reason, janitor_outcome, order_targets, total_label};
use rustodian::runner::{CommandSpec, DefaultCommandRunner};
use rustodian::janitor::{JanitorOutcome, JanitorTargetResult};
use rustodian::types::ProjectId;

fn spec(program: &str, args: &[&str], use_shell: bool) -> CommandSpec {
    CommandSpec {
        program: program.to_string(),
        args: args.iter().map(|a| a.to_string()).collect(),
        working_dir: "/w".to_string(),
        env: vec![],
        use_shell,
        capture_output: true,
    }
}

#[test]
fn invocations() {
    let i = DefaultCommandRunner::invocation(&spec("cargo test --workspace", &["-q"], false));
    assert_eq!(i.program, "cargo");
    assert_eq!(i.args, vec!["test", "--workspace", "-q"]);
    let i = DefaultCommandRunner::invocation(&spec("echo 'a b' && ls", &["x"], true));
    assert_eq!(i.program, "sh");
    assert_eq!(i.args, vec!["-c", "echo 'a b' && ls"]);
    // An unclosed quote cannot be split: the whole text is the program.
    let i = DefaultCommandRunner::invocation(&spec("echo 'oops", &[], false));
    assert_eq!(i.program, "echo 'oops");
    assert!(i.args.is_empty());
    let i = DefaultCommandRunner::invocation(&spec("", &["a"], false));
    assert_eq!(i.program, "");
    assert_eq!(i.args, vec!["a"]);
}

#[test]
fn error_messages() {
    assert_eq!(CoreError::RateLimitExceeded.message(), "API rate limit exceeded");
    assert_eq!(CoreError::Internal("x".to_string()).message(), "internal error: x");
    assert_eq!(
        CoreError::ProjectNotFound(ProjectId(0x0123_4567_89ab_cdef_0123_4567_89ab_cdef)).message(),
        "project not found: 01234567-89ab-cdef-0123-456789abcdef"
    );
    assert_eq!(
        CoreError::CommandFailed { command_name: "t".to_string(), exit_code: -3 }.message(),
        "command 't' failed with exit code -3"
    );
    assert_eq!(CoreError::PathNotFound("/x".to_string()).message(), "path not found: /x");
}

#[test]
fn path_relations() {
    assert!(path_is_ancestor("/a", "/a/b"));
    assert!(path_is_ancestor("/a/", "/a//b/."));
    assert!(!path_is_ancestor("/a", "/a"));
    assert!(!path_is_ancestor("/a", "/ab"));
    assert!(!path_is_ancestor("a", "/a/b"));
    assert!(path_is_within("/a", "/a"));
    assert!(path_is_within("/", "/etc"));
    // Component order: `/a/b` comes before `/a-c` although `/` sorts after `-`.
    assert!(path_less_eq("/a/b", "/a-c"));
    assert!(!path_less_eq("/a-c", "/a/b"));
    assert!(path_less_eq("/z", "relative"));
}

#[test]
fn rag_categories() {
    assert_eq!(categorize("./src/main.rs"), Category::Logic);
    assert_eq!(categorize("./Cargo.toml"), Category::Config);
    assert_eq!(categorize("./docs/notes.md"), Category::Content);
    assert_eq!(categorize("./justfile"), Category::Config);
    assert_eq!(categorize("./.gitignore"), Category::Config);
    assert_eq!(categorize("./LICENSE-MIT"), Category::Content);
    assert_eq!(categorize("./image.png"), Category::Misc);
    assert_eq!(categorize("./archive.tar.gz"), Category::Misc);
    assert!(skip_directory("rag_export"));
    assert!(!skip_directory("src"));
    assert!(skip_file("./Cargo.lock"));
    assert_eq!(Category::Excluded.prefix(), "rag_excluded");
}

#[test]
fn rag_writes_parts_and_entries() {
    let mut export = RagExport::new();
    let ops = export.add_file("./src/lib.rs", ReadOutcome::Text("fn a() {}\nfn b() {}".to_string()));
    assert_eq!(ops.len(), 2);
    match &ops[0] {
        WriteOp::Create { category, file_name, header } => {
            assert_eq!(*category, Category::Logic);
            assert_eq!(file_name, "rag_logic_1.md");
            assert_eq!(header, "# RAG Export - Logic (Part 1)\n\n");
        }
        other => panic!("unexpected {other:?}"),
    }
    match &ops[1] {
        WriteOp::Append { text, .. } => assert_eq!(text, "### Path: ./src/lib.rs\n```\nfn a() {}\nfn b() {}\n```\n\n"),
        other => panic!("unexpected {other:?}"),
    }
    assert_eq!(export.writers[0].current_lines, 2 + 2 + 6);
    let ops = export.add_file("./src/main.rs", ReadOutcome::Text(String::new()));
    assert_eq!(ops.len(), 1);
    let ops = export.add_file("./bin.dat", ReadOutcome::InvalidData);
    assert!(matches!(&ops[1], WriteOp::Append { category: Category::Excluded, text }
        if text == "- **Excluded:** `./bin.dat` (Reason: Binary file / Invalid UTF-8)\n"));
    let ops = export.add_file("./x", ReadOutcome::Error("denied".to_string()));
    assert!(matches!(&ops[0], WriteOp::Append { text, .. } if text == "- **Excluded:** `./x` (Reason: Read error: denied)\n"));
}

#[test]
fn rag_parts_rotate_after_the_line_limit() {
    let mut export = RagExport::new();
    let big = "x\n".repeat(10_000);
    export.add_file("./a.md", ReadOutcome::Text(big));
    let ops = export.add_file("./b.md", ReadOutcome::Text("y".to_string()));
    match &ops[0] {
        WriteOp::Create { file_name, header, .. } => {
            assert_eq!(file_name, "rag_content_2.md");
            assert_eq!(header, "# RAG Export - Content (Part 2)\n\n");
        }
        other => panic!("unexpected {other:?}"),
    }
}

fn target(path: &str, size: Option<u64>, outcome: JanitorOutcome) -> JanitorTargetResult {
    JanitorTargetResult { target: "t".to_string(), path: path.to_string(), size_bytes: size, outcome, reason: None }
}

#[test]
fn report_helpers() {
    let short = "x".repeat(72);
    assert_eq!(concise_reason(&short), short);
    let long = "y".repeat(73);
    let c = concise_reason(&long);
    assert_eq!(c.chars().count(), 72);
    assert!(c.ends_with('…'));
    assert_eq!(total_label(true), "reclaimable");
    assert_eq!(total_label(false), "reclaimed");
    assert!(janitor_outcome(true, true).is_ok());
    assert_eq!(janitor_outcome(false, true).unwrap_err(), "Janitor purge completed with target failures");
    let ordered = order_targets(vec![
        target("/p/c", None, JanitorOutcome::Failed),
        target("/p/b", Some(5), JanitorOutcome::Reclaimable),
        target("/p/a", Some(5), JanitorOutcome::Removed),
        target("/p/d", Some(50), JanitorOutcome::Skipped),
        target("/p/e", Some(9), JanitorOutcome::Reclaimable),
    ]);
    let paths: Vec<&str> = ordered.iter().map(|t| t.path.as_str()).collect();
    assert_eq!(paths, vec!["/p/e", "/p/a", "/p/b", "/p/d", "/p/c"]);
}
