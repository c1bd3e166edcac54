use rustodian::docs::{discover_docs, toggle_task};
use rustodian::markdown::{MarkdownBlock, parse_markdown, strip_task_prefix};

fn text(s: &str) -> String {
    s.to_string()
}

#[test]
fn test_parse_markdown_tasks() {
    let input = "- [ ] task one\n- [x] task two\n";
    let parsed = parse_markdown(input);
    assert_eq!(
        parsed.blocks,
        vec![
            MarkdownBlock::Task { text: text("task one"), checked: false },
            MarkdownBlock::Task { text: text("task two"), checked: true },
        ]
    );
}

#[test]
fn test_parse_markdown_commands() {
    let input = "## Commands\n```\ncargo test\n```\n";
    let parsed = parse_markdown(input);
    assert_eq!(
        parsed.blocks,
        vec![
            MarkdownBlock::Header { level: 2, text: text("Commands") },
            MarkdownBlock::CodeFence { text: text("cargo test") },
        ]
    );
}

#[test]
fn every_kind_of_line() {
    let input = "# One\n#### Four\n  ---  \n***\n___\n\n* item\n- other\n12. twelve\n1.5 not a list\nplain text\n* [X] done\n";
    let parsed = parse_markdown(input);
    assert_eq!(
        parsed.blocks,
        vec![
            MarkdownBlock::Header { level: 1, text: text("One") },
            MarkdownBlock::Header { level: 4, text: text("Four") },
            MarkdownBlock::HorizontalRule,
            MarkdownBlock::HorizontalRule,
            MarkdownBlock::HorizontalRule,
            MarkdownBlock::BlankLine,
            MarkdownBlock::BulletList { text: text("item") },
            MarkdownBlock::BulletList { text: text("other") },
            MarkdownBlock::NumberedList { number: text("12."), text: text("twelve") },
            MarkdownBlock::Text { text: text("1.5 not a list") },
            MarkdownBlock::Text { text: text("plain text") },
            MarkdownBlock::Task { text: text("done"), checked: true },
        ]
    );
}

#[test]
fn code_keeps_lines_verbatim_and_fences_toggle() {
    let input = "```rust\n  # not a header\n```\n# header\r\n";
    let parsed = parse_markdown(input);
    assert_eq!(
        parsed.blocks,
        vec![
            MarkdownBlock::CodeFence { text: text("  # not a header") },
            MarkdownBlock::Header { level: 1, text: text("header") },
        ]
    );
}

#[test]
fn task_prefixes() {
    assert_eq!(strip_task_prefix("* [x] a", true).as_deref(), Some("a"));
    assert_eq!(strip_task_prefix("- [ ] b", false).as_deref(), Some("b"));
    assert_eq!(strip_task_prefix("- [ ] b", true), None);
    assert_eq!(strip_task_prefix("- [x] c", false), None);
}

#[test]
fn docs_are_discovered_once_per_lower_case_name() {
    let files = vec!["todo.md".to_string(), "TODO.md".to_string(), "readme.md".to_string(), "notes.md".to_string()];
    let docs = discover_docs("/p", &files);
    assert_eq!(
        docs,
        vec![
            ("TODO.md".to_string(), "/p/TODO.md".to_string()),
            ("readme.md".to_string(), "/p/readme.md".to_string()),
        ]
    );
    assert!(discover_docs("/p", &vec![]).is_empty());
}

#[test]
fn toggling_tasks_changes_the_first_matching_line() {
    let doc = "# Tasks\n- [ ] write docs\n- [ ] write docs again\n- [x] ship\n";
    assert_eq!(
        toggle_task(doc, "write docs", true).as_deref(),
        Some("# Tasks\n- [x] write docs\n- [ ] write docs again\n- [x] ship\n")
    );
    assert_eq!(
        toggle_task(doc, "ship", false).as_deref(),
        Some("# Tasks\n- [ ] write docs\n- [ ] write docs again\n- [ ] ship\n")
    );
    // Already in the asked state: nothing changes.
    assert_eq!(toggle_task(doc, "ship", true), None);
    assert_eq!(toggle_task(doc, "missing", true), None);
    // Unchecking also clears an upper-case mark.
    assert_eq!(toggle_task("- [X] a", "a", false).as_deref(), Some("- [ ] a\n"));
}

#[test]
fn one_block_per_line_outside_fences() {
    let doc = "# T\n```\n  code  \n```\n- [ ] a\n\nplain\n```\nopen";
    let blocks = parse_markdown(doc).blocks;
    let non_fence = doc.lines().filter(|l| !l.trim().starts_with("```")).count();
    assert_eq!(blocks.len(), non_fence);
    assert_eq!(blocks[1], MarkdownBlock::CodeFence { text: "  code  ".to_string() });
    assert_eq!(blocks[5], MarkdownBlock::CodeFence { text: "open".to_string() });
}
