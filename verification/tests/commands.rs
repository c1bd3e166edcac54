use rustodian::commands::{CommandDiscoverer, CommandSources, needs_shell_exec, recipe_name_exec, justfile_recipes_exec};
use rustodian::types::ProjectCommand;

fn sources(cargo: bool, package_json: Option<&str>, justfile: Option<&str>, toml: Option<&str>) -> CommandSources {
    CommandSources {
        has_cargo_toml: cargo,
        package_json: package_json.map(str::to_string),
        justfile: justfile.map(str::to_string),
        rustodian_toml: toml.map(str::to_string),
    }
}

fn command_names(s: &CommandSources) -> Vec<String> {
    CommandDiscoverer::discover(s).into_iter().map(|c| c.name).collect()
}

fn command_by_name(s: &CommandSources, name: &str) -> ProjectCommand {
    CommandDiscoverer::discover(s)
        .into_iter()
        .find(|c| c.name == name)
        .unwrap_or_else(|| panic!("expected a command named {name:?}"))
}

#[test]
fn duplicate_test_across_all_sources_resolves_to_rustodian_toml() {
    let s = sources(
        true,
        Some(r#"{"scripts": {"test": "jest"}}"#),
        Some("test:\n  echo t\n"),
        Some("[commands]\ntest = \"cargo test --workspace\"\n"),
    );
    let cmd = command_by_name(&s, "test");
    assert_eq!(cmd.source, ".rustodian.toml");
    assert_eq!(cmd.command, "cargo test --workspace");
    assert_eq!(command_names(&s).iter().filter(|n| *n == "test").count(), 1);
}

#[test]
fn rustodian_toml_overrides_rust_default() {
    let s = sources(true, None, None, Some("[commands]\ncheck = \"cargo check --all-features\"\n"));
    let cmd = command_by_name(&s, "check");
    assert_eq!(cmd.source, ".rustodian.toml");
    assert_eq!(cmd.command, "cargo check --all-features");
    for default in ["test", "build", "clippy", "fmt"] {
        let default_cmd = command_by_name(&s, default);
        assert_eq!(default_cmd.source, "Cargo.toml");
    }
}

#[test]
fn justfile_overrides_package_json() {
    let s = sources(false, Some(r#"{"scripts": {"build": "webpack"}}"#), Some("build:\n  make build\n"), None);
    let cmd = command_by_name(&s, "build");
    assert_eq!(cmd.source, "justfile");
    assert_eq!(cmd.command, "just build");
    assert_eq!(command_names(&s).iter().filter(|n| *n == "build").count(), 1);
}

#[test]
fn unique_commands_from_all_sources_survive() {
    let s = sources(
        true,
        Some(r#"{"scripts": {"dev": "vite", "lint": "eslint"}}"#),
        Some("clean:\n  rm -rf out\n"),
        Some("[commands]\ndeploy = \"rsync ./dist host:/srv/app\"\n"),
    );
    let names = command_names(&s);
    assert_eq!(names.len(), 9);
    for name in ["test", "build", "check", "clippy", "fmt", "dev", "lint", "clean", "deploy"] {
        assert!(names.contains(&name.to_string()), "missing {name}");
    }
}

#[test]
fn output_is_sorted_and_stable_across_runs() {
    let s = sources(
        true,
        Some(r#"{"scripts": {"zzz": "sleep", "aaa": "echo"}}"#),
        Some("mid:\n  echo mid\n"),
        Some("[commands]\nbbb = \"echo b\"\n"),
    );
    let keyed = |cmds: &[ProjectCommand]| {
        cmds.iter()
            .map(|c| (c.name.clone(), c.command.clone(), c.source.clone()))
            .collect::<Vec<_>>()
    };
    let first = keyed(&CommandDiscoverer::discover(&s));
    let second = keyed(&CommandDiscoverer::discover(&s));
    let mut sorted_keys = first.clone();
    sorted_keys.sort();
    assert_eq!(first, sorted_keys);
    assert_eq!(first, second);
    assert_eq!(
        command_names(&s),
        ["aaa", "bbb", "build", "check", "clippy", "fmt", "mid", "test", "zzz"]
    );
}

#[test]
fn script_commands_run_through_npm() {
    let s = sources(false, Some(r#"{"scripts": {"dev": "vite"}}"#), None, None);
    let cmd = command_by_name(&s, "dev");
    assert_eq!(cmd.command, "npm run dev");
    assert_eq!(cmd.source, "package.json");
    assert_eq!(cmd.description.as_deref(), Some("npm run script"));
    assert!(!cmd.use_shell);
}

#[test]
fn malformed_package_json_and_toml_add_nothing() {
    let s = sources(false, Some("{ not json"), None, Some("[commands\nx = 1"));
    assert!(CommandDiscoverer::discover(&s).is_empty());
    let s = sources(false, Some(r#"{"scripts": 3}"#), None, Some("[other]\nx = \"y\"\n"));
    assert!(CommandDiscoverer::discover(&s).is_empty());
}

#[test]
fn non_string_config_entries_are_ignored() {
    let s = sources(false, None, None, Some("[commands]\nnum = 3\nok = \"make ok\"\n"));
    let names = command_names(&s);
    assert_eq!(names, vec!["ok".to_string()]);
}

#[test]
fn config_commands_with_shell_operators_use_the_shell() {
    let s = sources(false, None, None, Some("[commands]\nci = \"cargo build && cargo test\"\n"));
    let cmd = command_by_name(&s, "ci");
    assert!(cmd.use_shell);
    assert_eq!(cmd.description.as_deref(), Some("rustodian config"));
}

#[test]
fn shell_operators_are_detected() {
    for s in ["a && b", "a || b", "a | b", "a > f", "a < f", "echo $(date)"] {
        assert!(needs_shell_exec(s), "{s}");
    }
    assert!(!needs_shell_exec("cargo test --workspace"));
}

#[test]
fn justfile_recipes_follow_the_rules() {
    let text = "# comment\nbuild:\n  cargo build\ntest arg: build\n\tindented:\nbad name!: x\n\nlint-all_2: \n";
    let recipes = justfile_recipes_exec(text);
    // Only the first word before the colon counts: `bad name!` defines `bad`.
    assert_eq!(recipes, vec!["build".to_string(), "test".to_string(), "bad".to_string(), "lint-all_2".to_string()]);
    assert!(recipe_name_exec(&"na!me: x".chars().collect()).is_none());
    let line: Vec<char> = "  deploy:".chars().collect();
    assert!(recipe_name_exec(&line).is_none());
}

#[test]
fn rust_defaults_are_the_five_cargo_commands() {
    let d = CommandDiscoverer::rust_defaults();
    let names: Vec<&str> = d.iter().map(|c| c.name.as_str()).collect();
    assert_eq!(names, vec!["test", "build", "check", "clippy", "fmt"]);
    assert!(d.iter().all(|c| c.source == "Cargo.toml" && c.command == format!("cargo {}", c.name)));
}
