//! Bootstrapping and verifying a project's environment, one language at a time.
//!
//! The bootstrapper is a state machine: each call to [`ProjectBootstrapper::advance`]
//! takes what became of the last action (a command's exit, or whether a path
//! exists) and says what to do next. Every required command must exit with
//! status 0; the first one that does not ends the bootstrap with its error, and
//! nothing after it runs. For Python, `python3 -m venv .venv` is tried first and
//! `python -m venv .venv` second; only when both fail does the bootstrap fail.
//! Go commands run with `GOPATH` set to the project's `.gopath` directory, and
//! that setting stays for the languages after it.

use vstd::prelude::*;

use crate::error::{CoreError, ErrorView};
use crate::text::{concat2, concat3, owned};
use crate::types::Language;

verus! {

/// Where the bootstrap of the current language stands.
#[derive(Debug, Clone, Copy, PartialEq, Eq, Structural)]
pub enum BootPhase {
    RustBuild,
    RustTest,
    /// Probing the lock files `yarn.lock`, `pnpm-lock.yaml`, `bun.lockb` in turn.
    NodeLock(u8),
    /// Installing with the package manager of that lock file (3: npm).
    NodeInstall(u8),
    NodeTest(u8),
    GoDownload,
    GoTest,
    /// Creating the virtual environment: first with `python3`, then `python`.
    PythonVenv(u8),
    PythonRequirements,
    PythonRequirementsInstall,
    /// Probing `pyproject.toml`, then `setup.py`.
    PythonManifest(u8),
    PythonManifestInstall,
    /// Probing for pytest inside the project, then relative to the working directory.
    PythonPytest(u8),
    PythonTest,
    Finished,
}

/// The state of a bootstrap.
#[derive(Debug)]
pub struct BootState {
    pub languages: Vec<Language>,
    pub project_path: String,
    /// The `GOPATH` set once a Go language was reached.
    pub gopath: Option<String>,
    /// The language being bootstrapped.
    pub index: usize,
    pub phase: BootPhase,
}

/// What became of the last action.
#[derive(Debug)]
pub enum BootEvent {
    /// A command ran: its exit code (`None` when terminated without one), or
    /// the error that kept it from running.
    Ran(Result<Option<i32>, CoreError>),
    /// Whether the path asked about exists.
    Exists(bool),
}

/// What to do next.
#[derive(Debug)]
pub enum BootAction {
    /// Run `program` (through the shell) under `command_name`, with these
    /// environment variables.
    Run { command_name: String, program: String, env: Vec<(String, String)> },
    /// Report whether this path exists.
    CheckExists(String),
    /// The bootstrap is over, with this outcome.
    Finish(Result<(), CoreError>),
}

pub struct BootView {
    pub languages: Seq<Language>,
    pub path: Seq<char>,
    pub gopath: Option<Seq<char>>,
    pub index: int,
    pub phase: BootPhase,
}

pub enum EventView {
    Ran(Result<Option<i32>, ErrorView>),
    Exists(bool),
}

pub enum ActionView {
    Run { command_name: Seq<char>, program: Seq<char>, env: Seq<(Seq<char>, Seq<char>)> },
    CheckExists(Seq<char>),
    Finish(Result<(), ErrorView>),
}

impl View for BootState {
    type V = BootView;

    open spec fn view(&self) -> BootView {
        BootView {
            languages: self.languages@,
            path: self.project_path@,
            gopath: self.gopath.deep_view(),
            index: self.index as int,
            phase: self.phase,
        }
    }
}

impl View for BootEvent {
    type V = EventView;

    open spec fn view(&self) -> EventView {
        match self {
            BootEvent::Ran(Ok(c)) => EventView::Ran(Ok(*c)),
            BootEvent::Ran(Err(e)) => EventView::Ran(Err(e@)),
            BootEvent::Exists(b) => EventView::Exists(*b),
        }
    }
}

impl View for BootAction {
    type V = ActionView;

    open spec fn view(&self) -> ActionView {
        match self {
            BootAction::Run { command_name, program, env } => ActionView::Run {
                command_name: command_name@,
                program: program@,
                env: env.deep_view(),
            },
            BootAction::CheckExists(p) => ActionView::CheckExists(p@),
            BootAction::Finish(Ok(())) => ActionView::Finish(Ok(())),
            BootAction::Finish(Err(e)) => ActionView::Finish(Err(e@)),
        }
    }
}

/// `Path::join` of a relative name onto a base path.
pub open spec fn join_path(base: Seq<char>, name: Seq<char>) -> Seq<char> {
    if base.len() == 0 || base.last() == '/' {
        base + name
    } else {
        base + "/"@ + name
    }
}

pub fn join_path_exec(base: &str, name: &str) -> (r: String)
    ensures
        r@ == join_path(base@, name@),
{
    let b = crate::text::to_chars(base);
    if b.len() == 0 || b[b.len() - 1] == '/' {
        concat2(base, name)
    } else {
        concat3(base, "/", name)
    }
}

pub open spec fn env_of(gopath: Option<Seq<char>>) -> Seq<(Seq<char>, Seq<char>)> {
    match gopath {
        Some(g) => seq![("GOPATH"@, g)],
        None => seq![],
    }
}

pub open spec fn run_view(s: BootView, name: Seq<char>, program: Seq<char>) -> ActionView {
    ActionView::Run { command_name: name, program, env: env_of(s.gopath) }
}

pub open spec fn node_lock(k: u8) -> Seq<char> {
    if k == 0 {
        "yarn.lock"@
    } else if k == 1 {
        "pnpm-lock.yaml"@
    } else {
        "bun.lockb"@
    }
}

pub open spec fn node_tool(k: u8) -> Seq<char> {
    if k == 0 {
        "yarn"@
    } else if k == 1 {
        "pnpm"@
    } else if k == 2 {
        "bun"@
    } else {
        "npm"@
    }
}

pub open spec fn venv_program(k: u8) -> Seq<char> {
    if k == 0 {
        "python3 -m venv .venv"@
    } else {
        "python -m venv .venv"@
    }
}

pub open spec fn python_manifest(k: u8) -> Seq<char> {
    if k == 0 {
        "pyproject.toml"@
    } else {
        "setup.py"@
    }
}

pub open spec fn with_phase(s: BootView, phase: BootPhase) -> BootView {
    BootView { phase, ..s }
}

/// The text of the error when no virtual environment could be created.
pub open spec fn venv_failure() -> Seq<char> {
    "failed to create Python virtual environment (.venv)"@
}

/// Starts the language at `s.index`, skipping those that need no bootstrap.
pub open spec fn begin(s: BootView) -> (BootView, ActionView)
    decreases s.languages.len() - s.index,
{
    if s.index < 0 || s.index >= s.languages.len() {
        (with_phase(s, BootPhase::Finished), ActionView::Finish(Ok(())))
    } else {
        match s.languages[s.index] {
            Language::Rust => (
                with_phase(s, BootPhase::RustBuild),
                run_view(s, "bootstrap:rust"@, "cargo build"@),
            ),
            Language::Node => (
                with_phase(s, BootPhase::NodeLock(0)),
                ActionView::CheckExists(join_path(s.path, node_lock(0))),
            ),
            Language::Go => {
                let s2 = BootView { gopath: Some(join_path(s.path, ".gopath"@)), ..s };
                (with_phase(s2, BootPhase::GoDownload), run_view(s2, "bootstrap:go"@, "go mod download"@))
            },
            Language::Python => (
                with_phase(s, BootPhase::PythonVenv(0)),
                run_view(s, "bootstrap:python_venv"@, venv_program(0)),
            ),
            _ => begin(BootView { index: s.index + 1, ..s }),
        }
    }
}

/// Moves on to the language after the current one.
pub open spec fn next_language(s: BootView) -> (BootView, ActionView) {
    begin(BootView { index: s.index + 1, ..s })
}

/// How a required command failed, if it did: the error that kept it from
/// running, a nonzero exit code, or termination without one.
pub open spec fn failure(name: Seq<char>, ran: Result<Option<i32>, ErrorView>) -> Option<ErrorView> {
    match ran {
        Err(e) => Some(e),
        Ok(Some(code)) => if code == 0 {
            None
        } else {
            Some(ErrorView::CommandFailed { command_name: name, exit_code: code })
        },
        Ok(None) => Some(ErrorView::CommandTerminated { command_name: name }),
    }
}

/// After the required command `name` ran: stop with its failure, or go on.
pub open spec fn checked(
    s: BootView,
    name: Seq<char>,
    ran: Result<Option<i32>, ErrorView>,
    then: (BootView, ActionView),
) -> (BootView, ActionView) {
    match failure(name, ran) {
        Some(e) => (with_phase(s, BootPhase::Finished), ActionView::Finish(Err(e))),
        None => then,
    }
}

/// After the dependency steps: probe for pytest inside the project.
pub open spec fn probe_pytest(s: BootView) -> (BootView, ActionView) {
    (
        with_phase(s, BootPhase::PythonPytest(0)),
        ActionView::CheckExists(join_path(s.path, ".venv/bin/pytest"@)),
    )
}

pub open spec fn probe_manifest(s: BootView, k: u8) -> (BootView, ActionView) {
    (
        with_phase(s, BootPhase::PythonManifest(k)),
        ActionView::CheckExists(join_path(s.path, python_manifest(k))),
    )
}

pub open spec fn run_python_test(s: BootView, pytest: bool) -> (BootView, ActionView) {
    (
        with_phase(s, BootPhase::PythonTest),
        run_view(
            s,
            "verify:python"@,
            if pytest {
                ".venv/bin/pytest -v"@
            } else {
                ".venv/bin/python -m unittest discover"@
            },
        ),
    )
}

/// One step of the bootstrap.
pub open spec fn transition(s: BootView, e: EventView) -> (BootView, ActionView) {
    match (s.phase, e) {
        (BootPhase::RustBuild, EventView::Ran(r)) => checked(
            s,
            "bootstrap:rust"@,
            r,
            (with_phase(s, BootPhase::RustTest), run_view(s, "verify:rust"@, "cargo test"@)),
        ),
        (BootPhase::RustTest, EventView::Ran(r)) => checked(s, "verify:rust"@, r, next_language(s)),
        (BootPhase::NodeLock(k), EventView::Exists(found)) => if found || k >= 2 {
            let tool: u8 = if found {
                k
            } else {
                3
            };
            (
                with_phase(s, BootPhase::NodeInstall(tool)),
                run_view(s, "bootstrap:node"@, node_tool(tool) + " install"@),
            )
        } else {
            (
                with_phase(s, BootPhase::NodeLock((k + 1) as u8)),
                ActionView::CheckExists(join_path(s.path, node_lock((k + 1) as u8))),
            )
        },
        (BootPhase::NodeInstall(t), EventView::Ran(r)) => checked(
            s,
            "bootstrap:node"@,
            r,
            (with_phase(s, BootPhase::NodeTest(t)), run_view(s, "verify:node"@, node_tool(t) + " test"@)),
        ),
        (BootPhase::NodeTest(_), EventView::Ran(r)) => checked(s, "verify:node"@, r, next_language(s)),
        (BootPhase::GoDownload, EventView::Ran(r)) => checked(
            s,
            "bootstrap:go"@,
            r,
            (with_phase(s, BootPhase::GoTest), run_view(s, "verify:go"@, "go test ./..."@)),
        ),
        (BootPhase::GoTest, EventView::Ran(r)) => checked(s, "verify:go"@, r, next_language(s)),
        (BootPhase::PythonVenv(k), EventView::Ran(r)) => if failure("bootstrap:python_venv"@, r) is None {
            (
                with_phase(s, BootPhase::PythonRequirements),
                ActionView::CheckExists(join_path(s.path, "requirements.txt"@)),
            )
        } else if k == 0 {
            (
                with_phase(s, BootPhase::PythonVenv(1)),
                run_view(s, "bootstrap:python_venv"@, venv_program(1)),
            )
        } else {
            (
                with_phase(s, BootPhase::Finished),
                ActionView::Finish(Err(ErrorView::Internal(venv_failure()))),
            )
        },
        (BootPhase::PythonRequirements, EventView::Exists(found)) => if found {
            (
                with_phase(s, BootPhase::PythonRequirementsInstall),
                run_view(s, "bootstrap:python_deps"@, ".venv/bin/pip install -r requirements.txt"@),
            )
        } else {
            probe_manifest(s, 0)
        },
        (BootPhase::PythonRequirementsInstall, EventView::Ran(r)) => checked(
            s,
            "bootstrap:python_deps"@,
            r,
            probe_manifest(s, 0),
        ),
        (BootPhase::PythonManifest(k), EventView::Exists(found)) => if found {
            (
                with_phase(s, BootPhase::PythonManifestInstall),
                run_view(s, "bootstrap:python_deps"@, ".venv/bin/pip install ."@),
            )
        } else if k == 0 {
            probe_manifest(s, 1)
        } else {
            probe_pytest(s)
        },
        (BootPhase::PythonManifestInstall, EventView::Ran(r)) => checked(
            s,
            "bootstrap:python_deps"@,
            r,
            probe_pytest(s),
        ),
        (BootPhase::PythonPytest(k), EventView::Exists(found)) => if found {
            run_python_test(s, true)
        } else if k == 0 {
            (with_phase(s, BootPhase::PythonPytest(1)), ActionView::CheckExists(".venv/bin/pytest"@))
        } else {
            run_python_test(s, false)
        },
        (BootPhase::PythonTest, EventView::Ran(r)) => checked(s, "verify:python"@, r, next_language(s)),
        _ => (s, ActionView::Finish(Ok(()))),
    }
}

/// The event a phase waits for: a command's exit after `Run`, an answer after
/// `CheckExists`; nothing once finished.
pub open spec fn awaits(phase: BootPhase, e: EventView) -> bool {
    match phase {
        BootPhase::NodeLock(k) => e is Exists && k <= 2,
        BootPhase::PythonRequirements => e is Exists,
        BootPhase::PythonManifest(k) => e is Exists && k <= 1,
        BootPhase::PythonPytest(k) => e is Exists && k <= 1,
        BootPhase::NodeInstall(t) => e is Ran && t <= 3,
        BootPhase::NodeTest(t) => e is Ran && t <= 3,
        BootPhase::PythonVenv(k) => e is Ran && k <= 1,
        BootPhase::Finished => false,
        _ => e is Ran,
    }
}

/// The name a required command runs under, in a phase that runs one; `None`
/// for the virtual-environment attempts, whose failures are retried.
pub open spec fn required_command(phase: BootPhase) -> Option<Seq<char>> {
    match phase {
        BootPhase::RustBuild => Some("bootstrap:rust"@),
        BootPhase::RustTest => Some("verify:rust"@),
        BootPhase::NodeInstall(_) => Some("bootstrap:node"@),
        BootPhase::NodeTest(_) => Some("verify:node"@),
        BootPhase::GoDownload => Some("bootstrap:go"@),
        BootPhase::GoTest => Some("verify:go"@),
        BootPhase::PythonRequirementsInstall => Some("bootstrap:python_deps"@),
        BootPhase::PythonManifestInstall => Some("bootstrap:python_deps"@),
        BootPhase::PythonTest => Some("verify:python"@),
        _ => None,
    }
}

/// Node projects use the package manager whose lock file they hold: the lock
/// files `yarn.lock`, `pnpm-lock.yaml` and `bun.lockb` are probed in that
/// order; the first found picks `yarn`, `pnpm` or `bun`, and `npm` is used
/// only when none is found. The same manager installs (`<manager> install`)
/// and then runs the tests (`<manager> test`).
pub proof fn lemma_node_package_manager(s: BootView)
    ensures
        (0 <= s.index < s.languages.len() && s.languages[s.index] == Language::Node) ==> begin(s) == (
            BootView { phase: BootPhase::NodeLock(0), ..s },
            ActionView::CheckExists(join_path(s.path, "yarn.lock"@)),
        ),
        s.phase == BootPhase::NodeLock(0) ==> transition(s, EventView::Exists(true)) == (
            BootView { phase: BootPhase::NodeInstall(0), ..s },
            ActionView::Run { command_name: "bootstrap:node"@, program: "yarn install"@, env: env_of(s.gopath) },
        ),
        s.phase == BootPhase::NodeLock(0) ==> transition(s, EventView::Exists(false)) == (
            BootView { phase: BootPhase::NodeLock(1), ..s },
            ActionView::CheckExists(join_path(s.path, "pnpm-lock.yaml"@)),
        ),
        s.phase == BootPhase::NodeLock(1) ==> transition(s, EventView::Exists(true)) == (
            BootView { phase: BootPhase::NodeInstall(1), ..s },
            ActionView::Run { command_name: "bootstrap:node"@, program: "pnpm install"@, env: env_of(s.gopath) },
        ),
        s.phase == BootPhase::NodeLock(1) ==> transition(s, EventView::Exists(false)) == (
            BootView { phase: BootPhase::NodeLock(2), ..s },
            ActionView::CheckExists(join_path(s.path, "bun.lockb"@)),
        ),
        s.phase == BootPhase::NodeLock(2) ==> transition(s, EventView::Exists(true)) == (
            BootView { phase: BootPhase::NodeInstall(2), ..s },
            ActionView::Run { command_name: "bootstrap:node"@, program: "bun install"@, env: env_of(s.gopath) },
        ),
        s.phase == BootPhase::NodeLock(2) ==> transition(s, EventView::Exists(false)) == (
            BootView { phase: BootPhase::NodeInstall(3), ..s },
            ActionView::Run { command_name: "bootstrap:node"@, program: "npm install"@, env: env_of(s.gopath) },
        ),
        s.phase == BootPhase::NodeInstall(0) ==> transition(s, EventView::Ran(Ok(Some(0i32)))) == (
            BootView { phase: BootPhase::NodeTest(0), ..s },
            ActionView::Run { command_name: "verify:node"@, program: "yarn test"@, env: env_of(s.gopath) },
        ),
        s.phase == BootPhase::NodeInstall(1) ==> transition(s, EventView::Ran(Ok(Some(0i32)))) == (
            BootView { phase: BootPhase::NodeTest(1), ..s },
            ActionView::Run { command_name: "verify:node"@, program: "pnpm test"@, env: env_of(s.gopath) },
        ),
        s.phase == BootPhase::NodeInstall(2) ==> transition(s, EventView::Ran(Ok(Some(0i32)))) == (
            BootView { phase: BootPhase::NodeTest(2), ..s },
            ActionView::Run { command_name: "verify:node"@, program: "bun test"@, env: env_of(s.gopath) },
        ),
        s.phase == BootPhase::NodeInstall(3) ==> transition(s, EventView::Ran(Ok(Some(0i32)))) == (
            BootView { phase: BootPhase::NodeTest(3), ..s },
            ActionView::Run { command_name: "verify:node"@, program: "npm test"@, env: env_of(s.gopath) },
        ),
{
    reveal_strlit(" install");
    reveal_strlit(" test");
    reveal_strlit("yarn");
    reveal_strlit("yarn install");
    reveal_strlit("yarn test");
    assert("yarn"@ + " install"@ =~= "yarn install"@);
    assert("yarn"@ + " test"@ =~= "yarn test"@);
    reveal_strlit("pnpm");
    reveal_strlit("pnpm install");
    reveal_strlit("pnpm test");
    assert("pnpm"@ + " install"@ =~= "pnpm install"@);
    assert("pnpm"@ + " test"@ =~= "pnpm test"@);
    reveal_strlit("bun");
    reveal_strlit("bun install");
    reveal_strlit("bun test");
    assert("bun"@ + " install"@ =~= "bun install"@);
    assert("bun"@ + " test"@ =~= "bun test"@);
    reveal_strlit("npm");
    reveal_strlit("npm install");
    reveal_strlit("npm test");
    assert("npm"@ + " install"@ =~= "npm install"@);
    assert("npm"@ + " test"@ =~= "npm test"@);
}

/// A required command that fails ends the bootstrap with its failure, and the
/// finished bootstrap waits for nothing more: no later step runs.
pub proof fn lemma_failure_stops(s: BootView, ran: Result<Option<i32>, ErrorView>)
    requires
        required_command(s.phase) is Some,
        failure(required_command(s.phase)->0, ran) is Some,
    ensures
        transition(s, EventView::Ran(ran)).1 == ActionView::Finish(
            Err(failure(required_command(s.phase)->0, ran)->0),
        ),
        transition(s, EventView::Ran(ran)).0.phase == BootPhase::Finished,
        forall|e: EventView| !awaits(transition(s, EventView::Ran(ran)).0.phase, e),
{
}

/// When `python3 -m venv .venv` fails, `python -m venv .venv` is tried; when
/// that fails too, the bootstrap fails for want of a virtual environment.
pub proof fn lemma_venv_fallback(s: BootView, ran: Result<Option<i32>, ErrorView>)
    requires
        failure("bootstrap:python_venv"@, ran) is Some,
    ensures
        transition(with_phase(s, BootPhase::PythonVenv(0)), EventView::Ran(ran)).1 == run_view(
            s,
            "bootstrap:python_venv"@,
            "python -m venv .venv"@,
        ),
        transition(with_phase(s, BootPhase::PythonVenv(1)), EventView::Ran(ran)).1
            == ActionView::Finish(Err(ErrorView::Internal(venv_failure()))),
{
}

/// Once set, the Go `GOPATH` (the project's `.gopath`) is kept for every later step.
pub proof fn lemma_gopath_kept(s: BootView, e: EventView)
    requires
        s.gopath == Some(join_path(s.path, ".gopath"@)),
        0 <= s.index,
    ensures
        transition(s, e).0.gopath == s.gopath,
{
    lemma_begin_keeps_gopath(BootView { index: s.index + 1, ..s });
}

proof fn lemma_begin_keeps_gopath(s: BootView)
    requires
        s.gopath is Some,
    ensures
        begin(s).0.gopath == s.gopath || begin(s).0.gopath == Some(join_path(s.path, ".gopath"@)),
        s.gopath == Some(join_path(s.path, ".gopath"@)) ==> begin(s).0.gopath == s.gopath,
    decreases s.languages.len() - s.index,
{
    if 0 <= s.index < s.languages.len() {
        match s.languages[s.index] {
            Language::Rust => {},
            Language::Node => {},
            Language::Go => {},
            Language::Python => {},
            _ => lemma_begin_keeps_gopath(BootView { index: s.index + 1, ..s }),
        }
    }
}

fn run_action(s: &BootState, name: &str, program: String) -> (a: BootAction)
    ensures
        a@ == (ActionView::Run { command_name: name@, program: program@, env: env_of(s@.gopath) }),
{
    let mut env: Vec<(String, String)> = Vec::new();
    match &s.gopath {
        Some(g) => {
            env.push((owned("GOPATH"), g.clone()));
            assert(env.deep_view() =~= seq![("GOPATH"@, g@)]);
        },
        None => {
            assert(env.deep_view() =~= Seq::<(Seq<char>, Seq<char>)>::empty());
        },
    }
    BootAction::Run { command_name: owned(name), program, env }
}

fn node_lock_exec(k: u8) -> (r: &'static str)
    ensures
        r@ == node_lock(k),
{
    if k == 0 {
        "yarn.lock"
    } else if k == 1 {
        "pnpm-lock.yaml"
    } else {
        "bun.lockb"
    }
}

fn node_tool_exec(k: u8) -> (r: &'static str)
    ensures
        r@ == node_tool(k),
{
    if k == 0 {
        "yarn"
    } else if k == 1 {
        "pnpm"
    } else if k == 2 {
        "bun"
    } else {
        "npm"
    }
}

fn venv_program_exec(k: u8) -> (r: &'static str)
    ensures
        r@ == venv_program(k),
{
    if k == 0 {
        "python3 -m venv .venv"
    } else {
        "python -m venv .venv"
    }
}

fn python_manifest_exec(k: u8) -> (r: &'static str)
    ensures
        r@ == python_manifest(k),
{
    if k == 0 {
        "pyproject.toml"
    } else {
        "setup.py"
    }
}

/// The failure of a required command, if it failed.
fn failure_exec(name: &str, ran: Result<Option<i32>, CoreError>) -> (f: Option<CoreError>)
    ensures
        match f {
            Some(e) => failure(name@, crate::error::result_view(ran)) == Some(e@),
            None => failure(name@, crate::error::result_view(ran)) is None,
        },
{
    match ran {
        Err(e) => Some(e),
        Ok(Some(code)) => if code == 0 {
            None
        } else {
            Some(CoreError::CommandFailed { command_name: owned(name), exit_code: code })
        },
        Ok(None) => Some(CoreError::CommandTerminated { command_name: owned(name) }),
    }
}

#[derive(Debug)]
pub struct ProjectBootstrapper;

impl ProjectBootstrapper {
    /// Starts the language at `state.index`, skipping languages that need no
    /// bootstrap.
    fn begin_exec(state: &mut BootState) -> (a: BootAction)
        requires
            old(state).index <= old(state).languages.len(),
        ensures
            (final(state)@, a@) == begin(old(state)@),
            final(state).index <= final(state).languages.len(),
        decreases old(state).languages.len() - old(state).index,
    {
        if state.index >= state.languages.len() {
            state.phase = BootPhase::Finished;
            return BootAction::Finish(Ok(()));
        }
        match &state.languages[state.index] {
            Language::Rust => {
                state.phase = BootPhase::RustBuild;
                run_action(state, "bootstrap:rust", owned("cargo build"))
            },
            Language::Node => {
                state.phase = BootPhase::NodeLock(0);
                BootAction::CheckExists(join_path_exec(state.project_path.as_str(), node_lock_exec(0)))
            },
            Language::Go => {
                state.gopath = Some(join_path_exec(state.project_path.as_str(), ".gopath"));
                state.phase = BootPhase::GoDownload;
                run_action(state, "bootstrap:go", owned("go mod download"))
            },
            Language::Python => {
                state.phase = BootPhase::PythonVenv(0);
                run_action(state, "bootstrap:python_venv", owned(venv_program_exec(0)))
            },
            _ => {
                state.index = state.index + 1;
                Self::begin_exec(state)
            },
        }
    }

    /// A bootstrap of these languages, in order, for the project at `project_path`.
    pub fn start(languages: Vec<Language>, project_path: String) -> (r: (BootState, BootAction))
        ensures
            (r.0@, r.1@) == begin(
                BootView {
                    languages: languages@,
                    path: project_path@,
                    gopath: None,
                    index: 0,
                    phase: BootPhase::Finished,
                },
            ),
            r.0.index <= r.0.languages.len(),
    {
        let mut state = BootState { languages, project_path, gopath: None, index: 0, phase: BootPhase::Finished };
        let a = Self::begin_exec(&mut state);
        (state, a)
    }

    fn next_language_exec(state: &mut BootState) -> (a: BootAction)
        requires
            old(state).index < old(state).languages.len(),
        ensures
            (final(state)@, a@) == next_language(old(state)@),
            final(state).index <= final(state).languages.len(),
    {
        state.index = state.index + 1;
        Self::begin_exec(state)
    }

    fn finish_with(state: &mut BootState, e: CoreError) -> (a: BootAction)
        ensures
            final(state)@ == with_phase(old(state)@, BootPhase::Finished),
            a@ == ActionView::Finish(Err(e@)),
            final(state).index == old(state).index,
    {
        state.phase = BootPhase::Finished;
        BootAction::Finish(Err(e))
    }

    /// One step: what became of the last action decides the next one.
    pub fn advance(state: &mut BootState, event: BootEvent) -> (a: BootAction)
        requires
            old(state).index < old(state).languages.len(),
            awaits(old(state).phase, event@),
        ensures
            (final(state)@, a@) == transition(old(state)@, event@),
            final(state).index <= final(state).languages.len(),
    {
        let ghost s0 = state@;
        match event {
            BootEvent::Ran(ran) => {
                let ghost rv = crate::error::result_view(ran);
                assert(event@ == EventView::Ran(rv));
                match state.phase {
                    BootPhase::RustBuild => match failure_exec("bootstrap:rust", ran) {
                        Some(e) => Self::finish_with(state, e),
                        None => {
                            state.phase = BootPhase::RustTest;
                            run_action(state, "verify:rust", owned("cargo test"))
                        },
                    },
                    BootPhase::RustTest => match failure_exec("verify:rust", ran) {
                        Some(e) => Self::finish_with(state, e),
                        None => Self::next_language_exec(state),
                    },
                    BootPhase::NodeInstall(t) => match failure_exec("bootstrap:node", ran) {
                        Some(e) => Self::finish_with(state, e),
                        None => {
                            state.phase = BootPhase::NodeTest(t);
                            run_action(state, "verify:node", concat2(node_tool_exec(t), " test"))
                        },
                    },
                    BootPhase::NodeTest(_) => match failure_exec("verify:node", ran) {
                        Some(e) => Self::finish_with(state, e),
                        None => Self::next_language_exec(state),
                    },
                    BootPhase::GoDownload => match failure_exec("bootstrap:go", ran) {
                        Some(e) => Self::finish_with(state, e),
                        None => {
                            state.phase = BootPhase::GoTest;
                            run_action(state, "verify:go", owned("go test ./..."))
                        },
                    },
                    BootPhase::GoTest => match failure_exec("verify:go", ran) {
                        Some(e) => Self::finish_with(state, e),
                        None => Self::next_language_exec(state),
                    },
                    BootPhase::PythonVenv(k) => match failure_exec("bootstrap:python_venv", ran) {
                        None => {
                            state.phase = BootPhase::PythonRequirements;
                            BootAction::CheckExists(
                                join_path_exec(state.project_path.as_str(), "requirements.txt"),
                            )
                        },
                        Some(_) => if k == 0 {
                            state.phase = BootPhase::PythonVenv(1);
                            run_action(state, "bootstrap:python_venv", owned(venv_program_exec(1)))
                        } else {
                            Self::finish_with(
                                state,
                                CoreError::Internal(
                                    owned("failed to create Python virtual environment (.venv)"),
                                ),
                            )
                        },
                    },
                    BootPhase::PythonRequirementsInstall => match failure_exec(
                        "bootstrap:python_deps",
                        ran,
                    ) {
                        Some(e) => Self::finish_with(state, e),
                        None => {
                            state.phase = BootPhase::PythonManifest(0);
                            BootAction::CheckExists(
                                join_path_exec(state.project_path.as_str(), python_manifest_exec(0)),
                            )
                        },
                    },
                    BootPhase::PythonManifestInstall => match failure_exec("bootstrap:python_deps", ran) {
                        Some(e) => Self::finish_with(state, e),
                        None => {
                            state.phase = BootPhase::PythonPytest(0);
                            BootAction::CheckExists(
                                join_path_exec(state.project_path.as_str(), ".venv/bin/pytest"),
                            )
                        },
                    },
                    _ => match failure_exec("verify:python", ran) {
                        Some(e) => Self::finish_with(state, e),
                        None => Self::next_language_exec(state),
                    },
                }
            },
            BootEvent::Exists(found) => {
                match state.phase {
                    BootPhase::NodeLock(k) => if found || k >= 2 {
                        let tool: u8 = if found {
                            k
                        } else {
                            3
                        };
                        state.phase = BootPhase::NodeInstall(tool);
                        run_action(state, "bootstrap:node", concat2(node_tool_exec(tool), " install"))
                    } else {
                        state.phase = BootPhase::NodeLock(k + 1);
                        BootAction::CheckExists(
                            join_path_exec(state.project_path.as_str(), node_lock_exec(k + 1)),
                        )
                    },
                    BootPhase::PythonRequirements => if found {
                        state.phase = BootPhase::PythonRequirementsInstall;
                        run_action(
                            state,
                            "bootstrap:python_deps",
                            owned(".venv/bin/pip install -r requirements.txt"),
                        )
                    } else {
                        state.phase = BootPhase::PythonManifest(0);
                        BootAction::CheckExists(
                            join_path_exec(state.project_path.as_str(), python_manifest_exec(0)),
                        )
                    },
                    BootPhase::PythonManifest(k) => if found {
                        state.phase = BootPhase::PythonManifestInstall;
                        run_action(state, "bootstrap:python_deps", owned(".venv/bin/pip install ."))
                    } else if k == 0 {
                        state.phase = BootPhase::PythonManifest(1);
                        BootAction::CheckExists(
                            join_path_exec(state.project_path.as_str(), python_manifest_exec(1)),
                        )
                    } else {
                        state.phase = BootPhase::PythonPytest(0);
                        BootAction::CheckExists(
                            join_path_exec(state.project_path.as_str(), ".venv/bin/pytest"),
                        )
                    },
                    _ => {
                        let k = match state.phase {
                            BootPhase::PythonPytest(k) => k,
                            _ => 0,
                        };
                        if found {
                            state.phase = BootPhase::PythonTest;
                            run_action(state, "verify:python", owned(".venv/bin/pytest -v"))
                        } else if k == 0 {
                            state.phase = BootPhase::PythonPytest(1);
                            BootAction::CheckExists(owned(".venv/bin/pytest"))
                        } else {
                            state.phase = BootPhase::PythonTest;
                            run_action(
                                state,
                                "verify:python",
                                owned(".venv/bin/python -m unittest discover"),
                            )
                        }
                    },
                }
            },
        }
    }
}

} // verus!
