use terminal_provision::envmap::{add_environment_path, EnvMap};
use terminal_provision::quoting::{debug_quote, shell_quote};
use terminal_provision::registry::Terminals;
use terminal_provision::session::{
    ExternalLookups, HideStrategy, Project, ProvisionError, Shell, SpawnInTerminal,
    TerminalKind, TerminalSettings,
};
use terminal_provision::ssh::{wrap_for_ssh, SshCommand};
use terminal_provision::venv::{
    join_path, python_activate_command, python_venv_directory, venv_root_from_toolchain,
    ActivateScript, FsSnapshot, Platform, VenvConfig, VenvPolicy, Worktree,
};

fn s(x: &str) -> String {
    x.to_string()
}

fn env_of(pairs: &[(&str, &str)]) -> EnvMap {
    let mut m = EnvMap::new();
    for (k, v) in pairs {
        m.insert(s(k), s(v));
    }
    m
}

fn worktree(abs: &str, dirs: &[&str]) -> Worktree {
    Worktree {
        id: 1,
        abs_path: s(abs),
        root_is_dir: true,
        is_local: true,
        dir_entries: dirs.iter().map(|d| s(d)).collect(),
    }
}

fn venv_policy(dirs: &[&str]) -> VenvPolicy {
    VenvPolicy::On(VenvConfig {
        directories: dirs.iter().map(|d| s(d)).collect(),
        activate_script: ActivateScript::Default,
    })
}

fn no_lookups() -> ExternalLookups {
    ExternalLookups { toolchain: None, fs: FsSnapshot { dirs: Vec::new() }, ambient_path: None }
}

fn base_project() -> Project {
    Project {
        worktrees: Vec::new(),
        active_worktree: None,
        ssh_client: None,
        settings: TerminalSettings {
            shell: Shell::System,
            env: EnvMap::new(),
            detect_venv: VenvPolicy::Off,
        },
        cli_environment: None,
        terminals: Terminals::new(),
    }
}

fn task(command: &str, args: &[&str], cwd: Option<&str>) -> SpawnInTerminal {
    SpawnInTerminal {
        id: s("task-1"),
        full_label: s("full"),
        label: s("label"),
        command: s(command),
        command_label: s(command),
        args: args.iter().map(|a| s(a)).collect(),
        env: EnvMap::new(),
        cwd: cwd.map(|c| s(c)),
        hide: HideStrategy::Never,
        show_summary: true,
        show_command: true,
    }
}

// ---- quoting ----

#[test]
fn quote_plain_token_unchanged() {
    assert_eq!(shell_quote("abc/DEF.123:-_+@]").unwrap(), "abc/DEF.123:-_+@]");
}

#[test]
fn quote_empty_token() {
    assert_eq!(shell_quote("").unwrap(), "\"\"");
}

#[test]
fn quote_space_token() {
    assert_eq!(shell_quote("foo bar").unwrap(), "'foo bar'");
}

#[test]
fn quote_single_quote_token() {
    assert_eq!(shell_quote("it's").unwrap(), "'it'\"'\"'s'");
}

#[test]
fn quote_nul_fails() {
    assert!(shell_quote("a\0b").is_none());
}

#[test]
fn quote_round_trip_through_posix_parser() {
    let cases = [
        "foo bar",
        "it's",
        "a\"b$c`d\\e",
        "  spaced  ",
        "~tilde",
        "*?[#]{}|&;<>()!",
        "newline\nhere",
        "'''",
    ];
    for case in cases {
        let quoted = shell_quote(case).unwrap();
        let parsed = shlex::split(&quoted).unwrap();
        assert_eq!(parsed, vec![case.to_string()], "case {:?}", case);
    }
}

#[test]
fn debug_quote_plain_path() {
    assert_eq!(debug_quote("/home/u/proj"), "\"/home/u/proj\"");
}

#[test]
fn debug_quote_escapes() {
    assert_eq!(debug_quote("a\"b\\c\nd"), "\"a\\\"b\\\\c\\nd\"");
}

// ---- environment composition ----

#[test]
fn env_precedence_layers() {
    let mut m = env_of(&[("A", "1")]);
    m.extend(&env_of(&[("A", "2"), ("B", "2")]));
    m.extend(&env_of(&[("B", "3"), ("C", "3")]));
    assert_eq!(m.get("A").unwrap(), "2");
    assert_eq!(m.get("B").unwrap(), "3");
    assert_eq!(m.get("C").unwrap(), "3");
    assert_eq!(m.len(), 3);
}

#[test]
fn test_add_environment_path_with_existing_path() {
    let tmp_path = "/tmp/new";
    let mut env = EnvMap::new();
    let old_path = "/usr/bin:/usr/local/bin";
    env.insert(s("PATH"), s(old_path));
    env.insert(s("OTHER"), s("aaa"));

    add_environment_path(&mut env, tmp_path, None, ':').unwrap();
    assert_eq!(env.get("PATH").unwrap(), &format!("/tmp/new:{}", old_path));
    assert_eq!(env.get("OTHER").unwrap(), "aaa");
}

#[test]
fn test_add_environment_path_with_empty_path() {
    let tmp_path = "/tmp/new";
    let mut env = EnvMap::new();
    env.insert(s("OTHER"), s("aaa"));
    let os_path = s("/usr/bin:/usr/local/bin");
    add_environment_path(&mut env, tmp_path, Some(&os_path), ':').unwrap();
    assert_eq!(env.get("PATH").unwrap(), &format!("/tmp/new:{}", os_path));
    assert_eq!(env.get("OTHER").unwrap(), "aaa");
}

#[test]
fn add_environment_path_rejects_separator() {
    let mut env = EnvMap::new();
    assert!(add_environment_path(&mut env, "/bad:dir", None, ':').is_err());
    assert!(env.get("PATH").is_none());
}

// ---- venv discovery ----

#[test]
fn venv_from_toolchain_is_grandparent() {
    assert_eq!(venv_root_from_toolchain("/home/u/proj/.venv/bin/python").unwrap(), "/home/u/proj/.venv");
}

#[test]
fn venv_toolchain_wins_over_settings() {
    let trees = vec![worktree("/home/u/proj", &[".venv/bin"])];
    let fs = FsSnapshot { dirs: Vec::new() };
    let policy = venv_policy(&[".venv"]);
    let toolchain = s("/opt/other/bin/python");
    let found = python_venv_directory(
        "/home/u/proj",
        &policy,
        Some(&toolchain),
        &trees,
        &fs,
        Platform::Posix,
    );
    assert_eq!(found.unwrap(), "/opt/other");
}

#[test]
fn venv_off_policy_finds_nothing() {
    let trees = vec![worktree("/home/u/proj", &[".venv/bin"])];
    let fs = FsSnapshot { dirs: vec![s("/home/u/proj/.venv/bin")] };
    let found = python_venv_directory(
        "/home/u/proj",
        &VenvPolicy::Off,
        None,
        &trees,
        &fs,
        Platform::Posix,
    );
    assert!(found.is_none());
}

#[test]
fn venv_found_in_worktree_by_candidate_order() {
    let trees = vec![worktree("/home/u/proj", &["env/bin", ".venv/bin"])];
    let fs = FsSnapshot { dirs: Vec::new() };
    let policy = venv_policy(&[".venv", "env"]);
    let found = python_venv_directory("/home/u/proj", &policy, None, &trees, &fs, Platform::Posix);
    assert_eq!(found.unwrap(), "/home/u/proj/.venv");
}

#[test]
fn venv_filesystem_fallback() {
    let trees = vec![worktree("/home/u/proj", &[])];
    let fs = FsSnapshot { dirs: vec![s("/home/u/proj/env/bin")] };
    let policy = venv_policy(&[".venv", "env"]);
    let found = python_venv_directory("/home/u/proj", &policy, None, &trees, &fs, Platform::Posix);
    assert_eq!(found.unwrap(), "/home/u/proj/env");
}

#[test]
fn activate_command_posix_default() {
    let cmd = python_activate_command("/home/u/proj/.venv", &venv_policy(&[".venv"]), Platform::Posix);
    assert_eq!(cmd.unwrap(), "source /home/u/proj/.venv/bin/activate\n");
}

#[test]
fn activate_command_quotes_spaced_path() {
    let cmd = python_activate_command("/home/u/my env/.venv", &venv_policy(&[".venv"]), Platform::Posix);
    assert_eq!(cmd.unwrap(), "source '/home/u/my env/.venv/bin/activate'\n");
}

// ---- remote command synthesis ----

#[test]
fn wrap_tilde_path_rewritten_through_home() {
    let ssh = SshCommand::new(vec![s("ssh"), s("host")]);
    let env = EnvMap::new();
    let path = s("~/foo bar");
    let (_, args) = wrap_for_ssh(&ssh, None, Some(&path), &env, None, Platform::Posix).unwrap();
    let invocation = args.last().unwrap();
    let words = shlex::split(invocation).unwrap();
    assert_eq!(words[0], "sh");
    assert_eq!(words[1], "-c");
    assert!(words[2].starts_with("cd \"$HOME/foo bar\"; "), "got {:?}", words[2]);
    assert!(!words[2].contains('~'));
}

#[test]
fn wrap_no_command_starts_login_shell() {
    let ssh = SshCommand::new(vec![s("ssh"), s("host")]);
    let env = EnvMap::new();
    let (program, args) = wrap_for_ssh(&ssh, None, None, &env, None, Platform::Posix).unwrap();
    assert_eq!(program, "ssh");
    let words = shlex::split(args.last().unwrap()).unwrap();
    assert_eq!(words[2], "cd;  exec ${SHELL:-sh} -l");
}

#[test]
fn wrap_skips_unquotable_env_entry() {
    let ssh = SshCommand::new(vec![s("ssh"), s("host")]);
    let env = env_of(&[("BAD", "x\0y"), ("GOOD", "1")]);
    let (_, args) = wrap_for_ssh(&ssh, None, None, &env, None, Platform::Posix).unwrap();
    let words = shlex::split(args.last().unwrap()).unwrap();
    assert!(!words[2].contains("BAD"));
    assert!(words[2].contains("GOOD=1"));
}

#[test]
fn wrap_rejects_nul_in_command() {
    let ssh = SshCommand::new(vec![s("ssh"), s("host")]);
    let env = EnvMap::new();
    let command = s("py\0test");
    let args: Vec<String> = Vec::new();
    assert!(wrap_for_ssh(&ssh, Some((&command, &args)), None, &env, None, Platform::Posix).is_err());
}

// ---- end-to-end scenario ----

fn scenario_project() -> Project {
    let mut p = base_project();
    p.worktrees = vec![worktree("/home/u/proj", &[".venv/bin"])];
    p.ssh_client = Some(terminal_provision::session::SshClient {
        host: s("host"),
        ssh_args: Some(vec![s("ssh"), s("host")]),
    });
    p.settings.detect_venv = venv_policy(&[".venv"]);
    p
}

#[test]
fn remote_task_end_to_end() {
    let p = scenario_project();
    let kind = TerminalKind::Task(task("pytest", &["-k", "foo bar"], Some("/home/u/proj")));
    let launch = p.create_terminal(&kind, &no_lookups(), Platform::Posix).unwrap();
    let plan = launch.plan;
    assert!(plan.is_remote);
    assert!(plan.local_path.is_none());
    let (program, args, title) = match plan.shell {
        Shell::WithArguments { program, args, title_override } => (program, args, title_override),
        _ => panic!("expected explicit argument vector"),
    };
    assert_eq!(program, "ssh");
    assert_eq!(args[0], "ssh");
    assert_eq!(args[1], "host");
    assert_eq!(args[2], "-t");
    assert_eq!(title.unwrap(), "host — Terminal");
    let words = shlex::split(&args[3]).unwrap();
    assert_eq!(words[0], "sh");
    assert_eq!(words[1], "-c");
    assert_eq!(
        words[2],
        "cd \"/home/u/proj\"; VIRTUAL_ENV=/home/u/proj/.venv TERM=xterm-256color \
         PATH=/home/u/proj/.venv/bin:$PATH  pytest -k 'foo bar'"
    );
    let inner = shlex::split(&words[2]).unwrap();
    let n = inner.len();
    assert_eq!(&inner[n - 3..], &[s("pytest"), s("-k"), s("foo bar")][..]);
    assert!(plan.env.len() == 0);
    assert!(launch.activate_command.is_none());
}

#[test]
fn local_task_gets_venv_environment() {
    let mut p = scenario_project();
    p.ssh_client = None;
    let kind = TerminalKind::Task(task("pytest", &["-k", "foo"], Some("/home/u/proj")));
    let lookups = ExternalLookups {
        toolchain: None,
        fs: FsSnapshot { dirs: Vec::new() },
        ambient_path: Some(s("/usr/bin")),
    };
    let launch = p.create_terminal(&kind, &lookups, Platform::Posix).unwrap();
    let plan = launch.plan;
    assert!(!plan.is_remote);
    assert_eq!(plan.local_path.unwrap(), "/home/u/proj");
    assert_eq!(plan.env.get("VIRTUAL_ENV").unwrap(), "/home/u/proj/.venv");
    assert_eq!(plan.env.get("PATH").unwrap(), "/home/u/proj/.venv/bin:/usr/bin");
    match plan.shell {
        Shell::WithArguments { program, args, title_override } => {
            assert_eq!(program, "pytest");
            assert_eq!(args, vec![s("-k"), s("foo")]);
            assert!(title_override.is_none());
        },
        _ => panic!("expected explicit argument vector"),
    }
    assert!(plan.task.is_some());
}

#[test]
fn provisioning_is_idempotent() {
    let p = scenario_project();
    let kind = TerminalKind::Task(task("pytest", &["-k", "foo bar"], Some("/home/u/proj")));
    let a = p.create_terminal(&kind, &no_lookups(), Platform::Posix).unwrap();
    let b = p.create_terminal(&kind, &no_lookups(), Platform::Posix).unwrap();
    let args_of = |plan: &terminal_provision::session::LaunchPlan| match &plan.shell {
        Shell::WithArguments { program, args, title_override } => {
            (program.clone(), args.clone(), title_override.clone())
        },
        _ => panic!("expected explicit argument vector"),
    };
    assert_eq!(args_of(&a.plan), args_of(&b.plan));
    assert_eq!(a.plan.is_remote, b.plan.is_remote);
    assert_eq!(a.plan.local_path, b.plan.local_path);
    assert_eq!(a.plan.env.len(), b.plan.env.len());
    assert_eq!(a.activate_command, b.activate_command);
}

#[test]
fn remote_shell_gets_activate_command() {
    let p = scenario_project();
    let kind = TerminalKind::Shell(Some(s("/home/u/proj")));
    let launch = p.create_terminal(&kind, &no_lookups(), Platform::Posix).unwrap();
    assert!(launch.plan.is_remote);
    assert_eq!(
        launch.activate_command.unwrap(),
        "source /home/u/proj/.venv/bin/activate\n"
    );
}

#[test]
fn unjoinable_venv_path_aborts_provisioning() {
    let mut p = scenario_project();
    p.ssh_client = None;
    let kind = TerminalKind::Task(task("pytest", &[], Some("/home/u/proj")));
    let lookups = ExternalLookups {
        toolchain: Some(s("/odd:dir/.venv/bin/python")),
        fs: FsSnapshot { dirs: Vec::new() },
        ambient_path: None,
    };
    let err = match p.create_terminal(&kind, &lookups, Platform::Posix) {
        Err(e) => e,
        Ok(_) => panic!("expected provisioning to fail"),
    };
    assert_eq!(err, ProvisionError::EnvironmentPath);
}

#[test]
fn nul_in_task_command_aborts_remote_provisioning() {
    let p = scenario_project();
    let kind = TerminalKind::Task(task("py\0test", &[], Some("/home/u/proj")));
    let err = match p.create_terminal(&kind, &no_lookups(), Platform::Posix) {
        Err(e) => e,
        Ok(_) => panic!("expected provisioning to fail"),
    };
    assert_eq!(err, ProvisionError::RemoteCommand);
}

// ---- directories and registry ----

#[test]
fn active_project_directory_prefers_active_worktree() {
    let mut p = base_project();
    p.worktrees = vec![worktree("/a", &[]), worktree("/b", &[])];
    p.active_worktree = Some(1);
    assert_eq!(p.active_project_directory().unwrap(), "/b");
    p.active_worktree = None;
    assert_eq!(p.active_project_directory().unwrap(), "/a");
}

#[test]
fn first_project_directory_is_first_worktree() {
    let mut p = base_project();
    assert!(p.first_project_directory().is_none());
    p.worktrees = vec![worktree("/a", &[])];
    assert_eq!(p.first_project_directory().unwrap(), "/a");
}

#[test]
fn registry_release_removes_handle() {
    let mut t = Terminals::new();
    t.register(7);
    t.register(9);
    t.release(7);
    assert_eq!(t.handles(), &vec![9]);
    t.release(9);
    assert!(t.handles().is_empty());
}

#[test]
fn join_path_inserts_separator() {
    assert_eq!(join_path("/a/b", "c"), "/a/b/c");
    assert_eq!(join_path("/a/b/", "c"), "/a/b/c");
    assert_eq!(join_path("/a", "/abs"), "/abs");
}

#[test]
fn shallow_toolchain_path_has_no_venv() {
    assert!(venv_root_from_toolchain("python").is_none());
    assert!(venv_root_from_toolchain("").is_none());
}

#[test]
fn activate_command_windows_variant() {
    let cmd = python_activate_command("/v", &venv_policy(&[".venv"]), Platform::Windows);
    assert_eq!(cmd.unwrap(), ". /v/Scripts/activate\r");
}

#[test]
fn activate_command_fish_variant() {
    let policy = VenvPolicy::On(VenvConfig {
        directories: vec![s(".venv")],
        activate_script: ActivateScript::Fish,
    });
    let cmd = python_activate_command("/v", &policy, Platform::Posix);
    assert_eq!(cmd.unwrap(), "source /v/bin/activate.fish\n");
}

#[test]
fn activate_command_off_policy_is_none() {
    assert!(python_activate_command("/v", &VenvPolicy::Off, Platform::Posix).is_none());
}

#[test]
fn local_shell_keeps_settings_shell_and_env() {
    let mut p = base_project();
    p.worktrees = vec![worktree("/home/u/proj", &[])];
    p.cli_environment = Some(env_of(&[("A", "1")]));
    p.settings.env = env_of(&[("A", "2"), ("B", "2")]);
    let kind = TerminalKind::Shell(Some(s("/home/u/proj")));
    let launch = p.create_terminal(&kind, &no_lookups(), Platform::Posix).unwrap();
    let plan = launch.plan;
    assert!(!plan.is_remote);
    assert_eq!(plan.local_path.unwrap(), "/home/u/proj");
    assert!(matches!(plan.shell, Shell::System));
    assert_eq!(plan.env.get("A").unwrap(), "2");
    assert_eq!(plan.env.get("B").unwrap(), "2");
    assert!(plan.task.is_none());
    assert!(launch.activate_command.is_none());
}

#[test]
fn remote_shell_defaults_term_but_keeps_existing() {
    let mut p = scenario_project();
    p.settings.detect_venv = VenvPolicy::Off;
    p.settings.env = env_of(&[("TERM", "vt100")]);
    let kind = TerminalKind::Shell(None);
    let launch = p.create_terminal(&kind, &no_lookups(), Platform::Posix).unwrap();
    let args = match launch.plan.shell {
        Shell::WithArguments { args, .. } => args,
        _ => panic!("expected explicit argument vector"),
    };
    let words = shlex::split(args.last().unwrap()).unwrap();
    assert!(words[2].contains("TERM=vt100"));
    assert!(!words[2].contains("xterm-256color"));
    assert!(words[2].starts_with("cd \"/home/u/proj\"; "));
}

#[test]
fn wrap_venv_prefix_uses_bin_directory() {
    let ssh = SshCommand::new(vec![s("ssh"), s("host")]);
    let env = EnvMap::new();
    let command = s("pytest");
    let args = vec![s("-k"), s("foo bar")];
    let path = s("/home/u/proj");
    let venv = s("/home/u/proj/.venv");
    let (program, out_args) = wrap_for_ssh(
        &ssh,
        Some((&command, &args)),
        Some(&path),
        &env,
        Some(&venv),
        Platform::Posix,
    )
    .unwrap();
    assert_eq!(program, "ssh");
    assert_eq!(out_args[2], "-t");
    let words = shlex::split(&out_args[3]).unwrap();
    assert_eq!(
        words[2],
        "cd \"/home/u/proj\"; PATH=/home/u/proj/.venv/bin:$PATH  pytest -k 'foo bar'"
    );
}

#[test]
fn shell_request_falls_back_to_active_directory() {
    let mut p = base_project();
    p.worktrees = vec![worktree("/home/u/proj", &[])];
    let kind = TerminalKind::Shell(None);
    let launch = p.create_terminal(&kind, &no_lookups(), Platform::Posix).unwrap();
    assert_eq!(launch.plan.local_path.unwrap(), "/home/u/proj");
}

#[test]
fn task_without_directory_gets_none() {
    let mut p = base_project();
    p.worktrees = vec![worktree("/home/u/proj", &[])];
    let kind = TerminalKind::Task(task("pytest", &[], None));
    let launch = p.create_terminal(&kind, &no_lookups(), Platform::Posix).unwrap();
    assert!(launch.plan.local_path.is_none());
}

#[test]
fn debug_quote_control_characters() {
    assert_eq!(
        debug_quote("a\u{1b}b\u{7f}c\u{1}d\0"),
        "\"a\\u{1b}b\\u{7f}c\\u{1}d\\0\""
    );
    assert_eq!(format!("{:?}", "a\u{1b}b\u{7f}c\u{1}d\0"), debug_quote("a\u{1b}b\u{7f}c\u{1}d\0"));
}
