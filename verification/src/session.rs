//! The session composer: resolve the working directory and remote/local
//! mode from the request, drive venv discovery and environment composition,
//! and return a fully specified launch plan.

use vstd::prelude::*;

use crate::envmap::{extend_s, has_char, insert_s, joined_path_s, lookup, EnvMap};
use crate::quoting::has_nul;
use crate::registry::Terminals;
use crate::ssh::{wrap_args_s, wrap_commands_s, wrap_for_ssh, SshCommand};
use crate::strutil::dup_strings;
use crate::venv::{
    join_path, join_path_s, python_activate_command, python_activate_command_s,
    python_venv_directory, python_venv_directory_s, FsSnapshot, Platform, VenvPolicy, Worktree,
};
use vstd::string::StringExecFns;

verus! {

/// When a task's terminal is hidden.
#[derive(Clone, Copy)]
pub enum HideStrategy {
    Never,
    Always,
    OnSuccess,
}

/// Lifecycle state of a task attached to a session.
#[derive(Clone, Copy)]
pub enum TaskStatus {
    Running,
}

/// A task to run in a terminal: command, arguments, declared environment
/// and working-directory overrides, and presentation metadata.
pub struct SpawnInTerminal {
    pub id: String,
    pub full_label: String,
    pub label: String,
    pub command: String,
    pub command_label: String,
    pub args: Vec<String>,
    pub env: EnvMap,
    pub cwd: Option<String>,
    pub hide: HideStrategy,
    pub show_summary: bool,
    pub show_command: bool,
}

/// Terminals are opened either for the user's shell, or to run a task.
pub enum TerminalKind {
    /// Run a shell at the given path (or the home directory if `None`).
    Shell(Option<String>),
    /// Run a task.
    Task(SpawnInTerminal),
}

/// The pre-started task descriptor attached to a task session's plan.
pub struct TaskState {
    pub id: String,
    pub full_label: String,
    pub label: String,
    pub command_label: String,
    pub hide: HideStrategy,
    pub status: TaskStatus,
    pub show_summary: bool,
    pub show_command: bool,
}

/// Ghost mirror of `TaskState`.
pub struct TaskStateV {
    pub id: Seq<char>,
    pub full_label: Seq<char>,
    pub label: Seq<char>,
    pub command_label: Seq<char>,
    pub hide: HideStrategy,
    pub status: TaskStatus,
    pub show_summary: bool,
    pub show_command: bool,
}

pub open spec fn task_state_v(t: &TaskState) -> TaskStateV {
    TaskStateV {
        id: t.id@,
        full_label: t.full_label@,
        label: t.label@,
        command_label: t.command_label@,
        hide: t.hide,
        status: t.status,
        show_summary: t.show_summary,
        show_command: t.show_command,
    }
}

/// How the session's program is chosen.
pub enum Shell {
    /// Use the configured system shell.
    System,
    /// Run this program.
    Program(String),
    /// Run this program with the given arguments and title.
    WithArguments { program: String, args: Vec<String>, title_override: Option<String> },
}

/// Ghost mirror of `Shell`.
pub enum ShellV {
    System,
    Program(Seq<char>),
    WithArguments { program: Seq<char>, args: Seq<Seq<char>>, title_override: Option<Seq<char>> },
}

pub open spec fn shell_v(s: &Shell) -> ShellV {
    match s {
        Shell::System => ShellV::System,
        Shell::Program(p) => ShellV::Program(p@),
        Shell::WithArguments { program, args, title_override } => ShellV::WithArguments {
            program: program@,
            args: args.deep_view(),
            title_override: match title_override {
                Some(t) => Some(t@),
                None => None,
            },
        },
    }
}

impl Shell {
    /// A copy with the same view.
    pub fn duplicate(&self) -> (r: Shell)
        ensures
            shell_v(&r) == shell_v(self),
    {
        match self {
            Shell::System => Shell::System,
            Shell::Program(p) => Shell::Program(p.clone()),
            Shell::WithArguments { program, args, title_override } => {
                let t = match title_override {
                    Some(t) => Some(t.clone()),
                    None => None,
                };
                Shell::WithArguments {
                    program: program.clone(),
                    args: dup_strings(args),
                    title_override: t,
                }
            },
        }
    }
}

/// Terminal settings snapshot: shell, extra environment, venv policy.
pub struct TerminalSettings {
    pub shell: Shell,
    pub env: EnvMap,
    pub detect_venv: VenvPolicy,
}

/// Connection snapshot of the remote client, when there is one.
pub struct SshClient {
    pub host: String,
    pub ssh_args: Option<Vec<String>>,
}

/// Snapshot of the project state the composer reads.
pub struct Project {
    pub worktrees: Vec<Worktree>,
    pub active_worktree: Option<usize>,
    pub ssh_client: Option<SshClient>,
    pub settings: TerminalSettings,
    pub cli_environment: Option<EnvMap>,
    pub terminals: Terminals,
}

/// What the asynchronous collaborators reported before the plan is built:
/// the active Python toolchain's executable path, the filesystem probes of
/// the venv fallback, and the ambient `PATH` of the launching process.
pub struct ExternalLookups {
    pub toolchain: Option<String>,
    pub fs: FsSnapshot,
    pub ambient_path: Option<String>,
}

/// The fully resolved launch plan.
pub struct LaunchPlan {
    pub local_path: Option<String>,
    pub task: Option<TaskState>,
    pub shell: Shell,
    pub env: EnvMap,
    pub is_remote: bool,
}

/// Ghost mirror of `LaunchPlan`.
pub struct LaunchPlanV {
    pub local_path: Option<Seq<char>>,
    pub task: Option<TaskStateV>,
    pub shell: ShellV,
    pub env: Seq<(Seq<char>, Seq<char>)>,
    pub is_remote: bool,
}

pub open spec fn plan_v(p: &LaunchPlan) -> LaunchPlanV {
    LaunchPlanV {
        local_path: match p.local_path {
            Some(s) => Some(s@),
            None => None,
        },
        task: match p.task {
            Some(t) => Some(task_state_v(&t)),
            None => None,
        },
        shell: shell_v(&p.shell),
        env: p.env@,
        is_remote: p.is_remote,
    }
}

/// A built plan together with the activation command delivered into the
/// fresh session, when an interactive shell found a venv.
pub struct TerminalLaunch {
    pub plan: LaunchPlan,
    pub activate_command: Option<String>,
}

/// Why provisioning failed.
#[derive(Clone, Copy, PartialEq, Eq, Structural, Debug)]
pub enum ProvisionError {
    /// The venv executable directory cannot be joined into `PATH`.
    EnvironmentPath,
    /// The remote command line cannot be quoted.
    RemoteCommand,
}

/// First member whose root entry is a directory.
pub open spec fn first_dir_worktree_s(trees: Seq<Worktree>) -> Option<Seq<char>>
    decreases trees.len(),
{
    if trees.len() == 0 {
        None
    } else if trees[0].root_is_dir {
        Some(trees[0].abs_path@)
    } else {
        first_dir_worktree_s(trees.drop_first())
    }
}

/// The active member's root when it is a directory, else the first member
/// root that is one.
pub open spec fn active_project_directory_s(p: &Project) -> Option<Seq<char>> {
    match p.active_worktree {
        Some(i) => if i < p.worktrees@.len() && p.worktrees@[i as int].root_is_dir {
            Some(p.worktrees@[i as int].abs_path@)
        } else {
            first_dir_worktree_s(p.worktrees@)
        },
        None => first_dir_worktree_s(p.worktrees@),
    }
}

pub open spec fn ssh_details_s(p: &Project) -> Option<(Seq<char>, Seq<Seq<char>>)> {
    match p.ssh_client {
        Some(c) => match c.ssh_args {
            Some(a) => Some((c.host@, a.deep_view())),
            None => None,
        },
        None => None,
    }
}

/// Working directory of the request: its explicit directory, else (for a
/// shell request) the active project directory, else none.
pub open spec fn request_path_s(p: &Project, kind: &TerminalKind) -> Option<Seq<char>> {
    match kind {
        TerminalKind::Shell(path) => match path {
            Some(s) => Some(s@),
            None => active_project_directory_s(p),
        },
        TerminalKind::Task(t) => match t.cwd {
            Some(c) => Some(c@),
            None => None,
        },
    }
}

/// Environment after the inherited and settings layers.
pub open spec fn base_env_s(p: &Project) -> Seq<(Seq<char>, Seq<char>)> {
    extend_s(
        match p.cli_environment {
            Some(e) => e@,
            None => Seq::empty(),
        },
        p.settings.env@,
    )
}

/// `TERM` defaulted (not overridden) to a color-capable value for remote
/// sessions.
pub open spec fn with_term_default_s(env: Seq<(Seq<char>, Seq<char>)>) -> Seq<
    (Seq<char>, Seq<char>),
> {
    if lookup(env, "TERM"@) is Some {
        env
    } else {
        insert_s(env, "TERM"@, "xterm-256color"@)
    }
}

/// The venv the locator settles on for this request, if any.
pub open spec fn request_venv_s(
    p: &Project,
    kind: &TerminalKind,
    lookups: &ExternalLookups,
    platform: Platform,
) -> Option<Seq<char>> {
    match request_path_s(p, kind) {
        Some(path) => python_venv_directory_s(
            path,
            &p.settings.detect_venv,
            match lookups.toolchain {
                Some(t) => Some(t@),
                None => None,
            },
            p.worktrees@,
            &lookups.fs,
            platform,
        ),
        None => None,
    }
}

pub open spec fn remote_title_s(host: Seq<char>) -> Option<Seq<char>> {
    Some(host + " — Terminal"@)
}

/// The whole composition, as a function of the request, the project
/// snapshot and the resolved lookups.
pub open spec fn create_terminal_s(
    p: &Project,
    kind: &TerminalKind,
    lookups: &ExternalLookups,
    platform: Platform,
) -> Result<(LaunchPlanV, Option<Seq<char>>), ProvisionError> {
    let path = request_path_s(p, kind);
    let ssh = ssh_details_s(p);
    let env1 = base_env_s(p);
    let local_path = if ssh is None {
        path
    } else {
        None
    };
    let venv = request_venv_s(p, kind, lookups, platform);
    match kind {
        TerminalKind::Shell(_) => {
            let activate = match venv {
                Some(v) => python_activate_command_s(v, &p.settings.detect_venv, platform),
                None => None,
            };
            match ssh {
                Some((host, sshargs)) => {
                    let env2 = with_term_default_s(env1);
                    let cmds = wrap_commands_s(None, path, env2, None, platform);
                    if has_nul(cmds) {
                        Err(ProvisionError::RemoteCommand)
                    } else {
                        Ok(
                            (
                                LaunchPlanV {
                                    local_path: None,
                                    task: None,
                                    shell: ShellV::WithArguments {
                                        program: "ssh"@,
                                        args: wrap_args_s(sshargs, cmds),
                                        title_override: remote_title_s(host),
                                    },
                                    env: Seq::empty(),
                                    is_remote: true,
                                },
                                activate,
                            ),
                        )
                    }
                },
                None => Ok(
                    (
                        LaunchPlanV {
                            local_path,
                            task: None,
                            shell: shell_v(&p.settings.shell),
                            env: env1,
                            is_remote: false,
                        },
                        activate,
                    ),
                ),
            }
        },
        TerminalKind::Task(t) => {
            let ts = TaskStateV {
                id: t.id@,
                full_label: t.full_label@,
                label: t.label@,
                command_label: t.command_label@,
                hide: t.hide,
                status: TaskStatus::Running,
                show_summary: t.show_summary,
                show_command: t.show_command,
            };
            let env2 = extend_s(env1, t.env@);
            let env3 = match venv {
                Some(v) => insert_s(env2, "VIRTUAL_ENV"@, v),
                None => env2,
            };
            match ssh {
                Some((host, sshargs)) => {
                    let env4 = with_term_default_s(env3);
                    let cmds = wrap_commands_s(
                        Some((t.command@, t.args.deep_view())),
                        path,
                        env4,
                        venv,
                        platform,
                    );
                    if has_nul(cmds) {
                        Err(ProvisionError::RemoteCommand)
                    } else {
                        Ok(
                            (
                                LaunchPlanV {
                                    local_path: None,
                                    task: Some(ts),
                                    shell: ShellV::WithArguments {
                                        program: "ssh"@,
                                        args: wrap_args_s(sshargs, cmds),
                                        title_override: remote_title_s(host),
                                    },
                                    env: Seq::empty(),
                                    is_remote: true,
                                },
                                None,
                            ),
                        )
                    }
                },
                None => {
                    match venv {
                        Some(v) => {
                            let bin = join_path_s(v, platform.bin_dir_spec());
                            if has_char(bin, platform.path_sep_spec()) {
                                Err(ProvisionError::EnvironmentPath)
                            } else {
                                Ok(
                                    (
                                        LaunchPlanV {
                                            local_path,
                                            task: Some(ts),
                                            shell: ShellV::WithArguments {
                                                program: t.command@,
                                                args: t.args.deep_view(),
                                                title_override: None,
                                            },
                                            env: insert_s(
                                                env3,
                                                "PATH"@,
                                                joined_path_s(
                                                    env3,
                                                    match lookups.ambient_path {
                                                        Some(a) => Some(a@),
                                                        None => None,
                                                    },
                                                    bin,
                                                    platform.path_sep_spec(),
                                                ),
                                            ),
                                            is_remote: false,
                                        },
                                        None,
                                    ),
                                )
                            }
                        },
                        None => Ok(
                            (
                                LaunchPlanV {
                                    local_path,
                                    task: Some(ts),
                                    shell: ShellV::WithArguments {
                                        program: t.command@,
                                        args: t.args.deep_view(),
                                        title_override: None,
                                    },
                                    env: env3,
                                    is_remote: false,
                                },
                                None,
                            ),
                        ),
                    }
                },
            }
        },
    }
}

impl Project {
    /// Root of the active member when its root entry is a directory, else
    /// the first member root that is one.
    pub fn active_project_directory(&self) -> (r: Option<String>)
        ensures
            match r {
                Some(p) => active_project_directory_s(self) == Some(p@),
                None => active_project_directory_s(self) is None,
            },
    {
        if let Some(i) = self.active_worktree {
            if i < self.worktrees.len() && self.worktrees[i].root_is_dir {
                return Some(self.worktrees[i].abs_path.clone());
            }
        }
        let mut j: usize = 0;
        while j < self.worktrees.len()
            invariant
                active_project_directory_s(self) == first_dir_worktree_s(self.worktrees@),
                j <= self.worktrees@.len(),
                forall|k: int| 0 <= k < j ==> !(#[trigger] self.worktrees@[k]).root_is_dir,
            decreases self.worktrees@.len() - j,
        {
            if self.worktrees[j].root_is_dir {
                proof {
                    lemma_first_dir_at(self.worktrees@, j as int);
                }
                return Some(self.worktrees[j].abs_path.clone());
            }
            j += 1;
        }
        proof {
            lemma_first_dir_none(self.worktrees@);
        }
        None
    }

    /// Root of the first member, when its root entry is a directory.
    pub fn first_project_directory(&self) -> (r: Option<String>)
        ensures
            match r {
                Some(p) => self.worktrees@.len() > 0 && self.worktrees@[0].root_is_dir && p@
                    == self.worktrees@[0].abs_path@,
                None => self.worktrees@.len() == 0 || !self.worktrees@[0].root_is_dir,
            },
    {
        if self.worktrees.len() > 0 && self.worktrees[0].root_is_dir {
            Some(self.worktrees[0].abs_path.clone())
        } else {
            None
        }
    }

    /// Host label and transport arguments of the remote connection, when
    /// one is established and ready.
    pub fn ssh_details(&self) -> (r: Option<(String, SshCommand)>)
        ensures
            match r {
                Some(d) => ssh_details_s(self) == Some((d.0@, d.1@)),
                None => ssh_details_s(self) is None,
            },
    {
        if let Some(c) = &self.ssh_client {
            if let Some(a) = &c.ssh_args {
                return Some((c.host.clone(), SshCommand::new(dup_strings(a))));
            }
        }
        None
    }

    /// Weak handles of the open terminal sessions.
    pub fn local_terminal_handles(&self) -> (r: &Vec<u64>)
        ensures
            r@ == self.terminals@,
    {
        self.terminals.handles()
    }

    /// Compose the launch plan for a request, from this project snapshot
    /// and the already-resolved asynchronous lookups.  Venv discovery always
    /// completes before the plan is built; a venv `PATH` that cannot be
    /// joined, or a remote command line that cannot be quoted, aborts the
    /// request.
    pub fn create_terminal(
        &self,
        kind: &TerminalKind,
        lookups: &ExternalLookups,
        platform: Platform,
    ) -> (r: Result<TerminalLaunch, ProvisionError>)
        ensures
            match r {
                Ok(t) => create_terminal_s(self, kind, lookups, platform) == Ok::<
                    (LaunchPlanV, Option<Seq<char>>),
                    ProvisionError,
                >(
                    (
                        plan_v(&t.plan),
                        match t.activate_command {
                            Some(c) => Some(c@),
                            None => None,
                        },
                    ),
                ),
                Err(e) => create_terminal_s(self, kind, lookups, platform) == Err::<
                    (LaunchPlanV, Option<Seq<char>>),
                    ProvisionError,
                >(e),
            },
    {
        let path: Option<String> = match kind {
            TerminalKind::Shell(p) => match p {
                Some(s) => Some(s.clone()),
                None => self.active_project_directory(),
            },
            TerminalKind::Task(t) => match &t.cwd {
                Some(c) => Some(c.clone()),
                None => None,
            },
        };
        let ssh = self.ssh_details();
        let mut env = match &self.cli_environment {
            Some(e) => e.duplicate(),
            None => EnvMap::new(),
        };
        env.extend(&self.settings.env);
        let local_path: Option<String> = if ssh.is_none() {
            match &path {
                Some(p) => Some(p.clone()),
                None => None,
            }
        } else {
            None
        };
        let venv: Option<String> = match &path {
            Some(p) => python_venv_directory(
                p.as_str(),
                &self.settings.detect_venv,
                lookups.toolchain.as_ref(),
                &self.worktrees,
                &lookups.fs,
                platform,
            ),
            None => None,
        };
        proof {
            assert(env@ == base_env_s(self));
        }
        match kind {
            TerminalKind::Shell(_) => {
                let activate: Option<String> = match &venv {
                    Some(v) => python_activate_command(
                        v.as_str(),
                        &self.settings.detect_venv,
                        platform,
                    ),
                    None => None,
                };
                match ssh {
                    Some((host, ssh_command)) => {
                        env.insert_if_absent(
                            String::from_str("TERM"),
                            String::from_str("xterm-256color"),
                        );
                        match wrap_for_ssh(&ssh_command, None, path.as_ref(), &env, None, platform) {
                            Ok((program, args)) => {
                                let title = host.clone().concat(" — Terminal");
                                let plan = LaunchPlan {
                                    local_path: None,
                                    task: None,
                                    shell: Shell::WithArguments {
                                        program,
                                        args,
                                        title_override: Some(title),
                                    },
                                    env: EnvMap::new(),
                                    is_remote: true,
                                };
                                Ok(TerminalLaunch { plan, activate_command: activate })
                            },
                            Err(_) => Err(ProvisionError::RemoteCommand),
                        }
                    },
                    None => {
                        let plan = LaunchPlan {
                            local_path,
                            task: None,
                            shell: self.settings.shell.duplicate(),
                            env,
                            is_remote: false,
                        };
                        Ok(TerminalLaunch { plan, activate_command: activate })
                    },
                }
            },
            TerminalKind::Task(t) => {
                let task_state = TaskState {
                    id: t.id.clone(),
                    full_label: t.full_label.clone(),
                    label: t.label.clone(),
                    command_label: t.command_label.clone(),
                    hide: t.hide,
                    status: TaskStatus::Running,
                    show_summary: t.show_summary,
                    show_command: t.show_command,
                };
                env.extend(&t.env);
                if let Some(v) = &venv {
                    env.insert(String::from_str("VIRTUAL_ENV"), v.clone());
                }
                match ssh {
                    Some((host, ssh_command)) => {
                        env.insert_if_absent(
                            String::from_str("TERM"),
                            String::from_str("xterm-256color"),
                        );
                        match wrap_for_ssh(
                            &ssh_command,
                            Some((&t.command, &t.args)),
                            path.as_ref(),
                            &env,
                            venv.as_ref(),
                            platform,
                        ) {
                            Ok((program, args)) => {
                                let title = host.clone().concat(" — Terminal");
                                let plan = LaunchPlan {
                                    local_path: None,
                                    task: Some(task_state),
                                    shell: Shell::WithArguments {
                                        program,
                                        args,
                                        title_override: Some(title),
                                    },
                                    env: EnvMap::new(),
                                    is_remote: true,
                                };
                                Ok(TerminalLaunch { plan, activate_command: None })
                            },
                            Err(_) => Err(ProvisionError::RemoteCommand),
                        }
                    },
                    None => {
                        if let Some(v) = &venv {
                            let bin = join_path(v.as_str(), platform.bin_dir_name());
                            match crate::envmap::add_environment_path(
                                &mut env,
                                bin.as_str(),
                                lookups.ambient_path.as_ref(),
                                platform.path_list_separator(),
                            ) {
                                Ok(_) => {},
                                Err(_) => {
                                    return Err(ProvisionError::EnvironmentPath);
                                },
                            }
                        }
                        let plan = LaunchPlan {
                            local_path,
                            task: Some(task_state),
                            shell: Shell::WithArguments {
                                program: t.command.clone(),
                                args: dup_strings(&t.args),
                                title_override: None,
                            },
                            env,
                            is_remote: false,
                        };
                        Ok(TerminalLaunch { plan, activate_command: None })
                    },
                }
            },
        }
    }
}

proof fn lemma_first_dir_at(trees: Seq<Worktree>, i: int)
    requires
        0 <= i < trees.len(),
        trees[i].root_is_dir,
        forall|k: int| 0 <= k < i ==> !(#[trigger] trees[k]).root_is_dir,
    ensures
        first_dir_worktree_s(trees) == Some(trees[i].abs_path@),
    decreases i,
{
    if i == 0 {
    } else {
        assert(forall|k: int| 0 <= k < trees.drop_first().len() ==> #[trigger] trees.drop_first()[k]
            == trees[k + 1]);
        lemma_first_dir_at(trees.drop_first(), i - 1);
    }
}

proof fn lemma_first_dir_none(trees: Seq<Worktree>)
    requires
        forall|k: int| 0 <= k < trees.len() ==> !(#[trigger] trees[k]).root_is_dir,
    ensures
        first_dir_worktree_s(trees) is None,
    decreases trees.len(),
{
    if trees.len() == 0 {
    } else {
        assert(forall|k: int| 0 <= k < trees.drop_first().len() ==> #[trigger] trees.drop_first()[k]
            == trees[k + 1]);
        lemma_first_dir_none(trees.drop_first());
    }
}

/// Idempotence: the composition is a pure function of the request, the
/// project snapshot and the resolved lookups; two runs over the same inputs
/// yield identical launch plans.
pub proof fn lemma_provision_idempotent(
    p: &Project,
    kind: &TerminalKind,
    lookups: &ExternalLookups,
    platform: Platform,
    r1: Result<(LaunchPlanV, Option<Seq<char>>), ProvisionError>,
    r2: Result<(LaunchPlanV, Option<Seq<char>>), ProvisionError>,
)
    requires
        r1 == create_terminal_s(p, kind, lookups, platform),
        r2 == create_terminal_s(p, kind, lookups, platform),
    ensures
        r1 == r2,
{
}

} // verus!
