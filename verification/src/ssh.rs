//! Synthesis of the single safely quoted command line handed to the remote
//! transport: `cd` into the working directory, `KEY=VALUE` prefixes, an
//! optional venv `PATH` prefix, the command itself, all wrapped in `sh -c`.

use vstd::prelude::*;

use crate::envmap::EnvMap;
use crate::quoting::{debug_quote, debug_quote_spec, has_nul, quote_spec, shell_quote};
use crate::strutil::{chars_of, chars_slice, dup_strings, push_str_chars, string_of};
use crate::venv::{join_path, join_path_s, Platform};
use vstd::string::StringExecFns;

verus! {

/// How to reach the remote server: the transport's own argument vector.
#[derive(Debug, Clone, PartialEq, Eq)]
pub struct SshCommand {
    arguments: Vec<String>,
}

impl View for SshCommand {
    type V = Seq<Seq<char>>;

    closed spec fn view(&self) -> Seq<Seq<char>> {
        self.arguments.deep_view()
    }
}

impl SshCommand {
    pub fn new(arguments: Vec<String>) -> (r: SshCommand)
        ensures
            r@ == arguments.deep_view(),
    {
        SshCommand { arguments }
    }

    pub fn arguments(&self) -> (r: &Vec<String>)
        ensures
            r.deep_view() == self@,
    {
        &self.arguments
    }
}

/// The command line could not be quoted for the remote shell.
#[derive(Debug)]
pub enum SshWrapError {
    UnquotableCommandLine,
}

/// Arguments of the task command, each shell-quoted and set off by one
/// space; an argument that cannot be quoted is skipped.
pub open spec fn args_tail_s(args: Seq<Seq<char>>) -> Seq<char>
    decreases args.len(),
{
    if args.len() == 0 {
        Seq::empty()
    } else {
        (if has_nul(args[0]) {
            Seq::<char>::empty()
        } else {
            seq![' '] + quote_spec(args[0])
        }) + args_tail_s(args.drop_first())
    }
}

/// The command to run on the far end: the program followed by its quoted
/// arguments, or a login shell when no command is given.
pub open spec fn to_run_s(command: Option<(Seq<char>, Seq<Seq<char>>)>) -> Seq<char> {
    match command {
        Some(c) => c.0 + args_tail_s(c.1),
        None => "exec ${SHELL:-sh} -l"@,
    }
}

/// `KEY=VALUE ` prefixes, both sides quoted; an entry whose key or value
/// cannot be quoted is skipped.
pub open spec fn env_changes_s(env: Seq<(Seq<char>, Seq<char>)>) -> Seq<char>
    decreases env.len(),
{
    if env.len() == 0 {
        Seq::empty()
    } else {
        (if !has_nul(env[0].0) && !has_nul(env[0].1) {
            quote_spec(env[0].0) + "="@ + quote_spec(env[0].1) + " "@
        } else {
            Seq::<char>::empty()
        }) + env_changes_s(env.drop_first())
    }
}

/// `PATH=<quoted venv bin>:$PATH ` prefix for a found venv: the venv's own
/// executable directory, quoted.
pub open spec fn venv_prefix_s(venv: Option<Seq<char>>, platform: Platform) -> Seq<char> {
    match venv {
        Some(d) => {
            let bin = join_path_s(d, platform.bin_dir_spec());
            if has_nul(bin) {
                Seq::<char>::empty()
            } else {
                "PATH="@ + quote_spec(bin) + ":$PATH "@
            }
        },
        None => Seq::empty(),
    }
}

/// A path that names the remote home directory by a leading tilde.
pub open spec fn is_tilde_path(p: Seq<char>) -> bool {
    p == seq!['~'] || (p.len() >= 2 && p[0] == '~' && p[1] == '/')
}

/// All leading copies of `c` removed.
pub open spec fn trim_leading(s: Seq<char>, c: char) -> Seq<char>
    decreases s.len(),
{
    if s.len() > 0 && s[0] == c {
        trim_leading(s.drop_first(), c)
    } else {
        s
    }
}

/// What remains of a tilde path once the leading slashes and tildes are
/// stripped; spliced after `$HOME/`.
pub open spec fn tilde_trimmed(p: Seq<char>) -> Seq<char> {
    trim_leading(trim_leading(trim_leading(p, '/'), '~'), '/')
}

/// The full command line run under `sh -c`, by working-directory shape: no
/// directory, a tilde directory rewritten through `$HOME` (quoting a tilde
/// would disable its expansion), or any other directory, debug-quoted.
pub open spec fn commands_s(path: Option<Seq<char>>, changes: Seq<char>, run: Seq<char>) -> Seq<
    char,
> {
    match path {
        None => "cd; "@ + changes + " "@ + run,
        Some(p) => if is_tilde_path(p) {
            "cd \"$HOME/"@ + tilde_trimmed(p) + "\"; "@ + changes + " "@ + run
        } else {
            "cd "@ + debug_quote_spec(p) + "; "@ + changes + " "@ + run
        },
    }
}

pub open spec fn command_view(command: Option<(&String, &Vec<String>)>) -> Option<
    (Seq<char>, Seq<Seq<char>>),
> {
    match command {
        Some(t) => Some((t.0@, t.1.deep_view())),
        None => None,
    }
}

pub open spec fn opt_str_view(o: Option<&String>) -> Option<Seq<char>> {
    match o {
        Some(s) => Some(s@),
        None => None,
    }
}

/// The command line that `wrap_for_ssh` quotes and hands to `sh -c`.
pub open spec fn wrap_commands_s(
    command: Option<(Seq<char>, Seq<Seq<char>>)>,
    path: Option<Seq<char>>,
    env: Seq<(Seq<char>, Seq<char>)>,
    venv: Option<Seq<char>>,
    platform: Platform,
) -> Seq<char> {
    commands_s(path, env_changes_s(env) + venv_prefix_s(venv, platform), to_run_s(command))
}

/// The argument vector handed to the transport: its own arguments, the
/// forced pseudo-terminal flag, then the quoted `sh -c` invocation.
pub open spec fn wrap_args_s(ssh: Seq<Seq<char>>, cmds: Seq<char>) -> Seq<Seq<char>> {
    ssh + seq!["-t"@, "sh -c "@ + quote_spec(cmds)]
}

proof fn lemma_args_tail_concat(a: Seq<Seq<char>>, b: Seq<Seq<char>>)
    ensures
        args_tail_s(a + b) == args_tail_s(a) + args_tail_s(b),
    decreases a.len(),
{
    if a.len() == 0 {
        assert(a + b =~= b);
        assert(args_tail_s(a) + args_tail_s(b) =~= args_tail_s(b));
    } else {
        assert((a + b).drop_first() =~= a.drop_first() + b);
        lemma_args_tail_concat(a.drop_first(), b);
        assert((a + b)[0] == a[0]);
        assert(args_tail_s(a + b) =~= args_tail_s(a) + args_tail_s(b));
    }
}

proof fn lemma_env_changes_concat(a: Seq<(Seq<char>, Seq<char>)>, b: Seq<(Seq<char>, Seq<char>)>)
    ensures
        env_changes_s(a + b) == env_changes_s(a) + env_changes_s(b),
    decreases a.len(),
{
    if a.len() == 0 {
        assert(a + b =~= b);
        assert(env_changes_s(a) + env_changes_s(b) =~= env_changes_s(b));
    } else {
        assert((a + b).drop_first() =~= a.drop_first() + b);
        lemma_env_changes_concat(a.drop_first(), b);
        assert((a + b)[0] == a[0]);
        assert(env_changes_s(a + b) =~= env_changes_s(a) + env_changes_s(b));
    }
}

proof fn lemma_trim_skip(s: Seq<char>, c: char, i: int)
    requires
        0 <= i <= s.len(),
        forall|j: int| 0 <= j < i ==> s[j] == c,
        i == s.len() || s[i] != c,
    ensures
        trim_leading(s, c) == s.subrange(i, s.len() as int),
    decreases i,
{
    if i == 0 {
        assert(s.subrange(0, s.len() as int) =~= s);
    } else {
        assert(s[0] == c);
        assert(forall|j: int| 0 <= j < s.drop_first().len() ==> s.drop_first()[j] == s[j + 1]);
        lemma_trim_skip(s.drop_first(), c, i - 1);
        assert(s.drop_first().subrange(i - 1, s.drop_first().len() as int) =~= s.subrange(
            i,
            s.len() as int,
        ));
    }
}

fn trim_leading_chars(v: &Vec<char>, c: char) -> (r: Vec<char>)
    ensures
        r@ == trim_leading(v@, c),
{
    let mut i: usize = 0;
    while i < v.len() && v[i] == c
        invariant
            i <= v@.len(),
            forall|j: int| 0 <= j < i ==> v@[j] == c,
        decreases v@.len() - i,
    {
        i += 1;
    }
    proof {
        lemma_trim_skip(v@, c, i as int);
    }
    chars_slice(v, i, v.len())
}

/// Wrap a command (or a login shell) for execution over the remote
/// transport.  `venv_directory` is the root of a found venv; its executable
/// directory goes into the `PATH` prefix.  Fails exactly when the composed
/// command line holds a NUL and so cannot be quoted; the request is then
/// aborted.
pub fn wrap_for_ssh(
    ssh_command: &SshCommand,
    command: Option<(&String, &Vec<String>)>,
    path: Option<&String>,
    env: &EnvMap,
    venv_directory: Option<&String>,
    platform: Platform,
) -> (r: Result<(String, Vec<String>), SshWrapError>)
    ensures
        r is Ok <==> !has_nul(
            wrap_commands_s(
                command_view(command),
                opt_str_view(path),
                env@,
                opt_str_view(venv_directory),
                platform,
            ),
        ),
        r matches Ok(pa) ==> pa.0@ == "ssh"@ && pa.1.deep_view() == wrap_args_s(
            ssh_command@,
            wrap_commands_s(
                command_view(command),
                opt_str_view(path),
                env@,
                opt_str_view(venv_directory),
                platform,
            ),
        ),
{
    let ghost cmdv = command_view(command);
    let mut run: Vec<char> = Vec::new();
    match command {
        Some((c, args)) => {
            push_str_chars(&mut run, c.as_str());
            let ghost argsv = args.deep_view();
            let mut i: usize = 0;
            while i < args.len()
                invariant
                    argsv == args.deep_view(),
                    argsv.len() == args@.len(),
                    i <= argsv.len(),
                    run@ == (cmdv->0).0 + args_tail_s(argsv.subrange(0, i as int)),
                    cmdv == command_view(command),
                    cmdv matches Some(t) && t.1 == argsv,
                decreases argsv.len() - i,
            {
                proof {
                    assert(argsv[i as int] == args@[i as int]@);
                    assert(argsv.subrange(0, i + 1 as int) =~= argsv.subrange(0, i as int)
                        + seq![argsv[i as int]]);
                    lemma_args_tail_concat(argsv.subrange(0, i as int), seq![argsv[i as int]]);
                    assert(seq![argsv[i as int]].drop_first()
                        =~= Seq::<Seq<char>>::empty());
                    reveal_with_fuel(args_tail_s, 3);
                }
                match shell_quote(args[i].as_str()) {
                    Some(q) => {
                        run.push(' ');
                        push_str_chars(&mut run, q.as_str());
                        proof {
                            assert(run@ =~= (cmdv->0).0 + args_tail_s(
                                argsv.subrange(0, i + 1 as int),
                            ));
                        }
                    },
                    None => {
                        proof {
                            assert(run@ =~= (cmdv->0).0 + args_tail_s(
                                argsv.subrange(0, i + 1 as int),
                            ));
                        }
                    },
                }
                i += 1;
            }
            proof {
                assert(argsv.subrange(0, argsv.len() as int) =~= argsv);
                assert(run@ == to_run_s(cmdv));
            }
        },
        None => {
            push_str_chars(&mut run, "exec ${SHELL:-sh} -l");
            proof {
                assert(run@ =~= to_run_s(cmdv));
            }
        },
    }
    let mut changes: Vec<char> = Vec::new();
    let mut i: usize = 0;
    let envn = env.len();
    while i < envn
        invariant
            envn == env@.len(),
            i <= env@.len(),
            changes@ == env_changes_s(env@.subrange(0, i as int)),
        decreases env@.len() - i,
    {
        proof {
            assert(env@.subrange(0, i + 1 as int) =~= env@.subrange(0, i as int) + seq![
                env@[i as int],
            ]);
            lemma_env_changes_concat(env@.subrange(0, i as int), seq![env@[i as int]]);
            assert(seq![env@[i as int]].drop_first()
                =~= Seq::<(Seq<char>, Seq<char>)>::empty());
            reveal_with_fuel(env_changes_s, 3);
        }
        let k = env.key_at(i);
        let v = env.value_at(i);
        let qk = shell_quote(k.as_str());
        let qv = shell_quote(v.as_str());
        match (qk, qv) {
            (Some(a), Some(b)) => {
                push_str_chars(&mut changes, a.as_str());
                push_str_chars(&mut changes, "=");
                push_str_chars(&mut changes, b.as_str());
                push_str_chars(&mut changes, " ");
            },
            _ => {},
        }
        proof {
            assert(changes@ =~= env_changes_s(env@.subrange(0, i + 1 as int)));
        }
        i += 1;
    }
    proof {
        assert(env@.subrange(0, env@.len() as int) =~= env@);
    }
    match venv_directory {
        Some(d) => {
            let bin = join_path(d.as_str(), platform.bin_dir_name());
            match shell_quote(bin.as_str()) {
                Some(q) => {
                    push_str_chars(&mut changes, "PATH=");
                    push_str_chars(&mut changes, q.as_str());
                    push_str_chars(&mut changes, ":$PATH ");
                    proof {
                        assert(changes@ =~= env_changes_s(env@) + venv_prefix_s(
                            opt_str_view(venv_directory),
                            platform,
                        ));
                    }
                },
                None => {
                    proof {
                        assert(changes@ =~= env_changes_s(env@) + venv_prefix_s(
                            opt_str_view(venv_directory),
                            platform,
                        ));
                    }
                },
            }
        },
        None => {
            proof {
                assert(changes@ =~= env_changes_s(env@) + venv_prefix_s(
                    opt_str_view(venv_directory),
                    platform,
                ));
            }
        },
    }
    let mut cmds: Vec<char> = Vec::new();
    match path {
        None => {
            push_str_chars(&mut cmds, "cd; ");
            cmds.append(&mut changes);
            push_str_chars(&mut cmds, " ");
            cmds.append(&mut run);
        },
        Some(p) => {
            let pc = chars_of(p.as_str());
            let tilde = (pc.len() == 1 && pc[0] == '~') || (pc.len() >= 2 && pc[0] == '~'
                && pc[1] == '/');
            proof {
                if pc@ == seq!['~'] {
                    assert(pc@.len() == 1 && pc@[0] == '~');
                }
                if pc@.len() == 1 && pc@[0] == '~' {
                    assert(pc@ =~= seq!['~']);
                }
                assert(tilde == is_tilde_path(p@));
            }
            if tilde {
                let t1 = trim_leading_chars(&pc, '/');
                let t2 = trim_leading_chars(&t1, '~');
                let t3 = trim_leading_chars(&t2, '/');
                push_str_chars(&mut cmds, "cd \"$HOME/");
                let mut trimmed = t3;
                cmds.append(&mut trimmed);
                push_str_chars(&mut cmds, "\"; ");
                cmds.append(&mut changes);
                push_str_chars(&mut cmds, " ");
                cmds.append(&mut run);
            } else {
                let dq = debug_quote(p.as_str());
                push_str_chars(&mut cmds, "cd ");
                push_str_chars(&mut cmds, dq.as_str());
                push_str_chars(&mut cmds, "; ");
                cmds.append(&mut changes);
                push_str_chars(&mut cmds, " ");
                cmds.append(&mut run);
            }
        },
    }
    proof {
        assert(cmds@ =~= wrap_commands_s(
            cmdv,
            opt_str_view(path),
            env@,
            opt_str_view(venv_directory),
            platform,
        ));
    }
    let cmds_str = string_of(&cmds);
    let quoted = match shell_quote(cmds_str.as_str()) {
        Some(q) => q,
        None => {
            return Err(SshWrapError::UnquotableCommandLine);
        },
    };
    let mut invocation: Vec<char> = Vec::new();
    push_str_chars(&mut invocation, "sh -c ");
    push_str_chars(&mut invocation, quoted.as_str());
    let program = String::from_str("ssh");
    let mut args = dup_strings(&ssh_command.arguments);
    let ghost args0 = args.deep_view();
    args.push(String::from_str("-t"));
    args.push(string_of(&invocation));
    proof {
        assert(args.deep_view() =~= wrap_args_s(
            ssh_command@,
            wrap_commands_s(cmdv, opt_str_view(path), env@, opt_str_view(venv_directory), platform),
        ));
    }
    Ok((program, args))
}

/// Tilde rewrite: for a working directory that names the remote home by a
/// leading tilde, the synthesized command line opens with
/// `cd "$HOME/<trimmed>"; ` — the tilde is routed through `$HOME` rather
/// than quoted, which would disable its expansion.
pub proof fn lemma_tilde_rewrite(p: Seq<char>, changes: Seq<char>, run: Seq<char>)
    requires
        is_tilde_path(p),
    ensures
        commands_s(Some(p), changes, run) == "cd \"$HOME/"@ + tilde_trimmed(p) + "\"; "@ + changes
            + " "@ + run,
{
}

} // verus!
