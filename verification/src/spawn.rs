//! Spawning service child processes: what is executed, with which arguments, environment and
//! working directory.

use vstd::prelude::*;
use vstd::utf8::encode_utf8;

use crate::config::Service;
use crate::names::{entries, listed, lists, texts};
use crate::paths::{byte_strings, copied};

verus! {

/// The script that the login shell runs: it fixes the working directory, whatever the
/// initialization scripts did, and replaces itself with the rest of its parameters.
pub const LOGIN_SCRIPT: &'static str = "cd \"$1\" && shift && exec \"$@\"";

/// Why a service cannot be launched.
#[derive(Clone, Copy, Debug, PartialEq, Eq, Structural)]
pub enum SpawnError {
    /// The service's `command` is empty.
    EmptyCommand,
    /// The service runs in the app's working directory, which is not known.
    CurrentDirUnknown,
}

impl SpawnError {
    /// The text of [`SpawnError::message`].
    pub open spec fn text(self) -> Seq<char> {
        match self {
            SpawnError::EmptyCommand => "service command is empty"@,
            SpawnError::CurrentDirUnknown => "the working directory is not known"@,
        }
    }

    /// The error in words.
    #[must_use]
    pub fn message(&self) -> (message: String)
        ensures
            message@ == self.text(),
    {
        match self {
            SpawnError::EmptyCommand => "service command is empty".to_owned(),
            SpawnError::CurrentDirUnknown => "the working directory is not known".to_owned(),
        }
    }
}

/// The process group that stands for a new one, which the child leads.
pub const OWN_GROUP: i32 = 0;

/// What a standard stream of a child is connected to.
#[derive(Clone, Copy, Debug, PartialEq, Eq, Structural)]
pub enum Stream {
    /// Nothing: reading from it ends at once, and what is written to it is lost.
    Null,
    /// A pipe, whose other end is the app's.
    Piped,
}

/// A child process to be spawned.
#[derive(Clone, Debug, PartialEq, Eq)]
pub struct Launch {
    /// The program to execute.
    pub program: Vec<u8>,
    /// Its arguments.
    pub args: Vec<Vec<u8>>,
    /// Environment variables to set on top of the app's own.
    pub env: Vec<(String, String)>,
    /// The working directory, where it is not the app's own.
    pub cwd: Option<Vec<u8>>,
    /// The process group that the child joins.
    pub process_group: i32,
    /// What the child reads from.
    pub stdin: Stream,
    /// What the child writes its output to.
    pub stdout: Stream,
    /// What the child writes its diagnostics to.
    pub stderr: Stream,
}

/// The bytes of each text of a list.
pub open spec fn encoded(list: Seq<Seq<char>>) -> Seq<Seq<u8>> {
    list.map_values(|text: Seq<char>| encode_utf8(text))
}

/// The environment variables of a list, each as the argument `KEY=VALUE`.
pub open spec fn assignments(list: Seq<(String, String)>) -> Seq<Seq<u8>> {
    list.map_values(|entry: (String, String)| encode_utf8(entry.0@ + "="@ + entry.1@))
}

/// The arguments of a login shell up to the environment variables of the service.
pub open spec fn login_arguments(cwd: Seq<u8>) -> Seq<Seq<u8>> {
    seq![
        encode_utf8("-l"@),
        encode_utf8("-c"@),
        encode_utf8(LOGIN_SCRIPT@),
        encode_utf8("shepherdr"@),
        cwd,
        encode_utf8("env"@),
    ]
}

impl Launch {
    /// Whether the child leads its own process group, so that the stop sequence and orphan cleanup
    /// can act on the whole process tree as one unit, and has stdin closed and stdout and stderr
    /// piped for the caller to capture.
    pub open spec fn set_apart(self) -> bool {
        &&& self.process_group == OWN_GROUP
        &&& self.stdin == Stream::Null
        &&& self.stdout == Stream::Piped
        &&& self.stderr == Stream::Piped
    }

    /// Whether this executes the service's argv as it is, with its environment on top of the
    /// app's and in its working directory.
    pub open spec fn runs_directly(self, service: Service) -> bool {
        let argv = encoded(texts(service.command@));
        &&& self.program@ == argv[0]
        &&& byte_strings(self.args@) == argv.skip(1)
        &&& lists(self.env@, entries(service.env))
        &&& match (service.cwd, self.cwd) {
            (Some(dir), Some(cwd)) => cwd@ == encode_utf8(dir@),
            (None, None) => true,
            _ => false,
        }
        &&& self.set_apart()
    }

    /// Whether this executes the service's argv through the login shell `shell`, in `cwd`:
    /// `<shell> -l -c 'cd "$1" && shift && exec "$@"' shepherdr <cwd> env <KEY=VALUE...>
    /// <argv...>`. The order of the variables is left open.
    pub open spec fn runs_through(self, shell: Seq<u8>, cwd: Seq<u8>, service: Service) -> bool {
        &&& self.program@ == shell
        &&& exists|order: Seq<(String, String)>|
            {
                &&& #[trigger] lists(order, entries(service.env))
                &&& byte_strings(self.args@) == login_arguments(cwd) + assignments(order)
                    + encoded(texts(service.command@))
            }
        &&& self.env@.len() == 0
        &&& self.cwd is None
        &&& self.set_apart()
    }
}

/// The working directory of a service that runs through a login shell: its own, else the app's.
pub open spec fn login_cwd(service: Service, current_dir: Option<Vec<u8>>) -> Option<Seq<u8>> {
    match (service.cwd, current_dir) {
        (Some(dir), _) => Some(encode_utf8(dir@)),
        (None, Some(dir)) => Some(dir@),
        (None, None) => None,
    }
}

/// Plans the launch of a service's child process.
///
/// When `login_shell` is `false`, the service argv is executed directly without interposing a
/// shell. When `true`, it is launched through the login shell `shell` so it inherits the
/// login-initialized environment (a Homebrew `PATH`, for example); the argv is still passed
/// through verbatim and never re-evaluated by the shell. `current_dir` is the app's working
/// directory, `None` where it cannot be resolved; it serves a login-shell service without a `cwd`.
///
/// In both modes the child runs in its own process group, so the stop sequence and orphan cleanup
/// can act on the whole process tree as one unit; its stdin is closed, and its stdout and stderr
/// are piped for the caller to capture. `env` is applied on top of the base environment, `cwd` sets
/// the working directory, and a relative `command[0]` is resolved against the effective `PATH`.
///
/// A missing working directory or a missing/non-executable `command[0]` is not reported here: the
/// child exits early with a diagnostic on its captured stderr, which the monitor and log layers
/// handle.
///
/// # Errors
///
/// Returns an error when `command` is empty, or when the app working directory cannot be resolved
/// for a login-shell service without a `cwd`.
pub fn spawn(service: &Service, shell: Vec<u8>, current_dir: Option<Vec<u8>>) -> (launch: Result<
    Launch,
    SpawnError,
>)
    ensures
        match launch {
            Ok(launch) => {
                &&& service.command@.len() > 0
                &&& if service.login_shell {
                    &&& login_cwd(*service, current_dir) is Some
                    &&& launch.runs_through(
                        shell@,
                        login_cwd(*service, current_dir)->0,
                        *service,
                    )
                } else {
                    launch.runs_directly(*service)
                }
            },
            Err(SpawnError::EmptyCommand) => service.command@.len() == 0,
            Err(SpawnError::CurrentDirUnknown) => {
                &&& service.command@.len() > 0
                &&& service.login_shell
                &&& login_cwd(*service, current_dir) is None
            },
        },
{
    if service.login_shell {
        spawn_login_shell(service, shell, current_dir)
    } else {
        spawn_direct(service)
    }
}

/// Executes the service argv directly, layering `env` on the app environment.
fn spawn_direct(service: &Service) -> (launch: Result<Launch, SpawnError>)
    ensures
        match launch {
            Ok(launch) => service.command@.len() > 0 && launch.runs_directly(*service),
            Err(error) => service.command@.len() == 0 && error == SpawnError::EmptyCommand,
        },
{
    if service.command.len() == 0 {
        return Err(SpawnError::EmptyCommand);
    }
    let program = copied(service.command[0].as_str().as_bytes());
    let mut args: Vec<Vec<u8>> = Vec::new();
    push_texts(&mut args, &service.command, 1);
    let cwd = match &service.cwd {
        Some(dir) => Some(copied(dir.as_str().as_bytes())),
        None => None,
    };
    proof {
        let argv = encoded(texts(service.command@));
        assert(program@ == argv[0]);
        assert(byte_strings(args@) =~= argv.skip(1));
    }
    Ok(configure_child_io(program, args, listed(&service.env), cwd))
}

/// Executes the service argv through a login shell.
///
/// Runs `<shell> -l -c 'cd "$1" && shift && exec "$@"' shepherdr <cwd> env <KEY=VALUE...>
/// <argv...>`. Passing the argv as positional parameters keeps it verbatim; the shell parses only
/// the fixed script. `env` is the exec target so its assignments are applied after login
/// initialization, taking precedence over it, and `command[0]` is resolved by `env` against the
/// login `PATH`. The leading `cd` fixes the working directory as the final state regardless of any
/// `cd` performed by the initialization scripts.
fn spawn_login_shell(service: &Service, shell: Vec<u8>, current_dir: Option<Vec<u8>>) -> (launch:
    Result<Launch, SpawnError>)
    ensures
        match launch {
            Ok(launch) => {
                &&& service.command@.len() > 0
                &&& login_cwd(*service, current_dir) is Some
                &&& launch.runs_through(shell@, login_cwd(*service, current_dir)->0, *service)
            },
            Err(SpawnError::EmptyCommand) => service.command@.len() == 0,
            Err(SpawnError::CurrentDirUnknown) => {
                &&& service.command@.len() > 0
                &&& login_cwd(*service, current_dir) is None
            },
        },
{
    if service.command.len() == 0 {
        return Err(SpawnError::EmptyCommand);
    }
    let cwd: Vec<u8> = match &service.cwd {
        Some(dir) => copied(dir.as_str().as_bytes()),
        None => match current_dir {
            Some(dir) => dir,
            None => {
                return Err(SpawnError::CurrentDirUnknown);
            },
        },
    };
    let ghost cwd_bytes = cwd@;
    let mut args: Vec<Vec<u8>> = Vec::new();
    args.push(copied("-l".as_bytes()));
    args.push(copied("-c".as_bytes()));
    args.push(copied(LOGIN_SCRIPT.as_bytes()));
    args.push(copied("shepherdr".as_bytes()));
    args.push(cwd);
    args.push(copied("env".as_bytes()));
    assert(byte_strings(args@) =~= login_arguments(cwd_bytes));
    let env = listed(&service.env);
    let mut i: usize = 0;
    while i < env.len()
        invariant
            i <= env.len(),
            byte_strings(args@) == login_arguments(cwd_bytes) + assignments(env@.take(i as int)),
        decreases env.len() - i,
    {
        let assignment = env[i].0.clone().concat("=").concat(env[i].1.as_str());
        let ghost before = args@;
        args.push(copied(assignment.as_str().as_bytes()));
        proof {
            assert(env@.take(i + 1) =~= env@.take(i as int).push(env@[i as int]));
            assert(byte_strings(args@) =~= byte_strings(before).push(
                encode_utf8(env@[i as int].0@ + "="@ + env@[i as int].1@),
            ));
            assert(assignments(env@.take(i + 1)) =~= assignments(env@.take(i as int)).push(
                encode_utf8(env@[i as int].0@ + "="@ + env@[i as int].1@),
            ));
            assert(byte_strings(args@) =~= login_arguments(cwd_bytes) + assignments(
                env@.take(i + 1),
            ));
        }
        i = i + 1;
    }
    let ghost head = byte_strings(args@);
    push_texts(&mut args, &service.command, 0);
    proof {
        assert(env@.take(i as int) =~= env@);
        assert(lists(env@, entries(service.env)));
        assert(encoded(texts(service.command@)).skip(0) =~= encoded(texts(service.command@)));
        assert(byte_strings(args@) == login_arguments(cwd_bytes) + assignments(env@) + encoded(
            texts(service.command@),
        ));
    }
    Ok(configure_child_io(shell, args, Vec::new(), None))
}

/// Applies the shared stdio and process-group configuration.
fn configure_child_io(
    program: Vec<u8>,
    args: Vec<Vec<u8>>,
    env: Vec<(String, String)>,
    cwd: Option<Vec<u8>>,
) -> (launch: Launch)
    ensures
        launch.program == program,
        launch.args == args,
        launch.env == env,
        launch.cwd == cwd,
        launch.set_apart(),
{
    Launch {
        program,
        args,
        env,
        cwd,
        process_group: OWN_GROUP,
        stdin: Stream::Null,
        stdout: Stream::Piped,
        stderr: Stream::Piped,
    }
}

/// Appends the bytes of the texts from the place `from` on.
fn push_texts(args: &mut Vec<Vec<u8>>, list: &Vec<String>, from: usize)
    requires
        from <= list.len(),
    ensures
        byte_strings(final(args)@) == byte_strings(old(args)@) + encoded(texts(list@)).skip(
            from as int,
        ),
{
    let ghost all = encoded(texts(list@));
    let mut i: usize = from;
    assert(byte_strings(args@) =~= byte_strings(old(args)@) + all.subrange(
        from as int,
        from as int,
    ));
    while i < list.len()
        invariant
            from <= i <= list.len(),
            all == encoded(texts(list@)),
            byte_strings(args@) == byte_strings(old(args)@) + all.subrange(from as int, i as int),
        decreases list.len() - i,
    {
        let ghost before = args@;
        args.push(copied(list[i].as_str().as_bytes()));
        proof {
            assert(byte_strings(args@) =~= byte_strings(before).push(all[i as int]));
            assert(all.subrange(from as int, i + 1) =~= all.subrange(from as int, i as int).push(
                all[i as int],
            ));
            assert(byte_strings(args@) =~= byte_strings(old(args)@) + all.subrange(
                from as int,
                i + 1,
            ));
        }
        i = i + 1;
    }
    assert(all.subrange(from as int, i as int) =~= all.skip(from as int));
}

/// The login shell: `$SHELL`, else the password database, else `/bin/sh`.
pub open spec fn chosen_shell(shell_env: Option<Vec<u8>>, passwd: Option<Vec<u8>>) -> Seq<u8> {
    match (shell_env, passwd) {
        (Some(shell), _) if shell@.len() > 0 => shell@,
        (_, Some(shell)) if shell@.len() > 0 => shell@,
        _ => encode_utf8("/bin/sh"@),
    }
}

/// Resolves the user's login shell from the value of `$SHELL` and the shell that the password
/// database gives for the user: the first of them that is there and not empty, else `/bin/sh`.
///
/// `$SHELL` may be absent under a GUI (`LaunchServices`) launch, so the password database is
/// consulted as the authoritative source before the final fallback.
#[must_use]
pub fn resolve_shell(shell_env: Option<Vec<u8>>, passwd: Option<Vec<u8>>) -> (shell: Vec<u8>)
    ensures
        shell@ == chosen_shell(shell_env, passwd),
        shell@.len() > 0,
{
    if let Some(shell) = shell_env {
        if shell.len() > 0 {
            return shell;
        }
    }
    match passwd_shell(passwd) {
        Some(shell) => shell,
        None => {
            proof {
                reveal_strlit("/bin/sh");
                assert(vstd::utf8::is_ascii_chars("/bin/sh"@));
                vstd::utf8::is_ascii_chars_encode_utf8("/bin/sh"@);
            }
            copied("/bin/sh".as_bytes())
        },
    }
}

/// The shell that the password database gives for the user, unless it is empty.
fn passwd_shell(passwd: Option<Vec<u8>>) -> (shell: Option<Vec<u8>>)
    ensures
        shell == (match passwd {
            Some(shell) if shell@.len() > 0 => Some(shell),
            _ => None,
        }),
{
    match passwd {
        Some(shell) => if shell.len() > 0 {
            Some(shell)
        } else {
            None
        },
        None => None,
    }
}

/// The argv of a service reaches its process verbatim: directly it is the program and its
/// arguments, and through a login shell it is what the arguments end with. The script that the
/// shell parses is always the same.
pub proof fn law_argv_is_passed_verbatim(
    service: Service,
    launch: Launch,
    shell: Seq<u8>,
    cwd: Seq<u8>,
)
    requires
        service.command@.len() > 0,
    ensures
        launch.runs_directly(service) ==> seq![launch.program@] + byte_strings(launch.args@)
            == encoded(texts(service.command@)),
        launch.runs_through(shell, cwd, service) ==> {
            let args = byte_strings(launch.args@);
            let argv = encoded(texts(service.command@));
            &&& args.len() >= argv.len()
            &&& args.skip(args.len() - argv.len()) == argv
            &&& args[1] == encode_utf8("-c"@)
            &&& args[2] == encode_utf8(LOGIN_SCRIPT@)
        },
{
    let argv = encoded(texts(service.command@));
    let args = byte_strings(launch.args@);
    if launch.runs_directly(service) {
        assert(seq![launch.program@] + args =~= argv);
    }
    if launch.runs_through(shell, cwd, service) {
        let order = choose|order: Seq<(String, String)>|
            {
                &&& #[trigger] lists(order, entries(service.env))
                &&& args == login_arguments(cwd) + assignments(order) + argv
            };
        assert(args.skip(args.len() - argv.len()) =~= argv);
    }
}

/// Every environment variable of a service reaches its process: as a variable to set, or as an
/// assignment that `env` makes after the login initialization.
pub proof fn law_environment_is_layered(
    service: Service,
    launch: Launch,
    shell: Seq<u8>,
    cwd: Seq<u8>,
    key: Seq<char>,
)
    requires
        entries(service.env).contains_key(key),
    ensures
        launch.runs_directly(service) ==> exists|i: int|
            0 <= i < launch.env@.len() && (#[trigger] launch.env@[i]).0@ == key && launch.env@[i].1
                == entries(service.env)[key],
        launch.runs_through(shell, cwd, service) ==> byte_strings(launch.args@).contains(
            encode_utf8(key + "="@ + entries(service.env)[key]@),
        ),
{
    if launch.runs_directly(service) {
        let i = choose|i: int|
            0 <= i < launch.env@.len() && (#[trigger] launch.env@[i]).0@ == key;
        assert(launch.env@[i].1 == entries(service.env)[key]);
    }
    if launch.runs_through(shell, cwd, service) {
        let argv = encoded(texts(service.command@));
        let args = byte_strings(launch.args@);
        let order = choose|order: Seq<(String, String)>|
            {
                &&& #[trigger] lists(order, entries(service.env))
                &&& args == login_arguments(cwd) + assignments(order) + argv
            };
        let i = choose|i: int| 0 <= i < order.len() && (#[trigger] order[i]).0@ == key;
        assert(order[i].1 == entries(service.env)[key]);
        assert(args[login_arguments(cwd).len() + i] == encode_utf8(
            key + "="@ + entries(service.env)[key]@,
        ));
    }
}

/// Nothing is added to a service: a direct launch sets no variable that the service does not have,
/// and runs in the service's directory or in none; a launch through the login shell sets none, and
/// its first argument for the script is the directory.
pub proof fn law_nothing_is_added(
    service: Service,
    launch: Launch,
    shell: Seq<u8>,
    cwd: Seq<u8>,
    i: int,
)
    ensures
        launch.runs_directly(service) && 0 <= i < launch.env@.len() ==> entries(
            service.env,
        ).contains_key(launch.env@[i].0@) && entries(service.env)[launch.env@[i].0@]
            == launch.env@[i].1,
        launch.runs_directly(service) ==> (launch.cwd is Some <==> service.cwd is Some),
        launch.runs_directly(service) ==> launch.args@.len() + 1 == service.command@.len()
            || service.command@.len() == 0,
        launch.runs_through(shell, cwd, service) ==> {
            &&& launch.env@.len() == 0
            &&& launch.program@ == shell
            &&& launch.args@.len() >= 6 + service.command@.len()
            &&& byte_strings(launch.args@)[4] == cwd
            &&& byte_strings(launch.args@)[5] == encode_utf8("env"@)
        },
        launch.runs_directly(service) || launch.runs_through(shell, cwd, service) ==> {
            &&& launch.process_group == 0
            &&& launch.stdin == Stream::Null
            &&& launch.stdout == Stream::Piped
            &&& launch.stderr == Stream::Piped
        },
{
    let args = byte_strings(launch.args@);
    let argv = encoded(texts(service.command@));
    assert(args.len() == launch.args@.len());
    assert(argv.len() == service.command@.len());
    if launch.runs_directly(service) && argv.len() > 0 {
        assert(args.len() == argv.skip(1).len());
    }
    if launch.runs_through(shell, cwd, service) {
        let order = choose|order: Seq<(String, String)>|
            {
                &&& #[trigger] lists(order, entries(service.env))
                &&& args == login_arguments(cwd) + assignments(order) + argv
            };
        assert(args[4] == login_arguments(cwd)[4]);
        assert(args[5] == login_arguments(cwd)[5]);
    }
}

/// The login shell is one of the three candidates, the first of them that is not empty.
pub proof fn law_shell_is_the_first_candidate(
    shell_env: Option<Vec<u8>>,
    passwd: Option<Vec<u8>>,
)
    ensures
        ({
            let first = if shell_env is Some {
                shell_env->0@
            } else {
                Seq::empty()
            };
            let second = if passwd is Some {
                passwd->0@
            } else {
                Seq::empty()
            };
            &&& first.len() > 0 ==> chosen_shell(shell_env, passwd) == first
            &&& first.len() == 0 && second.len() > 0 ==> chosen_shell(shell_env, passwd) == second
            &&& first.len() == 0 && second.len() == 0 ==> chosen_shell(shell_env, passwd)
                == encode_utf8("/bin/sh"@)
        }),
{
}

} // verus!
