//! Building the sandboxed command line that runs a snippet.
//!
//! A [`Command`] is run as another user (`sudo -u`), under a wall-clock limit
//! (`timeout -s KILL`) and under resource limits (`s6-softlimit`); the limits
//! are also handed to the program through its environment.  This module
//! decides the exact program, arguments, environment and working directory;
//! starting the process and creating temporary files is left to the caller.

use vstd::prelude::*;

use crate::text::{decimal, decimal_spec, parse_usize, parse_usize_spec};

verus! {

/// The environment variables that a [`Command`] reads, as the process saw them
/// (`None` where a variable is unset or not valid Unicode).
pub struct Environment {
    /// `KAMELI_PROCESSLIMIT`
    pub process_limit: Option<String>,
    /// `KAMELI_MEMLIMIT`
    pub memory_limit: Option<String>,
    /// `KAMELI_FILELIMIT`
    pub file_limit: Option<String>,
    /// `KAMELI_TIMELIMIT`
    pub time_limit: Option<String>,
    /// `KAMELI_RUNUSER`
    pub run_user: Option<String>,
    /// `USER`
    pub user: Option<String>,
}

/// Default limit on the number of processes of a restricted command.
pub const DEFAULT_PROCESS_LIMIT: usize = 1;
/// Default memory limit (bytes) of a restricted command.
pub const DEFAULT_MEMORY_LIMIT: usize = 1000000000;
/// Default file-size limit of a restricted command.
pub const DEFAULT_FILE_LIMIT: usize = 40000;
/// Default time limit (seconds) of a restricted command.
pub const DEFAULT_TIME_LIMIT: usize = 10;

/// Process limit of an almost unlimited command.
pub const UNLIMITED_PROCESS_LIMIT: usize = 100000;
/// Memory limit of an almost unlimited command.
pub const UNLIMITED_MEMORY_LIMIT: u64 = 1000000000000;
/// File-size limit of an almost unlimited command.
pub const UNLIMITED_FILE_LIMIT: u64 = 100000000000;
/// Time limit (seconds) of an almost unlimited command.
pub const UNLIMITED_TIME_LIMIT: usize = 100;

/// The views of an optional string.
pub open spec fn opt_view(o: Option<String>) -> Option<Seq<char>> {
    match o {
        Some(s) => Some(s@),
        None => None,
    }
}

/// A limit variable is usable: unset, or a number that fits in `usize`.
pub open spec fn limit_readable(v: Option<Seq<char>>) -> bool {
    match v {
        Some(s) => parse_usize_spec(s) is Some,
        None => true,
    }
}

/// The limit that a variable sets, or `default` where it is unset.
pub open spec fn limit_value(v: Option<Seq<char>>, default: nat) -> nat {
    match v {
        Some(s) => parse_usize_spec(s).unwrap(),
        None => default,
    }
}

/// The user that commands run as: `KAMELI_RUNUSER`, else `USER`.
pub open spec fn run_user_of(env: Environment) -> Option<Seq<char>> {
    match env.run_user {
        Some(u) => Some(u@),
        None => opt_view(env.user),
    }
}

/// A limit that the environment writes in decimal is readable, and is the
/// number written; the sandbox is then handed that same decimal text.
pub proof fn lemma_limit_read_back(n: nat, default: nat)
    requires
        n <= usize::MAX,
    ensures
        limit_readable(Some(decimal_spec(n))),
        limit_value(Some(decimal_spec(n)), default) == n,
        decimal_spec(limit_value(Some(decimal_spec(n)), default)) == decimal_spec(n),
{
    crate::text::lemma_parse_decimal_roundtrip(n);
}

/// A restricted command takes each limit from its own variable: a variable
/// that holds the decimal text of `n` sets the limit to `n`, and an unset one
/// leaves the default (1 process, 1000000000 bytes of memory, 40000 for
/// files, 10 seconds). It runs as `KAMELI_RUNUSER`, or as `USER` where that
/// is unset, starts with no arguments and in no particular directory.
pub proof fn lemma_restricted_limits(program: Seq<char>, env: Environment, n: nat)
    requires
        n <= usize::MAX,
    ensures
        opt_view(env.process_limit) == Some(decimal_spec(n)) ==> restricted_view(program, env).proc_limit
            == n,
        opt_view(env.memory_limit) == Some(decimal_spec(n)) ==> restricted_view(program, env).mem_limit
            == n,
        opt_view(env.file_limit) == Some(decimal_spec(n)) ==> restricted_view(program, env).file_limit
            == n,
        opt_view(env.time_limit) == Some(decimal_spec(n)) ==> restricted_view(program, env).time_limit
            == n,
        env.process_limit is None ==> restricted_view(program, env).proc_limit == 1,
        env.memory_limit is None ==> restricted_view(program, env).mem_limit == 1000000000,
        env.file_limit is None ==> restricted_view(program, env).file_limit == 40000,
        env.time_limit is None ==> restricted_view(program, env).time_limit == 10,
        env.run_user matches Some(u) ==> restricted_view(program, env).run_user == u@,
        env.run_user is None ==> (env.user matches Some(u) ==> restricted_view(program, env).run_user
            == u@),
        restricted_view(program, env).program == program,
        restricted_view(program, env).args.len() == 0,
        restricted_view(program, env).current_dir is None,
{
    lemma_limit_read_back(n, 0);
}

/// An almost unlimited command ignores the limit variables: 100000
/// processes, 1000000000000 bytes of memory, 100000000000 for files and 100
/// seconds, each above the default of a restricted command. It runs as the
/// same user as a restricted one would.
pub proof fn lemma_unlimited_limits(program: Seq<char>, env: Environment)
    ensures
        unlimited_view(program, env).proc_limit == 100000,
        unlimited_view(program, env).mem_limit == 1000000000000,
        unlimited_view(program, env).file_limit == 100000000000,
        unlimited_view(program, env).time_limit == 100,
        unlimited_view(program, env).proc_limit > DEFAULT_PROCESS_LIMIT,
        unlimited_view(program, env).mem_limit > DEFAULT_MEMORY_LIMIT,
        unlimited_view(program, env).file_limit > DEFAULT_FILE_LIMIT,
        unlimited_view(program, env).time_limit > DEFAULT_TIME_LIMIT,
        unlimited_view(program, env).run_user == restricted_view(program, env).run_user,
        unlimited_view(program, env).program == program,
        unlimited_view(program, env).args.len() == 0,
        unlimited_view(program, env).current_dir is None,
{
}

/// What a restricted [`Command::new`] needs from the environment: readable
/// limits and a user to run as.
pub open spec fn environment_usable(env: Environment) -> bool {
    &&& limit_readable(opt_view(env.process_limit))
    &&& limit_readable(opt_view(env.memory_limit))
    &&& limit_readable(opt_view(env.file_limit))
    &&& limit_readable(opt_view(env.time_limit))
    &&& run_user_of(env) is Some
}

/// The value of [`Command::new`] for `program`.
pub open spec fn restricted_view(program: Seq<char>, env: Environment) -> CommandView {
    CommandView {
        program: program,
        args: Seq::empty(),
        proc_limit: limit_value(opt_view(env.process_limit), DEFAULT_PROCESS_LIMIT as nat),
        mem_limit: limit_value(opt_view(env.memory_limit), DEFAULT_MEMORY_LIMIT as nat),
        time_limit: limit_value(opt_view(env.time_limit), DEFAULT_TIME_LIMIT as nat),
        file_limit: limit_value(opt_view(env.file_limit), DEFAULT_FILE_LIMIT as nat),
        run_user: run_user_of(env)->0,
        current_dir: None,
    }
}

/// The value of [`Command::unlimited`] for `program`.
pub open spec fn unlimited_view(program: Seq<char>, env: Environment) -> CommandView {
    CommandView {
        program: program,
        args: Seq::empty(),
        proc_limit: UNLIMITED_PROCESS_LIMIT as nat,
        mem_limit: UNLIMITED_MEMORY_LIMIT as nat,
        time_limit: UNLIMITED_TIME_LIMIT as nat,
        file_limit: UNLIMITED_FILE_LIMIT as nat,
        run_user: run_user_of(env)->0,
        current_dir: None,
    }
}

fn readable(v: &Option<String>) -> (r: bool)
    ensures
        r == limit_readable(opt_view(*v)),
{
    match v {
        Some(s) => parse_usize(s.as_str()).is_some(),
        None => true,
    }
}

/// Whether [`Command::new`] can read `env` ([`environment_usable`]).
pub fn environment_readable(env: &Environment) -> (r: bool)
    ensures
        r == environment_usable(*env),
{
    readable(&env.process_limit) && readable(&env.memory_limit) && readable(&env.file_limit)
        && readable(&env.time_limit) && has_run_user(env)
}

/// Whether `env` names a user to run commands as.
pub fn has_run_user(env: &Environment) -> (r: bool)
    ensures
        r == (run_user_of(*env) is Some),
{
    env.run_user.is_some() || env.user.is_some()
}

/// The abstract value of a [`Command`].
pub struct CommandView {
    pub program: Seq<char>,
    pub args: Seq<Seq<char>>,
    pub proc_limit: nat,
    pub mem_limit: nat,
    pub time_limit: nat,
    pub file_limit: nat,
    pub run_user: Seq<char>,
    pub current_dir: Option<Seq<char>>,
}

/// Command runner: runs `program` as another user, with time and resource limits.
pub struct Command {
    program: String,
    args: Vec<String>,
    proc_limit: u64,
    mem_limit: u64,
    time_limit: u64,
    file_limit: u64,
    run_user: String,
    current_dir: Option<String>,
}

impl View for Command {
    type V = CommandView;

    closed spec fn view(&self) -> CommandView {
        CommandView {
            program: self.program@,
            args: self.args.deep_view(),
            proc_limit: self.proc_limit as nat,
            mem_limit: self.mem_limit as nat,
            time_limit: self.time_limit as nat,
            file_limit: self.file_limit as nat,
            run_user: self.run_user@,
            current_dir: opt_view(self.current_dir),
        }
    }
}

/// One process to start: program, arguments, extra environment variables and
/// the directory to start it in (the current one where `None`).
pub struct Invocation {
    pub program: String,
    pub args: Vec<String>,
    pub envs: Vec<(String, String)>,
    pub current_dir: Option<String>,
}

/// The abstract value of an [`Invocation`].
pub struct InvocationView {
    pub program: Seq<char>,
    pub args: Seq<Seq<char>>,
    pub envs: Seq<(Seq<char>, Seq<char>)>,
    pub current_dir: Option<Seq<char>>,
}

impl View for Invocation {
    type V = InvocationView;

    open spec fn view(&self) -> InvocationView {
        InvocationView {
            program: self.program@,
            args: self.args.deep_view(),
            envs: self.envs.deep_view(),
            current_dir: opt_view(self.current_dir),
        }
    }
}

/// The arguments to `sudo` that start `c.program` with `c.args` under the
/// limits of `c`, with `GHC_ARGS` set to `ghc_args` for the program.
pub open spec fn sandbox_args(c: CommandView, ghc_args: Seq<char>) -> Seq<Seq<char>> {
    seq![
        "-u"@,
        c.run_user,
        "timeout"@,
        "-s"@,
        "KILL"@,
        decimal_spec(c.time_limit),
        "s6-softlimit"@,
        "-a"@,
        decimal_spec(c.mem_limit),
        "-f"@,
        decimal_spec(c.file_limit),
        "-p"@,
        decimal_spec(c.proc_limit),
        "env"@,
        "KAMELI_FILELIMIT="@ + decimal_spec(c.file_limit),
        "KAMELI_MEMLIMIT="@ + decimal_spec(c.mem_limit),
        "KAMELI_TIMELIMIT="@ + decimal_spec(c.time_limit),
        "KAMELI_PROCESSLIMIT="@ + decimal_spec(c.proc_limit),
        "GHC_ARGS="@ + ghc_args,
        c.program,
    ] + c.args
}

/// The environment that `sudo` itself is given: the four limits.
pub open spec fn sandbox_env(c: CommandView) -> Seq<(Seq<char>, Seq<char>)> {
    seq![
        ("KAMELI_FILELIMIT"@, decimal_spec(c.file_limit)),
        ("KAMELI_MEMLIMIT"@, decimal_spec(c.mem_limit)),
        ("KAMELI_PROCESSLIMIT"@, decimal_spec(c.proc_limit)),
        ("KAMELI_TIMELIMIT"@, decimal_spec(c.time_limit)),
    ]
}

/// The sandbox command line: `sudo -u` the user, `timeout -s KILL` the time
/// limit, then `s6-softlimit` with the memory (`-a`), file (`-f`) and process
/// (`-p`) limits, then `env` setting for the program the same four limits
/// and `GHC_ARGS`, then the program and its own arguments, with nothing after
/// them. Every limit that `sudo` is given in its environment is also the one
/// on the command line.
pub proof fn lemma_sandbox_args(c: CommandView, ghc_args: Seq<char>)
    ensures
        sandbox_args(c, ghc_args).len() == 20 + c.args.len(),
        sandbox_args(c, ghc_args).take(2) == seq!["-u"@, c.run_user],
        sandbox_args(c, ghc_args).subrange(2, 6) == seq!["timeout"@, "-s"@, "KILL"@, decimal_spec(c.time_limit)],
        sandbox_args(c, ghc_args).subrange(6, 13) == seq![
            "s6-softlimit"@,
            "-a"@,
            decimal_spec(c.mem_limit),
            "-f"@,
            decimal_spec(c.file_limit),
            "-p"@,
            decimal_spec(c.proc_limit),
        ],
        sandbox_args(c, ghc_args)[13] == "env"@,
        sandbox_args(c, ghc_args)[18] == "GHC_ARGS="@ + ghc_args,
        sandbox_args(c, ghc_args).skip(19) == seq![c.program] + c.args,
        forall|k: int|
            0 <= k < 4 ==> sandbox_args(c, ghc_args).contains(
                #[trigger] sandbox_env(c)[k].0 + "="@ + sandbox_env(c)[k].1,
            ),
{
    let a = sandbox_args(c, ghc_args);
    assert(a.take(2) =~= seq!["-u"@, c.run_user]);
    assert(a.subrange(2, 6) =~= seq!["timeout"@, "-s"@, "KILL"@, decimal_spec(c.time_limit)]);
    assert(a.subrange(6, 13) =~= seq![
        "s6-softlimit"@,
        "-a"@,
        decimal_spec(c.mem_limit),
        "-f"@,
        decimal_spec(c.file_limit),
        "-p"@,
        decimal_spec(c.proc_limit),
    ]);
    assert(a.skip(19) =~= seq![c.program] + c.args);
    reveal_strlit("KAMELI_FILELIMIT=");
    reveal_strlit("KAMELI_FILELIMIT");
    reveal_strlit("KAMELI_MEMLIMIT=");
    reveal_strlit("KAMELI_MEMLIMIT");
    reveal_strlit("KAMELI_TIMELIMIT=");
    reveal_strlit("KAMELI_TIMELIMIT");
    reveal_strlit("KAMELI_PROCESSLIMIT=");
    reveal_strlit("KAMELI_PROCESSLIMIT");
    reveal_strlit("=");
    let e = sandbox_env(c);
    assert(e[0].0 + "="@ + e[0].1 =~= a[14]);
    assert(e[1].0 + "="@ + e[1].1 =~= a[15]);
    assert(e[2].0 + "="@ + e[2].1 =~= a[17]);
    assert(e[3].0 + "="@ + e[3].1 =~= a[16]);
    assert forall|k: int| 0 <= k < 4 implies a.contains(#[trigger] e[k].0 + "="@ + e[k].1) by {
        if k == 0 {
            assert(a[14] == e[0].0 + "="@ + e[0].1);
        } else if k == 1 {
            assert(a[15] == e[1].0 + "="@ + e[1].1);
        } else if k == 2 {
            assert(a[17] == e[2].0 + "="@ + e[2].1);
        } else {
            assert(a[16] == e[3].0 + "="@ + e[3].1);
        }
    }
}

fn owned(s: &str) -> (r: String)
    ensures
        r@ == s@,
{
    s.to_owned()
}

fn concat(a: &str, b: &str) -> (r: String)
    ensures
        r@ == a@ + b@,
{
    let mut r = a.to_owned();
    r.append(b);
    r
}

/// Reads a limit variable, falling back to `default`.
fn read_limit(v: &Option<String>, default: usize) -> (r: u64)
    requires
        limit_readable(opt_view(*v)),
    ensures
        r as nat == limit_value(opt_view(*v), default as nat),
{
    match v {
        Some(s) => {
            let p = parse_usize(s.as_str());
            match p {
                Some(n) => n as u64,
                None => 0,
            }
        },
        None => default as u64,
    }
}

fn read_run_user(env: &Environment) -> (r: String)
    requires
        run_user_of(*env) is Some,
    ensures
        r@ == run_user_of(*env)->0,
{
    match &env.run_user {
        Some(u) => u.clone(),
        None => match &env.user {
            Some(u) => u.clone(),
            None => String::new(),
        },
    }
}

impl Command {
    /// Create a new [`Command`] for `program`. This is a restricted usecase:
    /// the limits come from the `KAMELI_*` variables of `env`, with small
    /// defaults where they are unset.
    pub fn new(program: &str, env: &Environment) -> (c: Command)
        requires
            environment_usable(*env),
        ensures
            c@ == restricted_view(program@, *env),
    {
        let c = Command {
            program: owned(program),
            args: Vec::new(),
            proc_limit: read_limit(&env.process_limit, DEFAULT_PROCESS_LIMIT),
            mem_limit: read_limit(&env.memory_limit, DEFAULT_MEMORY_LIMIT),
            file_limit: read_limit(&env.file_limit, DEFAULT_FILE_LIMIT),
            time_limit: read_limit(&env.time_limit, DEFAULT_TIME_LIMIT),
            run_user: read_run_user(env),
            current_dir: None,
        };
        assert(c.args.deep_view() =~= Seq::<Seq<char>>::empty());
        c
    }

    /// Create a new [`Command`] which is almost unlimited.
    pub fn unlimited(program: &str, env: &Environment) -> (c: Command)
        requires
            run_user_of(*env) is Some,
        ensures
            c@ == unlimited_view(program@, *env),
    {
        let c = Command {
            program: owned(program),
            args: Vec::new(),
            proc_limit: UNLIMITED_PROCESS_LIMIT as u64,
            mem_limit: UNLIMITED_MEMORY_LIMIT,
            file_limit: UNLIMITED_FILE_LIMIT,
            time_limit: UNLIMITED_TIME_LIMIT as u64,
            run_user: read_run_user(env),
            current_dir: None,
        };
        assert(c.args.deep_view() =~= Seq::<Seq<char>>::empty());
        c
    }

    /// Add an argument.
    pub fn arg(self, arg: &str) -> (c: Command)
        ensures
            c@ == (CommandView { args: self@.args.push(arg@), ..self@ }),
    {
        let mut c = self;
        c.args.push(owned(arg));
        assert(c.args.deep_view() =~= self.args.deep_view().push(arg@));
        c
    }

    /// Extend arguments with a list (which can be empty).
    pub fn args(self, args: &Vec<String>) -> (c: Command)
        ensures
            c@ == (CommandView { args: self@.args + args.deep_view(), ..self@ }),
    {
        let mut c = self;
        let mut i: usize = 0;
        while i < args.len()
            invariant
                i <= args.len(),
                c@ == (CommandView {
                    args: self@.args + args.deep_view().take(i as int),
                    ..self@
                }),
            decreases args.len() - i,
        {
            let a = args[i].clone();
            assert(a@ == args.deep_view()[i as int]);
            let ghost prev = c.args.deep_view();
            c.args.push(a);
            assert(c.args.deep_view() =~= prev.push(a@));
            assert(args.deep_view().take(i + 1) =~= args.deep_view().take(i as int).push(a@));
            assert(c.args.deep_view() =~= self.args.deep_view() + args.deep_view().take(i + 1));
            i += 1;
        }
        assert(args.deep_view().take(args.len() as int) =~= args.deep_view());
        c
    }

    /// Set in which directory the command should be executed. This makes it
    /// unnecessary to create a temporary directory, so none will be created.
    pub fn current_dir(self, dir: &str) -> (c: Command)
        ensures
            c@ == (CommandView { current_dir: Some(dir@), ..self@ }),
    {
        let mut c = self;
        c.current_dir = Some(owned(dir));
        c
    }

    /// The directory set by [`Command::current_dir`], if any.
    pub fn get_current_dir(&self) -> (d: Option<String>)
        ensures
            opt_view(d) == self@.current_dir,
    {
        self.current_dir.clone()
    }

    /// The arguments to `sudo`, before what a particular run appends.
    fn sandbox_prefix(&self, ghc_args: &str) -> (r: Vec<String>)
        ensures
            r.deep_view() == sandbox_args(self@, ghc_args@),
    {
        let time = decimal(self.time_limit);
        let mem = decimal(self.mem_limit);
        let file = decimal(self.file_limit);
        let procs = decimal(self.proc_limit);
        let mut r: Vec<String> = Vec::new();
        r.push(owned("-u"));
        r.push(self.run_user.clone());
        r.push(owned("timeout"));
        r.push(owned("-s"));
        r.push(owned("KILL"));
        r.push(time.clone());
        r.push(owned("s6-softlimit"));
        r.push(owned("-a"));
        r.push(mem.clone());
        r.push(owned("-f"));
        r.push(file.clone());
        r.push(owned("-p"));
        r.push(procs.clone());
        r.push(owned("env"));
        r.push(concat("KAMELI_FILELIMIT=", file.as_str()));
        r.push(concat("KAMELI_MEMLIMIT=", mem.as_str()));
        r.push(concat("KAMELI_TIMELIMIT=", time.as_str()));
        r.push(concat("KAMELI_PROCESSLIMIT=", procs.as_str()));
        r.push(concat("GHC_ARGS=", ghc_args));
        r.push(self.program.clone());
        let ghost before = r.deep_view();
        let mut i: usize = 0;
        while i < self.args.len()
            invariant
                i <= self.args.len(),
                r.deep_view() == before + self.args.deep_view().take(i as int),
            decreases self.args.len() - i,
        {
            let a = self.args[i].clone();
            assert(a@ == self.args.deep_view()[i as int]);
            let ghost prev = r.deep_view();
            r.push(a);
            assert(r.deep_view() =~= prev.push(a@));
            assert(self.args.deep_view().take(i + 1) =~= self.args.deep_view().take(i as int).push(a@));
            assert(r.deep_view() =~= before + self.args.deep_view().take(i + 1));
            i += 1;
        }
        assert(self.args.deep_view().take(self.args.len() as int) =~= self.args.deep_view());
        assert(r.deep_view() =~= sandbox_args(self@, ghc_args@));
        r
    }

    fn sandbox_env(&self) -> (r: Vec<(String, String)>)
        ensures
            r.deep_view() == sandbox_env(self@),
    {
        let mut r: Vec<(String, String)> = Vec::new();
        r.push((owned("KAMELI_FILELIMIT"), decimal(self.file_limit)));
        r.push((owned("KAMELI_MEMLIMIT"), decimal(self.mem_limit)));
        r.push((owned("KAMELI_PROCESSLIMIT"), decimal(self.proc_limit)));
        r.push((owned("KAMELI_TIMELIMIT"), decimal(self.time_limit)));
        assert(r.deep_view() =~= sandbox_env(self@));
        r
    }

    /// Run the command without creating anything temporary: the sandbox
    /// prefix, then the program and its arguments. Runs in the current
    /// directory if [`Command::current_dir`] is unset.
    pub fn run(self, ghc_args: &str) -> (r: Invocation)
        ensures
            r@ == (InvocationView {
                program: "sudo"@,
                args: sandbox_args(self@, ghc_args@),
                envs: sandbox_env(self@),
                current_dir: self@.current_dir,
            }),
    {
        let args = self.sandbox_prefix(ghc_args);
        Invocation {
            program: owned("sudo"),
            args,
            envs: self.sandbox_env(),
            current_dir: self.current_dir.clone(),
        }
    }

    /// Run on content placed by the caller in the file `file`: the file is
    /// appended to the command, then the extension, if one is given, which a
    /// script can use to name the files it creates. Without a directory set by
    /// [`Command::current_dir`], the command runs in `temp_dir`.
    pub fn run_with_content(
        self,
        file: &str,
        extension: Option<&str>,
        temp_dir: &str,
        ghc_args: &str,
    ) -> (r: Invocation)
        ensures
            r@ == (InvocationView {
                program: "sudo"@,
                args: sandbox_args(self@, ghc_args@).push(file@) + match extension {
                    Some(e) => seq![e@],
                    None => Seq::empty(),
                },
                envs: sandbox_env(self@),
                current_dir: Some(
                    match self@.current_dir {
                        Some(d) => d,
                        None => temp_dir@,
                    },
                ),
            }),
    {
        let mut args = self.sandbox_prefix(ghc_args);
        let ghost before = args.deep_view();
        args.push(owned(file));
        match extension {
            Some(e) => {
                args.push(owned(e));
            },
            None => {},
        }
        assert(args.deep_view() =~= before.push(file@) + match extension {
            Some(e) => seq![e@],
            None => Seq::empty(),
        });
        let dir = match &self.current_dir {
            Some(d) => d.clone(),
            None => owned(temp_dir),
        };
        Invocation { program: owned("sudo"), args, envs: self.sandbox_env(), current_dir: Some(dir) }
    }

    /// Same as [`Command::run`], but appends a series of paths as arguments;
    /// without a directory set by [`Command::current_dir`], runs in `temp_dir`.
    pub fn run_with_paths(self, paths: &Vec<String>, temp_dir: &str, ghc_args: &str) -> (r:
        Invocation)
        ensures
            r@ == (InvocationView {
                program: "sudo"@,
                args: sandbox_args(self@, ghc_args@) + paths.deep_view(),
                envs: sandbox_env(self@),
                current_dir: Some(
                    match self@.current_dir {
                        Some(d) => d,
                        None => temp_dir@,
                    },
                ),
            }),
    {
        let mut args = self.sandbox_prefix(ghc_args);
        let ghost before = args.deep_view();
        let mut i: usize = 0;
        while i < paths.len()
            invariant
                i <= paths.len(),
                args.deep_view() == before + paths.deep_view().take(i as int),
            decreases paths.len() - i,
        {
            let a = paths[i].clone();
            assert(a@ == paths.deep_view()[i as int]);
            let ghost prev = args.deep_view();
            args.push(a);
            assert(args.deep_view() =~= prev.push(a@));
            assert(paths.deep_view().take(i + 1) =~= paths.deep_view().take(i as int).push(a@));
            assert(args.deep_view() =~= before + paths.deep_view().take(i + 1));
            i += 1;
        }
        assert(paths.deep_view().take(paths.len() as int) =~= paths.deep_view());
        let dir = match &self.current_dir {
            Some(d) => d.clone(),
            None => owned(temp_dir),
        };
        Invocation { program: owned("sudo"), args, envs: self.sandbox_env(), current_dir: Some(dir) }
    }
}

} // verus!
