//! Running one external command to completion.
//!
//! A [`Command`] names a program and its arguments; spawning it yields a
//! [`RunningCommand`], and [`run`] drives the child to completion: it waits
//! for the exit status, racing an optional timeout, and translates the
//! outcome into the engine's error vocabulary. The child's stdin is closed
//! at spawn time; its output can be captured for the parsers in the rest of
//! the engine. Waiting twice on the same command is a programming-error
//! class failure and is reported as such, never performed.

use vstd::prelude::*;
use vstd::string::StringExecFns;

use futures_lite::AsyncReadExt;

use crate::runner::Check;
use crate::runner::CheckModel;
use crate::runner::Crate;
use crate::runner::str_views;
use crate::RunnerError;

verus! {

/// The child-process handle of the process library.
#[verifier::external_type_specification]
#[verifier::external_body]
pub struct ExChild(async_process::Child);

/// How waiting on a child ended.
pub enum WaitOutcome {
    /// The process exited; `success` is whether the status was zero, `code`
    /// the raw exit code when the process exited normally.
    Exited { success: bool, code: Option<i32> },
    /// The timeout fired before the process exited.
    TimedOut,
    /// The process handle failed while waiting.
    Failed(String),
}

/// Spawn a program with the given arguments, in the given working
/// directory, with stdin closed; the child's stdout, and its stderr too
/// when asked, are captured into pipes.
///
/// Relies on `async_process::Command`: `new`, `args`, `current_dir`,
/// `stdin`, `stdout`, `stderr` configure the child, and `spawn` launches
/// it.
#[verifier::external_body]
fn spawn_child(
    program: &String,
    args: &Vec<String>,
    dir: &Option<String>,
    capture: bool,
    capture_err: bool,
) -> (r: Result<async_process::Child, String>) {
    let mut c = async_process::Command::new(program);
    c.args(args);
    if let Option::Some(d) = dir {
        c.current_dir(d);
    }
    c.stdin(async_process::Stdio::null());
    if capture {
        c.stdout(async_process::Stdio::piped());
    }
    if capture_err {
        c.stderr(async_process::Stdio::piped());
    }
    c.spawn().map_err(|e| e.to_string())
}

/// Drive the child to completion, collecting its captured stdout and
/// stderr concurrently, and report its exit.
///
/// Relies on `async_process::Child::output`: it reads both captured pipes
/// to their end while waiting for the exit status.
#[verifier::external_body]
fn wait_with_output(child: async_process::Child) -> (r: Result<
    (bool, Option<i32>, Vec<u8>, Vec<u8>),
    String,
>) {
    match futures_lite::future::block_on(child.output()) {
        Ok(o) => Ok((o.status.success(), o.status.code(), o.stdout, o.stderr)),
        Err(e) => Err(e.to_string()),
    }
}

/// Wait for the child to exit, racing an optional timeout (in
/// milliseconds): whichever of {process exit, deadline} is reached first
/// wins, with a poll granularity of a few milliseconds.
///
/// Relies on `async_process::Child::try_status` and `async_io::Timer`:
/// without a timeout there is no deadline, so `TimedOut` can only be
/// returned when a timeout was given.
#[verifier::external_body]
fn wait_child(child: &mut async_process::Child, timeout_ms: Option<u64>) -> (r: WaitOutcome)
    ensures
        r is TimedOut ==> timeout_ms is Some,
{
    let deadline = timeout_ms.map(|ms| std::time::Instant::now() + std::time::Duration::from_millis(ms));
    loop {
        match child.try_status() {
            Err(e) => return WaitOutcome::Failed(e.to_string()),
            Ok(Some(s)) => return WaitOutcome::Exited { success: s.success(), code: s.code() },
            Ok(None) => {},
        }
        if deadline.map_or(false, |d| std::time::Instant::now() >= d) {
            return WaitOutcome::TimedOut;
        }
        futures_lite::future::block_on(async_io::Timer::after(std::time::Duration::from_millis(5)));
    }
}

/// Read the child's captured stdout to its end.
///
/// Relies on `futures_lite::AsyncReadExt::read_to_string`: returns what the
/// child wrote, or `None` when stdout was not captured or was not valid
/// text.
#[verifier::external_body]
fn read_stdout_to_string(child: &mut async_process::Child) -> (r: Option<String>) {
    let mut stdout = child.stdout.take()?;
    let mut buf = String::new();
    futures_lite::future::block_on(stdout.read_to_string(&mut buf)).ok()?;
    Some(buf)
}

/// Block for the given number of milliseconds.
///
/// Relies on `async_io::Timer::after`.
#[verifier::external_body]
pub(crate) fn sleep_ms(ms: u64) {
    futures_lite::future::block_on(async_io::Timer::after(std::time::Duration::from_millis(ms)));
}

/// A spawned child process, and whether its exit has already resolved.
pub struct RunningCommand {
    child: async_process::Child,
    exited: bool,
}

impl RunningCommand {
    /// Whether the command's exit has already resolved; waiting again on a
    /// resolved command is refused.
    pub closed spec fn resolved(self) -> bool {
        self.exited
    }

    /// Read the child's captured stdout to its end: what the child wrote,
    /// or `None` when stdout was not captured or was not valid text.
    pub fn read_stdout(&mut self) -> (r: Option<String>)
        ensures
            final(self).resolved() == old(self).resolved(),
    {
        read_stdout_to_string(&mut self.child)
    }
}

/// The engine result an exit status is translated to: success exactly on
/// a zero status, else a failing-exit error carrying the raw code.
pub open spec fn spec_interpret_exit(success: bool, code: Option<i32>) -> Result<(), RunnerError> {
    if success {
        Result::Ok(())
    } else {
        Result::Err(RunnerError::NonZeroExit(code))
    }
}

/// Translate an exit status into the engine's error vocabulary, exactly as
/// [`spec_interpret_exit`] prescribes.
pub fn interpret_exit(success: bool, code: Option<i32>) -> (r: Result<(), RunnerError>)
    ensures
        r == spec_interpret_exit(success, code),
{
    if success {
        Result::Ok(())
    } else {
        Result::Err(RunnerError::NonZeroExit(code))
    }
}

impl RunningCommand {
    /// Drive the command to completion, collecting its captured stdout and
    /// stderr: `(stdout, stderr)` exactly on a clean exit, the exit status
    /// translated by [`interpret_exit`] otherwise, and a spawn-class error
    /// when the wait itself fails. There is no timer here, so this can
    /// never time out. A command whose exit already resolved is not waited
    /// on again.
    pub fn run_with_output(self) -> (r: Result<(Vec<u8>, Vec<u8>), RunnerError>)
        ensures
            self.resolved() ==> (r matches Err(e) && e is DoubleCompletion),
            !self.resolved() ==> (r matches Err(e) ==> (e is NonZeroExit || e is Spawn)),
    {
        if self.exited {
            return Result::Err(RunnerError::DoubleCompletion);
        }
        match wait_with_output(self.child) {
            Result::Ok((success, code, out, err)) => {
                match interpret_exit(success, code) {
                    Result::Ok(()) => Result::Ok((out, err)),
                    Result::Err(e) => Result::Err(e),
                }
            },
            Result::Err(msg) => Result::Err(RunnerError::Spawn(msg)),
        }
    }
}

/// The engine result each wait outcome is translated to.
pub open spec fn spec_interpret(outcome: WaitOutcome) -> Result<(), RunnerError> {
    match outcome {
        WaitOutcome::Exited { success, code } => if success {
            Result::Ok(())
        } else {
            Result::Err(RunnerError::NonZeroExit(code))
        },
        WaitOutcome::TimedOut => Result::Err(RunnerError::Timeout),
        WaitOutcome::Failed(msg) => Result::Err(RunnerError::Spawn(msg)),
    }
}

/// Translate a wait outcome into the engine's error vocabulary: success
/// exactly on a zero exit status, a distinct error for a failing status
/// (carrying the raw code), for a timeout, and for a wait failure.
pub fn interpret_wait(outcome: WaitOutcome) -> (r: Result<(), RunnerError>)
    ensures
        r == spec_interpret(outcome),
{
    match outcome {
        WaitOutcome::Exited { success, code } => {
            if success {
                Result::Ok(())
            } else {
                Result::Err(RunnerError::NonZeroExit(code))
            }
        },
        WaitOutcome::TimedOut => Result::Err(RunnerError::Timeout),
        WaitOutcome::Failed(msg) => Result::Err(RunnerError::Spawn(msg)),
    }
}

/// Run a command to completion: wait for its exit, racing the optional
/// timeout (in milliseconds).
///
/// A command whose exit already resolved is not waited on again: that is
/// the `DoubleCompletion` programming error. A timeout can only be
/// reported when a timeout was requested, and leaves the exit unresolved;
/// the child itself is not killed. Every other outcome resolves the exit.
pub fn run(cmd: &mut RunningCommand, timeout_ms: Option<u64>) -> (r: Result<(), RunnerError>)
    ensures
        old(cmd).resolved() ==> {
            &&& r matches Err(e) && e is DoubleCompletion
            &&& *final(cmd) == *old(cmd)
        },
        !old(cmd).resolved() ==> {
            &&& (r matches Err(e) ==> (e is NonZeroExit || e is Timeout || e is Spawn))
            &&& (r matches Err(e) && e is Timeout ==> timeout_ms is Some)
            &&& final(cmd).resolved() == !(r matches Err(e) && e is Timeout)
        },
{
    if cmd.exited {
        return Result::Err(RunnerError::DoubleCompletion);
    }
    let outcome = wait_child(&mut cmd.child, timeout_ms);
    match &outcome {
        WaitOutcome::TimedOut => {},
        _ => {
            cmd.exited = true;
        },
    }
    interpret_wait(outcome)
}

/// Mathematical model of a [`Command`]: its program name and arguments.
pub struct CommandModel {
    pub program: Seq<char>,
    pub args: Seq<Seq<char>>,
}

/// A command to run: a program name and its arguments.
#[derive(Clone, Debug, PartialEq)]
pub struct Command {
    program: String,
    args: Vec<String>,
}

impl View for Command {
    type V = CommandModel;

    closed spec fn view(&self) -> CommandModel {
        CommandModel { program: self.program@, args: str_views(self.args@) }
    }
}

impl Command {
    /// Create a new command with no arguments.
    pub fn new(command: String) -> (r: Command)
        ensures
            r@.program == command@,
            r@.args == Seq::<Seq<char>>::empty(),
    {
        let r = Command { program: command, args: Vec::new() };
        proof {
            assert(r@.args =~= Seq::<Seq<char>>::empty());
        }
        r
    }

    /// Add an argument to this command.
    pub fn arg(&mut self, arg: String)
        ensures
            final(self)@.program == old(self)@.program,
            final(self)@.args == old(self)@.args.push(arg@),
    {
        let ghost before = self.args@;
        self.args.push(arg);
        proof {
            assert(str_views(self.args@) =~= str_views(before).push(self.args@.last()@));
        }
    }

    /// Add several arguments to this command.
    pub fn args(&mut self, args: Vec<String>)
        ensures
            final(self)@.program == old(self)@.program,
            final(self)@.args == old(self)@.args + str_views(args@),
    {
        let ghost base = str_views(self.args@);
        let ghost prog = self@.program;
        let mut i: usize = 0;
        while i < args.len()
            invariant
                i <= args@.len(),
                self@.program == prog,
                str_views(self.args@) =~= base + str_views(args@.take(i as int)),
            decreases args@.len() - i,
        {
            let a = args[i].clone();
            let ghost before = self.args@;
            self.args.push(a);
            i = i + 1;
            proof {
                assert(str_views(self.args@) =~= str_views(before).push(args@[i - 1]@));
                assert(str_views(args@.take(i as int)) =~= str_views(args@.take(i - 1)).push(
                    args@[i - 1]@,
                ));
                assert(str_views(self.args@) =~= base + str_views(args@.take(i as int)));
            }
        }
        proof {
            assert(args@.take(args@.len() as int) =~= args@);
            assert(str_views(self.args@) =~= base + str_views(args@));
        }
    }

    /// The program this command runs.
    pub fn program(&self) -> (r: &String)
        ensures
            r@ == self@.program,
    {
        &self.program
    }

    /// The arguments of this command, in order.
    pub fn argument_list(&self) -> (r: &Vec<String>)
        ensures
            str_views(r@) == self@.args,
    {
        &self.args
    }

    /// Spawn this command in the given working directory, stdin closed,
    /// stdout captured into a pipe when `capture` is set. The exit of the
    /// returned command has not resolved.
    pub fn spawn(&self, dir: &Option<String>, capture: bool) -> (r: Result<
        RunningCommand,
        RunnerError,
    >)
        ensures
            r matches Ok(c) ==> !c.resolved(),
            r matches Err(e) ==> e is Spawn,
    {
        match spawn_child(&self.program, &self.args, dir, capture, false) {
            Result::Ok(child) => Result::Ok(RunningCommand { child, exited: false }),
            Result::Err(msg) => Result::Err(RunnerError::Spawn(msg)),
        }
    }

    /// Spawn this command with both its stdout and its stderr captured, for
    /// callers that scrape the combined output.
    pub fn spawn_captured(&self, dir: &Option<String>) -> (r: Result<
        RunningCommand,
        RunnerError,
    >)
        ensures
            r matches Ok(c) ==> !c.resolved(),
            r matches Err(e) ==> e is Spawn,
    {
        match spawn_child(&self.program, &self.args, dir, true, true) {
            Result::Ok(child) => Result::Ok(RunningCommand { child, exited: false }),
            Result::Err(msg) => Result::Err(RunnerError::Spawn(msg)),
        }
    }
}

/// The tool name to use: the configured override when one is set, else the
/// default name looked up on `PATH`.
pub open spec fn spec_tool_name(overridden: Option<Seq<char>>, default: Seq<char>) -> Seq<char> {
    match overridden {
        Option::Some(name) => name,
        Option::None => default,
    }
}

/// `rustfmt`, overridable by configuration.
pub fn rustfmt(overridden: Option<String>) -> (r: Command)
    ensures
        r@.program == spec_tool_name(
            match overridden {
                Option::Some(o) => Some(o@),
                Option::None => Option::None,
            },
            "rustfmt"@,
        ),
        r@.args == Seq::<Seq<char>>::empty(),
{
    command_with_default(overridden, "rustfmt")
}

/// `rustc`, overridable by configuration.
pub fn rustc(overridden: Option<String>) -> (r: Command)
    ensures
        r@.program == spec_tool_name(
            match overridden {
                Option::Some(o) => Some(o@),
                Option::None => Option::None,
            },
            "rustc"@,
        ),
        r@.args == Seq::<Seq<char>>::empty(),
{
    command_with_default(overridden, "rustc")
}

/// `cargo`, overridable by configuration.
pub fn cargo(overridden: Option<String>) -> (r: Command)
    ensures
        r@.program == spec_tool_name(
            match overridden {
                Option::Some(o) => Some(o@),
                Option::None => Option::None,
            },
            "cargo"@,
        ),
        r@.args == Seq::<Seq<char>>::empty(),
{
    command_with_default(overridden, "cargo")
}

/// `docker`, overridable by configuration.
pub fn docker(overridden: Option<String>) -> (r: Command)
    ensures
        r@.program == spec_tool_name(
            match overridden {
                Option::Some(o) => Some(o@),
                Option::None => Option::None,
            },
            "docker"@,
        ),
        r@.args == Seq::<Seq<char>>::empty(),
{
    command_with_default(overridden, "docker")
}

/// `adb`, overridable by configuration.
pub fn adb(overridden: Option<String>) -> (r: Command)
    ensures
        r@.program == spec_tool_name(
            match overridden {
                Option::Some(o) => Some(o@),
                Option::None => Option::None,
            },
            "adb"@,
        ),
        r@.args == Seq::<Seq<char>>::empty(),
{
    command_with_default(overridden, "adb")
}

/// `xbuild`, the device-deployment tool, overridable by configuration.
pub fn xbuild(overridden: Option<String>) -> (r: Command)
    ensures
        r@.program == spec_tool_name(
            match overridden {
                Option::Some(o) => Some(o@),
                Option::None => Option::None,
            },
            "x"@,
        ),
        r@.args == Seq::<Seq<char>>::empty(),
{
    command_with_default(overridden, "x")
}

/// A command named by the override when one is configured, else by the
/// given default.
fn command_with_default(overridden: Option<String>, default: &str) -> (r: Command)
    ensures
        r@.program == spec_tool_name(
            match overridden {
                Option::Some(o) => Some(o@),
                Option::None => Option::None,
            },
            default@,
        ),
        r@.args == Seq::<Seq<char>>::empty(),
{
    let name = match overridden {
        Option::Some(o) => o,
        Option::None => default.to_owned(),
    };
    Command::new(name)
}

/// The features list joined with commas.
pub open spec fn spec_join_comma(features: Seq<Seq<char>>) -> Seq<char>
    decreases features.len(),
{
    if features.len() == 0 {
        Seq::empty()
    } else if features.len() == 1 {
        features[0]
    } else {
        spec_join_comma(features.drop_last()) + seq![','] + features.last()
    }
}

/// Join the features list with commas.
fn join_comma(features: &Vec<String>) -> (r: String)
    ensures
        r@ == spec_join_comma(str_views(features@)),
{
    let mut out = String::new();
    let mut i: usize = 0;
    while i < features.len()
        invariant
            i <= features@.len(),
            out@ == spec_join_comma(str_views(features@).take(i as int)),
        decreases features@.len() - i,
    {
        let ghost views = str_views(features@);
        if i > 0 {
            out.append(",");
        }
        out.append(features[i].as_str());
        i = i + 1;
        proof {
            reveal_strlit(",");
            let upto = views.take(i as int);
            assert(upto.drop_last() =~= views.take(i - 1));
            assert(upto.last() == features@[i - 1]@);
            if i > 1 {
                assert(out@ =~= spec_join_comma(upto.drop_last()) + seq![','] + upto.last());
            } else {
                assert(out@ =~= upto[0]);
            }
        }
    }
    proof {
        assert(str_views(features@).take(features@.len() as int) =~= str_views(features@));
    }
    out
}

/// The cargo argument list for one check of one crate: the subcommands,
/// `--package <name>`, `--target <triple>`, `--no-default-features` when the
/// check asks for it, and `--features <list>` when the check names features.
pub open spec fn spec_cargo_args(
    subcommands: Seq<Seq<char>>,
    name: Seq<char>,
    check: CheckModel,
) -> Seq<Seq<char>> {
    let base = subcommands + seq!["--package"@, name, "--target"@, check.target_triple];
    let with_ndf = if check.no_default_features {
        base.push("--no-default-features"@)
    } else {
        base
    };
    match check.features {
        Option::Some(features) => with_ndf + seq!["--features"@, spec_join_comma(features)],
        Option::None => with_ndf,
    }
}

/// `cargo` for a specific crate and check.
pub fn cargo_for_check(
    subcommands: &Vec<String>,
    crate_: &Crate,
    check: &Check,
    cargo_name: Option<String>,
) -> (r: Command)
    ensures
        r@.program == spec_tool_name(
            match cargo_name {
                Option::Some(o) => Some(o@),
                Option::None => Option::None,
            },
            "cargo"@,
        ),
        r@.args == spec_cargo_args(str_views(subcommands@), crate_.name@, check@),
{
    let mut cargo = cargo(cargo_name);
    cargo.args(subcommands.clone());
    cargo.arg("--package".to_owned());
    cargo.arg(crate_.name.clone());
    cargo.arg("--target".to_owned());
    cargo.arg(check.target_triple.clone());
    proof {
        assert(cargo@.args =~= str_views(subcommands@) + seq![
            "--package"@,
            crate_.name@,
            "--target"@,
            check.target_triple@,
        ]);
    }
    if check.no_default_features {
        cargo.arg("--no-default-features".to_owned());
    }
    if let Option::Some(features) = &check.features {
        let joined = join_comma(features);
        cargo.arg("--features".to_owned());
        cargo.arg(joined);
    }
    cargo
}

/// `cargo` commands for every check of a crate, in order.
pub fn cargo_for_crate(subcommands: &Vec<String>, crate_: &Crate, cargo_name: Option<String>) -> (r:
    Vec<Command>)
    ensures
        r@.len() == crate_.checks@.len(),
        forall|i: int|
            0 <= i < r@.len() ==> (#[trigger] r@[i])@.args == spec_cargo_args(
                str_views(subcommands@),
                crate_.name@,
                crate_.checks@[i]@,
            ),
{
    let mut out: Vec<Command> = Vec::new();
    let mut i: usize = 0;
    while i < crate_.checks.len()
        invariant
            i <= crate_.checks@.len(),
            out@.len() == i,
            forall|k: int|
                0 <= k < i ==> (#[trigger] out@[k])@.args == spec_cargo_args(
                    str_views(subcommands@),
                    crate_.name@,
                    crate_.checks@[k]@,
                ),
        decreases crate_.checks@.len() - i,
    {
        let cmd = cargo_for_check(subcommands, crate_, &crate_.checks[i], cargo_name.clone());
        out.push(cmd);
        i = i + 1;
    }
    out
}

} // verus!
