//! Provisioning and teardown of containerized environments, and running
//! commands inside them.
//!
//! The Docker environment starts one detached long-lived container per
//! target, selected by [`crate::environment::get_target_container`], and
//! thereafter executes commands in it by shell-joining them into a `docker
//! exec`. The Android environment boots an emulator container with the
//! host's ADB signing key injected, connects ADB with a bounded retry
//! budget, waits for boot completion with a bounded number of polls, and
//! drives on-device runs through the device-deployment tool, scraping
//! their combined stdout/stderr for embedded test events. Cleanup stops
//! and removes containers, and is a no-op for environments that never
//! started one.
//!
//! Every external invocation made here is built by a function with an
//! exact contract, so the command lines themselves are verified; what the
//! tools answer is, of course, the environment's to decide.

use vstd::prelude::*;
use vstd::string::StrSliceExecFns;
use vstd::string::StringExecFns;

use crate::command::Command;
use crate::command::RunningCommand;
use crate::command::adb;
use crate::command::docker;
use crate::command::run;
use crate::command::sleep_ms;
use crate::command::spec_tool_name;
use crate::command::xbuild;
use crate::environment::EnvironmentHandle;
use crate::environment::EnvironmentKind;
use crate::environment::docker_exec_command;
use crate::environment::get_target_container;
use crate::reporter::ConsoleReporter;
use crate::reporter::any_failed;
use crate::reporter::relay_events;
use crate::reporter::scan_output_for_events;
use crate::reporter::spec_lines;
use crate::reporter::spec_scan;
use crate::spec_exec_error;
use crate::RunnerError;

verus! {

/// How many times an ADB connect is attempted before giving up.
pub const ADB_CONNECT_ATTEMPTS: u64 = 5;

/// How many times the boot-completed property is polled before giving up.
pub const BOOT_POLL_ATTEMPTS: u64 = 240;

/// `s` without its trailing newline, if it has one.
pub open spec fn spec_chomp(s: Seq<char>) -> Seq<char> {
    if s.len() > 0 && s.last() == '\n' {
        s.drop_last()
    } else {
        s
    }
}

/// Remove the trailing newline of captured output, if any.
pub fn chomp(s: &String) -> (r: String)
    ensures
        r@ == spec_chomp(s@),
{
    let n = s.as_str().unicode_len();
    if n > 0 && s.as_str().get_char(n - 1) == '\n' {
        let r = s.as_str().substring_char(0, n - 1).to_owned();
        proof {
            assert(s@.subrange(0, n - 1) =~= s@.drop_last());
        }
        r
    } else {
        s.clone()
    }
}

/// Whether the boot probe's answer reports a completed boot: the
/// property reads `1`.
pub fn boot_completed(text: &String) -> (r: bool)
    ensures
        r == (text@.len() > 0 && text@[0] == '1'),
{
    let n = text.as_str().unicode_len();
    n > 0 && text.as_str().get_char(0) == '1'
}

// ---------------------------------------------------------------------------
// The external invocations, as verified command builders.
// ---------------------------------------------------------------------------

/// The `docker run` invocation that starts the long-lived target
/// container: detached, the project root mounted at the same path inside
/// and used as the working directory, kept alive by a sleeping shell.
pub fn docker_run_detached_command(
    root: &String,
    image: String,
    docker_name: Option<String>,
) -> (r: Command)
    ensures
        r@.program == spec_tool_name(
            match docker_name {
                Option::Some(o) => Some(o@),
                Option::None => Option::None,
            },
            "docker"@,
        ),
        r@.args == seq![
            "run"@,
            "--detach"@,
            "--volume"@,
            root@ + seq![':'] + root@,
            "--workdir"@,
            root@,
            image@,
            "sh"@,
            "-c"@,
            "tail -f /dev/null"@,
        ],
{
    let mut volume = root.clone();
    volume.append(":");
    volume.append(root.as_str());
    proof {
        reveal_strlit(":");
        assert(volume@ =~= root@ + seq![':'] + root@);
    }
    let mut cmd = docker(docker_name);
    cmd.arg("run".to_owned());
    cmd.arg("--detach".to_owned());
    cmd.arg("--volume".to_owned());
    cmd.arg(volume);
    cmd.arg("--workdir".to_owned());
    cmd.arg(root.clone());
    cmd.arg(image);
    cmd.arg("sh".to_owned());
    cmd.arg("-c".to_owned());
    cmd.arg("tail -f /dev/null".to_owned());
    proof {
        assert(cmd@.args =~= seq![
            "run"@,
            "--detach"@,
            "--volume"@,
            root@ + seq![':'] + root@,
            "--workdir"@,
            root@,
            cmd@.args[6],
            "sh"@,
            "-c"@,
            "tail -f /dev/null"@,
        ]);
    }
    cmd
}

/// The `docker run` invocation that boots the Android emulator container:
/// detached, the host's ADB signing key injected through the environment,
/// the KVM device passed through, and the emulator and ADB ports
/// forwarded.
pub fn android_emulator_run_command(adbkey: &String, docker_name: Option<String>) -> (r: Command)
    ensures
        r@.program == spec_tool_name(
            match docker_name {
                Option::Some(o) => Some(o@),
                Option::None => Option::None,
            },
            "docker"@,
        ),
        r@.args == seq![
            "run"@,
            "--detach"@,
            "-e"@,
            "ADBKEY="@ + adbkey@,
            "--device"@,
            "/dev/kvm"@,
            "--publish"@,
            "8554:8554/tcp"@,
            "--publish"@,
            "15555:5555/tcp"@,
            "us-docker.pkg.dev/android-emulator-268719/images/30-google-x64:30.1.2"@,
        ],
{
    let mut env_arg = ("ADBKEY=").to_owned();
    env_arg.append(adbkey.as_str());
    let mut cmd = docker(docker_name);
    cmd.arg("run".to_owned());
    cmd.arg("--detach".to_owned());
    cmd.arg("-e".to_owned());
    cmd.arg(env_arg);
    cmd.arg("--device".to_owned());
    cmd.arg("/dev/kvm".to_owned());
    cmd.arg("--publish".to_owned());
    cmd.arg("8554:8554/tcp".to_owned());
    cmd.arg("--publish".to_owned());
    cmd.arg("15555:5555/tcp".to_owned());
    cmd.arg(("us-docker.pkg.dev/android-emulator-268719/images/30-google-x64:30.1.2").to_owned());
    proof {
        assert(cmd@.args =~= seq![
            "run"@,
            "--detach"@,
            "-e"@,
            "ADBKEY="@ + adbkey@,
            "--device"@,
            "/dev/kvm"@,
            "--publish"@,
            "8554:8554/tcp"@,
            "--publish"@,
            "15555:5555/tcp"@,
            "us-docker.pkg.dev/android-emulator-268719/images/30-google-x64:30.1.2"@,
        ]);
    }
    cmd
}

/// The `adb connect` invocation for the forwarded emulator port.
pub fn adb_connect_command(adb_name: Option<String>) -> (r: Command)
    ensures
        r@.program == spec_tool_name(
            match adb_name {
                Option::Some(o) => Some(o@),
                Option::None => Option::None,
            },
            "adb"@,
        ),
        r@.args == seq!["connect"@, "localhost:15555"@],
{
    let mut cmd = adb(adb_name);
    cmd.arg("connect".to_owned());
    cmd.arg("localhost:15555".to_owned());
    proof {
        assert(cmd@.args =~= seq!["connect"@, "localhost:15555"@]);
    }
    cmd
}

/// The `adb wait-for-device` invocation.
pub fn adb_wait_for_device_command(adb_name: Option<String>) -> (r: Command)
    ensures
        r@.program == spec_tool_name(
            match adb_name {
                Option::Some(o) => Some(o@),
                Option::None => Option::None,
            },
            "adb"@,
        ),
        r@.args == seq!["wait-for-device"@],
{
    let mut cmd = adb(adb_name);
    cmd.arg("wait-for-device".to_owned());
    proof {
        assert(cmd@.args =~= seq!["wait-for-device"@]);
    }
    cmd
}

/// The `adb shell getprop sys.boot_completed` invocation: the boot probe.
pub fn adb_boot_check_command(adb_name: Option<String>) -> (r: Command)
    ensures
        r@.program == spec_tool_name(
            match adb_name {
                Option::Some(o) => Some(o@),
                Option::None => Option::None,
            },
            "adb"@,
        ),
        r@.args == seq!["shell"@, "getprop"@, "sys.boot_completed"@],
{
    let mut cmd = adb(adb_name);
    cmd.arg("shell".to_owned());
    cmd.arg("getprop".to_owned());
    cmd.arg("sys.boot_completed".to_owned());
    proof {
        assert(cmd@.args =~= seq!["shell"@, "getprop"@, "sys.boot_completed"@]);
    }
    cmd
}

/// The device-deployment invocation: run the example named by the manifest
/// on the ADB-connected emulator, cross-compiled for the device.
pub fn xbuild_run_command(manifest_path: &String, xbuild_name: Option<String>) -> (r: Command)
    ensures
        r@.program == spec_tool_name(
            match xbuild_name {
                Option::Some(o) => Some(o@),
                Option::None => Option::None,
            },
            "x"@,
        ),
        r@.args == seq![
            "run"@,
            "--device"@,
            "adb:localhost:15555"@,
            "--arch"@,
            "arm64"@,
            "--manifest-path"@,
            manifest_path@,
        ],
{
    let mut cmd = xbuild(xbuild_name);
    cmd.arg("run".to_owned());
    cmd.arg("--device".to_owned());
    cmd.arg("adb:localhost:15555".to_owned());
    cmd.arg("--arch".to_owned());
    cmd.arg("arm64".to_owned());
    cmd.arg("--manifest-path".to_owned());
    cmd.arg(manifest_path.clone());
    proof {
        assert(cmd@.args =~= seq![
            "run"@,
            "--device"@,
            "adb:localhost:15555"@,
            "--arch"@,
            "arm64"@,
            "--manifest-path"@,
            manifest_path@,
        ]);
    }
    cmd
}

/// The `docker stop` invocation for a container.
pub fn docker_stop_command(container: &String, docker_name: Option<String>) -> (r: Command)
    ensures
        r@.program == spec_tool_name(
            match docker_name {
                Option::Some(o) => Some(o@),
                Option::None => Option::None,
            },
            "docker"@,
        ),
        r@.args == seq!["stop"@, container@],
{
    let mut cmd = docker(docker_name);
    cmd.arg("stop".to_owned());
    cmd.arg(container.clone());
    proof {
        assert(cmd@.args =~= seq!["stop"@, container@]);
    }
    cmd
}

/// The `docker rm` invocation for a container.
pub fn docker_rm_command(container: &String, docker_name: Option<String>) -> (r: Command)
    ensures
        r@.program == spec_tool_name(
            match docker_name {
                Option::Some(o) => Some(o@),
                Option::None => Option::None,
            },
            "docker"@,
        ),
        r@.args == seq!["rm"@, container@],
{
    let mut cmd = docker(docker_name);
    cmd.arg("rm".to_owned());
    cmd.arg(container.clone());
    proof {
        assert(cmd@.args =~= seq!["rm"@, container@]);
    }
    cmd
}

// ---------------------------------------------------------------------------
// Provisioning, running, judging, teardown.
// ---------------------------------------------------------------------------

/// Start the detached long-lived Docker container for a target, via
/// [`docker_run_detached_command`], and return the container id the engine
/// printed. No container is started — and the environment error is
/// returned — exactly when host options are set or no image serves the
/// target; every other failure comes from the engine itself.
pub fn start_docker_container(
    root: &String,
    target_triple: &str,
    options: &Option<String>,
    docker_name: Option<String>,
) -> (r: Result<String, RunnerError>)
    ensures
        r matches Err(e) ==> (spec_exec_error(e) || e is EnvironmentUnavailable),
        (r matches Err(e) && e is EnvironmentUnavailable) <==> (options is Some
            || crate::environment::spec_target_container(target_triple@) is None),
{
    let image = match get_target_container(target_triple, options) {
        Result::Ok(image) => image,
        Result::Err(e) => {
            return Result::Err(e);
        },
    };
    let cmd = docker_run_detached_command(root, image, docker_name);
    let mut child = match cmd.spawn(&Option::None, true) {
        Result::Ok(child) => child,
        Result::Err(e) => {
            return Result::Err(e);
        },
    };
    let output = child.read_stdout();
    if let Result::Err(e) = run(&mut child, Option::None) {
        return Result::Err(e);
    }
    let container_id = match output {
        Option::Some(text) => chomp(&text),
        Option::None => {
            return Result::Err(RunnerError::Spawn(("no container id printed").to_owned()));
        },
    };
    // Give the container a moment to start running.
    sleep_ms(100);
    Result::Ok(container_id)
}

/// Run a command in a host or Docker environment: directly under the
/// project root on the host, or through `docker exec` in the environment's
/// container. Spawning does not block waiting for exit; completion is
/// observed through [`crate::command::run`].
pub fn run_in_environment(
    handle: &EnvironmentHandle,
    root: &Option<String>,
    command: &Command,
    docker_name: Option<String>,
    capture: bool,
) -> (r: Result<RunningCommand, RunnerError>)
    requires
        handle@.kind is Host || handle@.container is Some,
    ensures
        r matches Ok(c) ==> !c.resolved(),
        r matches Err(e) ==> e is Spawn,
{
    match handle.kind {
        EnvironmentKind::Host => command.spawn(root, capture),
        EnvironmentKind::Docker | EnvironmentKind::Android => {
            let container = match &handle.container {
                Option::Some(container) => container,
                Option::None => {
                    proof {
                        assert(false);
                    }
                    return Result::Err(RunnerError::Spawn(String::new()));
                },
            };
            let exec = docker_exec_command(
                container,
                command.program().as_str(),
                command.argument_list(),
                docker_name,
            );
            exec.spawn(root, capture)
        },
    }
}

/// Judge the captured output of an on-device run: the embedded test events
/// are scanned out of it and relayed into a console reporter, so remote
/// results surface identically to local ones. The run passes exactly when
/// no scanned result failed.
pub fn judge_device_output(output: &Vec<u8>) -> (r: (Vec<crate::events::TestEvent>, i32))
    ensures
        crate::harness::models(r.0@) == spec_scan(spec_lines(output@)),
        r.1 == (if any_failed(spec_scan(spec_lines(output@))) {
            1int
        } else {
            0int
        }),
{
    let events = scan_output_for_events(output);
    let mut reporter = ConsoleReporter::new();
    let _lines = relay_events(&mut reporter, &events);
    let code = reporter.finish();
    (events, code)
}

/// Cross-compile and deploy one example to the connected device through
/// [`xbuild_run_command`], and scrape its combined stdout/stderr for test
/// events: the deployment must exit cleanly and no scraped result may have
/// failed, else the failing exit is reported.
pub fn deploy_android_example(
    manifest_path: &String,
    root: &Option<String>,
    xbuild_name: Option<String>,
) -> (r: Result<(), RunnerError>)
    ensures
        r matches Err(e) ==> spec_exec_error(e),
{
    let cmd = xbuild_run_command(manifest_path, xbuild_name);
    let child = match cmd.spawn_captured(root) {
        Result::Ok(child) => child,
        Result::Err(e) => {
            return Result::Err(e);
        },
    };
    let (mut output, mut err_output) = match child.run_with_output() {
        Result::Ok(streams) => streams,
        Result::Err(e) => {
            return Result::Err(e);
        },
    };
    // Scan the combined output: stdout's lines, then stderr's.
    output.push(10);
    output.append(&mut err_output);
    let (_events, code) = judge_device_output(&output);
    if code != 0 {
        return Result::Err(RunnerError::NonZeroExit(Option::None));
    }
    Result::Ok(())
}

/// Boot the Android emulator container and make ADB ready to drive it:
/// start the emulator via [`android_emulator_run_command`], connect ADB
/// via [`adb_connect_command`] under the fixed retry budget, wait for the
/// device via [`adb_wait_for_device_command`], and poll the boot probe
/// [`adb_boot_check_command`] until [`boot_completed`] accepts its answer,
/// under the fixed poll budget. Exhausting either budget is a terminal
/// environment failure; every other failure comes from the tools
/// themselves. Returns the emulator container's id.
pub fn setup_android_emulator(
    adbkey: &String,
    root: &Option<String>,
    docker_name: Option<String>,
    adb_name: Option<String>,
) -> (r: Result<String, RunnerError>)
    ensures
        r matches Err(e) ==> (spec_exec_error(e) || e is EnvironmentUnavailable),
{
    let cmd = android_emulator_run_command(adbkey, docker_name);
    let mut child = match cmd.spawn(root, true) {
        Result::Ok(child) => child,
        Result::Err(e) => {
            return Result::Err(e);
        },
    };
    let output = child.read_stdout();
    if let Result::Err(e) = run(&mut child, Option::Some(10000)) {
        return Result::Err(e);
    }
    let container_id = match output {
        Option::Some(text) => chomp(&text),
        Option::None => {
            return Result::Err(RunnerError::Spawn(("no container id printed").to_owned()));
        },
    };
    sleep_ms(100);
    // Connect ADB to the forwarded port, with a fixed retry budget and
    // fixed backoff.
    let mut attempt: u64 = 0;
    loop
        invariant
            attempt < ADB_CONNECT_ATTEMPTS,
        decreases ADB_CONNECT_ATTEMPTS - attempt,
    {
        let connect = adb_connect_command(adb_name.clone());
        let outcome = match connect.spawn(root, false) {
            Result::Ok(mut child) => run(&mut child, Option::Some(10000)),
            Result::Err(e) => Result::Err(e),
        };
        match outcome {
            Result::Ok(()) => {
                break;
            },
            Result::Err(_) => {
                if attempt + 1 >= ADB_CONNECT_ATTEMPTS {
                    // An exhausted connect budget is a terminal
                    // environment failure.
                    return Result::Err(
                        RunnerError::EnvironmentUnavailable(
                            ("ADB connect retry budget exhausted").to_owned(),
                        ),
                    );
                }
                sleep_ms(2000);
                attempt = attempt + 1;
            },
        }
    }
    // Wait for the device to come online.
    let wait = adb_wait_for_device_command(adb_name.clone());
    let wait_outcome = match wait.spawn(root, false) {
        Result::Ok(mut child) => run(&mut child, Option::Some(300000)),
        Result::Err(e) => Result::Err(e),
    };
    if let Result::Err(e) = wait_outcome {
        return Result::Err(e);
    }
    // Poll the boot-completed property until it reads `1`, a bounded
    // number of times with fixed backoff.
    let mut poll: u64 = 0;
    loop
        invariant
            poll < BOOT_POLL_ATTEMPTS,
        decreases BOOT_POLL_ATTEMPTS - poll,
    {
        let boot_check = adb_boot_check_command(adb_name.clone());
        let mut booted = false;
        match boot_check.spawn(root, true) {
            Result::Ok(mut child) => {
                let text = child.read_stdout();
                if let Result::Err(e) = run(&mut child, Option::Some(10000)) {
                    return Result::Err(e);
                }
                if let Option::Some(text) = text {
                    booted = boot_completed(&text);
                }
            },
            Result::Err(e) => {
                return Result::Err(e);
            },
        }
        if booted {
            break;
        }
        if poll + 1 >= BOOT_POLL_ATTEMPTS {
            return Result::Err(
                RunnerError::EnvironmentUnavailable(
                    ("emulator did not finish booting within the poll budget").to_owned(),
                ),
            );
        }
        sleep_ms(2000);
        poll = poll + 1;
    }
    Result::Ok(container_id)
}

/// Tear one environment down: stop and remove its container, via
/// [`docker_stop_command`] and [`docker_rm_command`]. For the host
/// environment, or one whose container was never started, this is a no-op
/// that cannot fail; any failure comes from the engine invocations.
pub fn cleanup_environment(handle: &EnvironmentHandle, docker_name: Option<String>) -> (r: Result<
    (),
    RunnerError,
>)
    ensures
        handle@.kind is Host ==> r is Ok,
        handle@.container is None ==> r is Ok,
        r matches Err(e) ==> spec_exec_error(e),
{
    if let EnvironmentKind::Host = handle.kind {
        return Result::Ok(());
    }
    let container = match &handle.container {
        Option::Some(container) => container,
        Option::None => {
            return Result::Ok(());
        },
    };
    let stop = docker_stop_command(container, docker_name.clone());
    let stop_outcome = match stop.spawn(&Option::None, false) {
        Result::Ok(mut child) => run(&mut child, Option::None),
        Result::Err(e) => Result::Err(e),
    };
    if let Result::Err(e) = stop_outcome {
        return Result::Err(e);
    }
    let rm = docker_rm_command(container, docker_name);
    match rm.spawn(&Option::None, false) {
        Result::Ok(mut child) => run(&mut child, Option::None),
        Result::Err(e) => Result::Err(e),
    }
}

/// Tear every drained environment down exactly once: all are attempted,
/// and the first error encountered is propagated. With only host
/// environments, or none whose container started, cleanup cannot fail;
/// any failure comes from the engine invocations.
pub fn cleanup_all(handles: &Vec<EnvironmentHandle>, docker_name: Option<String>) -> (r: Result<
    (),
    RunnerError,
>)
    ensures
        (forall|i: int|
            0 <= i < handles@.len() ==> ((#[trigger] handles@[i])@.kind is Host
                || handles@[i]@.container is None)) ==> r is Ok,
        r matches Err(e) ==> spec_exec_error(e),
{
    let mut first_error: Option<RunnerError> = Option::None;
    let mut i: usize = 0;
    while i < handles.len()
        invariant
            i <= handles@.len(),
            (forall|k: int|
                0 <= k < i ==> ((#[trigger] handles@[k])@.kind is Host
                    || handles@[k]@.container is None)) ==> first_error is None,
            first_error matches Some(e) ==> spec_exec_error(e),
        decreases handles@.len() - i,
    {
        let outcome = cleanup_environment(&handles[i], docker_name.clone());
        if let Result::Err(e) = outcome {
            if first_error.is_none() {
                first_error = Option::Some(e);
            }
        }
        i = i + 1;
    }
    match first_error {
        Option::Some(e) => Result::Err(e),
        Option::None => Result::Ok(()),
    }
}

} // verus!
