//! Tests for the command runner: spawning, exit translation, timeouts, the
//! double-completion guard, and cargo command construction.

use keter_test::command::cargo_for_check;
use keter_test::command::cargo_for_crate;
use keter_test::command::rustfmt;
use keter_test::command::Command;
use keter_test::command::run;
use keter_test::runner::Check;
use keter_test::runner::Crate;
use keter_test::RunnerError;

fn plain_check(target: &str) -> Check {
    Check {
        target_triple: target.to_string(),
        host_env: None,
        features: None,
        no_default_features: false,
        niche: false,
    }
}

#[test]
fn successful_command_runs_to_ok() {
    let cmd = Command::new("true".to_string());
    let mut child = cmd.spawn(&None, false).expect("spawn should work");
    assert_eq!(run(&mut child, None), Ok(()));
}

#[test]
fn failing_command_reports_its_exit_code() {
    let cmd = Command::new("false".to_string());
    let mut child = cmd.spawn(&None, false).expect("spawn should work");
    assert_eq!(run(&mut child, None), Err(RunnerError::NonZeroExit(Some(1))));
}

#[test]
fn missing_binary_is_a_spawn_error() {
    let cmd = Command::new("surely-no-such-binary-on-path".to_string());
    match cmd.spawn(&None, false) {
        Err(RunnerError::Spawn(_)) => {}
        Err(other) => panic!("expected a spawn error, got {other:?}"),
        Ok(_) => panic!("expected a spawn error, got a running command"),
    }
}

#[test]
fn sleeping_child_times_out() {
    // A child configured to sleep longer than the timeout: run returns a
    // Timeout error rather than hanging.
    let mut cmd = Command::new("sleep".to_string());
    cmd.arg("5".to_string());
    let mut child = cmd.spawn(&None, false).expect("spawn should work");
    let started = std::time::Instant::now();
    assert_eq!(run(&mut child, Some(300)), Err(RunnerError::Timeout));
    // Within a bounded margin of the configured duration.
    assert!(started.elapsed() >= std::time::Duration::from_millis(300));
    assert!(started.elapsed() < std::time::Duration::from_secs(4));
}

#[test]
fn no_timeout_waits_for_exit() {
    let mut cmd = Command::new("sleep".to_string());
    cmd.arg("0.2".to_string());
    let mut child = cmd.spawn(&None, false).expect("spawn should work");
    assert_eq!(run(&mut child, None), Ok(()));
}

#[test]
fn waiting_twice_is_a_double_completion() {
    let cmd = Command::new("true".to_string());
    let mut child = cmd.spawn(&None, false).expect("spawn should work");
    assert_eq!(run(&mut child, None), Ok(()));
    assert_eq!(run(&mut child, None), Err(RunnerError::DoubleCompletion));
}

#[test]
fn captured_stdout_is_readable() {
    let mut cmd = Command::new("echo".to_string());
    cmd.arg("hello".to_string());
    let mut child = cmd.spawn(&None, true).expect("spawn should work");
    let out = child.read_stdout().expect("stdout should be captured");
    assert_eq!(out, "hello\n");
    assert_eq!(run(&mut child, None), Ok(()));
}

#[test]
fn working_directory_is_honored() {
    let cmd = Command::new("pwd".to_string());
    let mut child = cmd
        .spawn(&Some("/tmp".to_string()), true)
        .expect("spawn should work");
    let out = child.read_stdout().expect("stdout should be captured");
    assert_eq!(out.trim_end(), "/tmp");
    assert_eq!(run(&mut child, None), Ok(()));
}

#[test]
fn cargo_for_check_builds_the_exact_argument_list() {
    let crate_ = Crate {
        name: "mypkg".to_string(),
        checks: vec![plain_check("x86_64-unknown-linux-gnu")],
    };
    let check = Check {
        target_triple: "x86_64-unknown-linux-gnu".to_string(),
        host_env: None,
        features: Some(vec!["serde".to_string(), "rt".to_string()]),
        no_default_features: true,
        niche: false,
    };
    let subcommands = vec!["test".to_string(), "--tests".to_string()];
    let cmd = cargo_for_check(&subcommands, &crate_, &check, None);

    let mut expected = Command::new("cargo".to_string());
    expected.args(vec![
        "test".to_string(),
        "--tests".to_string(),
        "--package".to_string(),
        "mypkg".to_string(),
        "--target".to_string(),
        "x86_64-unknown-linux-gnu".to_string(),
        "--no-default-features".to_string(),
        "--features".to_string(),
        "serde,rt".to_string(),
    ]);
    assert_eq!(cmd, expected);
}

#[test]
fn cargo_for_check_without_options_is_minimal() {
    let crate_ = Crate {
        name: "p".to_string(),
        checks: vec![],
    };
    let check = plain_check("aarch64-linux-android");
    let cmd = cargo_for_check(&vec!["clippy".to_string()], &crate_, &check, None);
    let mut expected = Command::new("cargo".to_string());
    expected.args(vec![
        "clippy".to_string(),
        "--package".to_string(),
        "p".to_string(),
        "--target".to_string(),
        "aarch64-linux-android".to_string(),
    ]);
    assert_eq!(cmd, expected);
}

#[test]
fn cargo_for_crate_covers_every_check() {
    let crate_ = Crate {
        name: "p".to_string(),
        checks: vec![
            plain_check("x86_64-unknown-linux-gnu"),
            plain_check("aarch64-linux-android"),
        ],
    };
    let cmds = cargo_for_crate(&vec!["clippy".to_string()], &crate_, None);
    assert_eq!(cmds.len(), 2);
}

#[test]
fn tool_names_honor_the_override() {
    let fmt = rustfmt(None);
    assert_eq!(fmt, Command::new("rustfmt".to_string()));
    let fmt = rustfmt(Some("/opt/rustfmt-nightly".to_string()));
    assert_eq!(fmt, Command::new("/opt/rustfmt-nightly".to_string()));
}

#[test]
fn captured_run_collects_both_streams() {
    let mut cmd = Command::new("sh".to_string());
    cmd.arg("-c".to_string());
    cmd.arg("echo out; echo err 1>&2".to_string());
    let child = cmd.spawn_captured(&None).expect("spawn should work");
    let (out, err) = child.run_with_output().expect("run should succeed");
    assert_eq!(out, b"out\n".to_vec());
    assert_eq!(err, b"err\n".to_vec());
}

#[test]
fn captured_run_translates_a_failing_exit() {
    let cmd = Command::new("false".to_string());
    let child = cmd.spawn_captured(&None).expect("spawn should work");
    assert_eq!(
        child.run_with_output(),
        Err(RunnerError::NonZeroExit(Some(1)))
    );
}
