//! Tests for output scanning, host-triple detection, reporter selection,
//! and the driver's command construction.

use keter_test::command::Command;
use keter_test::driver::functionality;
use keter_test::driver::host_tests;
use keter_test::driver::rustc_version_command;
use keter_test::driver::test_subcommands;
use keter_test::driver::example_subcommands;
use keter_test::environment::EnvironmentCache;
use keter_test::provision::android_emulator_run_command;
use keter_test::provision::adb_boot_check_command;
use keter_test::provision::adb_connect_command;
use keter_test::provision::adb_wait_for_device_command;
use keter_test::provision::boot_completed;
use keter_test::provision::docker_rm_command;
use keter_test::provision::docker_run_detached_command;
use keter_test::provision::docker_stop_command;
use keter_test::provision::start_docker_container;
use keter_test::provision::xbuild_run_command;
use keter_test::runner::Check;
use keter_test::runner::Crate;
use keter_test::RunnerError;
use keter_test::driver::example_name;
use keter_test::driver::find_package_root;
use keter_test::driver::rust_fmt_command;
use keter_test::environment::parse_host_triple;
use keter_test::environment::EnvironmentHandle;
use keter_test::environment::EnvironmentKind;
use keter_test::events::TestEvent;
use keter_test::events::TestResult;
use keter_test::events::TestStatus;
use keter_test::provision::chomp;
use keter_test::provision::cleanup_all;
use keter_test::provision::cleanup_environment;
use keter_test::provision::judge_device_output;
use keter_test::reporter::select_reporter;
use keter_test::reporter::split_lines;
use keter_test::reporter::scan_output_for_events;
use keter_test::reporter::DumpReporter;
use keter_test::reporter::ReporterChoice;

#[test]
fn split_lines_keeps_partial_trailing_lines() {
    let lines = split_lines(&b"one\ntwo\nthree".to_vec());
    assert_eq!(lines, vec![b"one".to_vec(), b"two".to_vec(), b"three".to_vec()]);
    let lines = split_lines(&b"one\n".to_vec());
    assert_eq!(lines, vec![b"one".to_vec()]);
    let lines = split_lines(&b"\n\n".to_vec());
    assert_eq!(lines, vec![Vec::new(), Vec::new()]);
    assert_eq!(split_lines(&Vec::new()), Vec::<Vec<u8>>::new());
}

fn dump_line(event: &TestEvent) -> Vec<u8> {
    DumpReporter::new().report(event)
}

#[test]
fn scanning_output_collects_events_and_stops_at_end() {
    let events = vec![
        TestEvent::Result(TestResult {
            name: "a".to_string(),
            status: TestStatus::Success,
            failure: String::new(),
        }),
        TestEvent::Result(TestResult {
            name: "b".to_string(),
            status: TestStatus::Failed,
            failure: "boom".to_string(),
        }),
        TestEvent::End { count: 2 },
    ];
    let mut output: Vec<u8> = Vec::new();
    output.extend_from_slice(b"building for device...\n");
    for e in &events {
        output.extend_from_slice(&dump_line(e));
        output.push(b'\n');
    }
    // Anything after the End event is not scanned.
    output.extend_from_slice(&dump_line(&TestEvent::End { count: 99 }));
    output.push(b'\n');
    let scanned = scan_output_for_events(&output);
    assert_eq!(scanned, events);

    let (judged, code) = judge_device_output(&output);
    assert_eq!(judged, events);
    assert_eq!(code, 1);
}

#[test]
fn clean_device_output_passes() {
    let mut output: Vec<u8> = Vec::new();
    output.extend_from_slice(&dump_line(&TestEvent::Result(TestResult {
        name: "a".to_string(),
        status: TestStatus::Success,
        failure: String::new(),
    })));
    output.push(b'\n');
    output.extend_from_slice(&dump_line(&TestEvent::End { count: 1 }));
    let (_, code) = judge_device_output(&output);
    assert_eq!(code, 0);
}

#[test]
fn host_line_is_parsed_out_of_version_output() {
    let output = "rustc 1.75.0 (82e1608df 2023-12-21)\nbinary: rustc\nhost: x86_64-unknown-linux-gnu\nrelease: 1.75.0\n";
    assert_eq!(
        parse_host_triple(output),
        Some("x86_64-unknown-linux-gnu".to_string())
    );
    assert_eq!(parse_host_triple("no such line\nanywhere"), None);
    assert_eq!(parse_host_triple("host: with-trailing   \nrest"), Some("with-trailing".to_string()));
    // Whitespace is trimmed off both ends of the host line.
    assert_eq!(parse_host_triple("host:   padded \t \nrest"), Some("padded".to_string()));
    assert_eq!(parse_host_triple("host:    \n"), Some(String::new()));
    assert_eq!(parse_host_triple(""), None);
}

#[test]
fn chomp_strips_one_trailing_newline() {
    assert_eq!(chomp(&"abc123\n".to_string()), "abc123");
    assert_eq!(chomp(&"abc123".to_string()), "abc123");
    assert_eq!(chomp(&"\n".to_string()), "");
    assert_eq!(chomp(&String::new()), "");
}

#[test]
fn reporter_priority_is_tcp_then_socket_then_dump_then_console() {
    let addr = Some("127.0.0.1:9000".to_string());
    let path = Some("/tmp/sock".to_string());
    assert_eq!(select_reporter(&addr, &path, true, true), ReporterChoice::Tcp);
    assert_eq!(select_reporter(&None, &path, true, false), ReporterChoice::UnixSocket);
    // Off Unix, a socket path cannot be used.
    assert_eq!(select_reporter(&None, &path, false, true), ReporterChoice::Dump);
    assert_eq!(select_reporter(&None, &None, true, true), ReporterChoice::Dump);
    assert_eq!(select_reporter(&None, &None, true, false), ReporterChoice::Console);
}

#[test]
fn formatting_command_lists_every_file() {
    let files = vec!["src/lib.rs".to_string(), "src/main.rs".to_string()];
    let cmd = rust_fmt_command(&files, None);
    let mut expected = Command::new("rustfmt".to_string());
    expected.args(vec![
        "--edition".to_string(),
        "2021".to_string(),
        "--check".to_string(),
        "src/lib.rs".to_string(),
        "src/main.rs".to_string(),
    ]);
    assert_eq!(cmd, expected);
}

#[test]
fn example_names_join_package_and_example() {
    assert_eq!(
        example_name(&"winit".to_string(), &"hello".to_string()),
        "winit_hello"
    );
}

#[test]
fn cleanup_is_a_no_op_without_a_container() {
    let host = EnvironmentHandle {
        kind: EnvironmentKind::Host,
        target_triple: "x86_64-unknown-linux-gnu".to_string(),
        host_env: None,
        serial: 0,
        container: None,
    };
    let unstarted_android = EnvironmentHandle {
        kind: EnvironmentKind::Android,
        target_triple: "aarch64-linux-android".to_string(),
        host_env: None,
        serial: 1,
        container: None,
    };
    assert_eq!(cleanup_environment(&host, None), Ok(()));
    assert_eq!(cleanup_environment(&unstarted_android, None), Ok(()));
    assert_eq!(cleanup_all(&vec![host, unstarted_android], None), Ok(()));
}

#[test]
fn package_roots_are_found_by_name() {
    let packages = vec![
        ("alpha".to_string(), "/ws/alpha".to_string()),
        ("beta".to_string(), "/ws/crates/beta".to_string()),
    ];
    assert_eq!(
        find_package_root(&packages, &"beta".to_string()),
        Some("/ws/crates/beta".to_string())
    );
    assert_eq!(find_package_root(&packages, &"gamma".to_string()), None);
}

fn expected(program: &str, args: &[&str]) -> Command {
    let mut cmd = Command::new(program.to_string());
    cmd.args(args.iter().map(|a| a.to_string()).collect());
    cmd
}

#[test]
fn functionality_modes_are_tests_then_doc() {
    assert_eq!(test_subcommands(false), vec!["test".to_string(), "--tests".to_string()]);
    assert_eq!(test_subcommands(true), vec!["test".to_string(), "--doc".to_string()]);
    assert_eq!(
        example_subcommands(&"pkg_demo".to_string()),
        vec!["run".to_string(), "--example".to_string(), "pkg_demo".to_string()]
    );
}

#[test]
fn provisioning_command_lines_are_exact() {
    assert_eq!(rustc_version_command(None), expected("rustc", &["-vV"]));
    assert_eq!(
        docker_run_detached_command(&"/ws".to_string(), "img:tag".to_string(), None),
        expected(
            "docker",
            &[
                "run",
                "--detach",
                "--volume",
                "/ws:/ws",
                "--workdir",
                "/ws",
                "img:tag",
                "sh",
                "-c",
                "tail -f /dev/null",
            ]
        )
    );
    assert_eq!(
        docker_stop_command(&"abc".to_string(), None),
        expected("docker", &["stop", "abc"])
    );
    assert_eq!(
        docker_rm_command(&"abc".to_string(), None),
        expected("docker", &["rm", "abc"])
    );
    assert_eq!(
        adb_connect_command(None),
        expected("adb", &["connect", "localhost:15555"])
    );
    assert_eq!(adb_wait_for_device_command(None), expected("adb", &["wait-for-device"]));
    assert_eq!(
        adb_boot_check_command(None),
        expected("adb", &["shell", "getprop", "sys.boot_completed"])
    );
    assert_eq!(
        xbuild_run_command(&"a/Cargo.toml".to_string(), None),
        expected(
            "x",
            &[
                "run",
                "--device",
                "adb:localhost:15555",
                "--arch",
                "arm64",
                "--manifest-path",
                "a/Cargo.toml",
            ]
        )
    );
    let emulator = android_emulator_run_command(&"KEY".to_string(), None);
    assert_eq!(
        emulator,
        expected(
            "docker",
            &[
                "run",
                "--detach",
                "-e",
                "ADBKEY=KEY",
                "--device",
                "/dev/kvm",
                "--publish",
                "8554:8554/tcp",
                "--publish",
                "15555:5555/tcp",
                "us-docker.pkg.dev/android-emulator-268719/images/30-google-x64:30.1.2",
            ]
        )
    );
}

#[test]
fn boot_probe_accepts_only_a_leading_one() {
    assert!(boot_completed(&"1".to_string()));
    assert!(boot_completed(&"1\n".to_string()));
    assert!(!boot_completed(&"0\n".to_string()));
    assert!(!boot_completed(&String::new()));
}

#[test]
fn docker_container_start_refuses_bad_targets_before_any_engine_call() {
    assert!(matches!(
        start_docker_container(
            &"/ws".to_string(),
            "x86_64-unknown-linux-gnu",
            &Some("opt".to_string()),
            None
        )
        .map(|_| ()),
        Err(RunnerError::EnvironmentUnavailable(_))
    ));
    assert!(matches!(
        start_docker_container(&"/ws".to_string(), "wasm32-unknown-unknown", &None, None)
            .map(|_| ()),
        Err(RunnerError::EnvironmentUnavailable(_))
    ));
}

fn crate_with_check(name: &str, target: &str) -> Crate {
    Crate {
        name: name.to_string(),
        checks: vec![Check {
            target_triple: target.to_string(),
            host_env: None,
            features: None,
            no_default_features: false,
            niche: false,
        }],
    }
}

#[test]
fn empty_runs_succeed_and_touch_nothing() {
    let mut cache = EnvironmentCache::new();
    let crates: Vec<Crate> = Vec::new();
    let host = "x86_64-unknown-linux-gnu".to_string();
    assert_eq!(functionality(&mut cache, &host, &None, &crates, None, None), Ok(()));
    assert_eq!(
        host_tests(
            &mut cache,
            &host,
            &None,
            &crates,
            &Vec::new(),
            &"Cargo.toml".to_string(),
            &String::new(),
            None,
            None,
            None,
            None,
        ),
        Ok(())
    );
    assert_eq!(cache.len(), 0);
}

#[test]
fn unservable_checks_fail_selection_but_do_not_hide_each_other() {
    // Neither check can be served, and both are attempted: the first error
    // is propagated.
    let mut cache = EnvironmentCache::new();
    let host = "x86_64-apple-darwin".to_string();
    let crates = vec![
        crate_with_check("a", "x86_64-pc-windows-msvc"),
        crate_with_check("b", "wasm32-unknown-unknown"),
    ];
    let result = functionality(&mut cache, &host, &None, &crates, None, None);
    assert!(matches!(result, Err(RunnerError::EnvironmentUnavailable(_))));
    assert_eq!(cache.len(), 0);
}

#[test]
fn android_cargo_test_is_skipped_without_running_anything() {
    // A Linux host with an Android target selects the Android environment,
    // and `cargo test` on it is a deliberate no-op: the run passes without
    // ever spawning a process or starting a container.
    let mut cache = EnvironmentCache::new();
    let host = "x86_64-unknown-linux-gnu".to_string();
    let crates = vec![crate_with_check("a", "aarch64-linux-android")];
    assert_eq!(functionality(&mut cache, &host, &None, &crates, None, None), Ok(()));
    assert_eq!(cache.len(), 1);
    let handles = cache.drain();
    assert_eq!(handles[0].container, None);
}

#[test]
fn host_checks_without_examples_run_nothing_and_pass() {
    let mut cache = EnvironmentCache::new();
    let host = "x86_64-unknown-linux-gnu".to_string();
    let crates = vec![crate_with_check("a", "aarch64-linux-android")];
    let examples: Vec<Vec<String>> = vec![Vec::new()];
    assert_eq!(
        host_tests(
            &mut cache,
            &host,
            &None,
            &crates,
            &examples,
            &"Cargo.toml".to_string(),
            &String::new(),
            None,
            None,
            None,
            None,
        ),
        Ok(())
    );
}
