//! Tests for environment selection and caching, the Docker command shape,
//! and Android command classification.

use keter_test::environment::choose_environment;
use keter_test::environment::classify_android_command;
use keter_test::environment::contains_str;
use keter_test::environment::docker_exec_command;
use keter_test::environment::ends_with_str;
use keter_test::environment::file_name;
use keter_test::environment::get_target_container;
use keter_test::environment::shell_join;
use keter_test::environment::AndroidCommandKind;
use keter_test::environment::EnvironmentCache;
use keter_test::environment::EnvironmentKind;
use keter_test::command::Command;
use keter_test::runner::Check;
use keter_test::RunnerError;

const HOST: &str = "x86_64-unknown-linux-gnu";

fn check_for(target: &str) -> Check {
    Check {
        target_triple: target.to_string(),
        host_env: None,
        features: None,
        no_default_features: false,
        niche: false,
    }
}

#[test]
fn matching_host_triple_yields_the_host_environment() {
    // Choosing for a target triple equal to the detected host triple
    // returns a host environment, without starting any container.
    let mut cache = EnvironmentCache::new();
    let handle = choose_environment(&mut cache, &HOST.to_string(), &check_for(HOST))
        .expect("host environment should be available");
    assert_eq!(handle.kind, EnvironmentKind::Host);
    assert_eq!(handle.container, None);
    assert_eq!(cache.len(), 1);
}

#[test]
fn linux_host_with_android_target_yields_the_android_environment() {
    let mut cache = EnvironmentCache::new();
    let handle = choose_environment(
        &mut cache,
        &HOST.to_string(),
        &check_for("aarch64-linux-android"),
    )
    .expect("android environment should be available");
    assert_eq!(handle.kind, EnvironmentKind::Android);
    assert_eq!(handle.container, None);
}

#[test]
fn incompatible_target_is_an_error() {
    let mut cache = EnvironmentCache::new();
    let result = choose_environment(
        &mut cache,
        &"x86_64-apple-darwin".to_string(),
        &check_for("x86_64-pc-windows-msvc"),
    );
    match result {
        Err(RunnerError::EnvironmentUnavailable(_)) => {}
        other => panic!("expected no compatible environment, got {other:?}"),
    }
    assert_eq!(cache.len(), 0);
}

#[test]
fn same_key_twice_reuses_the_same_environment() {
    // Cache idempotence: requesting the same (target triple, host env) key
    // twice within one run yields handles referring to the same live
    // environment, never two.
    let mut cache = EnvironmentCache::new();
    let first = choose_environment(&mut cache, &HOST.to_string(), &check_for(HOST)).unwrap();
    let second = choose_environment(&mut cache, &HOST.to_string(), &check_for(HOST)).unwrap();
    assert_eq!(first, second);
    assert_eq!(first.serial, second.serial);
    assert_eq!(cache.len(), 1);
}

#[test]
fn different_keys_get_different_environments() {
    let mut cache = EnvironmentCache::new();
    let host = choose_environment(&mut cache, &HOST.to_string(), &check_for(HOST)).unwrap();
    let android = choose_environment(
        &mut cache,
        &HOST.to_string(),
        &check_for("aarch64-linux-android"),
    )
    .unwrap();
    assert_ne!(host.serial, android.serial);
    assert_eq!(cache.len(), 2);

    let mut tagged = check_for(HOST);
    tagged.host_env = Some("extra".to_string());
    let third = choose_environment(&mut cache, &HOST.to_string(), &tagged).unwrap();
    assert_ne!(third.serial, host.serial);
    assert_eq!(cache.len(), 3);
}

#[test]
fn drained_cache_hands_every_environment_out_once() {
    let mut cache = EnvironmentCache::new();
    choose_environment(&mut cache, &HOST.to_string(), &check_for(HOST)).unwrap();
    choose_environment(
        &mut cache,
        &HOST.to_string(),
        &check_for("aarch64-linux-android"),
    )
    .unwrap();
    let handles = cache.drain();
    assert_eq!(handles.len(), 2);
    assert_eq!(handles[0].kind, EnvironmentKind::Host);
    assert_eq!(handles[1].kind, EnvironmentKind::Android);
}

#[test]
fn gnu_and_musl_targets_map_to_their_images() {
    assert_eq!(
        get_target_container("x86_64-unknown-linux-gnu", &None),
        Ok("ghcr.io/notgull/keter:ubuntu".to_string())
    );
    assert_eq!(
        get_target_container("x86_64-unknown-linux-musl", &None),
        Ok("ghcr.io/notgull/keter:alpine".to_string())
    );
}

#[test]
fn unrecognized_triples_have_no_image() {
    assert!(matches!(
        get_target_container("wasm32-unknown-unknown", &None),
        Err(RunnerError::EnvironmentUnavailable(_))
    ));
    assert!(matches!(
        get_target_container("x86_64-unknown-linux-uclibc", &None),
        Err(RunnerError::EnvironmentUnavailable(_))
    ));
    assert!(matches!(
        get_target_container("x86_64-unknown-linux-gnu", &Some("opt".to_string())),
        Err(RunnerError::EnvironmentUnavailable(_))
    ));
}

#[test]
fn docker_exec_shell_joins_the_command() {
    let cmd = docker_exec_command(
        &"abc123".to_string(),
        "/usr/bin/cargo",
        &vec!["test".to_string(), "--tests".to_string()],
        None,
    );
    let mut expected = Command::new("docker".to_string());
    expected.args(vec![
        "exec".to_string(),
        "abc123".to_string(),
        "sh".to_string(),
        "-c".to_string(),
        "cargo test --tests".to_string(),
    ]);
    assert_eq!(cmd, expected);
}

#[test]
fn shell_join_uses_the_file_name() {
    assert_eq!(shell_join("/usr/bin/cargo", &vec![]), "cargo");
    assert_eq!(file_name("cargo"), "cargo");
    assert_eq!(file_name("/a/b/c"), "c");
}

#[test]
fn android_skips_cargo_test_and_deploys_cargo_run() {
    assert_eq!(
        classify_android_command("/usr/bin/cargo", &vec!["test".to_string()]),
        AndroidCommandKind::SkipCargoTest
    );
    assert_eq!(
        classify_android_command(
            "cargo",
            &vec!["run".to_string(), "--example".to_string(), "e".to_string()]
        ),
        AndroidCommandKind::DeployExample
    );
    assert_eq!(
        classify_android_command("rustc", &vec!["-vV".to_string()]),
        AndroidCommandKind::Unsupported
    );
    assert_eq!(
        classify_android_command("cargo", &vec![]),
        AndroidCommandKind::Unsupported
    );
}

#[test]
fn substring_and_suffix_tests() {
    assert!(contains_str("x86_64-unknown-linux-gnu", "linux"));
    assert!(!contains_str("x86_64-apple-darwin", "linux"));
    assert!(contains_str("abc", ""));
    assert!(ends_with_str("x86_64-unknown-linux-gnu", "gnu"));
    assert!(!ends_with_str("x86_64-unknown-linux-gnu", "musl"));
}
