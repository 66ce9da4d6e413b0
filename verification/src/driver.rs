//! The run recipes: style, functionality and host-test runs over a set of
//! declared packages and checks.
//!
//! Each recipe iterates over the packages and their checks, obtains the
//! right environment through the cache, runs the right commands in it, and
//! stops at its first failure. Every command line is built by a function
//! with an exact contract; the recipes' own error conditions are stated in
//! their contracts, and everything else can only fail through what the
//! external tools answer. The recipes take plain values — the detected
//! host triple, the file list to format, tool-name overrides — and leave
//! gathering them (environment variables, directory walks) to the caller.

use vstd::prelude::*;
use vstd::string::StringExecFns;

use crate::command::Command;
use crate::command::cargo_for_check;
use crate::command::run;
use crate::command::rustc;
use crate::command::rustfmt;
use crate::command::spec_tool_name;
use crate::environment::EnvironmentCache;
use crate::environment::choose_environment;
use crate::environment::classify_android_command;
use crate::environment::parse_host_triple;
use crate::environment::spec_contains;
use crate::environment::spec_selectable;
use crate::environment::AndroidCommandKind;
use crate::environment::EnvironmentKind;
use crate::provision::deploy_android_example;
use crate::provision::run_in_environment;
use crate::provision::setup_android_emulator;
use crate::runner::Check;
use crate::runner::Crate;
use crate::runner::str_views;
use crate::spec_exec_error;
use crate::RunnerError;

verus! {

/// How long a formatting run may take, in milliseconds.
pub const FMT_TIMEOUT_MS: u64 = 30000;

/// How long a lint run may take, in milliseconds.
pub const CLIPPY_TIMEOUT_MS: u64 = 300000;

/// How long one functionality-test run may take, in milliseconds.
pub const FUNCTEST_TIMEOUT_MS: u64 = 300000;

/// The total number of checks declared over all crates: the number of
/// environment selections a run makes.
pub open spec fn total_checks(cs: Seq<Crate>) -> int
    decreases cs.len(),
{
    if cs.len() == 0 {
        0
    } else {
        total_checks(cs.drop_last()) + cs.last().checks@.len()
    }
}

/// One more crate adds its own check count.
proof fn lemma_total_checks_take_step(cs: Seq<Crate>, i: int)
    requires
        0 <= i < cs.len(),
    ensures
        total_checks(cs.take(i + 1)) == total_checks(cs.take(i)) + cs[i].checks@.len(),
{
    assert(cs.take(i + 1).drop_last() =~= cs.take(i));
    assert(cs.take(i + 1).last() == cs[i]);
}

/// A prefix declares no more checks than the whole.
proof fn lemma_total_checks_take_bound(cs: Seq<Crate>, i: int)
    requires
        0 <= i <= cs.len(),
    ensures
        total_checks(cs.take(i)) <= total_checks(cs),
    decreases cs.len() - i,
{
    if i == cs.len() {
        assert(cs.take(i) =~= cs);
    } else {
        lemma_total_checks_take_step(cs, i);
        lemma_total_checks_take_bound(cs, i + 1);
    }
}

/// A check of a crate in a crate list, as its model.
pub open spec fn check_of(cs: Seq<Crate>, ci: int, ck: int) -> crate::runner::CheckModel {
    cs[ci]@.checks[ck]
}

/// Some declared check either has no selectable environment for this host,
/// or targets Android: the two ways a run's own environment handling can
/// fail (selection, or device provisioning and classification).
pub open spec fn some_check_unservable(host: Seq<char>, cs: Seq<Crate>) -> bool {
    exists|ci: int, ck: int|
        0 <= ci < cs.len() && 0 <= ck < cs[ci]@.checks.len() && (!spec_selectable(
            host,
            #[trigger] check_of(cs, ci, ck),
        ) || spec_contains(check_of(cs, ci, ck).target_triple, "android"@))
}

/// The compiler front-end's version query, whose output names the host
/// target triple.
pub fn rustc_version_command(rustc_name: Option<String>) -> (r: Command)
    ensures
        r@.program == spec_tool_name(
            match rustc_name {
                Option::Some(o) => Some(o@),
                Option::None => Option::None,
            },
            "rustc"@,
        ),
        r@.args == seq!["-vV"@],
{
    let mut cmd = rustc(rustc_name);
    cmd.arg("-vV".to_owned());
    proof {
        assert(cmd@.args =~= seq!["-vV"@]);
    }
    cmd
}

/// Detect the host's own target triple: run [`rustc_version_command`],
/// capture its output, and take the `host: ` line, exactly as
/// [`parse_host_triple`] prescribes. Failing to find that line is an
/// environment failure; everything else can only fail through the tool.
pub fn host_target_triple(root: &Option<String>, rustc_name: Option<String>) -> (r: Result<
    String,
    RunnerError,
>)
    ensures
        r matches Err(e) ==> (spec_exec_error(e) || e is EnvironmentUnavailable),
{
    let cmd = rustc_version_command(rustc_name);
    let mut child = match cmd.spawn(root, true) {
        Result::Ok(child) => child,
        Result::Err(e) => {
            return Result::Err(e);
        },
    };
    let output = child.read_stdout();
    if let Result::Err(e) = run(&mut child, Option::None) {
        return Result::Err(e);
    }
    match output {
        Option::Some(text) => match parse_host_triple(text.as_str()) {
            Option::Some(triple) => Result::Ok(triple),
            Option::None => Result::Err(
                RunnerError::EnvironmentUnavailable(
                    ("no host line in compiler version output").to_owned(),
                ),
            ),
        },
        Option::None => Result::Err(RunnerError::Spawn(("no compiler output").to_owned())),
    }
}

/// The formatting command: `--edition 2021 --check` followed by every file
/// to check.
pub fn rust_fmt_command(files: &Vec<String>, rustfmt_name: Option<String>) -> (r: Command)
    ensures
        r@.program == spec_tool_name(
            match rustfmt_name {
                Option::Some(o) => Some(o@),
                Option::None => Option::None,
            },
            "rustfmt"@,
        ),
        r@.args == seq!["--edition"@, "2021"@, "--check"@] + str_views(files@),
{
    let mut fmt = rustfmt(rustfmt_name);
    fmt.arg("--edition".to_owned());
    fmt.arg("2021".to_owned());
    fmt.arg("--check".to_owned());
    proof {
        assert(fmt@.args =~= seq!["--edition"@, "2021"@, "--check"@]);
    }
    fmt.args(files.clone());
    fmt
}

/// The subcommands of one functionality-test mode: `test --tests`, or
/// `test --doc` for the documentation tests.
pub fn test_subcommands(doc: bool) -> (r: Vec<String>)
    ensures
        str_views(r@) == seq![
            "test"@,
            if doc {
                "--doc"@
            } else {
                "--tests"@
            },
        ],
{
    let mut r: Vec<String> = Vec::new();
    r.push("test".to_owned());
    if doc {
        r.push("--doc".to_owned());
    } else {
        r.push("--tests".to_owned());
    }
    proof {
        assert(str_views(r@) =~= seq![
            "test"@,
            if doc {
                "--doc"@
            } else {
                "--tests"@
            },
        ]);
    }
    r
}

/// The subcommands that run one example: `run --example <name>`.
pub fn example_subcommands(example: &String) -> (r: Vec<String>)
    ensures
        str_views(r@) == seq!["run"@, "--example"@, example@],
{
    let mut r: Vec<String> = Vec::new();
    r.push("run".to_owned());
    r.push("--example".to_owned());
    r.push(example.clone());
    proof {
        assert(str_views(r@) =~= seq!["run"@, "--example"@, example@]);
    }
    r
}

/// Check formatting: one formatter run over all the given files, built by
/// [`rust_fmt_command`], under the formatting timeout. Only the formatter
/// itself decides the outcome.
pub fn rust_fmt(root: &Option<String>, files: &Vec<String>, rustfmt_name: Option<String>) -> (r:
    Result<(), RunnerError>)
    ensures
        r matches Err(e) ==> spec_exec_error(e),
{
    let fmt = rust_fmt_command(files, rustfmt_name);
    let mut child = match fmt.spawn(root, false) {
        Result::Ok(child) => child,
        Result::Err(e) => {
            return Result::Err(e);
        },
    };
    run(&mut child, Option::Some(FMT_TIMEOUT_MS))
}

/// Lint every check of every crate: one `cargo clippy` run per check, each
/// built by [`crate::command::cargo_for_check`], in order, stopping at the
/// first failure. With no checks declared nothing runs and the lint
/// passes; only the linter itself can fail it.
pub fn rust_clippy(
    root: &Option<String>,
    crates: &Vec<Crate>,
    cargo_name: Option<String>,
) -> (r: Result<(), RunnerError>)
    ensures
        (forall|ci: int|
            0 <= ci < crates@.len() ==> (#[trigger] crates@[ci])@.checks.len() == 0) ==> r is Ok,
        r matches Err(e) ==> spec_exec_error(e),
{
    let subcommands = vec_of_one("clippy");
    let mut i: usize = 0;
    while i < crates.len()
        invariant
            i <= crates@.len(),
        decreases crates@.len() - i,
    {
        let crate_ = &crates[i];
        let mut k: usize = 0;
        while k < crate_.checks.len()
            invariant
                i < crates@.len(),
                *crate_ == crates@[i as int],
            decreases crate_.checks@.len() - k,
        {
            proof {
                assert(crates@[i as int]@.checks.len() == crate_.checks@.len());
            }
            let cmd = cargo_for_check(&subcommands, crate_, &crate_.checks[k], cargo_name.clone());
            let mut child = match cmd.spawn(root, false) {
                Result::Ok(child) => child,
                Result::Err(e) => {
                    return Result::Err(e);
                },
            };
            if let Result::Err(e) = run(&mut child, Option::Some(CLIPPY_TIMEOUT_MS)) {
                return Result::Err(e);
            }
            k = k + 1;
        }
        i = i + 1;
    }
    Result::Ok(())
}

/// The style run: formatting over the given files, then lints over every
/// crate and check. Only the tools themselves decide the outcome.
pub fn style(
    root: &Option<String>,
    crates: &Vec<Crate>,
    files: &Vec<String>,
    rustfmt_name: Option<String>,
    cargo_name: Option<String>,
) -> (r: Result<(), RunnerError>)
    ensures
        r matches Err(e) ==> spec_exec_error(e),
{
    if let Result::Err(e) = rust_fmt(root, files, rustfmt_name) {
        return Result::Err(e);
    }
    rust_clippy(root, crates, cargo_name)
}

/// Run one check's functionality tests: `cargo test --tests` then `cargo
/// test --doc`, each built by [`crate::command::cargo_for_check`], in the
/// environment the check selects, under the functionality timeout; on an
/// Android environment `cargo test` is deliberately skipped, since tests
/// cannot run on the device. The check's remaining steps are aborted at
/// its first failure. An environment error arises only when the check has
/// no selectable environment or targets Android; everything else can only
/// fail through the tools.
pub fn run_functionality_check(
    cache: &mut EnvironmentCache,
    host_target: &String,
    root: &Option<String>,
    crate_: &Crate,
    check: &Check,
    cargo_name: Option<String>,
    docker_name: Option<String>,
) -> (r: Result<(), RunnerError>)
    requires
        old(cache).wf(),
        old(cache).next_serial() < usize::MAX,
    ensures
        final(cache).wf(),
        final(cache).next_serial() <= old(cache).next_serial() + 1,
        r matches Err(e) ==> (spec_exec_error(e) || e is EnvironmentUnavailable),
        (r matches Err(e) && e is EnvironmentUnavailable) ==> (!spec_selectable(
            host_target@,
            check@,
        ) || spec_contains(check@.target_triple, "android"@)),
{
    let ghost pre = *cache;
    let handle = match choose_environment(cache, host_target, check) {
        Result::Ok(handle) => handle,
        Result::Err(e) => {
            return Result::Err(e);
        },
    };
    proof {
        let t = check@.target_triple;
        let he = check@.host_env;
        match crate::environment::spec_lookup(pre.entries(), t, he) {
            Option::Some(idx) => {
                crate::environment::lemma_lookup_in_range(pre.entries(), t, he);
                assert(handle@ == pre.entries()[idx]);
            },
            Option::None => {},
        }
        assert(handle@.kind is Docker ==> handle@.container is Some);
        assert(handle@.kind is Android ==> spec_contains(handle@.target_triple, "android"@));
        assert(handle@.target_triple == check@.target_triple);
        assert(cache.next_serial() <= pre.next_serial() + 1);
    }
    let mut mode: usize = 0;
    while mode < 2
        invariant
            cache.wf(),
            cache.next_serial() <= old(cache).next_serial() + 1,
            handle@.kind is Docker ==> handle@.container is Some,
            handle@.kind is Android ==> spec_contains(handle@.target_triple, "android"@),
            handle@.target_triple == check@.target_triple,
        decreases 2 - mode,
    {
        let subcommands = test_subcommands(mode == 1);
        let cmd = cargo_for_check(&subcommands, crate_, check, cargo_name.clone());
        match handle.kind {
            EnvironmentKind::Android => {
                // `cargo test` cannot run on the device: skipped with no
                // effect, as its classification says.
                match classify_android_command(cmd.program().as_str(), cmd.argument_list()) {
                    AndroidCommandKind::SkipCargoTest => {},
                    AndroidCommandKind::DeployExample => {},
                    AndroidCommandKind::Unsupported => {
                        return Result::Err(
                            RunnerError::EnvironmentUnavailable(
                                ("unable to run this command on Android").to_owned(),
                            ),
                        );
                    },
                }
            },
            _ => {
                let mut child = match run_in_environment(
                    &handle,
                    root,
                    &cmd,
                    docker_name.clone(),
                    false,
                ) {
                    Result::Ok(child) => child,
                    Result::Err(e) => {
                        return Result::Err(e);
                    },
                };
                if let Result::Err(e) = run(&mut child, Option::Some(FUNCTEST_TIMEOUT_MS)) {
                    return Result::Err(e);
                }
            },
        }
        mode = mode + 1;
    }
    Result::Ok(())
}

/// The functionality run: every check of every crate is attempted, each
/// through [`run_functionality_check`]; a check's failure does not abort
/// the unrelated checks, and the first error encountered is propagated.
/// With no crates nothing runs and nothing changes; an environment error
/// arises only from a check with no selectable environment or one
/// targeting Android; everything else can only fail through the tools.
pub fn functionality(
    cache: &mut EnvironmentCache,
    host_target: &String,
    root: &Option<String>,
    crates: &Vec<Crate>,
    cargo_name: Option<String>,
    docker_name: Option<String>,
) -> (r: Result<(), RunnerError>)
    requires
        old(cache).wf(),
        old(cache).next_serial() + total_checks(crates@) <= usize::MAX,
    ensures
        final(cache).wf(),
        crates@.len() == 0 ==> (r is Ok && *final(cache) == *old(cache)),
        r matches Err(e) ==> (spec_exec_error(e) || e is EnvironmentUnavailable),
        (r matches Err(e) && e is EnvironmentUnavailable) ==> some_check_unservable(
            host_target@,
            crates@,
        ),
{
    let mut first_error: Option<RunnerError> = Option::None;
    let mut i: usize = 0;
    while i < crates.len()
        invariant
            cache.wf(),
            i <= crates@.len(),
            old(cache).next_serial() + total_checks(crates@) <= usize::MAX,
            cache.next_serial() <= old(cache).next_serial() + total_checks(
                crates@.take(i as int),
            ),
            crates@.len() == 0 ==> *cache == *old(cache),
            crates@.len() == 0 ==> first_error is None,
            first_error matches Some(e) ==> (spec_exec_error(e)
                || e is EnvironmentUnavailable),
            (first_error matches Some(e) && e is EnvironmentUnavailable)
                ==> some_check_unservable(host_target@, crates@),
        decreases crates@.len() - i,
    {
        let crate_ = &crates[i];
        let mut k: usize = 0;
        while k < crate_.checks.len()
            invariant
                cache.wf(),
                i < crates@.len(),
                *crate_ == crates@[i as int],
                k <= crate_.checks@.len(),
                old(cache).next_serial() + total_checks(crates@) <= usize::MAX,
                cache.next_serial() <= old(cache).next_serial() + total_checks(
                    crates@.take(i as int),
                ) + k,
                first_error matches Some(e) ==> (spec_exec_error(e)
                    || e is EnvironmentUnavailable),
                (first_error matches Some(e) && e is EnvironmentUnavailable)
                    ==> some_check_unservable(host_target@, crates@),
            decreases crate_.checks@.len() - k,
        {
            let check = &crate_.checks[k];
            proof {
                lemma_total_checks_take_step(crates@, i as int);
                lemma_total_checks_take_bound(crates@, i + 1);
                assert(cache.next_serial() < usize::MAX);
            }
            let outcome = run_functionality_check(
                cache,
                host_target,
                root,
                crate_,
                check,
                cargo_name.clone(),
                docker_name.clone(),
            );
            if let Result::Err(e) = outcome {
                proof {
                    if e is EnvironmentUnavailable {
                        lemma_check_witness(crates@, i as int, k as int, *check, host_target@);
                    }
                }
                if first_error.is_none() {
                    first_error = Option::Some(e);
                }
            }
            k = k + 1;
        }
        proof {
            lemma_total_checks_take_step(crates@, i as int);
        }
        i = i + 1;
    }
    match first_error {
        Option::Some(e) => Result::Err(e),
        Option::None => Result::Ok(()),
    }
}

/// Run one check's host tests: `cargo run --example <crate>_<example>` for
/// each declared example, in the environment the check selects, with no
/// timeout. On an Android environment the example is instead
/// cross-compiled and deployed to the emulator — provisioned on first use,
/// its container recorded in the cache — and its scraped on-device results
/// decide the outcome. The check's remaining steps are aborted at its
/// first failure. An environment error arises only when the check has no
/// selectable environment or targets Android; everything else can only
/// fail through the tools.
pub fn run_host_check(
    cache: &mut EnvironmentCache,
    host_target: &String,
    root: &Option<String>,
    crate_: &Crate,
    check: &Check,
    names: &Vec<String>,
    device_manifest: &String,
    adbkey: &String,
    cargo_name: Option<String>,
    docker_name: Option<String>,
    adb_name: Option<String>,
    xbuild_name: Option<String>,
) -> (r: Result<(), RunnerError>)
    requires
        old(cache).wf(),
        old(cache).next_serial() < usize::MAX,
    ensures
        final(cache).wf(),
        final(cache).next_serial() <= old(cache).next_serial() + 1,
        r matches Err(e) ==> (spec_exec_error(e) || e is EnvironmentUnavailable),
        (r matches Err(e) && e is EnvironmentUnavailable) ==> (!spec_selectable(
            host_target@,
            check@,
        ) || spec_contains(check@.target_triple, "android"@)),
{
    let ghost pre = *cache;
    let handle = match choose_environment(cache, host_target, check) {
        Result::Ok(handle) => handle,
        Result::Err(e) => {
            return Result::Err(e);
        },
    };
    proof {
        let t = check@.target_triple;
        let he = check@.host_env;
        match crate::environment::spec_lookup(pre.entries(), t, he) {
            Option::Some(idx) => {
                crate::environment::lemma_lookup_in_range(pre.entries(), t, he);
                assert(handle@ == pre.entries()[idx]);
            },
            Option::None => {},
        }
        assert(handle@.kind is Docker ==> handle@.container is Some);
        assert(handle@.kind is Android ==> spec_contains(handle@.target_triple, "android"@));
        assert(handle@.target_triple == check@.target_triple);
        assert(cache.next_serial() <= pre.next_serial() + 1);
    }
    let mut handle = handle;
    let mut e: usize = 0;
    while e < names.len()
        invariant
            cache.wf(),
            cache.next_serial() <= old(cache).next_serial() + 1,
            handle@.kind is Docker ==> handle@.container is Some,
            handle@.kind is Android ==> spec_contains(handle@.target_triple, "android"@),
            handle@.target_triple == check@.target_triple,
        decreases names@.len() - e,
    {
        let example = example_name(&crate_.name, &names[e]);
        let subcommands = example_subcommands(&example);
        let cmd = cargo_for_check(&subcommands, crate_, check, cargo_name.clone());
        match handle.kind {
            EnvironmentKind::Android => {
                match classify_android_command(cmd.program().as_str(), cmd.argument_list()) {
                    AndroidCommandKind::SkipCargoTest => {},
                    AndroidCommandKind::DeployExample => {
                        // Boot the emulator on first use and record its
                        // container, then deploy and judge the scraped
                        // on-device results.
                        if handle.container.is_none() {
                            let container = match setup_android_emulator(
                                adbkey,
                                root,
                                docker_name.clone(),
                                adb_name.clone(),
                            ) {
                                Result::Ok(container) => container,
                                Result::Err(err) => {
                                    return Result::Err(err);
                                },
                            };
                            cache.set_container(handle.serial, container.clone());
                            handle.container = Option::Some(container);
                        }
                        if let Result::Err(err) = deploy_android_example(
                            device_manifest,
                            root,
                            xbuild_name.clone(),
                        ) {
                            return Result::Err(err);
                        }
                    },
                    AndroidCommandKind::Unsupported => {
                        return Result::Err(
                            RunnerError::EnvironmentUnavailable(
                                ("unable to run this command on Android").to_owned(),
                            ),
                        );
                    },
                }
            },
            _ => {
                let mut child = match run_in_environment(
                    &handle,
                    root,
                    &cmd,
                    docker_name.clone(),
                    false,
                ) {
                    Result::Ok(child) => child,
                    Result::Err(err) => {
                        return Result::Err(err);
                    },
                };
                if let Result::Err(err) = run(&mut child, Option::None) {
                    return Result::Err(err);
                }
            },
        }
        e = e + 1;
    }
    Result::Ok(())
}

/// The host-test run: every check of every crate is attempted with the
/// crate's declared examples, each through [`run_host_check`]; a check's
/// failure does not abort the unrelated checks, and the first error
/// encountered is propagated. With no crates nothing runs and nothing
/// changes; an environment error arises only from a check with no
/// selectable environment or one targeting Android; everything else can
/// only fail through the tools.
pub fn host_tests(
    cache: &mut EnvironmentCache,
    host_target: &String,
    root: &Option<String>,
    crates: &Vec<Crate>,
    examples: &Vec<Vec<String>>,
    device_manifest: &String,
    adbkey: &String,
    cargo_name: Option<String>,
    docker_name: Option<String>,
    adb_name: Option<String>,
    xbuild_name: Option<String>,
) -> (r: Result<(), RunnerError>)
    requires
        old(cache).wf(),
        crates@.len() == examples@.len(),
        old(cache).next_serial() + total_checks(crates@) <= usize::MAX,
    ensures
        final(cache).wf(),
        crates@.len() == 0 ==> (r is Ok && *final(cache) == *old(cache)),
        r matches Err(e) ==> (spec_exec_error(e) || e is EnvironmentUnavailable),
        (r matches Err(e) && e is EnvironmentUnavailable) ==> some_check_unservable(
            host_target@,
            crates@,
        ),
{
    let mut first_error: Option<RunnerError> = Option::None;
    let mut i: usize = 0;
    while i < crates.len()
        invariant
            cache.wf(),
            i <= crates@.len(),
            crates@.len() == examples@.len(),
            old(cache).next_serial() + total_checks(crates@) <= usize::MAX,
            cache.next_serial() <= old(cache).next_serial() + total_checks(
                crates@.take(i as int),
            ),
            crates@.len() == 0 ==> *cache == *old(cache),
            crates@.len() == 0 ==> first_error is None,
            first_error matches Some(e) ==> (spec_exec_error(e)
                || e is EnvironmentUnavailable),
            (first_error matches Some(e) && e is EnvironmentUnavailable)
                ==> some_check_unservable(host_target@, crates@),
        decreases crates@.len() - i,
    {
        let crate_ = &crates[i];
        let names = &examples[i];
        let mut k: usize = 0;
        while k < crate_.checks.len()
            invariant
                cache.wf(),
                i < crates@.len(),
                *crate_ == crates@[i as int],
                k <= crate_.checks@.len(),
                old(cache).next_serial() + total_checks(crates@) <= usize::MAX,
                cache.next_serial() <= old(cache).next_serial() + total_checks(
                    crates@.take(i as int),
                ) + k,
                first_error matches Some(e) ==> (spec_exec_error(e)
                    || e is EnvironmentUnavailable),
                (first_error matches Some(e) && e is EnvironmentUnavailable)
                    ==> some_check_unservable(host_target@, crates@),
            decreases crate_.checks@.len() - k,
        {
            let check = &crate_.checks[k];
            proof {
                lemma_total_checks_take_step(crates@, i as int);
                lemma_total_checks_take_bound(crates@, i + 1);
                assert(cache.next_serial() < usize::MAX);
            }
            let outcome = run_host_check(
                cache,
                host_target,
                root,
                crate_,
                check,
                names,
                device_manifest,
                adbkey,
                cargo_name.clone(),
                docker_name.clone(),
                adb_name.clone(),
                xbuild_name.clone(),
            );
            if let Result::Err(e) = outcome {
                proof {
                    if e is EnvironmentUnavailable {
                        lemma_check_witness(crates@, i as int, k as int, *check, host_target@);
                    }
                }
                if first_error.is_none() {
                    first_error = Option::Some(e);
                }
            }
            k = k + 1;
        }
        proof {
            lemma_total_checks_take_step(crates@, i as int);
        }
        i = i + 1;
    }
    match first_error {
        Option::Some(e) => Result::Err(e),
        Option::None => Result::Ok(()),
    }
}

/// The check at `(ci, ck)` witnesses `some_check_unservable` when it is
/// not selectable for the host or targets Android.
proof fn lemma_check_witness(
    cs: Seq<Crate>,
    ci: int,
    ck: int,
    check: crate::runner::Check,
    host: Seq<char>,
)
    requires
        0 <= ci < cs.len(),
        0 <= ck < cs[ci].checks@.len(),
        check == cs[ci].checks@[ck],
        !spec_selectable(host, check@) || spec_contains(check@.target_triple, "android"@),
    ensures
        some_check_unservable(host, cs),
{
    assert(check_of(cs, ci, ck) == check@);
    assert(0 <= ck < cs[ci]@.checks.len());
    assert(!spec_selectable(host, check_of(cs, ci, ck)) || spec_contains(
        check_of(cs, ci, ck).target_triple,
        "android"@,
    ));
}

/// The name of a package's on-device example binary: the package name and
/// the example's own name, joined with an underscore.
pub fn example_name(package: &String, example: &String) -> (r: String)
    ensures
        r@ == package@ + seq!['_'] + example@,
{
    let mut r = package.clone();
    r.append("_");
    r.append(example.as_str());
    proof {
        reveal_strlit("_");
        assert(r@ =~= package@ + seq!['_'] + example@);
    }
    r
}

/// The root directory of the named package in build-tool metadata, given
/// as (package name, manifest directory) pairs: the first entry with that
/// name.
pub fn find_package_root(packages: &Vec<(String, String)>, name: &String) -> (r: Option<String>)
    ensures
        match r {
            Option::Some(root) => exists|i: int|
                0 <= i < packages@.len() && (#[trigger] packages@[i]).0@ == name@
                    && packages@[i].1@ == root@,
            Option::None => forall|i: int|
                0 <= i < packages@.len() ==> (#[trigger] packages@[i]).0@ != name@,
        },
{
    let mut i: usize = 0;
    while i < packages.len()
        invariant
            i <= packages@.len(),
            forall|k: int| 0 <= k < i ==> (#[trigger] packages@[k]).0@ != name@,
        decreases packages@.len() - i,
    {
        if packages[i].0.eq(name) {
            return Option::Some(packages[i].1.clone());
        }
        i = i + 1;
    }
    Option::None
}

/// A vector holding one string.
fn vec_of_one(s: &str) -> (r: Vec<String>)
    ensures
        str_views(r@) == seq![s@],
{
    let mut r: Vec<String> = Vec::new();
    r.push(s.to_owned());
    proof {
        assert(str_views(r@) =~= seq![s@]);
    }
    r
}

} // verus!
