use bouclier_bleu::xtask::args::{parse_args, Task, DEFAULT_IMAGE, IMAGE_MISSING, USAGE};
use bouclier_bleu::xtask::command::{
    await_guest_agent, execute_cmd, guest_command, incus_exec, AgentStep, CommandOutput,
    AGENT_ATTEMPTS,
};
use bouclier_bleu::xtask::report::{generate_markdown_report, verdict, TestRecord};
use bouclier_bleu::xtask::runner::{
    plan_run, plan_suite, select_suites, split_extension, unit_case, RunAction, RunEvent, Selection, Suite,
    SuiteFile, TestRun, MAX_RESTORE_NANOS, PUBLIC_SUITES,
};
use bouclier_bleu::xtask::vm::{
    airgap_notice, assert_no_network, enforce_airgap, ensure_base_image, find_archive, fingerprint, launch_args,
    needs_image_build, next_stage, AirGapAction, AirGapEvent, ImageAction, ImageEvent, SetupStage,
};

fn strings(items: &[&str]) -> Vec<String> {
    items.iter().map(|s| s.to_string()).collect()
}

fn output(success: bool, code: Option<i32>, stdout: &str, stderr: &str) -> CommandOutput {
    CommandOutput { success, code, stdout: stdout.as_bytes().to_vec(), stderr: stderr.as_bytes().to_vec() }
}

fn record(name: &str, passed: bool) -> TestRecord {
    TestRecord {
        name: name.to_string(),
        category: "component".to_string(),
        duration: "1.50".to_string(),
        passed,
    }
}

#[test]
fn image_may_be_announced_anywhere() {
    for args in [&["-img", "other", "test", "unit"][..], &["test", "--img", "other", "unit"], &["test", "unit", "-img", "other"]] {
        let invocation = parse_args(&strings(args)).ok().unwrap();
        assert_eq!(invocation.image, "other");
        match invocation.task {
            Task::Test { category, target } => {
                assert_eq!(category, Some("unit".to_string()));
                assert_eq!(target, None);
            }
            _ => panic!("tests were asked for"),
        }
    }
}

#[test]
fn arguments_stand_for_tasks() {
    let invocation = parse_args(&strings(&["prepare-image"])).ok().unwrap();
    assert!(matches!(invocation.task, Task::PrepareImage));
    assert_eq!(invocation.image, DEFAULT_IMAGE);
    match parse_args(&strings(&["test", "component", "exec_block", "more"])).ok().unwrap().task {
        Task::Test { category, target } => {
            assert_eq!(category, Some("component".to_string()));
            assert_eq!(target, Some("exec_block".to_string()));
        }
        _ => panic!("a test was asked for"),
    }
    assert!(matches!(parse_args(&strings(&[])).ok().unwrap().task, Task::Unknown));
    assert!(matches!(parse_args(&strings(&["build"])).ok().unwrap().task, Task::Unknown));
    assert_eq!(parse_args(&strings(&["test", "-img"])).err(), Some(IMAGE_MISSING));
    assert_eq!(USAGE[0], "Bouclier Bleu Build & Test Pipeline");
}

#[test]
fn host_commands_are_judged() {
    assert_eq!(execute_cmd("Failed", Ok(output(true, Some(0), "", "noise"))), Ok(()));
    assert_eq!(
        execute_cmd("Failed", Ok(output(false, Some(2), "", "  boom \n"))),
        Err("Failed (Exit code: 2)\n\n--- STDERR ---\nboom".to_string())
    );
    assert_eq!(
        execute_cmd("Failed", Ok(output(false, None, "", ""))),
        Err("Failed (Exit code: -1)\n\n--- STDERR ---\n".to_string())
    );
    assert_eq!(execute_cmd("Failed", Err("ENOENT".to_string())), Err("Failed: ENOENT".to_string()));
}

#[test]
fn guest_commands_are_put_and_judged() {
    assert_eq!(guest_command("sync"), "source ~/.cargo/env && cd /workspace && sync");
    assert_eq!(incus_exec(Ok(output(true, Some(0), "", ""))), Ok(()));
    assert_eq!(
        incus_exec(Ok(output(false, Some(101), "out", "err"))),
        Err("Guest command failed (Exit code: Some(101))\n\n--- STDOUT ---\nout\n--- STDERR ---\nerr".to_string())
    );
    assert_eq!(
        incus_exec(Ok(output(false, None, "", ""))),
        Err("Guest command failed (Exit code: None)\n\n--- STDOUT ---\n\n--- STDERR ---\n".to_string())
    );
    assert_eq!(
        incus_exec(Ok(output(false, Some(i32::MIN), "", ""))),
        Err(format!("Guest command failed (Exit code: {:?})\n\n--- STDOUT ---\n\n--- STDERR ---\n", Some(i32::MIN)))
    );
    assert_eq!(
        incus_exec(Err("ENOENT".to_string())),
        Err("Incus translation execution failure: ENOENT".to_string())
    );
}

#[test]
fn the_guest_is_awaited_for_a_while() {
    assert!(await_guest_agent(1, true) == AgentStep::Ready);
    assert!(await_guest_agent(1, false) == AgentStep::Retry);
    assert!(await_guest_agent(AGENT_ATTEMPTS - 1, false) == AgentStep::Retry);
    assert!(await_guest_agent(AGENT_ATTEMPTS, false) == AgentStep::TimedOut);
    assert!(await_guest_agent(AGENT_ATTEMPTS, true) == AgentStep::Ready);
}

#[test]
fn report_lists_every_test() {
    let results = [record("exec_block.sh", true), record("shield.sh", false)];
    assert_eq!(
        generate_markdown_report(&results, "12.00", "3.25", None),
        Some(
            "# Bouclier Bleu Test Results\n\n| Test Name | Category | Duration | Status |\n|-----------|----------|----------|--------|\n\
             | `exec_block.sh` | component | 1.50s | PASS |\n\
             | `shield.sh` | component | 1.50s | FAIL |\n\
             \n## Pipeline Environment Metrics\n\n* **Initial VM Setup & Snapshot:** `12.00s`\n* **Cumulative Snapshot Restorations:** `3.25s`\n"
                .to_string()
        )
    );
    let with_benchmarks = generate_markdown_report(&results, "12.00", "3.25", Some("## Bench\n")).unwrap();
    assert!(with_benchmarks.ends_with("`3.25s`\n\n## Bench\n"));
    assert_eq!(generate_markdown_report(&[], "0.00", "0.00", None), None);
}

#[test]
fn one_failure_fails_the_run() {
    assert_eq!(verdict(&[record("a", true), record("b", true)]), Ok(()));
    assert_eq!(verdict(&[]), Ok(()));
    assert_eq!(
        verdict(&[record("a", true), record("b", false)]),
        Err("One or more test suites failed validation.")
    );
}

#[test]
fn categories_stand_for_suites() {
    assert!(matches!(select_suites(None), Selection::All));
    assert!(matches!(select_suites(Some("all")), Selection::All));
    assert!(matches!(select_suites(Some("unit")), Selection::One(Suite::Unit)));
    assert!(matches!(select_suites(Some("component")), Selection::One(Suite::Component)));
    assert!(matches!(select_suites(Some("integration")), Selection::One(Suite::Integration)));
    assert!(matches!(select_suites(Some("benchmark")), Selection::One(Suite::Benchmark)));
    for private in ["fuzz", "fuzzing", "threat"] {
        match select_suites(Some(private)) {
            Selection::Restricted(line) => assert_eq!(
                line,
                format!("[WARN] The '{}' test suite requires strict network air-gapping and is restricted.", private)
            ),
            _ => panic!("a private suite must not be run"),
        }
    }
    match select_suites(Some("x")) {
        Selection::Unknown(error) => assert_eq!(error, "Unknown test category: x"),
        _ => panic!("there is no such category"),
    }
    assert_eq!(PUBLIC_SUITES.len(), 4);
    assert_eq!(Suite::Component.title(), "Component (eBPF Defenses)");
}

#[test]
fn unit_tests_are_one_command() {
    let all = unit_case(None);
    assert_eq!(all.name, "Workspace Unit Tests");
    assert_eq!(all.command, "cargo test -q --release --workspace --lib ");
    let one = unit_case(Some("reader"));
    assert_eq!(one.name, "Unit Filter: reader");
    assert_eq!(one.command, "cargo test -q --release --workspace --lib reader");
}

fn files() -> Vec<SuiteFile> {
    [("exec_block.sh", true), ("shield.sh", true), ("notes.md", true), ("old.sh", false), ("e2e.rs", true), (".sh", true)]
        .iter()
        .map(|(name, is_file)| SuiteFile { is_file: *is_file, name: name.to_string() })
        .collect()
}

#[test]
fn suites_are_made_of_their_files() {
    let cases = plan_suite(Suite::Component, None, &files());
    let names: Vec<&str> = cases.iter().map(|c| c.name.as_str()).collect();
    assert_eq!(names, vec!["exec_block.sh", "shield.sh"]);
    assert_eq!(cases[0].command, "bash tests/component/exec_block.sh");
    for target in ["shield", "shield.sh"] {
        let cases = plan_suite(Suite::Component, Some(target), &files());
        assert_eq!(cases.len(), 1);
        assert_eq!(cases[0].name, "shield.sh");
    }
    assert!(plan_suite(Suite::Component, Some("sh"), &files()).is_empty());
    let cases = plan_suite(Suite::Integration, None, &files());
    assert_eq!(cases.len(), 1);
    assert_eq!(cases[0].name, "e2e");
    assert_eq!(cases[0].command, "cargo test -q --release --test e2e");
    let cases = plan_suite(Suite::Benchmark, Some("e2e"), &files());
    assert_eq!(cases[0].command, "cargo test -q --release --test e2e -- --nocapture");
}

#[test]
fn extensions_are_split_off() {
    for (name, stem, extension) in [("a.sh", "a", "sh"), ("a.b.c", "a.b", "c"), ("a.", "a", ""), (".sh", ".sh", ""), ("a", "a", "")] {
        assert_eq!(split_extension(name), (stem.to_string(), extension.to_string()));
    }
}

#[test]
fn setup_ends_with_an_air_gapped_snapshot() {
    let mut stages = vec![SetupStage::BaseImage];
    while stages[stages.len() - 1] != SetupStage::Finished {
        stages.push(next_stage(stages[stages.len() - 1]));
    }
    assert_eq!(stages.len(), 12);
    assert!(stages[7] == SetupStage::AirGap);
    assert!(stages[9] == SetupStage::VerifyAirGap);
    assert!(stages[10] == SetupStage::Snapshot);
    assert!(next_stage(SetupStage::Finished) == SetupStage::Finished);
}

#[test]
fn archive_of_an_image_is_found() {
    let names = strings(&["Results.md", "base.tar", "other.tar.gz", "base.tar.xz"]);
    assert_eq!(find_archive(&names, "base"), Ok(1));
    assert_eq!(find_archive(&names, "other"), Ok(2));
    assert_eq!(
        find_archive(&names, "none"),
        Err("Pre-compiled test image 'none' missing. Run `scripts/build_image.sh -out none`.".to_string())
    );
    assert!(!needs_image_build(true, false));
    assert!(!needs_image_build(false, true));
    assert!(needs_image_build(false, false));
}

fn failure(action: ImageAction) -> String {
    match action {
        ImageAction::Fail(error) => error,
        _ => panic!("a failure was expected"),
    }
}

#[test]
fn base_image_is_made_known() {
    let step = |event: ImageEvent| ensure_base_image("base", event);
    assert!(matches!(step(ImageEvent::Known(true)), ImageAction::Done));
    assert!(matches!(step(ImageEvent::Known(false)), ImageAction::List));
    let names = strings(&["Results.md", "base.tar.xz"]);
    assert!(matches!(step(ImageEvent::Listed(names)), ImageAction::Import(1)));
    assert_eq!(
        failure(step(ImageEvent::Listed(Vec::new()))),
        "Pre-compiled test image 'base' missing. Run `scripts/build_image.sh -out base`."
    );
    let imported = |success, stderr| ensure_base_image("base", ImageEvent::Imported(Ok(output(success, Some(1), "", stderr))));
    assert!(matches!(imported(true, "already exists"), ImageAction::Done));
    assert!(matches!(imported(false, "Image with same fingerprint already exists"), ImageAction::Checksum));
    assert_eq!(failure(imported(false, "no space")), "Image synchronization error:\nno space");
    assert_eq!(failure(step(ImageEvent::Imported(Err("ENOENT".to_string())))), "Incus import failed: ENOENT");
    match step(ImageEvent::Checksum(Ok(output(false, Some(1), "abc123  base.tar.gz\n", "")))) {
        ImageAction::CreateAlias(found) => assert_eq!(found, "abc123"),
        _ => panic!("an alias is all that is missing"),
    }
    assert_eq!(failure(step(ImageEvent::Checksum(Err("ENOENT".to_string())))), "ENOENT");
    assert!(matches!(step(ImageEvent::Aliased(Ok(output(true, Some(0), "", "")))), ImageAction::Done));
    assert_eq!(
        failure(step(ImageEvent::Aliased(Ok(output(false, Some(1), "", "locked"))))),
        "Failed to bypass alias lock (Exit code: 1)\n\n--- STDERR ---\nlocked"
    );
    assert_eq!(failure(step(ImageEvent::Aliased(Err("x".to_string())))), "Failed to bypass alias lock: x");
    assert_eq!(fingerprint(b""), "");
}

fn gap_failure(action: AirGapAction) -> String {
    match action {
        AirGapAction::Fail(error) => error,
        _ => panic!("a failure was expected"),
    }
}

#[test]
fn network_is_taken_away() {
    assert!(matches!(enforce_airgap(AirGapEvent::Profile(false)), AirGapAction::Copy));
    assert!(matches!(enforce_airgap(AirGapEvent::Profile(true)), AirGapAction::RemoveAdapter));
    assert!(matches!(enforce_airgap(AirGapEvent::Copied(Ok(output(true, Some(0), "", "")))), AirGapAction::RemoveAdapter));
    assert!(matches!(enforce_airgap(AirGapEvent::Removed(Ok(output(true, Some(0), "", "")))), AirGapAction::Assign));
    assert!(matches!(enforce_airgap(AirGapEvent::Removed(Ok(output(false, Some(1), "", "Device doesn't exist")))), AirGapAction::Assign));
    assert!(matches!(enforce_airgap(AirGapEvent::Assigned(Ok(output(true, Some(0), "", "")))), AirGapAction::Done));
    assert_eq!(gap_failure(enforce_airgap(AirGapEvent::Copied(Err("e".to_string())))), "Failed to copy default profile: e");
    assert_eq!(
        gap_failure(enforce_airgap(AirGapEvent::Removed(Ok(output(false, Some(1), "", "denied"))))),
        "Failed to remove eth0 from profile:\ndenied"
    );
    assert_eq!(
        gap_failure(enforce_airgap(AirGapEvent::Removed(Err("e".to_string())))),
        "Failed to execute incus profile device remove: e"
    );
    assert_eq!(
        gap_failure(enforce_airgap(AirGapEvent::Assigned(Ok(output(false, None, "", "x"))))),
        "Failed to assign air-gapped profile (Exit code: -1)\n\n--- STDERR ---\nx"
    );
}

#[test]
fn a_run_restores_the_guest_before_every_test() {
    let mut run = TestRun::new(vec![Suite::Unit, Suite::Component, Suite::Integration], None);
    let name = |action: RunAction| match action {
        RunAction::Restore(name) => name,
        _ => panic!("the guest must be restored"),
    };
    let executed = |passed| RunEvent::Executed { passed, duration: "0.10".to_string() };
    assert_eq!(name(run.step(RunEvent::Begin)), "Workspace Unit Tests");
    assert!(run.current_suite() == Some(Suite::Unit));
    match run.step(RunEvent::Restored { nanos: 1_000_000_007 }) {
        RunAction::Execute(command) => assert_eq!(command, "cargo test -q --release --workspace --lib "),
        _ => panic!("the test must be run"),
    }
    assert!(matches!(run.step(executed(true)), RunAction::List(Suite::Component)));
    assert_eq!(name(run.step(RunEvent::Files(Some(files())))), "exec_block.sh");
    match run.step(RunEvent::Restored { nanos: 1_000_000_007 }) {
        RunAction::Execute(command) => assert_eq!(command, "bash tests/component/exec_block.sh"),
        _ => panic!("the test must be run"),
    }
    assert_eq!(name(run.step(executed(false))), "shield.sh");
    run.step(RunEvent::Restored { nanos: 1_000_000_007 });
    assert!(matches!(run.step(executed(true)), RunAction::List(Suite::Integration)));
    assert!(matches!(run.step(RunEvent::Files(None)), RunAction::Finish));
    let seen: Vec<(&str, &str, bool)> =
        run.results().iter().map(|r| (r.name.as_str(), r.category.as_str(), r.passed)).collect();
    assert_eq!(
        seen,
        vec![
            ("Workspace Unit Tests", "unit", true),
            ("exec_block.sh", "component", false),
            ("shield.sh", "component", true),
        ]
    );
    assert!(verdict(run.results()).is_err());
    assert_eq!(run.restore_nanos(), 3_000_000_021);
}

#[test]
fn a_guest_that_cannot_be_restored_ends_the_run() {
    let mut run = TestRun::new(vec![Suite::Component, Suite::Integration], None);
    run.step(RunEvent::Begin);
    run.step(RunEvent::Files(Some(files())));
    run.step(RunEvent::Restored { nanos: 5 });
    assert!(matches!(
        run.step(RunEvent::Executed { passed: true, duration: "0.10".to_string() }),
        RunAction::Restore(_)
    ));
    match run.step(RunEvent::RestoreFailed("VM state reversion failed".to_string())) {
        RunAction::Fail(error) => assert_eq!(error, "VM state reversion failed"),
        _ => panic!("the run must fail"),
    }
    assert_eq!(run.results().len(), 1);
    assert_eq!(run.restore_nanos(), 5);
}

#[test]
fn a_directory_that_cannot_be_listed_ends_the_run() {
    let mut run = TestRun::new(vec![Suite::Integration], None);
    run.step(RunEvent::Begin);
    match run.step(RunEvent::ListFailed("Permission denied".to_string())) {
        RunAction::Fail(error) => assert_eq!(error, "IO Error reading integration dir: Permission denied"),
        _ => panic!("the run must fail"),
    }
}

#[test]
fn metrics_are_fetched_from_benchmarks_that_passed() {
    let scripts = || {
        ["a.rs", "b.rs"]
            .iter()
            .map(|name| SuiteFile { is_file: true, name: name.to_string() })
            .collect::<Vec<SuiteFile>>()
    };
    for (suite, fetched) in [(Suite::Benchmark, true), (Suite::Integration, false)] {
        let mut run = TestRun::new(vec![suite], None);
        run.step(RunEvent::Begin);
        run.step(RunEvent::Files(Some(scripts())));
        run.step(RunEvent::Restored { nanos: 0 });
        let mut action = run.step(RunEvent::Executed { passed: true, duration: "1.00".to_string() });
        assert_eq!(matches!(action, RunAction::FetchMetrics), fetched);
        if fetched {
            action = run.step(RunEvent::Fetched);
        }
        assert!(matches!(action, RunAction::Restore(_)));
        run.step(RunEvent::Restored { nanos: MAX_RESTORE_NANOS });
        // A failure leaves no metrics, and does not keep the run from its end.
        let action = run.step(RunEvent::Executed { passed: false, duration: "1.00".to_string() });
        assert!(matches!(action, RunAction::Finish));
        assert_eq!(run.restore_nanos(), MAX_RESTORE_NANOS);
    }
}

#[test]
fn tests_are_announced_and_their_failures_reported() {
    assert_eq!(
        Suite::Component.restore_notice("shield.sh"),
        "\n[INFO] Reverting environment to clean state for shield.sh..."
    );
    assert!(Suite::Unit.restore_notice("x").ends_with("clean state for Unit Tests..."));
    assert_eq!(Suite::Unit.failure_notice("x"), "\n[ERROR] Unit test suite failed.");
    assert_eq!(Suite::Benchmark.failure_notice("shield"), "\n[ERROR] benchmark test failed: shield");
}

#[test]
fn a_run_without_matching_tests_ends_at_once() {
    let mut run = TestRun::new(vec![Suite::Component], Some("nothing".to_string()));
    assert!(matches!(run.step(RunEvent::Begin), RunAction::List(Suite::Component)));
    assert!(matches!(run.step(RunEvent::Files(Some(files()))), RunAction::Finish));
    assert!(run.results().is_empty());
    let mut run = TestRun::new(Vec::new(), None);
    assert!(matches!(run.step(RunEvent::Begin), RunAction::Finish));
}

#[test]
fn any_interface_but_the_loopback_breaks_the_air_gap() {
    let lo = "1: lo: <LOOPBACK,UP,LOWER_UP> mtu 65536 qdisc noqueue state UNKNOWN\n";
    assert_eq!(assert_no_network(Ok(lo.as_bytes().to_vec())), Ok(()));
    assert_eq!(assert_no_network(Ok(Vec::new())), Ok(()));
    for (line, name) in [
        ("2: eth0: <BROADCAST> mtu 1500\n", "eth0"),
        ("2: enp5s0: <BROADCAST> mtu 1500\n", "enp5s0"),
        ("2: veth1@if7: <BROADCAST> mtu 1500\n", "veth1"),
    ] {
        assert_eq!(
            assert_no_network(Ok(format!("{}{}", lo, line).into_bytes())),
            Err(format!("Air-gap violation: {} interface detected", name))
        );
    }
    assert_eq!(
        assert_no_network(Err("ENOENT".to_string())),
        Err("Failed to inspect VM network: ENOENT".to_string())
    );
}

#[test]
fn guest_is_a_virtual_machine() {
    assert_eq!(
        launch_args("base"),
        strings(&[
            "launch", "base", "bb-test-runner", "--vm", "-c", "security.secureboot=false", "-c",
            "limits.cpu=4", "-c", "limits.memory=8GB",
        ])
    );
}

#[test]
fn a_category_and_a_target_make_a_plan() {
    for category in [None, Some("all")] {
        let plan = plan_run(category, Some("shield")).ok().unwrap();
        assert!(plan.suites == PUBLIC_SUITES);
        assert_eq!(plan.target, None);
        assert_eq!(plan.notice.unwrap(), "\n[INFO] Initiating public Bouclier Bleu test suites...");
    }
    let plan = plan_run(Some("component"), Some("shield")).ok().unwrap();
    assert!(plan.suites == [Suite::Component]);
    assert_eq!(plan.target, Some("shield".to_string()));
    assert_eq!(plan.notice, None);
    for private in ["fuzz", "fuzzing", "threat"] {
        let plan = plan_run(Some(private), Some("x")).ok().unwrap();
        assert!(plan.suites.is_empty());
        assert_eq!(plan.target, None);
        assert!(plan.notice.unwrap().ends_with("and is restricted."));
    }
    assert_eq!(plan_run(Some("x"), None).err(), Some("Unknown test category: x".to_string()));
}

#[test]
fn an_operator_is_told_of_the_air_gap() {
    let removed = |success, stderr| AirGapEvent::Removed(Ok(output(success, Some(1), "", stderr)));
    assert_eq!(
        airgap_notice(&AirGapEvent::Profile(true)),
        Some("[INFO] 'bb-no-network' profile already exists.")
    );
    assert_eq!(
        airgap_notice(&AirGapEvent::Profile(false)),
        Some("[INFO] Creating 'bb-no-network' profile from default...")
    );
    assert_eq!(
        airgap_notice(&removed(true, "")),
        Some("[INFO] Removed eth0 from 'bb-no-network' profile.")
    );
    assert_eq!(
        airgap_notice(&removed(false, "Device doesn't exist")),
        Some("[INFO] No eth0 device present (already air-gapped).")
    );
    assert_eq!(airgap_notice(&removed(false, "denied")), None);
    assert_eq!(airgap_notice(&AirGapEvent::Removed(Err("e".to_string()))), None);
}
