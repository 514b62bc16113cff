use rust_ryda::outcome::ExitStatus;
use rust_ryda::outcome::LaunchOutcome;
use rust_ryda::outcome::ProcessHandle;
use rust_ryda::outcome::ReportEntry;
use rust_ryda::outcome::ServiceSpec;
use rust_ryda::outcome::SpawnResult;
use rust_ryda::outcome::TerminationOutcome;
use rust_ryda::outcome::WaitResult;
use rust_ryda::supervisor::launch_all;
use rust_ryda::supervisor::live_handles;
use rust_ryda::supervisor::supervise;
use rust_ryda::supervisor::wait_all;

fn spec(name: &str) -> ServiceSpec {
    ServiceSpec { name: String::from(name) }
}

#[test]
fn empty_input_yields_empty_report() {
    let report = supervise(&vec![], &vec![], &vec![]);
    assert_eq!(report.len(), 0);
}

#[test]
fn launch_all_keeps_length_and_order() {
    let specs = vec![spec("one"), spec("two"), spec("three")];
    let spawns = vec![
        SpawnResult::Spawned(11),
        SpawnResult::SpawnError(String::from("no such file")),
        SpawnResult::Spawned(33),
    ];
    let outcomes = launch_all(&specs, &spawns);
    assert_eq!(outcomes.len(), 3);
    assert_eq!(
        outcomes[0],
        LaunchOutcome::Launched(ProcessHandle { spec_name: String::from("one"), pid: 11 })
    );
    assert_eq!(outcomes[1], LaunchOutcome::LaunchFailed(String::from("no such file")));
    assert_eq!(
        outcomes[2],
        LaunchOutcome::Launched(ProcessHandle { spec_name: String::from("three"), pid: 33 })
    );
}

#[test]
fn handles_match_successful_launches() {
    let specs = vec![spec("a"), spec("b"), spec("c"), spec("d")];
    let spawns = vec![
        SpawnResult::SpawnError(String::from("denied")),
        SpawnResult::Spawned(5),
        SpawnResult::Spawned(6),
        SpawnResult::SpawnError(String::from("missing")),
    ];
    let outcomes = launch_all(&specs, &spawns);
    let handles = live_handles(&outcomes);
    let successes = outcomes
        .iter()
        .filter(|o| matches!(o, LaunchOutcome::Launched(_)))
        .count();
    assert_eq!(handles.len(), successes);
    assert_eq!(handles[0], ProcessHandle { spec_name: String::from("b"), pid: 5 });
    assert_eq!(handles[1], ProcessHandle { spec_name: String::from("c"), pid: 6 });
}

#[test]
fn wait_all_keeps_length_and_order() {
    let handles = vec![
        ProcessHandle { spec_name: String::from("a"), pid: 1 },
        ProcessHandle { spec_name: String::from("b"), pid: 2 },
        ProcessHandle { spec_name: String::from("c"), pid: 3 },
    ];
    let waits = vec![
        WaitResult::Reaped(ExitStatus::Code(0)),
        WaitResult::WaitError(String::from("gone")),
        WaitResult::Reaped(ExitStatus::Signal(15)),
    ];
    let terms = wait_all(&handles, &waits);
    assert_eq!(terms.len(), 3);
    assert_eq!(terms[0], TerminationOutcome::Exited(ExitStatus::Code(0)));
    assert_eq!(terms[1], TerminationOutcome::WaitFailed(String::from("gone")));
    assert_eq!(terms[2], TerminationOutcome::Exited(ExitStatus::Signal(15)));
}

#[test]
fn two_clean_services_both_exit_zero() {
    let specs = vec![spec("ok1"), spec("ok2")];
    let spawns = vec![SpawnResult::Spawned(101), SpawnResult::Spawned(102)];
    let waits = vec![
        WaitResult::Reaped(ExitStatus::Code(0)),
        WaitResult::Reaped(ExitStatus::Code(0)),
    ];
    let report = supervise(&specs, &spawns, &waits);
    assert_eq!(
        report,
        vec![
            ReportEntry::Exited { spec_name: String::from("ok1"), status: ExitStatus::Code(0) },
            ReportEntry::Exited { spec_name: String::from("ok2"), status: ExitStatus::Code(0) },
        ]
    );
}

#[test]
fn missing_executable_does_not_stop_the_next_one() {
    let specs = vec![spec("missing"), spec("ok1")];
    let spawns = vec![
        SpawnResult::SpawnError(String::from("executable not found")),
        SpawnResult::Spawned(7),
    ];
    let waits = vec![WaitResult::Reaped(ExitStatus::Code(0))];
    let report = supervise(&specs, &spawns, &waits);
    assert_eq!(
        report,
        vec![
            ReportEntry::LaunchFailed {
                spec_name: String::from("missing"),
                error: String::from("executable not found"),
            },
            ReportEntry::Exited { spec_name: String::from("ok1"), status: ExitStatus::Code(0) },
        ]
    );
}

#[test]
fn signal_termination_is_an_exit_not_a_wait_failure() {
    let specs = vec![spec("ok1")];
    let spawns = vec![SpawnResult::Spawned(55)];
    let waits = vec![WaitResult::Reaped(ExitStatus::Signal(9))];
    let report = supervise(&specs, &spawns, &waits);
    assert_eq!(report.len(), 1);
    assert_eq!(
        report[0],
        ReportEntry::Exited { spec_name: String::from("ok1"), status: ExitStatus::Signal(9) }
    );
    assert!(!matches!(report[0], ReportEntry::WaitFailed { .. }));
}

#[test]
fn report_follows_launch_order_not_completion_order() {
    // "b" finishes before "a"; the wait results still arrive per handle, in
    // launch order, and so does the report.
    let specs = vec![spec("a"), spec("b"), spec("c")];
    let spawns = vec![
        SpawnResult::Spawned(1),
        SpawnResult::Spawned(2),
        SpawnResult::Spawned(3),
    ];
    let waits = vec![
        WaitResult::Reaped(ExitStatus::Code(10)),
        WaitResult::Reaped(ExitStatus::Code(20)),
        WaitResult::Reaped(ExitStatus::Code(30)),
    ];
    let report = supervise(&specs, &spawns, &waits);
    assert_eq!(
        report,
        vec![
            ReportEntry::Exited { spec_name: String::from("a"), status: ExitStatus::Code(10) },
            ReportEntry::Exited { spec_name: String::from("b"), status: ExitStatus::Code(20) },
            ReportEntry::Exited { spec_name: String::from("c"), status: ExitStatus::Code(30) },
        ]
    );
}

#[test]
fn injected_launch_failure_leaves_other_positions_unchanged() {
    let specs = vec![spec("a"), spec("b"), spec("c")];
    let spawns = vec![
        SpawnResult::Spawned(1),
        SpawnResult::Spawned(2),
        SpawnResult::Spawned(3),
    ];
    let waits = vec![
        WaitResult::Reaped(ExitStatus::Code(10)),
        WaitResult::Reaped(ExitStatus::Code(20)),
        WaitResult::Reaped(ExitStatus::Code(30)),
    ];
    let full = supervise(&specs, &spawns, &waits);

    // Inject a failure at position 1: its own handle and wait result drop
    // out, everything else stays as it was.
    let spawns_failed = vec![
        SpawnResult::Spawned(1),
        SpawnResult::SpawnError(String::from("injected")),
        SpawnResult::Spawned(3),
    ];
    let waits_failed = vec![
        WaitResult::Reaped(ExitStatus::Code(10)),
        WaitResult::Reaped(ExitStatus::Code(30)),
    ];
    let isolated = supervise(&specs, &spawns_failed, &waits_failed);
    assert_eq!(isolated.len(), full.len());
    assert_eq!(isolated[0], full[0]);
    assert_eq!(isolated[2], full[2]);
    assert_eq!(
        isolated[1],
        ReportEntry::LaunchFailed {
            spec_name: String::from("b"),
            error: String::from("injected"),
        }
    );
}
