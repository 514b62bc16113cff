use rust_ryda::outcome::ExitStatus;
use rust_ryda::outcome::ReportEntry;
use rust_ryda::outcome::ServiceSpec;
use rust_ryda::outcome::SpawnResult;
use rust_ryda::outcome::WaitResult;
use rust_ryda::supervisor::Action;
use rust_ryda::supervisor::Supervisor;

fn spec(name: &str) -> ServiceSpec {
    ServiceSpec { name: String::from(name) }
}

#[test]
fn empty_run_is_done_at_once() {
    let sup = Supervisor::new(vec![]);
    assert!(matches!(sup.next_action(), Action::Done));
    assert_eq!(sup.report().len(), 0);
}

#[test]
fn all_launches_precede_all_waits() {
    let mut sup = Supervisor::new(vec![spec("a"), spec("b"), spec("c")]);
    let mut trace: Vec<String> = Vec::new();
    let mut next_pid: u64 = 1;
    loop {
        match sup.next_action() {
            Action::Spawn(s) => {
                trace.push(format!("spawn {}", s.name));
                sup.note_launch(SpawnResult::Spawned(next_pid));
                next_pid += 1;
            }
            Action::Wait(h) => {
                trace.push(format!("wait {} {}", h.spec_name, h.pid));
                sup.note_wait(WaitResult::Reaped(ExitStatus::Code(0)));
            }
            Action::Done => break,
        }
    }
    // Fan-out then join: every spawn before any wait, both in launch order.
    assert_eq!(
        trace,
        vec![
            String::from("spawn a"),
            String::from("spawn b"),
            String::from("spawn c"),
            String::from("wait a 1"),
            String::from("wait b 2"),
            String::from("wait c 3"),
        ]
    );
    let report = sup.report();
    assert_eq!(report.len(), 3);
    for (entry, name) in report.iter().zip(["a", "b", "c"]) {
        assert_eq!(
            *entry,
            ReportEntry::Exited { spec_name: String::from(name), status: ExitStatus::Code(0) }
        );
    }
}

#[test]
fn failed_launch_is_never_waited_on() {
    let mut sup = Supervisor::new(vec![spec("bad"), spec("good")]);
    let mut waited: Vec<String> = Vec::new();
    loop {
        match sup.next_action() {
            Action::Spawn(s) => {
                if s.name == "bad" {
                    sup.note_launch(SpawnResult::SpawnError(String::from("not found")));
                } else {
                    sup.note_launch(SpawnResult::Spawned(42));
                }
            }
            Action::Wait(h) => {
                waited.push(h.spec_name.clone());
                sup.note_wait(WaitResult::Reaped(ExitStatus::Code(0)));
            }
            Action::Done => break,
        }
    }
    assert_eq!(waited, vec![String::from("good")]);
    let report = sup.report();
    assert_eq!(
        report,
        vec![
            ReportEntry::LaunchFailed {
                spec_name: String::from("bad"),
                error: String::from("not found"),
            },
            ReportEntry::Exited { spec_name: String::from("good"), status: ExitStatus::Code(0) },
        ]
    );
}

#[test]
fn machine_run_agrees_with_one_shot_supervise() {
    let specs = vec![spec("x"), spec("y"), spec("z")];
    let spawns = vec![
        SpawnResult::Spawned(4),
        SpawnResult::SpawnError(String::from("refused")),
        SpawnResult::Spawned(6),
    ];
    let waits = vec![
        WaitResult::Reaped(ExitStatus::Code(1)),
        WaitResult::WaitError(String::from("lost")),
    ];

    let mut sup = Supervisor::new(specs.clone());
    let mut spawn_results = spawns.clone().into_iter();
    let mut wait_results = waits.clone().into_iter();
    loop {
        match sup.next_action() {
            Action::Spawn(_) => sup.note_launch(spawn_results.next().unwrap()),
            Action::Wait(_) => sup.note_wait(wait_results.next().unwrap()),
            Action::Done => break,
        }
    }
    assert_eq!(sup.report(), rust_ryda::supervisor::supervise(&specs, &spawns, &waits));
}

#[test]
fn wait_error_is_reported_and_does_not_stop_the_run() {
    let mut sup = Supervisor::new(vec![spec("a"), spec("b")]);
    let mut wait_results = vec![
        WaitResult::WaitError(String::from("no child status")),
        WaitResult::Reaped(ExitStatus::Code(0)),
    ]
    .into_iter();
    loop {
        match sup.next_action() {
            Action::Spawn(_) => sup.note_launch(SpawnResult::Spawned(9)),
            Action::Wait(_) => sup.note_wait(wait_results.next().unwrap()),
            Action::Done => break,
        }
    }
    let report = sup.report();
    assert_eq!(
        report,
        vec![
            ReportEntry::WaitFailed {
                spec_name: String::from("a"),
                error: String::from("no child status"),
            },
            ReportEntry::Exited { spec_name: String::from("b"), status: ExitStatus::Code(0) },
        ]
    );
}
