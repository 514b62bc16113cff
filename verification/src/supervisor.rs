//! The process supervisor: a single fan-out-then-join cycle over an ordered
//! configuration. Every configured service is launched before any handle is
//! waited on; handles are waited on in launch order; a launch or wait
//! failure is recorded for its own service and never disturbs the others.
//!
//! The platform calls that create and reap processes are performed by the
//! caller, which drives a [`Supervisor`] with their plain results; every
//! function here is verified for every value those results may take.

use vstd::prelude::*;
use vstd::string::StringExecFns;

use crate::outcome::handles_of;
use crate::outcome::launch_all_model;
use crate::outcome::launch_outcome_of;
use crate::outcome::launched_before;
use crate::outcome::lemma_handles_count;
use crate::outcome::lemma_handles_of_push;
use crate::outcome::lemma_launched_before_le;
use crate::outcome::lemma_launched_before_succ;
use crate::outcome::report_entry_at;
use crate::outcome::report_model;
use crate::outcome::success_count;
use crate::outcome::supervise_model;
use crate::outcome::termination_of;
use crate::outcome::wait_all_model;
use crate::outcome::HandleView;
use crate::outcome::LaunchOutcome;
use crate::outcome::LaunchOutcomeView;
use crate::outcome::ProcessHandle;
use crate::outcome::ReportEntry;
use crate::outcome::ServiceSpec;
use crate::outcome::SpawnResult;
use crate::outcome::TerminationOutcome;
use crate::outcome::WaitResult;

verus! {

broadcast use crate::outcome::lemma_vec_deep_view_index, crate::outcome::lemma_vec_deep_view_len;

/// An owned copy of a string, character for character.
fn copy_string(s: &String) -> (r: String)
    ensures
        r@ == s@,
{
    String::from_str(s.as_str())
}

/// The launch phase: pairs every configured service, in order, with its own
/// spawn result and records one launch outcome per service. A failed spawn
/// is recorded and the remaining services are still processed.
pub fn launch_all(specs: &Vec<ServiceSpec>, spawns: &Vec<SpawnResult>) -> (outcomes: Vec<
    LaunchOutcome,
>)
    requires
        spawns@.len() == specs@.len(),
    ensures
        outcomes.deep_view() == launch_all_model(specs.deep_view(), spawns.deep_view()),
        outcomes@.len() == specs@.len(),
{
    let ghost model = launch_all_model(specs.deep_view(), spawns.deep_view());
    let mut outcomes: Vec<LaunchOutcome> = Vec::new();
    let mut i: usize = 0;
    while i < specs.len()
        invariant
            spawns@.len() == specs@.len(),
            i <= specs@.len(),
            outcomes@.len() == i,
            model == launch_all_model(specs.deep_view(), spawns.deep_view()),
            model.len() == specs@.len(),
            outcomes.deep_view() =~= model.take(i as int),
        decreases specs@.len() - i,
    {
        let o = match &spawns[i] {
            SpawnResult::Spawned(pid) => LaunchOutcome::Launched(
                ProcessHandle { spec_name: copy_string(&specs[i].name), pid: *pid },
            ),
            SpawnResult::SpawnError(e) => LaunchOutcome::LaunchFailed(copy_string(e)),
        };
        assert(o.deep_view() == model[i as int]);
        let ghost prev_elems = outcomes@;
        proof {
            assert forall|j: int| 0 <= j < i implies prev_elems[j].deep_view() == model[j] by {
                assert(outcomes.deep_view()[j] == model.take(i as int)[j]);
            }
        }
        outcomes.push(o);
        proof {
            assert forall|j: int| 0 <= j < i + 1 implies outcomes.deep_view()[j] == model.take(
                i as int + 1,
            )[j] by {
                if j < i {
                    assert(outcomes@[j] == prev_elems[j]);
                } else {
                    assert(outcomes@[j] == o);
                }
            }
            assert(outcomes.deep_view() =~= model.take(i as int + 1));
        }
        i += 1;
    }
    assert(outcomes.deep_view() =~= model);
    outcomes
}

/// The handles the launch phase yielded, in launch order: one per
/// successfully launched service, none for a failed launch.
pub fn live_handles(outcomes: &Vec<LaunchOutcome>) -> (handles: Vec<ProcessHandle>)
    ensures
        handles.deep_view() == handles_of(outcomes.deep_view()),
        handles@.len() == success_count(outcomes.deep_view()),
{
    let mut handles: Vec<ProcessHandle> = Vec::new();
    let mut i: usize = 0;
    while i < outcomes.len()
        invariant
            i <= outcomes@.len(),
            handles.deep_view() =~= handles_of(outcomes.deep_view().take(i as int)),
        decreases outcomes@.len() - i,
    {
        proof {
            assert(outcomes.deep_view().take(i as int + 1) =~= outcomes.deep_view().take(
                i as int,
            ).push(outcomes.deep_view()[i as int]));
            lemma_handles_of_push(
                outcomes.deep_view().take(i as int),
                outcomes.deep_view()[i as int],
            );
        }
        match &outcomes[i] {
            LaunchOutcome::Launched(h) => {
                let copy = ProcessHandle { spec_name: copy_string(&h.spec_name), pid: h.pid };
                assert(copy.deep_view() == h.deep_view());
                handles.push(copy);
            },
            LaunchOutcome::LaunchFailed(_) => {},
        }
        assert(handles.deep_view() =~= handles_of(outcomes.deep_view().take(i as int + 1)));
        i += 1;
    }
    assert(outcomes.deep_view().take(outcomes@.len() as int) =~= outcomes.deep_view());
    proof {
        lemma_handles_count(outcomes.deep_view());
    }
    handles
}

/// The wait phase: pairs every handle, in launch order, with its own wait
/// result and records one termination outcome per handle. Any reported
/// status — exit code or signal — is a recorded exit; a wait error is
/// recorded and the remaining handles are still processed.
pub fn wait_all(handles: &Vec<ProcessHandle>, waits: &Vec<WaitResult>) -> (terms: Vec<
    TerminationOutcome,
>)
    requires
        waits@.len() == handles@.len(),
    ensures
        terms.deep_view() == wait_all_model(waits.deep_view()),
        terms@.len() == handles@.len(),
{
    let mut terms: Vec<TerminationOutcome> = Vec::new();
    let mut i: usize = 0;
    while i < waits.len()
        invariant
            i <= waits@.len(),
            terms@.len() == i,
            wait_all_model(waits.deep_view()).len() == waits@.len(),
            terms.deep_view() =~= wait_all_model(waits.deep_view()).take(i as int),
        decreases waits@.len() - i,
    {
        let t = match &waits[i] {
            WaitResult::Reaped(st) => TerminationOutcome::Exited(*st),
            WaitResult::WaitError(e) => TerminationOutcome::WaitFailed(copy_string(e)),
        };
        assert(t.deep_view() == termination_of(waits.deep_view()[i as int]));
        let ghost prev_elems = terms@;
        proof {
            let model = wait_all_model(waits.deep_view());
            assert forall|j: int| 0 <= j < i implies prev_elems[j].deep_view() == model[j] by {
                assert(terms.deep_view()[j] == model.take(i as int)[j]);
            }
        }
        terms.push(t);
        proof {
            let model = wait_all_model(waits.deep_view());
            assert forall|j: int| 0 <= j < i + 1 implies terms.deep_view()[j] == model.take(
                i as int + 1,
            )[j] by {
                if j < i {
                    assert(terms@[j] == prev_elems[j]);
                } else {
                    assert(terms@[j] == t);
                }
            }
            assert(terms.deep_view() =~= model.take(i as int + 1));
        }
        i += 1;
    }
    assert(terms.deep_view() =~= wait_all_model(waits.deep_view()));
    terms
}

/// The combined report: one entry per configured service, in configuration
/// order — the launch error where the launch failed, otherwise the
/// termination outcome the service's handle received in the wait phase.
pub fn build_report(
    specs: &Vec<ServiceSpec>,
    outcomes: &Vec<LaunchOutcome>,
    terms: &Vec<TerminationOutcome>,
) -> (report: Vec<ReportEntry>)
    requires
        outcomes@.len() == specs@.len(),
        terms@.len() == success_count(outcomes.deep_view()),
    ensures
        report.deep_view() == report_model(
            specs.deep_view(),
            outcomes.deep_view(),
            terms.deep_view(),
        ),
{
    let ghost model = report_model(specs.deep_view(), outcomes.deep_view(), terms.deep_view());
    let mut report: Vec<ReportEntry> = Vec::new();
    let mut next_term: usize = 0;
    let mut i: usize = 0;
    while i < specs.len()
        invariant
            outcomes@.len() == specs@.len(),
            terms@.len() == success_count(outcomes.deep_view()),
            i <= specs@.len(),
            report@.len() == i,
            next_term == launched_before(outcomes.deep_view(), i as int),
            model == report_model(specs.deep_view(), outcomes.deep_view(), terms.deep_view()),
            model.len() == specs@.len(),
            report.deep_view() =~= model.take(i as int),
        decreases specs@.len() - i,
    {
        proof {
            lemma_launched_before_succ(outcomes.deep_view(), i as int);
            lemma_launched_before_le(outcomes.deep_view(), i as int + 1);
        }
        let entry = match &outcomes[i] {
            LaunchOutcome::LaunchFailed(e) => ReportEntry::LaunchFailed {
                spec_name: copy_string(&specs[i].name),
                error: copy_string(e),
            },
            LaunchOutcome::Launched(_) => {
                assert(outcomes.deep_view()[i as int] is Launched);
                assert(next_term + 1 == launched_before(outcomes.deep_view(), i as int + 1));
                assert(next_term < terms@.len());
                assert(next_term < terms.len());
                let entry = match &terms[next_term] {
                    TerminationOutcome::Exited(st) => ReportEntry::Exited {
                        spec_name: copy_string(&specs[i].name),
                        status: *st,
                    },
                    TerminationOutcome::WaitFailed(e) => ReportEntry::WaitFailed {
                        spec_name: copy_string(&specs[i].name),
                        error: copy_string(e),
                    },
                };
                next_term += 1;
                entry
            },
        };
        assert(entry.deep_view() == report_entry_at(
            specs.deep_view(),
            outcomes.deep_view(),
            terms.deep_view(),
            i as int,
        ));
        let ghost prev_elems = report@;
        proof {
            assert forall|j: int| 0 <= j < i implies prev_elems[j].deep_view() == model[j] by {
                assert(report.deep_view()[j] == model.take(i as int)[j]);
            }
        }
        report.push(entry);
        proof {
            assert forall|j: int| 0 <= j < i + 1 implies report.deep_view()[j] == model.take(
                i as int + 1,
            )[j] by {
                if j < i {
                    assert(report@[j] == prev_elems[j]);
                } else {
                    assert(report@[j] == entry);
                }
            }
            assert(report.deep_view() =~= model.take(i as int + 1));
        }
        i += 1;
    }
    assert(report.deep_view() =~= model);
    report
}

/// The next thing the caller driving a [`Supervisor`] must do.
pub enum Action {
    /// Start the named executable as a new child process, with no arguments
    /// and inherited standard streams, and hand back the platform's result.
    Spawn(ServiceSpec),
    /// Block until the process behind this handle terminates and hand back
    /// the platform's result.
    Wait(ProcessHandle),
    /// Every service has reached a terminal state; the report is ready.
    Done,
}

/// One supervision run, driven step by step: the caller repeatedly asks for
/// the next action, performs the platform call it names, and hands the
/// result back. The state keeps the strict order of the two phases — every
/// launch is attempted before any wait begins — as a proved invariant.
pub struct Supervisor {
    /// The configuration: one entry per service, in launch order. Read-only
    /// for the whole run.
    pub specs: Vec<ServiceSpec>,
    /// One launch outcome per already-processed service, in order.
    pub outcomes: Vec<LaunchOutcome>,
    /// The handles of the successful launches, in launch order; a handle
    /// stays here until its termination is recorded.
    pub handles: Vec<ProcessHandle>,
    /// One termination outcome per already-waited handle, in launch order.
    pub terminations: Vec<TerminationOutcome>,
}

impl Supervisor {
    /// Some configured service has no launch outcome yet.
    pub open spec fn in_launch_phase(self) -> bool {
        self.outcomes@.len() < self.specs@.len()
    }

    /// Every launch was attempted and some handle is not yet waited on.
    pub open spec fn in_wait_phase(self) -> bool {
        self.outcomes@.len() == self.specs@.len() && self.terminations@.len()
            < self.handles@.len()
    }

    /// Every service has reached a terminal state.
    pub open spec fn is_done(self) -> bool {
        self.outcomes@.len() == self.specs@.len() && self.terminations@.len()
            == self.handles@.len()
    }

    /// Well-formedness, held by every state a run passes through: outcomes
    /// never outnumber the configuration; the held handles are exactly those
    /// of the successful launches, in launch order; a recorded handle carries
    /// the name of its own service; terminations never outnumber handles;
    /// and no wait is recorded while a launch is still pending.
    pub open spec fn wf(self) -> bool {
        &&& self.outcomes@.len() <= self.specs@.len()
        &&& self.handles.deep_view() == handles_of(self.outcomes.deep_view())
        &&& forall|i: int|
            0 <= i < self.outcomes@.len() ==> (#[trigger] self.outcomes.deep_view()[i] matches
            LaunchOutcomeView::Launched(h) ==> h.spec_name == self.specs.deep_view()[i])
        &&& self.terminations@.len() <= self.handles@.len()
        &&& self.in_launch_phase() ==> self.terminations@.len() == 0
    }

    /// A fresh run over the given configuration: nothing launched, nothing
    /// waited on.
    pub fn new(specs: Vec<ServiceSpec>) -> (s: Supervisor)
        ensures
            s.wf(),
            s.specs@ == specs@,
            s.specs.deep_view() == specs.deep_view(),
            s.outcomes@.len() == 0,
            s.handles@.len() == 0,
            s.terminations@.len() == 0,
    {
        let s = Supervisor {
            specs,
            outcomes: Vec::new(),
            handles: Vec::new(),
            terminations: Vec::new(),
        };
        proof {
            assert(s.handles.deep_view() =~= handles_of(s.outcomes.deep_view()));
        }
        s
    }

    /// What to do next: spawn the next configured service while any launch
    /// is pending, then wait on the earliest-launched unwaited handle, and
    /// report once every handle is waited on. Launches strictly precede
    /// waits.
    pub fn next_action(&self) -> (a: Action)
        requires
            self.wf(),
        ensures
            self.in_launch_phase() ==> (a matches Action::Spawn(s) && s.deep_view()
                == self.specs.deep_view()[self.outcomes@.len() as int]),
            self.in_wait_phase() ==> (a matches Action::Wait(h) && h.deep_view()
                == self.handles.deep_view()[self.terminations@.len() as int]),
            self.is_done() ==> a is Done,
    {
        if self.outcomes.len() < self.specs.len() {
            let name = copy_string(&self.specs[self.outcomes.len()].name);
            Action::Spawn(ServiceSpec { name })
        } else if self.terminations.len() < self.handles.len() {
            let h = &self.handles[self.terminations.len()];
            Action::Wait(ProcessHandle { spec_name: copy_string(&h.spec_name), pid: h.pid })
        } else {
            Action::Done
        }
    }

    /// Record the platform's result for the launch of the next configured
    /// service. A success adds the new handle at the end of the held ones; a
    /// failure adds no handle. Either way exactly one outcome is recorded
    /// and the run goes on.
    pub fn note_launch(&mut self, sr: SpawnResult)
        requires
            old(self).wf(),
            old(self).in_launch_phase(),
        ensures
            final(self).wf(),
            final(self).specs@ == old(self).specs@,
            final(self).terminations@ == old(self).terminations@,
            final(self).outcomes.deep_view() == old(self).outcomes.deep_view().push(
                launch_outcome_of(
                    old(self).specs.deep_view()[old(self).outcomes@.len() as int],
                    sr@,
                ),
            ),
            final(self).outcomes@.len() == old(self).outcomes@.len() + 1,
    {
        let i = self.outcomes.len();
        let ghost target = launch_outcome_of(self.specs.deep_view()[i as int], sr@);
        let ghost prev_outcomes = self.outcomes@;
        let ghost prev_handles = self.handles@;
        let o = match sr {
            SpawnResult::Spawned(pid) => {
                let name = copy_string(&self.specs[i].name);
                let handle_copy = ProcessHandle { spec_name: copy_string(&name), pid };
                assert(handle_copy.deep_view() == (HandleView {
                    spec_name: self.specs.deep_view()[i as int],
                    pid,
                }));
                self.handles.push(handle_copy);
                LaunchOutcome::Launched(ProcessHandle { spec_name: name, pid })
            },
            SpawnResult::SpawnError(e) => LaunchOutcome::LaunchFailed(e),
        };
        assert(o.deep_view() == target);
        self.outcomes.push(o);
        proof {
            assert forall|j: int|
                0 <= j < prev_outcomes.len() + 1 implies self.outcomes.deep_view()[j]
                == old(self).outcomes.deep_view().push(target)[j] by {
                if j < prev_outcomes.len() {
                    assert(self.outcomes@[j] == prev_outcomes[j]);
                } else {
                    assert(self.outcomes@[j] == o);
                }
            }
            assert(self.outcomes.deep_view() =~= old(self).outcomes.deep_view().push(target));
            lemma_handles_of_push(old(self).outcomes.deep_view(), target);
            if target is Launched {
                assert forall|j: int|
                    0 <= j < prev_handles.len() + 1 implies self.handles.deep_view()[j]
                    == handles_of(self.outcomes.deep_view())[j] by {
                    if j < prev_handles.len() {
                        assert(self.handles@[j] == prev_handles[j]);
                    }
                }
            }
            assert(self.handles.deep_view() =~= handles_of(self.outcomes.deep_view()));
        }
    }

    /// Record the platform's result for the wait on the earliest-launched
    /// unwaited handle. Any reported status — exit code or signal — is a
    /// recorded exit; a wait error is recorded too, and the run goes on with
    /// the remaining handles either way.
    pub fn note_wait(&mut self, wr: WaitResult)
        requires
            old(self).wf(),
            old(self).in_wait_phase(),
        ensures
            final(self).wf(),
            final(self).specs@ == old(self).specs@,
            final(self).outcomes@ == old(self).outcomes@,
            final(self).handles@ == old(self).handles@,
            final(self).terminations.deep_view() == old(self).terminations.deep_view().push(
                termination_of(wr@),
            ),
            final(self).terminations@.len() == old(self).terminations@.len() + 1,
    {
        let ghost prev_terms = self.terminations@;
        let t = match wr {
            WaitResult::Reaped(st) => TerminationOutcome::Exited(st),
            WaitResult::WaitError(e) => TerminationOutcome::WaitFailed(e),
        };
        assert(t.deep_view() == termination_of(wr@));
        self.terminations.push(t);
        proof {
            assert forall|j: int|
                0 <= j < prev_terms.len() + 1 implies self.terminations.deep_view()[j]
                == old(self).terminations.deep_view().push(termination_of(wr@))[j] by {
                if j < prev_terms.len() {
                    assert(self.terminations@[j] == prev_terms[j]);
                } else {
                    assert(self.terminations@[j] == t);
                }
            }
            assert(self.terminations.deep_view() =~= old(self).terminations.deep_view().push(
                termination_of(wr@),
            ));
        }
    }

    /// The combined report of a finished run: one entry per configured
    /// service, in configuration order.
    pub fn report(&self) -> (report: Vec<ReportEntry>)
        requires
            self.wf(),
            self.is_done(),
        ensures
            report.deep_view() == report_model(
                self.specs.deep_view(),
                self.outcomes.deep_view(),
                self.terminations.deep_view(),
            ),
    {
        proof {
            lemma_handles_count(self.outcomes.deep_view());
        }
        build_report(&self.specs, &self.outcomes, &self.terminations)
    }
}

/// The whole supervision cycle over injected platform results: launch every
/// configured service, collect the handles of the successful launches, wait
/// on each of them in launch order, and report one terminal outcome per
/// service. No single service's failure disturbs any other.
pub fn supervise(specs: &Vec<ServiceSpec>, spawns: &Vec<SpawnResult>, waits: &Vec<WaitResult>) -> (
    report: Vec<ReportEntry>)
    requires
        spawns@.len() == specs@.len(),
        waits@.len() == success_count(launch_all_model(specs.deep_view(), spawns.deep_view())),
    ensures
        report.deep_view() == supervise_model(
            specs.deep_view(),
            spawns.deep_view(),
            waits.deep_view(),
        ),
        report@.len() == specs@.len(),
{
    let outcomes = launch_all(specs, spawns);
    let handles = live_handles(&outcomes);
    proof {
        lemma_handles_count(outcomes.deep_view());
    }
    let terms = wait_all(&handles, waits);
    build_report(specs, &outcomes, &terms)
}

} // verus!
