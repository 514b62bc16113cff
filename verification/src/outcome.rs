//! The data a supervision run is made of: the configured services, the
//! results the platform hands back when a process is spawned or reaped, the
//! per-service outcomes built from them, and the mathematical model that the
//! supervisor's contracts are stated over.

use vstd::prelude::*;

verus! {

/// Configuration entry naming one executable to supervise (a path or a
/// lookup name). Read-only once supervision starts.
#[derive(Clone, PartialEq, Eq, Debug)]
pub struct ServiceSpec {
    pub name: String,
}

impl View for ServiceSpec {
    type V = Seq<char>;

    open spec fn view(&self) -> Seq<char> {
        self.name@
    }
}

impl DeepView for ServiceSpec {
    type V = Seq<char>;

    open spec fn deep_view(&self) -> Seq<char> {
        self.name@
    }
}

/// Platform-level termination status of a child process, passed through
/// verbatim: either a normal exit code or the signal that ended it. A
/// signal-terminated child still counts as having exited.
#[derive(Clone, Copy, PartialEq, Eq, Structural, Debug)]
pub enum ExitStatus {
    Code(i32),
    Signal(i32),
}

/// Live reference to one started child process: the name of the service it
/// was launched for and the platform's identifier for the process. Owned by
/// the supervisor from launch until its termination is recorded.
#[derive(Clone, PartialEq, Eq, Debug)]
pub struct ProcessHandle {
    pub spec_name: String,
    pub pid: u64,
}

/// Mathematical image of a [`ProcessHandle`].
pub ghost struct HandleView {
    pub spec_name: Seq<char>,
    pub pid: u64,
}

impl View for ProcessHandle {
    type V = HandleView;

    open spec fn view(&self) -> HandleView {
        HandleView { spec_name: self.spec_name@, pid: self.pid }
    }
}

impl DeepView for ProcessHandle {
    type V = HandleView;

    open spec fn deep_view(&self) -> HandleView {
        self@
    }
}

/// What one attempt by the platform to start an executable came back with:
/// the identifier of the new process, or the platform's error text.
#[derive(Clone, PartialEq, Eq, Debug)]
pub enum SpawnResult {
    Spawned(u64),
    SpawnError(String),
}

/// Mathematical image of a [`SpawnResult`].
pub ghost enum SpawnResultView {
    Spawned(u64),
    SpawnError(Seq<char>),
}

impl View for SpawnResult {
    type V = SpawnResultView;

    open spec fn view(&self) -> SpawnResultView {
        match self {
            SpawnResult::Spawned(pid) => SpawnResultView::Spawned(*pid),
            SpawnResult::SpawnError(e) => SpawnResultView::SpawnError(e@),
        }
    }
}

impl DeepView for SpawnResult {
    type V = SpawnResultView;

    open spec fn deep_view(&self) -> SpawnResultView {
        self@
    }
}

/// The result of attempting to start one service: a handle on success, the
/// error on failure. Every configured service gets exactly one.
#[derive(Clone, PartialEq, Eq, Debug)]
pub enum LaunchOutcome {
    Launched(ProcessHandle),
    LaunchFailed(String),
}

/// Mathematical image of a [`LaunchOutcome`].
pub ghost enum LaunchOutcomeView {
    Launched(HandleView),
    LaunchFailed(Seq<char>),
}

impl View for LaunchOutcome {
    type V = LaunchOutcomeView;

    open spec fn view(&self) -> LaunchOutcomeView {
        match self {
            LaunchOutcome::Launched(h) => LaunchOutcomeView::Launched(h@),
            LaunchOutcome::LaunchFailed(e) => LaunchOutcomeView::LaunchFailed(e@),
        }
    }
}

impl DeepView for LaunchOutcome {
    type V = LaunchOutcomeView;

    open spec fn deep_view(&self) -> LaunchOutcomeView {
        self@
    }
}

/// What one blocking wait on a child process came back with: the child's
/// termination status, or the platform's error text when no status could be
/// reported for it.
#[derive(Clone, PartialEq, Eq, Debug)]
pub enum WaitResult {
    Reaped(ExitStatus),
    WaitError(String),
}

/// Mathematical image of a [`WaitResult`].
pub ghost enum WaitResultView {
    Reaped(ExitStatus),
    WaitError(Seq<char>),
}

impl View for WaitResult {
    type V = WaitResultView;

    open spec fn view(&self) -> WaitResultView {
        match self {
            WaitResult::Reaped(st) => WaitResultView::Reaped(*st),
            WaitResult::WaitError(e) => WaitResultView::WaitError(e@),
        }
    }
}

impl DeepView for WaitResult {
    type V = WaitResultView;

    open spec fn deep_view(&self) -> WaitResultView {
        self@
    }
}

/// The result of waiting on one handle: the recorded exit status, or a wait
/// error. Terminal and immutable.
#[derive(Clone, PartialEq, Eq, Debug)]
pub enum TerminationOutcome {
    Exited(ExitStatus),
    WaitFailed(String),
}

/// Mathematical image of a [`TerminationOutcome`].
pub ghost enum TerminationOutcomeView {
    Exited(ExitStatus),
    WaitFailed(Seq<char>),
}

impl View for TerminationOutcome {
    type V = TerminationOutcomeView;

    open spec fn view(&self) -> TerminationOutcomeView {
        match self {
            TerminationOutcome::Exited(st) => TerminationOutcomeView::Exited(*st),
            TerminationOutcome::WaitFailed(e) => TerminationOutcomeView::WaitFailed(e@),
        }
    }
}

impl DeepView for TerminationOutcome {
    type V = TerminationOutcomeView;

    open spec fn deep_view(&self) -> TerminationOutcomeView {
        self@
    }
}

/// One line of the final report: the terminal state one configured service
/// reached, keyed by the service's name.
#[derive(Clone, PartialEq, Eq, Debug)]
pub enum ReportEntry {
    LaunchFailed { spec_name: String, error: String },
    Exited { spec_name: String, status: ExitStatus },
    WaitFailed { spec_name: String, error: String },
}

/// Mathematical image of a [`ReportEntry`].
pub ghost enum ReportEntryView {
    LaunchFailed { spec_name: Seq<char>, error: Seq<char> },
    Exited { spec_name: Seq<char>, status: ExitStatus },
    WaitFailed { spec_name: Seq<char>, error: Seq<char> },
}

impl View for ReportEntry {
    type V = ReportEntryView;

    open spec fn view(&self) -> ReportEntryView {
        match self {
            ReportEntry::LaunchFailed { spec_name, error } => ReportEntryView::LaunchFailed {
                spec_name: spec_name@,
                error: error@,
            },
            ReportEntry::Exited { spec_name, status } => ReportEntryView::Exited {
                spec_name: spec_name@,
                status: *status,
            },
            ReportEntry::WaitFailed { spec_name, error } => ReportEntryView::WaitFailed {
                spec_name: spec_name@,
                error: error@,
            },
        }
    }
}

impl DeepView for ReportEntry {
    type V = ReportEntryView;

    open spec fn deep_view(&self) -> ReportEntryView {
        self@
    }
}

/// A vector's deep view is its elements' deep views, position by position.
pub broadcast proof fn lemma_vec_deep_view_index<T: DeepView>(v: Vec<T>, j: int)
    requires
        0 <= j < v@.len(),
    ensures
        #[trigger] v.deep_view()[j] == v@[j].deep_view(),
{
}

/// A vector's deep view has the vector's own length.
pub broadcast proof fn lemma_vec_deep_view_len<T: DeepView>(v: Vec<T>)
    ensures
        #[trigger] v.deep_view().len() == v@.len(),
{
}

/// The launch outcome that one spawn result determines for the service named
/// `name`: a handle on the spawned process, or the spawn error.
pub open spec fn launch_outcome_of(name: Seq<char>, sr: SpawnResultView) -> LaunchOutcomeView {
    match sr {
        SpawnResultView::Spawned(pid) => LaunchOutcomeView::Launched(
            HandleView { spec_name: name, pid },
        ),
        SpawnResultView::SpawnError(e) => LaunchOutcomeView::LaunchFailed(e),
    }
}

/// The launch phase over a whole configuration: one outcome per service, in
/// configuration order, each determined by that service's own spawn result.
pub open spec fn launch_all_model(names: Seq<Seq<char>>, spawns: Seq<SpawnResultView>) -> Seq<
    LaunchOutcomeView,
> {
    Seq::new(names.len(), |i: int| launch_outcome_of(names[i], spawns[i]))
}

/// The handles of the successfully launched services, in launch order, with
/// every failed launch left out.
pub open spec fn handles_of(outcomes: Seq<LaunchOutcomeView>) -> Seq<HandleView>
    decreases outcomes.len(),
{
    if outcomes.len() == 0 {
        Seq::empty()
    } else {
        let rest = handles_of(outcomes.drop_last());
        match outcomes.last() {
            LaunchOutcomeView::Launched(h) => rest.push(h),
            LaunchOutcomeView::LaunchFailed(_) => rest,
        }
    }
}

/// How many outcomes of the sequence are successful launches.
pub open spec fn success_count(outcomes: Seq<LaunchOutcomeView>) -> nat
    decreases outcomes.len(),
{
    if outcomes.len() == 0 {
        0
    } else {
        success_count(outcomes.drop_last()) + (if outcomes.last() is Launched {
            1nat
        } else {
            0nat
        })
    }
}

/// The termination outcome that one wait result determines: any status the
/// platform reports, exit code or signal alike, is a recorded exit; only a
/// refusal to report a status is a wait failure.
pub open spec fn termination_of(wr: WaitResultView) -> TerminationOutcomeView {
    match wr {
        WaitResultView::Reaped(st) => TerminationOutcomeView::Exited(st),
        WaitResultView::WaitError(e) => TerminationOutcomeView::WaitFailed(e),
    }
}

/// The wait phase over a sequence of handles: one termination outcome per
/// handle, in launch order, each determined by that handle's own wait result.
pub open spec fn wait_all_model(waits: Seq<WaitResultView>) -> Seq<TerminationOutcomeView> {
    waits.map_values(|w: WaitResultView| termination_of(w))
}

/// How many of the first `i` outcomes are successful launches; equivalently,
/// the wait-phase position of the handle launched at position `i`.
pub open spec fn launched_before(outcomes: Seq<LaunchOutcomeView>, i: int) -> nat {
    success_count(outcomes.take(i))
}

/// The report entry that one termination outcome yields for the service
/// named `name`.
pub open spec fn entry_of(name: Seq<char>, t: TerminationOutcomeView) -> ReportEntryView {
    match t {
        TerminationOutcomeView::Exited(st) => ReportEntryView::Exited {
            spec_name: name,
            status: st,
        },
        TerminationOutcomeView::WaitFailed(e) => ReportEntryView::WaitFailed {
            spec_name: name,
            error: e,
        },
    }
}

/// The report entry for the service at position `i`: its launch error if the
/// launch failed, otherwise the termination outcome its handle received in
/// the wait phase.
pub open spec fn report_entry_at(
    names: Seq<Seq<char>>,
    outcomes: Seq<LaunchOutcomeView>,
    terms: Seq<TerminationOutcomeView>,
    i: int,
) -> ReportEntryView {
    match outcomes[i] {
        LaunchOutcomeView::LaunchFailed(e) => ReportEntryView::LaunchFailed {
            spec_name: names[i],
            error: e,
        },
        LaunchOutcomeView::Launched(_) => entry_of(
            names[i],
            terms[launched_before(outcomes, i) as int],
        ),
    }
}

/// The combined report: one entry per configured service, in configuration
/// order.
pub open spec fn report_model(
    names: Seq<Seq<char>>,
    outcomes: Seq<LaunchOutcomeView>,
    terms: Seq<TerminationOutcomeView>,
) -> Seq<ReportEntryView> {
    Seq::new(names.len(), |i: int| report_entry_at(names, outcomes, terms, i))
}

/// The whole supervision cycle as one function of the configuration and the
/// platform's spawn and wait results: launch everything, then wait on every
/// handle, then report.
pub open spec fn supervise_model(
    names: Seq<Seq<char>>,
    spawns: Seq<SpawnResultView>,
    waits: Seq<WaitResultView>,
) -> Seq<ReportEntryView> {
    report_model(names, launch_all_model(names, spawns), wait_all_model(waits))
}

/// Appending one outcome extends the handle sequence with the new handle
/// exactly when the outcome is a successful launch.
pub proof fn lemma_handles_of_push(outcomes: Seq<LaunchOutcomeView>, o: LaunchOutcomeView)
    ensures
        handles_of(outcomes.push(o)) == (match o {
            LaunchOutcomeView::Launched(h) => handles_of(outcomes).push(h),
            LaunchOutcomeView::LaunchFailed(_) => handles_of(outcomes),
        }),
{
    assert(outcomes.push(o).drop_last() =~= outcomes);
    assert(outcomes.push(o).last() == o);
}

/// Law: the wait phase receives exactly one handle per successful launch —
/// the handles of an outcome sequence number exactly its successful entries.
pub proof fn lemma_handles_count(outcomes: Seq<LaunchOutcomeView>)
    ensures
        handles_of(outcomes).len() == success_count(outcomes),
    decreases outcomes.len(),
{
    if outcomes.len() > 0 {
        lemma_handles_count(outcomes.drop_last());
    }
}

/// Taking one more outcome raises the prefix success count exactly when the
/// outcome taken is a successful launch.
pub proof fn lemma_launched_before_succ(outcomes: Seq<LaunchOutcomeView>, i: int)
    requires
        0 <= i < outcomes.len(),
    ensures
        launched_before(outcomes, i + 1) == launched_before(outcomes, i) + (
        if outcomes[i] is Launched {
            1nat
        } else {
            0nat
        }),
{
    assert(outcomes.take(i + 1).drop_last() =~= outcomes.take(i));
    assert(outcomes.take(i + 1).last() == outcomes[i]);
}

/// The success count of a prefix never exceeds that of a longer prefix.
pub proof fn lemma_launched_before_mono(outcomes: Seq<LaunchOutcomeView>, i: int, j: int)
    requires
        0 <= i <= j <= outcomes.len(),
    ensures
        launched_before(outcomes, i) <= launched_before(outcomes, j),
    decreases j - i,
{
    if i < j {
        lemma_launched_before_mono(outcomes, i, j - 1);
        lemma_launched_before_succ(outcomes, j - 1);
    }
}

/// Law: waits follow launch order, not completion order — of two
/// successfully launched services, the earlier-launched one holds the
/// earlier wait-phase position.
pub proof fn lemma_wait_order_follows_launch_order(
    outcomes: Seq<LaunchOutcomeView>,
    i: int,
    j: int,
)
    requires
        0 <= i < j < outcomes.len(),
        outcomes[i] is Launched,
    ensures
        launched_before(outcomes, i) < launched_before(outcomes, j),
{
    lemma_launched_before_succ(outcomes, i);
    lemma_launched_before_mono(outcomes, i + 1, j);
}

/// The success count of a prefix never exceeds the success count of the
/// whole sequence.
pub proof fn lemma_launched_before_le(outcomes: Seq<LaunchOutcomeView>, i: int)
    requires
        0 <= i <= outcomes.len(),
    ensures
        launched_before(outcomes, i) <= success_count(outcomes),
{
    lemma_launched_before_mono(outcomes, i, outcomes.len() as int);
    assert(outcomes.take(outcomes.len() as int) =~= outcomes);
}

} // verus!
