//! How a client is opened: in which order it is configured, gets what it runs on, and joins its
//! network, and what is reported meanwhile.

use vstd::prelude::*;

use crate::config;
use crate::config::ConfigError;
use crate::core_api::NetworkAddr;
use crate::errors;
use crate::startup;
use crate::startup::StartReport;

verus! {

/// How far a client has come in being opened: which action is under way. The texts are those of the
/// servers that it is going to connect to.
#[derive(Debug)]
pub enum OpenState {
    Configuring,
    CreatingTask(Vec<String>),
    CreatingRuntime(Vec<String>),
    Joining,
    Ended,
}

/// What came of an action: the servers to connect to, a mere success, or the addresses that the
/// server gave; or the error.
#[derive(Debug)]
pub enum OpenEvent {
    Configured(Result<Vec<String>, ConfigError>),
    Done(Result<(), anyhow::Error>),
    Joined(Result<NetworkAddr, anyhow::Error>),
}

/// What to do next.
#[derive(Debug)]
pub enum OpenAction {
    Configure,
    CreateTask,
    CreateRuntime,
    Join,
    Open,
    Fail(anyhow::Error),
}

/// What to report, and what to do after that.
#[derive(Debug)]
pub struct OpenStep {
    pub state: OpenState,
    pub reports: Vec<StartReport>,
    pub action: OpenAction,
}

/// The value of an [`OpenAction`].
pub enum Opening {
    Configure,
    CreateTask,
    CreateRuntime,
    Join,
    Open,
    Fail(Seq<Seq<char>>),
}

impl View for OpenAction {
    type V = Opening;

    open spec fn view(&self) -> Opening {
        match *self {
            OpenAction::Configure => Opening::Configure,
            OpenAction::CreateTask => Opening::CreateTask,
            OpenAction::CreateRuntime => Opening::CreateRuntime,
            OpenAction::Join => Opening::Join,
            OpenAction::Open => Opening::Open,
            OpenAction::Fail(error) => Opening::Fail(errors::error_chain(error)),
        }
    }
}

/// The value of an [`OpenStep`].
pub struct Step {
    pub state: OpenState,
    pub reports: Seq<startup::Report>,
    pub action: Opening,
}

impl View for OpenStep {
    type V = Step;

    open spec fn view(&self) -> Step {
        Step {
            state: self.state,
            reports: startup::reports_view(self.reports@),
            action: self.action@,
        }
    }
}

impl OpenState {
    /// The event can come of the action that is under way, and its addresses are valid.
    pub open spec fn expects(self, event: OpenEvent) -> bool {
        match self {
            OpenState::Configuring => event is Configured,
            OpenState::CreatingTask(_) => event is Done,
            OpenState::CreatingRuntime(_) => event is Done,
            OpenState::Joining => event matches OpenEvent::Joined(outcome) && (outcome matches Ok(
                addr,
            ) ==> addr.wf()),
            OpenState::Ended => false,
        }
    }
}

/// A step without a report.
pub open spec fn silent(state: OpenState, action: Opening) -> Step {
    Step { state, reports: Seq::empty(), action }
}

/// What follows an event that the state expects.
pub open spec fn next(state: OpenState, event: OpenEvent) -> Step {
    match (state, event) {
        (OpenState::Configuring, OpenEvent::Configured(Ok(targets))) => silent(
            OpenState::CreatingTask(targets),
            Opening::CreateTask,
        ),
        (OpenState::Configuring, OpenEvent::Configured(Err(error))) => silent(
            OpenState::Ended,
            Opening::Fail(config::fault_chain(error@)),
        ),
        (OpenState::CreatingTask(targets), OpenEvent::Done(Ok(_))) => silent(
            OpenState::CreatingRuntime(targets),
            Opening::CreateRuntime,
        ),
        (OpenState::CreatingTask(_), OpenEvent::Done(Err(error))) => silent(
            OpenState::Ended,
            Opening::Fail(errors::error_chain(error)),
        ),
        (OpenState::CreatingRuntime(targets), OpenEvent::Done(Ok(_))) => Step {
            state: OpenState::Joining,
            reports: startup::connect_sequence(config::texts(targets@)),
            action: Opening::Join,
        },
        (OpenState::CreatingRuntime(_), OpenEvent::Done(Err(error))) => silent(
            OpenState::Ended,
            Opening::Fail(seq!["创建 Tokio Runtime 失败"@] + errors::error_chain(error)),
        ),
        (OpenState::Joining, OpenEvent::Joined(outcome)) => Step {
            state: OpenState::Ended,
            reports: startup::outcome_sequence(outcome),
            action: match outcome {
                Ok(_) => Opening::Open,
                Err(error) => Opening::Fail(errors::error_chain(error)),
            },
        },
        _ => arbitrary(),
    }
}

/// A step without a report.
fn silent_step(state: OpenState, action: OpenAction) -> (step: OpenStep)
    ensures
        step@ == silent(state, action@),
{
    let reports: Vec<StartReport> = Vec::new();
    assert(startup::reports_view(reports@) == Seq::<startup::Report>::empty());
    OpenStep { state, reports, action }
}

/// The first step.
pub fn begin_opening() -> (step: OpenStep)
    ensures
        step@ == silent(OpenState::Configuring, Opening::Configure),
{
    silent_step(OpenState::Configuring, OpenAction::Configure)
}

/// What to report and to do after an event.
pub fn open_client(state: OpenState, event: OpenEvent) -> (step: OpenStep)
    requires
        state.expects(event),
    ensures
        step@ == next(state, event),
        event matches OpenEvent::Joined(outcome) ==> startup::tells_plainly(
            outcome,
            step@.reports,
        ),
{
    match (state, event) {
        (OpenState::Configuring, OpenEvent::Configured(result)) => match result {
            Ok(targets) => silent_step(OpenState::CreatingTask(targets), OpenAction::CreateTask),
            Err(error) => silent_step(OpenState::Ended, OpenAction::Fail(error.into_error())),
        },
        (OpenState::CreatingTask(targets), OpenEvent::Done(result)) => match result {
            Ok(_) => silent_step(OpenState::CreatingRuntime(targets), OpenAction::CreateRuntime),
            Err(error) => silent_step(OpenState::Ended, OpenAction::Fail(error)),
        },
        (OpenState::CreatingRuntime(targets), OpenEvent::Done(result)) => match result {
            Ok(_) => OpenStep {
                state: OpenState::Joining,
                reports: startup::connect_reports(&targets),
                action: OpenAction::Join,
            },
            Err(error) => silent_step(
                OpenState::Ended,
                OpenAction::Fail(
                    errors::error_in_context(error, "创建 Tokio Runtime 失败".to_string()),
                ),
            ),
        },
        (OpenState::Joining, OpenEvent::Joined(outcome)) => {
            let reports = startup::outcome_reports(&outcome);
            let action = match outcome {
                Ok(_) => OpenAction::Open,
                Err(error) => OpenAction::Fail(error),
            };
            OpenStep { state: OpenState::Ended, reports, action }
        },
        (state, _) => {
            // No other event comes of the action that is under way.
            assert(false);
            silent_step(state, OpenAction::Configure)
        },
    }
}

/// A client that is configured and has what it runs on reports the servers that it connects to, then
/// the outcome of the start, and nothing else. It is opened exactly if it joined its network.
pub proof fn law_opening_reports_start(
    targets: Vec<String>,
    outcome: Result<NetworkAddr, anyhow::Error>,
)
    ensures
        ({
            let ok = OpenEvent::Done(Ok(()));
            let s1 = next(OpenState::Configuring, OpenEvent::Configured(Ok(targets)));
            let s2 = next(s1.state, ok);
            let s3 = next(s2.state, ok);
            let s4 = next(s3.state, OpenEvent::Joined(outcome));
            &&& s1.action == Opening::CreateTask
            &&& s2.action == Opening::CreateRuntime
            &&& s3.action == Opening::Join
            &&& s4.state == OpenState::Ended
            &&& s4.action == Opening::Open <==> outcome is Ok
            &&& s1.reports + s2.reports + s3.reports + s4.reports == startup::start_sequence(
                config::texts(targets@),
                outcome,
            )
        }),
{
    let ok = OpenEvent::Done(Ok(()));
    let s1 = next(OpenState::Configuring, OpenEvent::Configured(Ok(targets)));
    let s2 = next(s1.state, ok);
    let s3 = next(s2.state, ok);
    let s4 = next(s3.state, OpenEvent::Joined(outcome));
    assert(s1.reports + s2.reports + s3.reports + s4.reports == startup::start_sequence(
        config::texts(targets@),
        outcome,
    ));
}

/// A client that fails before it sets out to join its network reports nothing.
pub proof fn law_early_failure_is_silent(state: OpenState, event: OpenEvent)
    requires
        state.expects(event),
        !(state is Joining),
        next(state, event).action is Fail,
    ensures
        next(state, event).reports == Seq::<startup::Report>::empty(),
        next(state, event).state == OpenState::Ended,
{
}

/// Success is the last report of a client that is opened, and is reported by no other. An error is
/// the only report of a client that failed to join its network.
pub proof fn law_outcome_is_reported(state: OpenState, event: OpenEvent)
    requires
        state.expects(event),
    ensures
        ({
            let step = next(state, event);
            &&& step.reports.contains(startup::Report::Success) <==> step.action is Open
            &&& step.action is Open ==> step.reports.last() == startup::Report::Success
            &&& state is Joining && step.action is Fail ==> step.reports.len() == 1
                && step.reports[0] is Error
            &&& step.action is Open ==> forall|i: int|
                0 <= i < step.reports.len() ==> !((#[trigger] step.reports[i]) is Error)
        }),
{
    let step = next(state, event);
    if step.action is Open {
        assert(step.reports[2] == startup::Report::Success);
    }
}

/// How many actions can still follow.
pub open spec fn remaining(state: OpenState) -> nat {
    match state {
        OpenState::Configuring => 4,
        OpenState::CreatingTask(_) => 3,
        OpenState::CreatingRuntime(_) => 2,
        OpenState::Joining => 1,
        OpenState::Ended => 0,
    }
}

/// Opening a client comes to an end: with each event fewer actions can still follow, and none exactly
/// when the client is opened or has failed.
pub proof fn law_opening_ends(state: OpenState, event: OpenEvent)
    requires
        state.expects(event),
    ensures
        remaining(next(state, event).state) < remaining(state),
        next(state, event).state == OpenState::Ended <==> (next(state, event).action is Open || next(
            state,
            event,
        ).action is Fail),
{
}

/// What an action of joining the network ends with, as the event that it is for the opening.
pub open spec fn ends_join(action: startup::Action, outcome: Result<NetworkAddr, anyhow::Error>) -> bool {
    match outcome {
        Ok(addr) => action == startup::Action::Finish(addr),
        Err(error) => action == startup::Action::Fail(errors::error_chain(error)),
    }
}

/// A client is opened exactly if the start finished, and then reports the addresses with which it
/// did; if the start failed, it fails with the same error and reports that.
pub proof fn law_opening_follows_start(
    state: startup::StartState,
    event: startup::StartEvent,
    outcome: Result<NetworkAddr, anyhow::Error>,
)
    requires
        state.expects(event),
        ends_join(startup::next(state, event).1, outcome),
    ensures
        ({
            let step = next(OpenState::Joining, OpenEvent::Joined(outcome));
            match startup::next(state, event).1 {
                startup::Action::Finish(addr) => step.action == Opening::Open && step.reports
                    == startup::success_sequence(addr),
                startup::Action::Fail(chain) => step.action == Opening::Fail(chain) && step.reports
                    == startup::failure_sequence(chain),
                _ => false,
            }
        }),
{
}

/// The value of a step tells all of its parts.
pub proof fn law_step_view(step: OpenStep)
    ensures
        step@.state == step.state,
        step@.reports == startup::reports_view(step.reports@),
        step.action is Configure <==> step@.action is Configure,
        step.action is CreateTask <==> step@.action is CreateTask,
        step.action is CreateRuntime <==> step@.action is CreateRuntime,
        step.action is Join <==> step@.action is Join,
        step.action is Open <==> step@.action is Open,
        step.action matches OpenAction::Fail(error) ==> step@.action == Opening::Fail(
            errors::error_chain(error),
        ),
{
}

/// What a client fails with: the fault of its configuration, the error of the tasks as it is, that of
/// the runtime behind a text that says so, or that of the start as it is.
pub proof fn law_opening_failures(targets: Vec<String>, fault: ConfigError, error: anyhow::Error)
    ensures
        next(OpenState::Configuring, OpenEvent::Configured(Err(fault))).action == Opening::Fail(
            config::fault_chain(fault@),
        ),
        next(OpenState::CreatingTask(targets), OpenEvent::Done(Err(error))).action == Opening::Fail(
            errors::error_chain(error),
        ),
        next(OpenState::CreatingRuntime(targets), OpenEvent::Done(Err(error))).action
            == Opening::Fail(seq!["创建 Tokio Runtime 失败"@] + errors::error_chain(error)),
        next(OpenState::Joining, OpenEvent::Joined(Err(error))).action == Opening::Fail(
            errors::error_chain(error),
        ),
{
}

/// The servers to connect to are those of the configuration until they are reported, right before the
/// client joins.
pub proof fn law_targets_are_kept(targets: Vec<String>)
    ensures
        next(OpenState::Configuring, OpenEvent::Configured(Ok(targets))).state
            == OpenState::CreatingTask(targets),
        next(OpenState::CreatingTask(targets), OpenEvent::Done(Ok(()))).state
            == OpenState::CreatingRuntime(targets),
        next(OpenState::CreatingRuntime(targets), OpenEvent::Done(Ok(()))).reports
            == startup::connect_sequence(config::texts(targets@)),
        next(OpenState::CreatingRuntime(targets), OpenEvent::Done(Ok(()))).state == OpenState::Joining,
{
}

/// Each action has one kind of event, and an end has none.
pub proof fn law_expected_events(targets: Vec<String>, event: OpenEvent)
    ensures
        OpenState::Configuring.expects(event) <==> event is Configured,
        OpenState::CreatingTask(targets).expects(event) <==> event is Done,
        OpenState::CreatingRuntime(targets).expects(event) <==> event is Done,
        OpenState::Joining.expects(event) ==> event is Joined,
        event matches OpenEvent::Joined(Err(_)) ==> OpenState::Joining.expects(event),
        event matches OpenEvent::Joined(Ok(addr)) ==> (OpenState::Joining.expects(event)
            <==> addr.prefix_len <= 32),
        !OpenState::Ended.expects(event),
{
}

/// A step without a report goes to its state and its action, and reports nothing.
pub proof fn law_silent_step(state: OpenState, action: Opening)
    ensures
        silent(state, action).state == state,
        silent(state, action).action == action,
        silent(state, action).reports.len() == 0,
{
}

} // verus!
