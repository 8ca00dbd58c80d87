//! Starting, stopping, keeping up and destroying apps.

use vstd::prelude::*;
use crate::app_name::{invalid_name_message, valid_app_name, validate_app_name};
use crate::app_state::{
    desired_on_record, desired_states_read_back, or_not_found, read_app_runtime_state, recorded,
    set_desired_state, spec_row_with, AppRuntimeStateRow, AppSpecRow, DesiredState,
    RuntimeRowView, SpecRowView,
};
use crate::env::{ensure_required_env_present, required_verdict};
use crate::runtime::{
    previous_app_ref, previous_of, resolve_active_app_ref, resolve_existing_active_app_ref,
    resolved,
};
use crate::split::{join, join_with};
use crate::table::Table;
use crate::text::outcome;

verus! {

/// What is done to an app: on demand, or to keep it as it is meant to be.
#[derive(Clone, Copy, PartialEq, Eq, Structural, Debug)]
pub enum Power {
    Stop,
    Start,
    Restart,
    KeepRunning,
    KeepStopped,
}

/// A step of it.
#[derive(Clone, Copy, PartialEq, Eq, Structural, Debug)]
pub enum PowerStep {
    /// Ask whether the container runs.
    CheckRunning,
    /// Stop the process of the app, and go on though that fails.
    StopProcess,
    StopContainer,
    StartContainer,
    /// Ask whether the service of the app is active.
    CheckService,
    /// Launch the app.
    Launch,
    /// Clean away the other containers of the app.
    Prune,
    Done,
}

pub open spec fn first_of(power: Power) -> PowerStep {
    match power {
        Power::Stop => PowerStep::StopProcess,
        _ => PowerStep::CheckRunning,
    }
}

pub fn first_power_step(power: Power) -> (r: PowerStep)
    ensures
        r == first_of(power),
{
    match power {
        Power::Stop => PowerStep::StopProcess,
        _ => PowerStep::CheckRunning,
    }
}

/// Whether this keeps an app as it is meant to be.
pub open spec fn supervises(power: Power) -> bool {
    power == Power::KeepRunning || power == Power::KeepStopped
}

/// The last step but one: apps that are kept up lose their other containers.
pub open spec fn wound_up(power: Power) -> PowerStep {
    if supervises(power) {
        PowerStep::Prune
    } else {
        PowerStep::Done
    }
}

/// The step after one; `yes` is the answer where the step asks something.
pub open spec fn step_after(power: Power, step: PowerStep, yes: bool) -> PowerStep {
    match step {
        PowerStep::CheckRunning => match power {
            Power::Restart => if yes {
                PowerStep::StopContainer
            } else {
                PowerStep::StartContainer
            },
            Power::KeepStopped | Power::Stop => if yes {
                PowerStep::StopProcess
            } else {
                wound_up(power)
            },
            Power::Start | Power::KeepRunning => if yes {
                PowerStep::CheckService
            } else {
                PowerStep::StartContainer
            },
        },
        PowerStep::StopProcess => PowerStep::StopContainer,
        PowerStep::StopContainer => if power == Power::Restart {
            PowerStep::StartContainer
        } else {
            wound_up(power)
        },
        PowerStep::StartContainer => if power == Power::Restart {
            PowerStep::Launch
        } else {
            PowerStep::CheckService
        },
        PowerStep::CheckService => if yes {
            wound_up(power)
        } else {
            PowerStep::Launch
        },
        PowerStep::Launch => wound_up(power),
        PowerStep::Prune => PowerStep::Done,
        PowerStep::Done => PowerStep::Done,
    }
}

pub fn next_power_step(power: Power, step: PowerStep, yes: bool) -> (r: PowerStep)
    ensures
        r == step_after(power, step, yes),
{
    let end = match power {
        Power::KeepRunning => PowerStep::Prune,
        Power::KeepStopped => PowerStep::Prune,
        _ => PowerStep::Done,
    };
    match step {
        PowerStep::CheckRunning => match power {
            Power::Restart => if yes {
                PowerStep::StopContainer
            } else {
                PowerStep::StartContainer
            },
            Power::KeepStopped | Power::Stop => if yes {
                PowerStep::StopProcess
            } else {
                end
            },
            Power::Start | Power::KeepRunning => if yes {
                PowerStep::CheckService
            } else {
                PowerStep::StartContainer
            },
        },
        PowerStep::StopProcess => PowerStep::StopContainer,
        PowerStep::StopContainer => match power {
            Power::Restart => PowerStep::StartContainer,
            _ => end,
        },
        PowerStep::StartContainer => match power {
            Power::Restart => PowerStep::Launch,
            _ => PowerStep::CheckService,
        },
        PowerStep::CheckService => if yes {
            end
        } else {
            PowerStep::Launch
        },
        PowerStep::Launch => end,
        PowerStep::Prune => PowerStep::Done,
        PowerStep::Done => PowerStep::Done,
    }
}

/// How many steps are left at most.
pub open spec fn steps_left(step: PowerStep) -> nat {
    match step {
        PowerStep::CheckRunning => 7,
        PowerStep::StopProcess => 6,
        PowerStep::StopContainer => 5,
        PowerStep::StartContainer => 4,
        PowerStep::CheckService => 3,
        PowerStep::Launch => 2,
        PowerStep::Prune => 1,
        PowerStep::Done => 0,
    }
}

/// The steps after the first, by the answers.
pub open spec fn steps_from(power: Power, step: PowerStep, answers: Seq<bool>) -> Seq<PowerStep>
    decreases answers.len(),
{
    if answers.len() == 0 {
        seq![step]
    } else {
        seq![step] + steps_from(power, step_after(power, step, answers[0]), answers.skip(1))
    }
}

/// Whatever the answers, it ends.
pub proof fn power_runs_end(power: Power, step: PowerStep, yes: bool)
    ensures
        step == PowerStep::Done || steps_left(step_after(power, step, yes)) < steps_left(step),
{
}

proof fn stopping_never_starts(power: Power, step: PowerStep, answers: Seq<bool>, i: int)
    requires
        power == Power::Stop || power == Power::KeepStopped,
        step == PowerStep::CheckRunning || step == PowerStep::StopProcess || step
            == PowerStep::StopContainer || step == PowerStep::Prune || step == PowerStep::Done,
        0 <= i < steps_from(power, step, answers).len(),
    ensures
        steps_from(power, step, answers)[i] != PowerStep::StartContainer,
        steps_from(power, step, answers)[i] != PowerStep::Launch,
    decreases answers.len(),
{
    if answers.len() > 0 && i > 0 {
        stopping_never_starts(
            power,
            step_after(power, step, answers[0]),
            answers.skip(1),
            i - 1,
        );
    }
}

/// An app that is stopped, or kept stopped, is never started on the way.
pub proof fn stopped_apps_stay_stopped(power: Power, answers: Seq<bool>, i: int)
    requires
        power == Power::Stop || power == Power::KeepStopped,
        0 <= i < steps_from(power, first_of(power), answers).len(),
    ensures
        steps_from(power, first_of(power), answers)[i] != PowerStep::StartContainer,
        steps_from(power, first_of(power), answers)[i] != PowerStep::Launch,
{
    stopping_never_starts(power, first_of(power), answers, i);
}

proof fn ends_come_after_a_launch(power: Power, step: PowerStep, answers: Seq<bool>, i: int)
    requires
        power != Power::Stop,
        power != Power::KeepStopped,
        step != PowerStep::StopProcess,
        step != PowerStep::StopContainer || power == Power::Restart,
        0 <= i < answers.len(),
    ensures
        ({
            let steps = steps_from(power, step, answers);
            &&& steps.len() == answers.len() + 1
            &&& steps[i + 1] == wound_up(power) ==> {
                ||| steps[i] == PowerStep::Launch
                ||| steps[i] == PowerStep::CheckService && answers[i]
                ||| steps[i] == PowerStep::Prune
                ||| steps[i] == PowerStep::Done
            }
        }),
    decreases answers.len(),
{
    let after = step_after(power, step, answers[0]);
    let rest = steps_from(power, after, answers.skip(1));
    assert(rest[0] == after);
    assert(steps_from(power, step, answers)[0] == step);
    if answers.len() > 1 {
        let k = if i > 0 {
            i - 1
        } else {
            0
        };
        ends_come_after_a_launch(power, after, answers.skip(1), k);
    }
}

/// An app that is started, restarted or kept running is up at the end: what comes before
/// the end launched it, or found its service active.
pub proof fn started_apps_are_up(power: Power, answers: Seq<bool>, i: int)
    requires
        power != Power::Stop,
        power != Power::KeepStopped,
        0 <= i < answers.len(),
    ensures
        ({
            let steps = steps_from(power, first_of(power), answers);
            steps[i + 1] == wound_up(power) ==> {
                ||| steps[i] == PowerStep::Launch
                ||| steps[i] == PowerStep::CheckService && answers[i]
                ||| steps[i] == PowerStep::Prune
                ||| steps[i] == PowerStep::Done
            }
        }),
{
    ends_come_after_a_launch(power, first_of(power), answers, i);
}

// ---------------------------------------------------------------------------
// On demand
// ---------------------------------------------------------------------------

pub open spec fn meant(power: Power) -> DesiredState {
    match power {
        Power::Stop | Power::KeepStopped => DesiredState::Stopped,
        _ => DesiredState::Running,
    }
}

/// What is on record of the apps: the containers they run in and what they are meant to
/// be.
pub struct AppRecords {
    pub states: Map<Seq<char>, RuntimeRowView>,
    pub specs: Map<Seq<char>, SpecRowView>,
}

/// The app in the active container, and what is on record afterwards.
pub open spec fn demanded(
    records: AppRecords,
    power: Power,
    app: Seq<char>,
    live: Seq<Seq<char>>,
    now: u64,
) -> (Result<Seq<char>, Seq<char>>, AppRecords) {
    if !valid_app_name(app) {
        (Err(invalid_name_message(app)), records)
    } else {
        let (found, states) = resolved(records.states, app, live, now);
        match or_not_found(found, app) {
            Err(err) => (Err(err), AppRecords { states, ..records }),
            Ok(active) => (
                Ok(active),
                AppRecords {
                    states,
                    specs: records.specs.insert(
                        app,
                        spec_row_with(records.specs, app, meant(power)),
                    ),
                },
            ),
        }
    }
}

/// Begins to stop, start or restart an app on demand: the app in its active container.
/// What the app is meant to be from then on is put on record.
pub fn begin_on_demand(
    power: Power,
    states: &mut Table<AppRuntimeStateRow>,
    specs: &mut Table<AppSpecRow>,
    app: &str,
    live: &Vec<String>,
    now: u64,
) -> (r: Result<String, String>)
    requires
        old(states).wf(),
        old(specs).wf(),
    ensures
        final(states).wf(),
        final(specs).wf(),
        (
            outcome(r),
            AppRecords { states: final(states).deep_view(), specs: final(specs).deep_view() },
        ) == demanded(
            AppRecords { states: old(states).deep_view(), specs: old(specs).deep_view() },
            power,
            app@,
            live.deep_view(),
            now,
        ),
{
    if let Err(err) = validate_app_name(app) {
        return Err(err);
    }
    let active = match resolve_existing_active_app_ref(states, app, live, now) {
        Ok(active) => active,
        Err(err) => {
            return Err(err);
        },
    };
    match power {
        Power::Stop => set_desired_state(specs, app, DesiredState::Stopped),
        Power::KeepStopped => set_desired_state(specs, app, DesiredState::Stopped),
        _ => set_desired_state(specs, app, DesiredState::Running),
    }
    Ok(active)
}

/// What an app is meant to be after a demand that is met is what was demanded.
pub proof fn demands_are_kept(
    records: AppRecords,
    power: Power,
    app: Seq<char>,
    live: Seq<Seq<char>>,
    now: u64,
)
    ensures
        ({
            let (r, after) = demanded(records, power, app, live, now);
            if r is Ok {
                desired_on_record(after.specs, app) == meant(power)
            } else {
                after.specs == records.specs
            }
        }),
{
    desired_states_read_back(records.specs, app, meant(power), app);
}

/// What is needed to launch an app: its start command, where all that it requires is set.
pub open spec fn launch_command(
    vars: Result<Table<String>, String>,
    required_env: Result<Vec<String>, String>,
    start_command: Result<String, String>,
) -> Result<Seq<char>, Seq<char>> {
    match vars {
        Err(err) => Err(err@),
        Ok(vars) => match required_env {
            Err(err) => Err(err@),
            Ok(required) => match required_verdict(required.deep_view(), vars.deep_view()) {
                Err(err) => Err(err),
                Ok(_) => match start_command {
                    Err(err) => Err(err@),
                    Ok(command) => Ok(command@),
                },
            },
        },
    }
}

pub fn ready_to_launch(
    vars: &Result<Table<String>, String>,
    required_env: &Result<Vec<String>, String>,
    start_command: &Result<String, String>,
) -> (r: Result<String, String>)
    requires
        *vars matches Ok(table) ==> table.wf(),
    ensures
        outcome(r) == launch_command(*vars, *required_env, *start_command),
{
    match vars {
        Err(err) => Err(err.clone()),
        Ok(vars) => match required_env {
            Err(err) => Err(err.clone()),
            Ok(required) => {
                if let Err(err) = ensure_required_env_present(required, vars) {
                    return Err(err);
                }
                match start_command {
                    Err(err) => Err(err.clone()),
                    Ok(command) => Ok(command.clone()),
                }
            },
        },
    }
}

/// An app whose connection is looked at must run.
pub fn require_running(app: &str, running: bool) -> (r: Result<(), String>)
    ensures
        outcome(r) == if running {
            Ok::<(), Seq<char>>(())
        } else {
            Err("app '"@ + app@ + "' is not running"@)
        },
{
    if running {
        return Ok(());
    }
    let mut message = String::from_str("app '");
    message.append(app);
    message.append("' is not running");
    Err(message)
}

// ---------------------------------------------------------------------------
// Supervision
// ---------------------------------------------------------------------------

/// What supervision does to an app, if anything.
pub open spec fn spec_supervised(operating: Result<bool, String>, desired: DesiredState) -> Option<
    Power,
> {
    if operating == Ok::<bool, String>(true) {
        None
    } else if desired == DesiredState::Stopped {
        Some(Power::KeepStopped)
    } else {
        Some(Power::KeepRunning)
    }
}

/// What is done to keep an app as it is meant to be. While an operation on its container
/// is under way, nothing is; where that is not known, it is taken for granted that none
/// is.
pub fn supervise_choice(operating: &Result<bool, String>, desired: DesiredState) -> (r: Option<
    Power,
>)
    ensures
        r == spec_supervised(*operating, desired),
{
    if let Ok(true) = operating {
        return None;
    }
    match desired {
        DesiredState::Stopped => Some(Power::KeepStopped),
        DesiredState::Running => Some(Power::KeepRunning),
    }
}

/// The app in its active container, as supervision needs it.
pub open spec fn to_supervise(
    power: Power,
    found: Result<Option<Seq<char>>, Seq<char>>,
    app: Seq<char>,
) -> Result<Option<Seq<char>>, Seq<char>> {
    if power == Power::KeepStopped {
        found
    } else {
        match or_not_found(found, app) {
            Ok(active) => Ok(Some(active)),
            Err(err) => Err(err),
        }
    }
}

/// Begins to keep an app as it is meant to be: the app in its active container. An app
/// that is to be stopped need not have one.
pub fn begin_supervised(
    power: Power,
    states: &mut Table<AppRuntimeStateRow>,
    app: &str,
    live: &Vec<String>,
    now: u64,
) -> (r: Result<Option<String>, String>)
    requires
        old(states).wf(),
    ensures
        final(states).wf(),
        ({
            let (found, after) = resolved(
                old(states).deep_view(),
                app@,
                live.deep_view(),
                    now,
            );
            &&& final(states).deep_view() == after
            &&& outcome(r) == to_supervise(power, found, app@)
        }),
{
    match power {
        Power::KeepStopped => resolve_active_app_ref(states, app, live, now),
        _ => match resolve_existing_active_app_ref(states, app, live, now) {
            Ok(active) => Ok(Some(active)),
            Err(err) => Err(err),
        },
    }
}

/// The line for an app that could not be kept as it is meant to be.
pub fn supervise_failure(app: &str, err: &str) -> (r: String)
    ensures
        r@ == app@ + ": "@ + err@,
{
    let mut r = app.to_owned();
    r.append(": ");
    r.append(err);
    r
}

pub fn supervise_verdict(failures: &Vec<String>) -> (r: Result<(), String>)
    ensures
        outcome(r) == if failures@.len() == 0 {
            Ok::<(), Seq<char>>(())
        } else {
            Err("supervise failures: "@ + join(failures.deep_view(), "; "@))
        },
{
    if failures.is_empty() {
        return Ok(());
    }
    let mut message = String::from_str("supervise failures: ");
    let list = join_with(failures, "; ");
    message.append(list.as_str());
    Err(message)
}

// ---------------------------------------------------------------------------
// Destruction
// ---------------------------------------------------------------------------

/// The containers that go with an app.
pub struct Destruction {
    pub active_app: String,
    pub previous_app: Option<String>,
}

impl DeepView for Destruction {
    type V = (Seq<char>, Option<Seq<char>>);

    open spec fn deep_view(&self) -> (Seq<char>, Option<Seq<char>>) {
        (self.active_app@, self.previous_app.deep_view())
    }
}

pub open spec fn destruction(
    states: Map<Seq<char>, RuntimeRowView>,
    app: Seq<char>,
    live: Seq<Seq<char>>,
    now: u64,
) -> (Result<(Seq<char>, Option<Seq<char>>), Seq<char>>, Map<Seq<char>, RuntimeRowView>) {
    if !valid_app_name(app) {
        (Err(invalid_name_message(app)), states)
    } else {
        let (found, states) = resolved(states, app, live, now);
        match or_not_found(found, app) {
            Err(err) => (Err(err), states),
            Ok(active) => match recorded(states, app) {
                Err(err) => (Err(err), states),
                Ok(state) => (Ok((active, previous_of(state, active, live))), states),
            },
        }
    }
}

/// Begins to destroy an app: the containers that go with it.
pub fn begin_destroy(
    states: &mut Table<AppRuntimeStateRow>,
    app: &str,
    live: &Vec<String>,
    now: u64,
) -> (r: Result<Destruction, String>)
    requires
        old(states).wf(),
    ensures
        final(states).wf(),
        (outcome(r), final(states).deep_view()) == destruction(
            old(states).deep_view(),
            app@,
            live.deep_view(),
            now,
        ),
{
    if let Err(err) = validate_app_name(app) {
        return Err(err);
    }
    let active_app = match resolve_existing_active_app_ref(states, app, live, now) {
        Ok(active) => active,
        Err(err) => {
            return Err(err);
        },
    };
    let state = match read_app_runtime_state(states, app) {
        Ok(state) => state,
        Err(err) => {
            return Err(err);
        },
    };
    let previous_app = previous_app_ref(&state, active_app.as_str(), live);
    Ok(Destruction { active_app, previous_app })
}

/// A step of the destruction of an app.
#[derive(Clone, Copy, PartialEq, Eq, Structural, Debug)]
pub enum DestroyStep {
    RemoveRoute,
    DetachStorage,
    DetachTailscale,
    StopActive,
    DeleteActive,
    StopPrevious,
    DeletePrevious,
    /// Delete the volume that keeps the storage of the app.
    DeleteStorage,
    DeleteTailscaleVolume,
    DeleteDevices,
    RemoveVars,
    ForgetState,
    Done,
}

/// Whether the destruction ends where a step fails.
pub open spec fn must_succeed(step: DestroyStep) -> bool {
    step == DestroyStep::RemoveRoute || step == DestroyStep::StopActive || step
        == DestroyStep::DeleteActive || step == DestroyStep::DeleteStorage
}

/// The step after one.
pub open spec fn destroy_after(step: DestroyStep, has_previous: bool) -> DestroyStep {
    match step {
        DestroyStep::RemoveRoute => DestroyStep::DetachStorage,
        DestroyStep::DetachStorage => DestroyStep::DetachTailscale,
        DestroyStep::DetachTailscale => DestroyStep::StopActive,
        DestroyStep::StopActive => DestroyStep::DeleteActive,
        DestroyStep::DeleteActive => if has_previous {
            DestroyStep::StopPrevious
        } else {
            DestroyStep::DeleteStorage
        },
        DestroyStep::StopPrevious => DestroyStep::DeletePrevious,
        DestroyStep::DeletePrevious => DestroyStep::DeleteStorage,
        DestroyStep::DeleteStorage => DestroyStep::DeleteTailscaleVolume,
        DestroyStep::DeleteTailscaleVolume => DestroyStep::DeleteDevices,
        DestroyStep::DeleteDevices => DestroyStep::RemoveVars,
        DestroyStep::RemoveVars => DestroyStep::ForgetState,
        DestroyStep::ForgetState => DestroyStep::Done,
        DestroyStep::Done => DestroyStep::Done,
    }
}

/// What is said of a step that fails and may, if anything is.
pub open spec fn destroy_warning(step: DestroyStep, err: Seq<char>) -> Option<Seq<char>> {
    match step {
        DestroyStep::DetachStorage => Some(
            "       Warning: failed to remove /storage mount before destroy: "@ + err,
        ),
        DestroyStep::DetachTailscale => Some(
            "       Warning: failed to remove tailscale state mount before destroy: "@ + err,
        ),
        DestroyStep::DeleteTailscaleVolume => Some(
            "       Warning: failed to remove tailscale state volume: "@ + err,
        ),
        DestroyStep::DeleteDevices => Some(
            "       Warning: failed to clean up tracked tailscale devices: "@ + err,
        ),
        DestroyStep::RemoveVars => Some("       Warning: failed to remove env vars: "@ + err),
        DestroyStep::ForgetState => Some(
            "       Warning: failed to clear app runtime state: "@ + err,
        ),
        _ => None,
    }
}

/// What follows a step, by what came of it: the next one and what is said, or the error
/// that ends the destruction.
pub open spec fn destroy_next(
    has_previous: bool,
    step: DestroyStep,
    result: Result<(), Seq<char>>,
) -> Result<(DestroyStep, Option<Seq<char>>), Seq<char>> {
    match result {
        Ok(_) => Ok((destroy_after(step, has_previous), None)),
        Err(err) => if must_succeed(step) {
            Err(err)
        } else {
            Ok((destroy_after(step, has_previous), destroy_warning(step, err)))
        },
    }
}

fn warned(start: &str, err: &str) -> (r: Option<String>)
    ensures
        r.deep_view() == Some(start@ + err@),
{
    let mut r = start.to_owned();
    r.append(err);
    Some(r)
}

impl Destruction {
    /// What follows a step, and what is said of it.
    pub fn next(&self, step: DestroyStep, result: &Result<(), String>) -> (r: Result<
        (DestroyStep, Option<String>),
        String,
    >)
        ensures
            match destroy_next(self.previous_app is Some, step, outcome(*result)) {
                Ok((after, said)) => r matches Ok(got) && got.0 == after && got.1.deep_view()
                    == said,
                Err(err) => r matches Err(message) && message@ == err,
            },
    {
        let after = match step {
            DestroyStep::RemoveRoute => DestroyStep::DetachStorage,
            DestroyStep::DetachStorage => DestroyStep::DetachTailscale,
            DestroyStep::DetachTailscale => DestroyStep::StopActive,
            DestroyStep::StopActive => DestroyStep::DeleteActive,
            DestroyStep::DeleteActive => if self.previous_app.is_some() {
                DestroyStep::StopPrevious
            } else {
                DestroyStep::DeleteStorage
            },
            DestroyStep::StopPrevious => DestroyStep::DeletePrevious,
            DestroyStep::DeletePrevious => DestroyStep::DeleteStorage,
            DestroyStep::DeleteStorage => DestroyStep::DeleteTailscaleVolume,
            DestroyStep::DeleteTailscaleVolume => DestroyStep::DeleteDevices,
            DestroyStep::DeleteDevices => DestroyStep::RemoveVars,
            DestroyStep::RemoveVars => DestroyStep::ForgetState,
            DestroyStep::ForgetState => DestroyStep::Done,
            DestroyStep::Done => DestroyStep::Done,
        };
        let err = match result {
            Ok(_) => {
                return Ok((after, None));
            },
            Err(err) => err.as_str(),
        };
        let said = match step {
            DestroyStep::RemoveRoute | DestroyStep::StopActive | DestroyStep::DeleteActive
            | DestroyStep::DeleteStorage => {
                return Err(err.to_owned());
            },
            DestroyStep::DetachStorage => warned(
                "       Warning: failed to remove /storage mount before destroy: ",
                err,
            ),
            DestroyStep::DetachTailscale => warned(
                "       Warning: failed to remove tailscale state mount before destroy: ",
                err,
            ),
            DestroyStep::DeleteTailscaleVolume => warned(
                "       Warning: failed to remove tailscale state volume: ",
                err,
            ),
            DestroyStep::DeleteDevices => warned(
                "       Warning: failed to clean up tracked tailscale devices: ",
                err,
            ),
            DestroyStep::RemoveVars => warned("       Warning: failed to remove env vars: ", err),
            DestroyStep::ForgetState => warned(
                "       Warning: failed to clear app runtime state: ",
                err,
            ),
            DestroyStep::StopPrevious | DestroyStep::DeletePrevious | DestroyStep::Done => None,
        };
        Ok((after, said))
    }
}

/// How far a destruction has come.
pub open spec fn destroy_rank(step: DestroyStep) -> int {
    match step {
        DestroyStep::RemoveRoute => 0,
        DestroyStep::DetachStorage => 1,
        DestroyStep::DetachTailscale => 2,
        DestroyStep::StopActive => 3,
        DestroyStep::DeleteActive => 4,
        DestroyStep::StopPrevious => 5,
        DestroyStep::DeletePrevious => 6,
        DestroyStep::DeleteStorage => 7,
        DestroyStep::DeleteTailscaleVolume => 8,
        DestroyStep::DeleteDevices => 9,
        DestroyStep::RemoveVars => 10,
        DestroyStep::ForgetState => 11,
        DestroyStep::Done => 12,
    }
}

/// Every destruction ends: each step leads on to a later one, or ends it.
pub proof fn destructions_end(has_previous: bool, step: DestroyStep, result: Result<(), Seq<char>>)
    requires
        step != DestroyStep::Done,
    ensures
        destroy_next(has_previous, step, result) matches Ok(after) ==> destroy_rank(step)
            < destroy_rank(after.0) <= 12,
{
}

/// The course of a destruction, by what came of its steps.
pub open spec fn destroy_run(has_previous: bool, results: Seq<Result<(), Seq<char>>>) -> Result<
    DestroyStep,
    Seq<char>,
>
    decreases results.len(),
{
    if results.len() == 0 {
        Ok(DestroyStep::RemoveRoute)
    } else {
        match destroy_run(has_previous, results.drop_last()) {
            Err(err) => Err(err),
            Ok(step) => match destroy_next(has_previous, step, results.last()) {
                Ok((after, _)) => Ok(after),
                Err(err) => Err(err),
            },
        }
    }
}

/// Whether a step of a destruction was taken and succeeded.
pub open spec fn destroyed(
    has_previous: bool,
    results: Seq<Result<(), Seq<char>>>,
    step: DestroyStep,
) -> bool {
    exists|i: int|
        0 <= i < results.len() && (#[trigger] destroy_run(has_previous, results.take(i))) == Ok::<
            DestroyStep,
            Seq<char>,
        >(step) && results[i] is Ok
}

/// An app that is destroyed has no route, no active container and no storage any more:
/// what takes each of them away was done and succeeded. Its storage goes only after its
/// active container is gone.
pub proof fn destroyed_apps_lose_route_container_and_storage(
    has_previous: bool,
    results: Seq<Result<(), Seq<char>>>,
    step: DestroyStep,
)
    requires
        must_succeed(step),
    ensures
        destroy_run(has_previous, results) matches Ok(reached) ==> (destroy_rank(reached)
            > destroy_rank(step) ==> destroyed(has_previous, results, step)),
        destroy_run(has_previous, results) == Ok::<DestroyStep, Seq<char>>(DestroyStep::Done)
            ==> destroyed(has_previous, results, step),
        destroy_run(has_previous, results) == Ok::<DestroyStep, Seq<char>>(
            DestroyStep::DeleteStorage,
        ) && step != DestroyStep::DeleteStorage ==> destroyed(has_previous, results, step),
    decreases results.len(),
{
    if results.len() > 0 {
        let earlier = results.drop_last();
        let last = results.len() - 1;
        destroyed_apps_lose_route_container_and_storage(has_previous, earlier, step);
        assert(results.take(last) =~= earlier);
        assert(results[last] == results.last());
        if destroyed(has_previous, earlier, step) {
            let i = choose|i: int|
                0 <= i < earlier.len() && (#[trigger] destroy_run(has_previous, earlier.take(i)))
                    == Ok::<DestroyStep, Seq<char>>(step) && earlier[i] is Ok;
            assert(results.take(i) =~= earlier.take(i));
            assert(results[i] == earlier[i]);
            assert(destroy_run(has_previous, results.take(i)) == Ok::<DestroyStep, Seq<char>>(step));
        } else if destroy_run(has_previous, earlier) == Ok::<DestroyStep, Seq<char>>(step) {
            assert(destroy_run(has_previous, results.take(last)) == Ok::<DestroyStep, Seq<char>>(
                step,
            ));
        }
    }
}

/// The steps of a destruction, one after the other: the route goes first, then what is
/// mounted, the active container, the previous one if there is one, what is kept for the
/// app, and last what is known of it.
pub open spec fn destroy_order(has_previous: bool) -> Seq<DestroyStep> {
    seq![
        DestroyStep::RemoveRoute,
        DestroyStep::DetachStorage,
        DestroyStep::DetachTailscale,
        DestroyStep::StopActive,
        DestroyStep::DeleteActive,
    ] + (if has_previous {
        seq![DestroyStep::StopPrevious, DestroyStep::DeletePrevious]
    } else {
        Seq::empty()
    }) + seq![
        DestroyStep::DeleteStorage,
        DestroyStep::DeleteTailscaleVolume,
        DestroyStep::DeleteDevices,
        DestroyStep::RemoveVars,
        DestroyStep::ForgetState,
        DestroyStep::Done,
    ]
}

/// A destruction takes its steps one after the other. It ends with the error of a step that
/// fails only where that is to remove the route, to stop or delete the active container or
/// to delete the storage. Any other failure is passed over, and reported with its error,
/// but for what is done to the previous container.
pub proof fn destructions_take_these_steps(
    has_previous: bool,
    i: int,
    result: Result<(), Seq<char>>,
)
    requires
        0 <= i < destroy_order(has_previous).len() - 1,
    ensures
        ({
            let order = destroy_order(has_previous);
            let after = destroy_next(has_previous, order[i], result);
            let step = order[i];
            let needed = step == DestroyStep::RemoveRoute || step == DestroyStep::StopActive || step
                == DestroyStep::DeleteActive || step == DestroyStep::DeleteStorage;
            let of_previous = step == DestroyStep::StopPrevious || step
                == DestroyStep::DeletePrevious;
            match result {
                Ok(_) => after == Ok::<(DestroyStep, Option<Seq<char>>), Seq<char>>(
                    (order[i + 1], None),
                ),
                Err(err) => if needed {
                    after == Err::<(DestroyStep, Option<Seq<char>>), Seq<char>>(err)
                } else {
                    &&& after is Ok
                    &&& after->Ok_0.0 == order[i + 1]
                    &&& of_previous <==> after->Ok_0.1 is None
                    &&& !of_previous ==> err.is_suffix_of(after->Ok_0.1->Some_0)
                },
            }
        }),
{
    if let Err(err) = result {
        if let Some(said) = destroy_warning(destroy_order(has_previous)[i], err) {
            assert(said.subrange(said.len() - err.len(), said.len() as int) =~= err);
        }
    }
}

/// A destruction that was not ended by an error has come as far as it took steps; it was
/// ended by one exactly where a step failed that must not.
pub proof fn destructions_come_as_far_as_their_steps(
    has_previous: bool,
    results: Seq<Result<(), Seq<char>>>,
)
    ensures
        ({
            let order = destroy_order(has_previous);
            let last = order.len() - 1;
            match destroy_run(has_previous, results) {
                Ok(step) => step == order[if results.len() < last {
                    results.len() as int
                } else {
                    last
                }],
                Err(err) => exists|i: int|
                    0 <= i < results.len() && i < last && #[trigger] results[i] == Err::<
                        (),
                        Seq<char>,
                    >(err) && {
                        ||| order[i] == DestroyStep::RemoveRoute
                        ||| order[i] == DestroyStep::StopActive
                        ||| order[i] == DestroyStep::DeleteActive
                        ||| order[i] == DestroyStep::DeleteStorage
                    },
            }
        }),
    decreases results.len(),
{
    if results.len() > 0 {
        let earlier = results.drop_last();
        let order = destroy_order(has_previous);
        let last = order.len() - 1;
        destructions_come_as_far_as_their_steps(has_previous, earlier);
        match destroy_run(has_previous, earlier) {
            Ok(step) => {
                if earlier.len() < last {
                    let at = earlier.len() as int;
                    destructions_take_these_steps(has_previous, at, results.last());
                    assert(results[at] == results.last());
                }
            },
            Err(err) => {
                let i = choose|i: int|
                    0 <= i < earlier.len() && i < last && #[trigger] earlier[i] == Err::<
                        (),
                        Seq<char>,
                    >(err) && {
                        ||| order[i] == DestroyStep::RemoveRoute
                        ||| order[i] == DestroyStep::StopActive
                        ||| order[i] == DestroyStep::DeleteActive
                        ||| order[i] == DestroyStep::DeleteStorage
                    };
                assert(results[i] == earlier[i]);
            },
        }
    }
}

/// An app is launched only where its variables, what it requires and its start command are
/// all known and nothing that it requires is missing; and with that start command.
pub proof fn launches_have_what_the_app_requires(
    vars: Result<Table<String>, String>,
    required_env: Result<Vec<String>, String>,
    start_command: Result<String, String>,
)
    ensures
        ({
            let ready = launch_command(vars, required_env, start_command);
            &&& ready is Ok <==> vars is Ok && required_env is Ok && start_command is Ok
                && required_verdict(
                required_env->Ok_0.deep_view(),
                vars->Ok_0.deep_view(),
            ) is Ok
            &&& ready is Ok ==> ready->Ok_0 == start_command->Ok_0@
            &&& vars is Err ==> ready == Err::<Seq<char>, Seq<char>>(vars->Err_0@)
        }),
{
}

/// A demand is met exactly where the name of the app is valid and it has an active
/// container; a demand that is not met leaves what the app is meant to be as it was, and
/// one that is met leaves that of all others as it was.
pub proof fn demands_are_met_for_apps_that_exist(
    records: AppRecords,
    power: Power,
    app: Seq<char>,
    live: Seq<Seq<char>>,
    now: u64,
    other: Seq<char>,
)
    ensures
        ({
            let (r, after) = demanded(records, power, app, live, now);
            let found = resolved(records.states, app, live, now);
            &&& r is Ok <==> valid_app_name(app) && found.0 is Ok && found.0->Ok_0 is Some
            &&& r is Ok ==> found.0->Ok_0 == Some(r->Ok_0) && live.contains(r->Ok_0)
            &&& !valid_app_name(app) ==> after == records
            &&& valid_app_name(app) ==> after.states == found.1
            &&& r is Err ==> after.specs == records.specs
            &&& other != app ==> crate::table::lookup(after.specs, other) == crate::table::lookup(
                records.specs,
                other,
            )
        }),
{
    crate::runtime::resolving_settles(records.states, app, live, now, now);
}

/// With an app go its active container and, where it exists and is another, the one before
/// it. Nothing goes with a name that is not valid or an app that has no container.
pub proof fn destructions_take_both_containers(
    states: Map<Seq<char>, RuntimeRowView>,
    app: Seq<char>,
    live: Seq<Seq<char>>,
    now: u64,
)
    ensures
        ({
            let (r, after) = destruction(states, app, live, now);
            let found = resolved(states, app, live, now);
            &&& r is Ok ==> {
                &&& valid_app_name(app)
                &&& found.0 == Ok::<Option<Seq<char>>, Seq<char>>(Some((r->Ok_0).0))
                &&& (r->Ok_0).1 is Some ==> live.contains((r->Ok_0).1->0) && (r->Ok_0).1->0
                    != (r->Ok_0).0
            }
            &&& r is Ok <==> valid_app_name(app) && found.0 is Ok && found.0->Ok_0 is Some
                && recorded(found.1, app) is Ok
            &&& !valid_app_name(app) ==> after == states
            &&& valid_app_name(app) ==> after == found.1
        }),
{
}

/// Supervision keeps every app as it is meant to be, and leaves it alone exactly while an
/// operation on its container is known to be under way.
pub proof fn supervision_keeps_apps_as_they_are_meant(
    operating: Result<bool, String>,
    desired: DesiredState,
)
    ensures
        spec_supervised(operating, desired) is None <==> operating == Ok::<bool, String>(true),
        spec_supervised(operating, desired) matches Some(power) ==> meant(power) == desired && (
        power == Power::KeepRunning || power == Power::KeepStopped),
{
}

/// Supervision works on the active container of an app; that there is none is an error only
/// where the app is not meant to be stopped.
pub proof fn stopped_apps_need_no_container(
    power: Power,
    found: Result<Option<Seq<char>>, Seq<char>>,
    app: Seq<char>,
)
    ensures
        to_supervise(power, found, app) is Err <==> found is Err || (found->Ok_0 is None && power
            != Power::KeepStopped),
        to_supervise(power, found, app) is Ok ==> to_supervise(power, found, app) == found,
{
}

} // verus!
