//! What starting, stopping and keeping up an app comes to.

use vstd::prelude::*;
use crate::app_state::DesiredState;
use crate::power::{first_of, meant, step_after, steps_from, steps_left, Power, PowerStep};

verus! {

/// Whether a step before the given place starts the container.
pub open spec fn starts_before(steps: Seq<PowerStep>, i: int) -> bool {
    exists|j: int| 0 <= j < i && #[trigger] steps[j] == PowerStep::StartContainer
}

/// Whether no step from one place to another stops the container.
pub open spec fn keeps_up(steps: Seq<PowerStep>, from: int, to: int) -> bool {
    forall|j: int| from <= j < to ==> #[trigger] steps[j] != PowerStep::StopContainer
}

proof fn launches_come_from_a_start(
    power: Power,
    step: PowerStep,
    answers: Seq<bool>,
    i: int,
)
    requires
        power == Power::Start || power == Power::Restart || power == Power::KeepRunning,
        step != PowerStep::StopProcess,
        step == PowerStep::StopContainer ==> power == Power::Restart,
        0 <= i < steps_from(power, step, answers).len(),
    ensures
        ({
            let steps = steps_from(power, step, answers);
            &&& steps.len() == answers.len() + 1
            &&& steps[0] == step
            &&& steps[i] == PowerStep::Launch ==> {
                ||| starts_before(steps, i)
                ||| keeps_up(steps, 0, i) && (step == PowerStep::CheckRunning ==> i > 0
                    && answers[0])
            }
        }),
    decreases answers.len(),
{
    let steps = steps_from(power, step, answers);
    if answers.len() > 0 {
        let after = step_after(power, step, answers[0]);
        let rest = steps_from(power, after, answers.skip(1));
        assert(steps == seq![step] + rest);
        if i > 0 {
            launches_come_from_a_start(power, after, answers.skip(1), i - 1);
            assert(steps[i] == rest[i - 1]);
            if steps[i] == PowerStep::Launch {
                if starts_before(rest, i - 1) {
                    let j = choose|j: int|
                        0 <= j < i - 1 && #[trigger] rest[j] == PowerStep::StartContainer;
                    assert(steps[j + 1] == PowerStep::StartContainer);
                } else if after == PowerStep::StartContainer {
                    assert(rest[0] == PowerStep::StartContainer);
                    assert(steps[1] == PowerStep::StartContainer);
                } else {
                    assert forall|j: int| 0 <= j < i implies #[trigger] steps[j]
                        != PowerStep::StopContainer by {
                        if j > 0 {
                            assert(steps[j] == rest[j - 1]);
                        }
                    }
                }
            }
        } else {
            launches_come_from_a_start(power, after, answers.skip(1), 0);
        }
    }
}

/// Nothing is launched in a container that does not run: whatever the answers, before an
/// app is launched its container was started, or found running and not stopped since.
pub proof fn launches_find_a_running_container(power: Power, answers: Seq<bool>, i: int)
    requires
        power == Power::Start || power == Power::Restart || power == Power::KeepRunning,
        0 <= i < steps_from(power, first_of(power), answers).len(),
    ensures
        ({
            let steps = steps_from(power, first_of(power), answers);
            steps[i] == PowerStep::Launch ==> {
                ||| starts_before(steps, i)
                ||| i > 0 && steps[0] == PowerStep::CheckRunning && answers[0] && keeps_up(
                    steps,
                    0,
                    i,
                )
            }
        }),
{
    launches_come_from_a_start(power, first_of(power), answers, i);
}

/// How an app is: whether its container runs, and whether its service is active.
pub struct Condition {
    pub container: bool,
    pub service: bool,
}

impl Condition {
    /// No service is active in a container that does not run.
    pub open spec fn is_possible(self) -> bool {
        self.service ==> self.container
    }

    /// What is answered where a step asks something.
    pub open spec fn answer(self, step: PowerStep) -> bool {
        match step {
            PowerStep::CheckRunning => self.container,
            PowerStep::CheckService => self.service,
            _ => false,
        }
    }

    /// How the app is after a step.
    pub open spec fn after(self, step: PowerStep) -> Condition {
        match step {
            PowerStep::StopProcess => Condition { service: false, ..self },
            PowerStep::StopContainer => Condition { container: false, service: false },
            PowerStep::StartContainer => Condition { container: true, ..self },
            PowerStep::Launch => Condition { service: self.container, ..self },
            _ => self,
        }
    }
}

/// The steps that are taken from one on, each with how the app is before it.
pub open spec fn course(power: Power, step: PowerStep, app: Condition) -> Seq<
    (PowerStep, Condition),
>
    decreases steps_left(step),
{
    if step == PowerStep::Done {
        seq![(step, app)]
    } else {
        seq![(step, app)] + course(
            power,
            step_after(power, step, app.answer(step)),
            app.after(step),
        )
    }
}

pub open spec fn whole_course(power: Power, app: Condition) -> Seq<(PowerStep, Condition)> {
    course(power, first_of(power), app)
}

/// The steps alone.
pub open spec fn steps_of(course: Seq<(PowerStep, Condition)>) -> Seq<PowerStep> {
    course.map_values(|at: (PowerStep, Condition)| at.0)
}

/// An app is in the end as it is meant to be: one that is stopped, or kept stopped, has no
/// running container, and one that is started, restarted or kept running has an active
/// service in a running container.
pub proof fn apps_end_as_they_are_meant(power: Power, app: Condition)
    requires
        app.is_possible(),
    ensures
        ({
            let end = whole_course(power, app).last();
            &&& end.0 == PowerStep::Done
            &&& meant(power) == DesiredState::Stopped ==> !end.1.container && !end.1.service
            &&& meant(power) == DesiredState::Running ==> end.1.container && end.1.service
        }),
{
    reveal_with_fuel(course, 8);
}

/// What an app is meant to be goes by what was asked for it.
pub proof fn starts_mean_running(power: Power)
    ensures
        meant(power) == DesiredState::Stopped <==> power == Power::Stop || power
            == Power::KeepStopped,
        meant(power) == DesiredState::Running <==> power == Power::Start || power
            == Power::Restart || power == Power::KeepRunning,
{
}

/// A stop on demand stops the process and then the container, whether they run or not.
pub proof fn stops_take_these_steps(app: Condition)
    ensures
        steps_of(whole_course(Power::Stop, app)) == seq![
            PowerStep::StopProcess,
            PowerStep::StopContainer,
            PowerStep::Done,
        ],
{
    reveal_with_fuel(course, 8);
    assert(steps_of(whole_course(Power::Stop, app)) =~= seq![
        PowerStep::StopProcess,
        PowerStep::StopContainer,
        PowerStep::Done,
    ]);
}

/// A start on demand touches nothing where the app is up, launches it where only its
/// container is, and else starts the container and launches the app in it.
pub proof fn starts_take_these_steps(app: Condition)
    requires
        app.is_possible(),
    ensures
        steps_of(whole_course(Power::Start, app)) == if app.service {
            seq![PowerStep::CheckRunning, PowerStep::CheckService, PowerStep::Done]
        } else if app.container {
            seq![
                PowerStep::CheckRunning,
                PowerStep::CheckService,
                PowerStep::Launch,
                PowerStep::Done,
            ]
        } else {
            seq![
                PowerStep::CheckRunning,
                PowerStep::StartContainer,
                PowerStep::CheckService,
                PowerStep::Launch,
                PowerStep::Done,
            ]
        },
{
    reveal_with_fuel(course, 8);
    let steps = steps_of(whole_course(Power::Start, app));
    if app.service {
        assert(steps =~= seq![
            PowerStep::CheckRunning,
            PowerStep::CheckService,
            PowerStep::Done,
        ]);
    } else if app.container {
        assert(steps =~= seq![
            PowerStep::CheckRunning,
            PowerStep::CheckService,
            PowerStep::Launch,
            PowerStep::Done,
        ]);
    } else {
        assert(steps =~= seq![
            PowerStep::CheckRunning,
            PowerStep::StartContainer,
            PowerStep::CheckService,
            PowerStep::Launch,
            PowerStep::Done,
        ]);
    }
}

/// A restart stops the container if it runs, starts it and launches the app, even one that
/// was up.
pub proof fn restarts_take_these_steps(app: Condition)
    ensures
        steps_of(whole_course(Power::Restart, app)) == if app.container {
            seq![
                PowerStep::CheckRunning,
                PowerStep::StopContainer,
                PowerStep::StartContainer,
                PowerStep::Launch,
                PowerStep::Done,
            ]
        } else {
            seq![
                PowerStep::CheckRunning,
                PowerStep::StartContainer,
                PowerStep::Launch,
                PowerStep::Done,
            ]
        },
{
    reveal_with_fuel(course, 8);
    let steps = steps_of(whole_course(Power::Restart, app));
    if app.container {
        assert(steps =~= seq![
            PowerStep::CheckRunning,
            PowerStep::StopContainer,
            PowerStep::StartContainer,
            PowerStep::Launch,
            PowerStep::Done,
        ]);
    } else {
        assert(steps =~= seq![
            PowerStep::CheckRunning,
            PowerStep::StartContainer,
            PowerStep::Launch,
            PowerStep::Done,
        ]);
    }
}

/// An app that is kept running is seen to as by a start, and its other containers are
/// cleaned away in the end, whether it was up or not.
pub proof fn running_apps_are_kept_by_a_start(app: Condition)
    requires
        app.is_possible(),
    ensures
        steps_of(whole_course(Power::KeepRunning, app)) == steps_of(
            whole_course(Power::Start, app),
        ).drop_last() + seq![PowerStep::Prune, PowerStep::Done],
{
    reveal_with_fuel(course, 8);
    assert(steps_of(whole_course(Power::KeepRunning, app)) =~= steps_of(
        whole_course(Power::Start, app),
    ).drop_last() + seq![PowerStep::Prune, PowerStep::Done]);
}

/// An app that is kept stopped is stopped only where its container runs, and its other
/// containers are cleaned away in the end either way.
pub proof fn stopped_apps_are_kept_by_a_stop(app: Condition)
    ensures
        steps_of(whole_course(Power::KeepStopped, app)) == seq![PowerStep::CheckRunning] + (if
        app.container {
            steps_of(whole_course(Power::Stop, app)).drop_last()
        } else {
            Seq::empty()
        }) + seq![PowerStep::Prune, PowerStep::Done],
{
    reveal_with_fuel(course, 8);
    assert(steps_of(whole_course(Power::KeepStopped, app)) =~= seq![PowerStep::CheckRunning] + (if
    app.container {
        steps_of(whole_course(Power::Stop, app)).drop_last()
    } else {
        Seq::empty()
    }) + seq![PowerStep::Prune, PowerStep::Done]);
}

} // verus!
