//! Which container of an app serves its traffic, as the commands of the host keep it on
//! record: without a project, and with the time as the store takes it.

use vstd::prelude::*;
use crate::app_name::{
    app_ref_from_instance_name, app_ref_of, instance_name_from_app_ref, instance_of,
    plain, plain_containers_are_named_after_apps,
};
use crate::app_state::{
    active_choice, is_on_record, is_there, live_ref, or_not_found, read_app_runtime_state, recorded,
    ActiveChoice, AppRuntimeState, AppRuntimeStateRow, RuntimeRowView, RuntimeView,
};
use crate::number::{wrapped, wrapped_i64};
use crate::table::{lookup, Table};
use crate::text::{contains_text, outcome, same};

verus! {

/// The row for an app that runs in a container.
pub open spec fn runtime_row(
    active: Seq<char>,
    previous: Option<Seq<char>>,
    now: u64,
) -> RuntimeRowView {
    RuntimeRowView {
        active_instance: instance_of(active),
        previous_instance: match previous {
            Some(previous) => Some(instance_of(previous)),
            None => None,
        },
        runtime_project: None,
        updated_at: wrapped(now),
    }
}

/// Puts on record in which containers the app runs.
pub fn write_app_runtime_state(
    states: &mut Table<AppRuntimeStateRow>,
    app: &str,
    active_app_ref: &str,
    previous_app_ref: Option<&str>,
    now: u64,
)
    requires
        old(states).wf(),
    ensures
        final(states).wf(),
        final(states).deep_view() == old(states).deep_view().insert(
            app@,
            runtime_row(active_app_ref@, previous_app_ref.deep_view(), now),
        ),
{
    let previous_instance = match previous_app_ref {
        Some(previous) => Some(instance_name_from_app_ref(previous)),
        None => None,
    };
    states.put(
        app,
        AppRuntimeStateRow {
            active_instance: instance_name_from_app_ref(active_app_ref),
            previous_instance,
            runtime_project: None,
            updated_at: wrapped_i64(now),
        },
    );
}

/// What is put on record reads back, at a time that the store can hold; nothing else
/// changes.
pub proof fn runtime_states_read_back(
    states: Map<Seq<char>, RuntimeRowView>,
    app: Seq<char>,
    active: Seq<char>,
    previous: Option<Seq<char>>,
    now: u64,
    other: Seq<char>,
)
    requires
        now <= i64::MAX,
    ensures
        ({
            let row = runtime_row(active, previous, now);
            let after = states.insert(app, row);
            &&& recorded(after, app) == Ok::<Option<RuntimeView>, Seq<char>>(
                Some(
                    RuntimeView {
                        active_instance: row.active_instance,
                        previous_instance: row.previous_instance,
                        runtime_project: None,
                        updated_at: now,
                    },
                ),
            )
            &&& other != app ==> recorded(after, other) == recorded(states, other)
        }),
{
}

/// What asking for the active container gives, and what is on record afterwards.
pub open spec fn resolved(
    states: Map<Seq<char>, RuntimeRowView>,
    app: Seq<char>,
    live: Seq<Seq<char>>,
    now: u64,
) -> (Result<Option<Seq<char>>, Seq<char>>, Map<Seq<char>, RuntimeRowView>) {
    match recorded(states, app) {
        Err(err) => (Err(err), states),
        Ok(state) => match active_choice(state, app, live) {
            ActiveChoice::OnRecord(app_ref) => (Ok(Some(app_ref)), states),
            ActiveChoice::Missing => (Ok(None), states),
            ActiveChoice::Fallback(app_ref) => (
                Ok(Some(app_ref)),
                states.insert(app, runtime_row(app_ref, None, now)),
            ),
        },
    }
}

/// The container that serves the traffic of an app. `live` lists the containers that
/// exist. Where the one on record is gone, the one before it or the app's own takes its
/// place on record.
pub fn resolve_active_app_ref(
    states: &mut Table<AppRuntimeStateRow>,
    app: &str,
    live: &Vec<String>,
    now: u64,
) -> (r: Result<Option<String>, String>)
    requires
        old(states).wf(),
    ensures
        final(states).wf(),
        (outcome(r), final(states).deep_view()) == resolved(
            old(states).deep_view(),
            app@,
            live.deep_view(),
            now,
        ),
{
    let state = match read_app_runtime_state(states, app) {
        Ok(state) => state,
        Err(err) => {
            return Err(err);
        },
    };
    let mut fallback: Option<String> = None;
    if let Some(state) = &state {
        if let Some(app_ref) = live_ref(state.active_instance.as_str(), live) {
            return Ok(Some(app_ref));
        }
        if let Some(previous) = &state.previous_instance {
            fallback = live_ref(previous.as_str(), live);
        }
    }
    let app_ref = match fallback {
        Some(app_ref) => app_ref,
        None => {
            if !contains_text(live, app) {
                return Ok(None);
            }
            app.to_owned()
        },
    };
    write_app_runtime_state(states, app, app_ref.as_str(), None, now);
    Ok(Some(app_ref))
}

/// The container that serves the traffic of an app, which must have one.
pub fn resolve_existing_active_app_ref(
    states: &mut Table<AppRuntimeStateRow>,
    app: &str,
    live: &Vec<String>,
    now: u64,
) -> (r: Result<String, String>)
    requires
        old(states).wf(),
    ensures
        final(states).wf(),
        ({
            let (found, after) = resolved(old(states).deep_view(), app@, live.deep_view(), now);
            outcome(r) == or_not_found(found, app@) && final(states).deep_view() == after
        }),
{
    match resolve_active_app_ref(states, app, live, now) {
        Ok(Some(app_ref)) => Ok(app_ref),
        Ok(None) => {
            let mut message = String::from_str("app '");
            message.append(app);
            message.append("' not found");
            Err(message)
        },
        Err(err) => Err(err),
    }
}

/// The container that is found exists, and asking again finds the same one and changes
/// nothing more. Where it takes the place of one that is gone, this is so of names without
/// white space at their ends that do not start like that of a container, and of times that
/// the store can hold.
pub proof fn resolving_settles(
    states: Map<Seq<char>, RuntimeRowView>,
    app: Seq<char>,
    live: Seq<Seq<char>>,
    now: u64,
    later: u64,
)
    ensures
        ({
            let (found, after) = resolved(states, app, live, now);
            &&& found matches Ok(Some(app_ref)) ==> {
                &&& live.contains(app_ref)
                &&& is_on_record(states, app, live) || plain(app_ref) && now <= i64::MAX
                    ==> resolved(after, app, live, later) == (found, after)
            }
            &&& found is Err || found == Ok::<Option<Seq<char>>, Seq<char>>(None) ==> after
                == states
        }),
{
    let (found, after) = resolved(states, app, live, now);
    if let Ok(state) = recorded(states, app) {
        match active_choice(state, app, live) {
            ActiveChoice::Fallback(app_ref) => {
                if plain(app_ref) {
                    plain_containers_are_named_after_apps(app_ref);
                }
            },
            _ => {},
        }
    }
}

/// The names of the containers of an app, as far as they are known.
pub fn runtime_state_snapshot(
    states: &mut Table<AppRuntimeStateRow>,
    app: &str,
    live: &Vec<String>,
    now: u64,
) -> (r: (Option<String>, Option<String>))
    requires
        old(states).wf(),
    ensures
        final(states).wf(),
        match recorded(old(states).deep_view(), app@) {
            Ok(Some(state)) => r.deep_view() == (
                Some(state.active_instance),
                state.previous_instance,
            ) && *final(states) == *old(states),
            _ => {
                let (found, after) = resolved(
                    old(states).deep_view(),
                    app@,
                    live.deep_view(),
                    now,
                );
                &&& final(states).deep_view() == after
                &&& r.deep_view() == (
                    match found {
                        Ok(Some(app_ref)) => Some(instance_of(app_ref)),
                        _ => None,
                    },
                    None::<Seq<char>>,
                )
            },
        },
{
    if let Ok(Some(state)) = read_app_runtime_state(states, app) {
        return (Some(state.active_instance), state.previous_instance);
    }
    let active = match resolve_active_app_ref(states, app, live, now) {
        Ok(Some(app_ref)) => Some(instance_name_from_app_ref(app_ref.as_str())),
        _ => None,
    };
    (active, None)
}

/// The container before the active one, where it is another and exists.
pub open spec fn previous_of(
    state: Option<RuntimeView>,
    active: Seq<char>,
    live: Seq<Seq<char>>,
) -> Option<Seq<char>> {
    match state {
        Some(state) => match state.previous_instance {
            Some(instance) => match app_ref_of(instance) {
                Some(previous) => if previous != active && live.contains(previous) {
                    Some(previous)
                } else {
                    None
                },
                None => None,
            },
            None => None,
        },
        None => None,
    }
}

pub fn previous_app_ref(
    state: &Option<AppRuntimeState>,
    active: &str,
    live: &Vec<String>,
) -> (r: Option<String>)
    ensures
        r.deep_view() == previous_of(state.deep_view(), active@, live.deep_view()),
{
    if let Some(state) = state {
        if let Some(instance) = &state.previous_instance {
            if let Some(previous) = app_ref_from_instance_name(instance.as_str()) {
                if !same(previous.as_str(), active) && contains_text(live, previous.as_str()) {
                    return Some(previous);
                }
            }
        }
    }
    None
}

/// Once an app was looked for, what is on record of it changes only where another
/// container took the place of one that is gone: that one is on record, alone, and nothing
/// else changes.
pub proof fn lost_containers_are_replaced_on_record(
    states: Map<Seq<char>, RuntimeRowView>,
    app: Seq<char>,
    live: Seq<Seq<char>>,
    now: u64,
    other: Seq<char>,
)
    ensures
        ({
            let (found, after) = resolved(states, app, live, now);
            &&& other != app ==> lookup(after, other) == lookup(states, other)
            &&& after != states ==> {
                &&& found matches Ok(Some(app_ref)) && after[app].active_instance == instance_of(
                    app_ref,
                )
                &&& after[app].previous_instance is None
                &&& after[app].runtime_project is None
                &&& after[app].updated_at == wrapped(now)
            }
            &&& recorded(states, app) is Err ==> found is Err
        }),
{
}

/// The active container of an app is the one on record if it exists, else the previous one
/// on record if that does, else the app's own, else none.
pub proof fn active_containers_are_found_in_this_order(
    states: Map<Seq<char>, RuntimeRowView>,
    app: Seq<char>,
    live: Seq<Seq<char>>,
    now: u64,
)
    requires
        recorded(states, app) is Ok,
    ensures
        ({
            let state = recorded(states, app)->Ok_0;
            let (found, after) = resolved(states, app, live, now);
            let active = if state is Some {
                Some(state->0.active_instance)
            } else {
                None
            };
            let previous = if state is Some {
                state->0.previous_instance
            } else {
                None
            };
            if is_there(active, live) {
                found == Ok::<Option<Seq<char>>, Seq<char>>(app_ref_of(active->0)) && after == states
            } else if is_there(previous, live) {
                found == Ok::<Option<Seq<char>>, Seq<char>>(app_ref_of(previous->0))
                    && after.dom().contains(app) && after[app].previous_instance is None
            } else if live.contains(app) {
                found == Ok::<Option<Seq<char>>, Seq<char>>(Some(app)) && after.dom().contains(app)
                    && after[app].active_instance == instance_of(app)
            } else {
                found == Ok::<Option<Seq<char>>, Seq<char>>(None) && after == states
            }
        }),
{
}

/// The previous container of an app is the one on record, where it exists and is not the
/// active one.
pub proof fn previous_containers_exist_and_do_not_serve(
    state: Option<RuntimeView>,
    active: Seq<char>,
    live: Seq<Seq<char>>,
)
    ensures
        previous_of(state, active, live) is Some <==> {
            &&& state is Some
            &&& is_there(state->0.previous_instance, live)
            &&& app_ref_of(state->0.previous_instance->0) != Some(active)
        },
        previous_of(state, active, live) is Some ==> previous_of(state, active, live)
            == app_ref_of(state->0.previous_instance->0),
{
}

} // verus!
