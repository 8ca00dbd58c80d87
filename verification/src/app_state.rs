//! Which container of an app serves its traffic, and whether the app is meant to run.

use vstd::prelude::*;
use crate::app_name::{
    app_ref_from_instance_name, app_ref_of, instance_name_from_app_ref, instance_of,
    is_transient_deploy_app_name, plain, plain_containers_are_named_after_apps, transient,
};
use crate::rows::{
    read_row, sqlite_i64_to_u64, sqlite_u64_to_i64, stored_time, stored_times_read_back, time_of,
};
use crate::table::{lookup, Table};
use crate::text::{contains_text, copy_opt, eq_ignore_ascii_case, lowered, outcome, push_text};

verus! {

/// Which containers an app runs in.
#[derive(PartialEq, Eq, Debug)]
pub struct AppRuntimeState {
    pub active_instance: String,
    pub previous_instance: Option<String>,
    pub runtime_project: Option<String>,
    pub updated_at: u64,
}

/// The mathematical form of this.
#[verifier::ext_equal]
pub struct RuntimeView {
    pub active_instance: Seq<char>,
    pub previous_instance: Option<Seq<char>>,
    pub runtime_project: Option<Seq<char>>,
    pub updated_at: u64,
}

impl DeepView for AppRuntimeState {
    type V = RuntimeView;

    open spec fn deep_view(&self) -> RuntimeView {
        RuntimeView {
            active_instance: self.active_instance@,
            previous_instance: self.previous_instance.deep_view(),
            runtime_project: self.runtime_project.deep_view(),
            updated_at: self.updated_at,
        }
    }
}

/// The row in which it is kept.
pub struct AppRuntimeStateRow {
    pub active_instance: String,
    pub previous_instance: Option<String>,
    pub runtime_project: Option<String>,
    pub updated_at: i64,
}

/// The mathematical form of the row.
#[verifier::ext_equal]
pub struct RuntimeRowView {
    pub active_instance: Seq<char>,
    pub previous_instance: Option<Seq<char>>,
    pub runtime_project: Option<Seq<char>>,
    pub updated_at: i64,
}

impl DeepView for AppRuntimeStateRow {
    type V = RuntimeRowView;

    open spec fn deep_view(&self) -> RuntimeRowView {
        RuntimeRowView {
            active_instance: self.active_instance@,
            previous_instance: self.previous_instance.deep_view(),
            runtime_project: self.runtime_project.deep_view(),
            updated_at: self.updated_at,
        }
    }
}

/// What the row of an app says.
pub open spec fn runtime_of(app: Seq<char>, row: RuntimeRowView) -> Result<RuntimeView, Seq<char>> {
    match time_of(row.updated_at, app, "updated_at"@) {
        Ok(updated_at) => Ok(
            RuntimeView {
                active_instance: row.active_instance,
                previous_instance: row.previous_instance,
                runtime_project: row.runtime_project,
                updated_at,
            },
        ),
        Err(err) => Err(err),
    }
}

pub fn app_runtime_state_from_row(app: &str, row: &AppRuntimeStateRow) -> (r: Result<
    AppRuntimeState,
    String,
>)
    ensures
        outcome(r) == runtime_of(app@, row.deep_view()),
{
    match sqlite_i64_to_u64(row.updated_at, app, "updated_at") {
        Ok(updated_at) => Ok(
            AppRuntimeState {
                active_instance: row.active_instance.clone(),
                previous_instance: copy_opt(&row.previous_instance),
                runtime_project: copy_opt(&row.runtime_project),
                updated_at,
            },
        ),
        Err(err) => Err(err),
    }
}

/// What is on record of an app.
pub open spec fn recorded(states: Map<Seq<char>, RuntimeRowView>, app: Seq<char>) -> Result<
    Option<RuntimeView>,
    Seq<char>,
> {
    read_row(lookup(states, app), |row: RuntimeRowView| runtime_of(app, row))
}

pub fn read_app_runtime_state(states: &Table<AppRuntimeStateRow>, app: &str) -> (r: Result<
    Option<AppRuntimeState>,
    String,
>)
    requires
        states.wf(),
    ensures
        outcome(r) == recorded(states.deep_view(), app@),
{
    match states.get(app) {
        Some(row) => match app_runtime_state_from_row(app, row) {
            Ok(state) => Ok(Some(state)),
            Err(err) => Err(err),
        },
        None => Ok(None),
    }
}

/// The row for an app that runs in a container.
pub open spec fn runtime_row(
    app: Seq<char>,
    active: Seq<char>,
    previous: Option<Seq<char>>,
    project: Seq<char>,
    now: u64,
) -> Result<RuntimeRowView, Seq<char>> {
    match stored_time(now, app, "updated_at"@) {
        Ok(updated_at) => Ok(
            RuntimeRowView {
                active_instance: instance_of(active),
                previous_instance: match previous {
                    Some(previous) => Some(instance_of(previous)),
                    None => None,
                },
                runtime_project: Some(project),
                updated_at,
            },
        ),
        Err(err) => Err(err),
    }
}

/// What is on record after a row is written: the row, or what was there where the row
/// cannot be had.
pub open spec fn after_writing(
    states: Map<Seq<char>, RuntimeRowView>,
    app: Seq<char>,
    row: Result<RuntimeRowView, Seq<char>>,
) -> Map<Seq<char>, RuntimeRowView> {
    match row {
        Ok(row) => states.insert(app, row),
        Err(_) => states,
    }
}

pub open spec fn done<T>(result: Result<T, Seq<char>>) -> Result<(), Seq<char>> {
    match result {
        Ok(_) => Ok(()),
        Err(err) => Err(err),
    }
}

/// Puts on record in which containers of the project the app runs.
pub fn write_app_runtime_state_in_project(
    states: &mut Table<AppRuntimeStateRow>,
    app: &str,
    active_app_ref: &str,
    previous_app_ref: Option<&str>,
    project_name: &str,
    now: u64,
) -> (r: Result<(), String>)
    requires
        old(states).wf(),
    ensures
        final(states).wf(),
        ({
            let row = runtime_row(
                app@,
                active_app_ref@,
                previous_app_ref.deep_view(),
                project_name@,
                now,
            );
            outcome(r) == done(row) && final(states).deep_view() == after_writing(
                old(states).deep_view(),
                app@,
                row,
            )
        }),
{
    let updated_at: i64 = match sqlite_u64_to_i64(now, app, "updated_at") {
        Ok(at) => at,
        Err(err) => {
            return Err(err);
        },
    };
    let previous_instance = match previous_app_ref {
        Some(previous) => Some(instance_name_from_app_ref(previous)),
        None => None,
    };
    states.put(
        app,
        AppRuntimeStateRow {
            active_instance: instance_name_from_app_ref(active_app_ref),
            previous_instance,
            runtime_project: Some(project_name.to_owned()),
            updated_at,
        },
    );
    Ok(())
}

/// The row for an app, in the project that is current, where that is known.
pub open spec fn runtime_row_here(
    app: Seq<char>,
    active: Seq<char>,
    previous: Option<Seq<char>>,
    project: Result<String, String>,
    now: u64,
) -> Result<RuntimeRowView, Seq<char>> {
    match project {
        Ok(project) => runtime_row(app, active, previous, project@, now),
        Err(err) => Err(err@),
    }
}

/// Puts on record in which containers the app runs. `project` is the current project,
/// or the error of asking for it.
pub fn write_app_runtime_state(
    states: &mut Table<AppRuntimeStateRow>,
    app: &str,
    active_app_ref: &str,
    previous_app_ref: Option<&str>,
    project: &Result<String, String>,
    now: u64,
) -> (r: Result<(), String>)
    requires
        old(states).wf(),
    ensures
        final(states).wf(),
        ({
            let row = runtime_row_here(
                app@,
                active_app_ref@,
                previous_app_ref.deep_view(),
                *project,
                now,
            );
            outcome(r) == done(row) && final(states).deep_view() == after_writing(
                old(states).deep_view(),
                app@,
                row,
            )
        }),
{
    match project {
        Ok(project) => write_app_runtime_state_in_project(
            states,
            app,
            active_app_ref,
            previous_app_ref,
            project.as_str(),
            now,
        ),
        Err(err) => Err(err.clone()),
    }
}

/// Forgets in which containers the app runs.
pub fn clear_app_runtime_state(states: &mut Table<AppRuntimeStateRow>, app: &str)
    requires
        old(states).wf(),
    ensures
        final(states).wf(),
        final(states).deep_view() == old(states).deep_view().remove(app@),
{
    states.forget(app);
}

/// What is put on record reads back, and what is forgotten does not; nothing else
/// changes.
pub proof fn runtime_states_read_back(
    states: Map<Seq<char>, RuntimeRowView>,
    app: Seq<char>,
    active: Seq<char>,
    previous: Option<Seq<char>>,
    project: Seq<char>,
    now: u64,
    other: Seq<char>,
)
    ensures
        ({
            let row = runtime_row(app, active, previous, project, now);
            let after = after_writing(states, app, row);
            &&& row is Ok ==> recorded(after, app) == Ok::<Option<RuntimeView>, Seq<char>>(
                Some(
                    RuntimeView {
                        active_instance: instance_of(active),
                        previous_instance: match previous {
                            Some(previous) => Some(instance_of(previous)),
                            None => None,
                        },
                        runtime_project: Some(project),
                        updated_at: now,
                    },
                ),
            )
            &&& other != app ==> recorded(after, other) == recorded(states, other)
            &&& recorded(states.remove(app), app) == Ok::<Option<RuntimeView>, Seq<char>>(None)
            &&& other != app ==> recorded(states.remove(app), other) == recorded(states, other)
        }),
{
    stored_times_read_back(now, app, "updated_at"@);
}

/// What the rows say, in the order of the apps, or the first row's error that says
/// nothing.
pub open spec fn all_recorded(rows: Seq<(Seq<char>, RuntimeRowView)>) -> Result<
    Seq<(Seq<char>, RuntimeView)>,
    Seq<char>,
>
    decreases rows.len(),
{
    if rows.len() == 0 {
        Ok(Seq::empty())
    } else {
        match all_recorded(rows.drop_last()) {
            Err(err) => Err(err),
            Ok(head) => match runtime_of(rows.last().0, rows.last().1) {
                Ok(state) => Ok(head.push((rows.last().0, state))),
                Err(err) => Err(err),
            },
        }
    }
}

proof fn an_error_stays(rows: Seq<(Seq<char>, RuntimeRowView)>, k: int)
    requires
        0 <= k <= rows.len(),
        all_recorded(rows.take(k)) is Err,
    ensures
        all_recorded(rows) == all_recorded(rows.take(k)),
    decreases rows.len() - k,
{
    if k < rows.len() {
        assert(rows.take(k + 1).drop_last() =~= rows.take(k));
        an_error_stays(rows, k + 1);
    } else {
        assert(rows.take(k) =~= rows);
    }
}

pub fn read_all_app_runtime_states(states: &Table<AppRuntimeStateRow>) -> (r: Result<
    Vec<(String, AppRuntimeState)>,
    String,
>)
    ensures
        outcome(r) == all_recorded(states.rows.deep_view()),
{
    let ghost rows = states.rows.deep_view();
    let mut out: Vec<(String, AppRuntimeState)> = Vec::new();
    let mut i: usize = 0;
    assert(out.deep_view() =~= Seq::empty());
    while i < states.rows.len()
        invariant
            i <= states.rows@.len(),
            rows == states.rows.deep_view(),
            all_recorded(rows.take(i as int)) == Ok::<Seq<(Seq<char>, RuntimeView)>, Seq<char>>(
                out.deep_view(),
            ),
        decreases states.rows.len() - i,
    {
        let ghost before = out.deep_view();
        proof {
            assert(rows.take(i + 1).drop_last() =~= rows.take(i as int));
            assert(rows.take(i + 1).last() == rows[i as int]);
            assert(rows[i as int] == (
                states.rows@[i as int].0@,
                states.rows@[i as int].1.deep_view(),
            ));
        }
        let app = states.rows[i].0.clone();
        match app_runtime_state_from_row(app.as_str(), &states.rows[i].1) {
            Ok(state) => {
                out.push((app, state));
                assert(out.deep_view() =~= before.push((app@, state.deep_view())));
            },
            Err(err) => {
                proof {
                    an_error_stays(rows, i + 1);
                }
                return Err(err);
            },
        }
        i = i + 1;
    }
    assert(rows.take(i as int) =~= rows);
    Ok(out)
}

// ---------------------------------------------------------------------------
// Rows that deploys left
// ---------------------------------------------------------------------------

/// Whether a container that is on record still exists. `live` lists those that do.
pub open spec fn refers_to_live(state: RuntimeView, live: Seq<Seq<char>>) -> bool {
    ||| match app_ref_of(state.active_instance) {
        Some(app_ref) => live.contains(app_ref),
        None => false,
    }
    ||| match state.previous_instance {
        Some(previous) => match app_ref_of(previous) {
            Some(app_ref) => live.contains(app_ref),
            None => false,
        },
        None => false,
    }
}

fn is_live(instance: &str, live: &Vec<String>) -> (r: bool)
    ensures
        r == match app_ref_of(instance@) {
            Some(app_ref) => live.deep_view().contains(app_ref),
            None => false,
        },
{
    match app_ref_from_instance_name(instance) {
        Some(app_ref) => contains_text(live, app_ref.as_str()),
        None => false,
    }
}

pub fn transient_runtime_state_references_existing_instance(
    state: &AppRuntimeState,
    live: &Vec<String>,
) -> (r: bool)
    ensures
        r == refers_to_live(state.deep_view(), live.deep_view()),
{
    if is_live(state.active_instance.as_str(), live) {
        return true;
    }
    match &state.previous_instance {
        Some(previous) => is_live(previous.as_str(), live),
        None => false,
    }
}

/// The rows of apps, without those that deploys left.
pub open spec fn managed(states: Seq<(Seq<char>, RuntimeView)>) -> Seq<(Seq<char>, RuntimeView)> {
    states.filter(|row: (Seq<char>, RuntimeView)| !transient(row.0))
}

/// The names of the rows that deploys left and whose containers are gone.
pub open spec fn stale(states: Seq<(Seq<char>, RuntimeView)>, live: Seq<Seq<char>>) -> Seq<
    Seq<char>,
> {
    states.filter(
        |row: (Seq<char>, RuntimeView)| transient(row.0) && !refers_to_live(row.1, live),
    ).map_values(|row: (Seq<char>, RuntimeView)| row.0)
}

/// The rows of apps, and the names of the rows to forget.
pub fn managed_runtime_states_with(
    states: Vec<(String, AppRuntimeState)>,
    live: &Vec<String>,
) -> (r: (Vec<(String, AppRuntimeState)>, Vec<String>))
    ensures
        r.0.deep_view() == managed(states.deep_view()),
        r.1.deep_view() == stale(states.deep_view(), live.deep_view()),
{
    let ghost all = states.deep_view();
    let ghost alive = live.deep_view();
    let ghost keep = |row: (Seq<char>, RuntimeView)| !transient(row.0);
    let ghost gone = |row: (Seq<char>, RuntimeView)|
        transient(row.0) && !refers_to_live(row.1, alive);
    let ghost name = |row: (Seq<char>, RuntimeView)| row.0;
    let mut kept: Vec<(String, AppRuntimeState)> = Vec::new();
    let mut cleared: Vec<String> = Vec::new();
    let total: usize = states.len();
    let mut rest = states;
    let mut n: usize = 0;
    proof {
        reveal(Seq::filter);
        assert(kept.deep_view() =~= all.take(0).filter(keep));
        assert(all.take(0).filter(gone) =~= Seq::empty());
        assert(cleared.deep_view() =~= all.take(0).filter(gone).map_values(name));
        assert(rest.deep_view() =~= all.skip(0));
    }
    while rest.len() > 0
        invariant
            n + rest@.len() == all.len(),
            alive == live.deep_view(),
            rest.deep_view() == all.skip(n as int),
            keep == (|row: (Seq<char>, RuntimeView)| !transient(row.0)),
            gone == (|row: (Seq<char>, RuntimeView)|
                transient(row.0) && !refers_to_live(row.1, alive)),
            name == (|row: (Seq<char>, RuntimeView)| row.0),
            kept.deep_view() == all.take(n as int).filter(keep),
            cleared.deep_view() == all.take(n as int).filter(gone).map_values(name),
            all.len() == total,
        decreases rest@.len(),
    {
        let ghost before = kept.deep_view();
        let ghost dropped = all.take(n as int).filter(gone);
        let ghost before_rest = rest.deep_view();
        let ghost rows = rest@;
        let (app, state) = rest.remove(0);
        proof {
            assert forall|i: int| 0 <= i < rest@.len() implies rest.deep_view()[i] == #[trigger] all.skip(
                n + 1,
            )[i] by {
                assert(rest@[i] == rows[i + 1]);
                assert(before_rest[i + 1] == all.skip(n as int)[i + 1]);
            }
            assert(all.skip(n as int)[0] == all[n as int]);
            assert((app@, state.deep_view()) == all[n as int]);
            assert(rest.deep_view() =~= all.skip(n + 1));
            assert(all.take(n + 1).drop_last() =~= all.take(n as int));
            assert(all.take(n + 1).last() == all[n as int]);
            reveal(Seq::filter);
        }
        if is_transient_deploy_app_name(app.as_str()) {
            if !transient_runtime_state_references_existing_instance(&state, live) {
                push_text(&mut cleared, app);
                assert(dropped.push(all[n as int]).map_values(name) =~= dropped.map_values(
                    name,
                ).push(all[n as int].0));
            }
        } else {
            kept.push((app, state));
            assert(kept.deep_view() =~= before.push(all[n as int]));
        }
        n = n + 1;
    }
    assert(all.take(n as int) =~= all);
    (kept, cleared)
}

/// The rows without those that have one of the names.
pub open spec fn without_names(
    states: Map<Seq<char>, RuntimeRowView>,
    names: Seq<Seq<char>>,
) -> Map<Seq<char>, RuntimeRowView>
    decreases names.len(),
{
    if names.len() == 0 {
        states
    } else {
        without_names(states, names.drop_last()).remove(names.last())
    }
}

/// The rows of apps. Rows that deploys left and whose containers are gone are forgotten.
pub fn read_managed_app_runtime_states(
    states: &mut Table<AppRuntimeStateRow>,
    live: &Vec<String>,
) -> (r: Result<Vec<(String, AppRuntimeState)>, String>)
    requires
        old(states).wf(),
    ensures
        final(states).wf(),
        match all_recorded(old(states).rows.deep_view()) {
            Ok(all) => outcome(r) == Ok::<Seq<(Seq<char>, RuntimeView)>, Seq<char>>(managed(all))
                && final(states).deep_view() == without_names(
                old(states).deep_view(),
                stale(all, live.deep_view()),
            ),
            Err(err) => outcome(r) == Err::<Seq<(Seq<char>, RuntimeView)>, Seq<char>>(err)
                && *final(states) == *old(states),
        },
{
    let all = match read_all_app_runtime_states(states) {
        Ok(all) => all,
        Err(err) => {
            return Err(err);
        },
    };
    let (kept, cleared) = managed_runtime_states_with(all, live);
    let ghost names = cleared.deep_view();
    let ghost start = states.deep_view();
    let mut i: usize = 0;
    assert(names.take(0) =~= Seq::empty());
    while i < cleared.len()
        invariant
            i <= cleared@.len(),
            names == cleared.deep_view(),
            states.wf(),
            states.deep_view() == without_names(start, names.take(i as int)),
        decreases cleared.len() - i,
    {
        proof {
            assert(names.take(i + 1).drop_last() =~= names.take(i as int));
            assert(names.take(i + 1).last() == names[i as int]);
        }
        clear_app_runtime_state(states, cleared[i].as_str());
        i = i + 1;
    }
    assert(names.take(i as int) =~= names);
    Ok(kept)
}

/// What is forgotten was left by a deploy, and its containers are gone; what is listed
/// was not left by one.
pub proof fn only_leftovers_are_forgotten(
    states: Seq<(Seq<char>, RuntimeView)>,
    live: Seq<Seq<char>>,
)
    ensures
        forall|i: int| 0 <= i < managed(states).len() ==> !transient((#[trigger] managed(states)[i]).0),
        forall|i: int|
            0 <= i < stale(states, live).len() ==> transient(#[trigger] stale(states, live)[i]),
{
    let keep = |row: (Seq<char>, RuntimeView)| !transient(row.0);
    let gone = |row: (Seq<char>, RuntimeView)| transient(row.0) && !refers_to_live(row.1, live);
    assert forall|i: int| 0 <= i < managed(states).len() implies !transient(
        (#[trigger] managed(states)[i]).0,
    ) by {
        states.lemma_filter_pred(keep, i);
    }
    assert forall|i: int| 0 <= i < stale(states, live).len() implies transient(
        #[trigger] stale(states, live)[i],
    ) by {
        states.lemma_filter_pred(gone, i);
    }
}

// ---------------------------------------------------------------------------
// The active container
// ---------------------------------------------------------------------------

/// The container that serves the traffic of an app, by what is on record and which
/// containers exist.
pub enum ActiveChoice {
    /// The one on record as active.
    OnRecord(Seq<char>),
    /// Another one, which is put on record.
    Fallback(Seq<char>),
    Missing,
}

pub open spec fn active_choice(
    state: Option<RuntimeView>,
    app: Seq<char>,
    live: Seq<Seq<char>>,
) -> ActiveChoice {
    let own = if live.contains(app) {
        ActiveChoice::Fallback(app)
    } else {
        ActiveChoice::Missing
    };
    match state {
        None => own,
        Some(state) => {
            let previous = match state.previous_instance {
                Some(instance) => match app_ref_of(instance) {
                    Some(app_ref) if live.contains(app_ref) => ActiveChoice::Fallback(app_ref),
                    _ => own,
                },
                None => own,
            };
            match app_ref_of(state.active_instance) {
                Some(app_ref) if live.contains(app_ref) => ActiveChoice::OnRecord(app_ref),
                _ => previous,
            }
        },
    }
}

/// Whether the container on record as active exists.
pub open spec fn is_on_record(
    states: Map<Seq<char>, RuntimeRowView>,
    app: Seq<char>,
    live: Seq<Seq<char>>,
) -> bool {
    recorded(states, app) matches Ok(state) && active_choice(state, app, live) is OnRecord
}

/// What asking for the active container gives, and what is on record afterwards.
pub open spec fn resolved(
    states: Map<Seq<char>, RuntimeRowView>,
    app: Seq<char>,
    live: Seq<Seq<char>>,
    project: Result<String, String>,
    now: u64,
) -> (Result<Option<Seq<char>>, Seq<char>>, Map<Seq<char>, RuntimeRowView>) {
    match recorded(states, app) {
        Err(err) => (Err(err), states),
        Ok(state) => match active_choice(state, app, live) {
            ActiveChoice::OnRecord(app_ref) => (Ok(Some(app_ref)), states),
            ActiveChoice::Missing => (Ok(None), states),
            ActiveChoice::Fallback(app_ref) => {
                let row = runtime_row_here(app, app_ref, None, project, now);
                match row {
                    Ok(_) => (Ok(Some(app_ref)), after_writing(states, app, row)),
                    Err(err) => (Err(err), states),
                }
            },
        },
    }
}

pub(crate) fn live_ref(instance: &str, live: &Vec<String>) -> (r: Option<String>)
    ensures
        r.deep_view() == match app_ref_of(instance@) {
            Some(app_ref) if live.deep_view().contains(app_ref) => Some(app_ref),
            _ => None,
        },
{
    match app_ref_from_instance_name(instance) {
        Some(app_ref) => if contains_text(live, app_ref.as_str()) {
            Some(app_ref)
        } else {
            None
        },
        None => None,
    }
}

/// The container that serves the traffic of an app. `live` lists the containers that
/// exist. Where the one on record is gone, the one before it or the app's own takes its
/// place on record.
pub fn resolve_active_app_ref(
    states: &mut Table<AppRuntimeStateRow>,
    app: &str,
    live: &Vec<String>,
    project: &Result<String, String>,
    now: u64,
) -> (r: Result<Option<String>, String>)
    requires
        old(states).wf(),
    ensures
        final(states).wf(),
        (outcome(r), final(states).deep_view()) == resolved(
            old(states).deep_view(),
            app@,
            live.deep_view(),
            *project,
            now,
        ),
{
    let state = match read_app_runtime_state(states, app) {
        Ok(state) => state,
        Err(err) => {
            return Err(err);
        },
    };
    let mut fallback: Option<String> = None;
    if let Some(state) = &state {
        if let Some(app_ref) = live_ref(state.active_instance.as_str(), live) {
            return Ok(Some(app_ref));
        }
        if let Some(previous) = &state.previous_instance {
            fallback = live_ref(previous.as_str(), live);
        }
    }
    let app_ref = match fallback {
        Some(app_ref) => app_ref,
        None => {
            if !contains_text(live, app) {
                return Ok(None);
            }
            app.to_owned()
        },
    };
    match write_app_runtime_state(states, app, app_ref.as_str(), None, project, now) {
        Ok(_) => Ok(Some(app_ref)),
        Err(err) => Err(err),
    }
}

pub open spec fn or_not_found(found: Result<Option<Seq<char>>, Seq<char>>, app: Seq<char>) -> Result<
    Seq<char>,
    Seq<char>,
> {
    match found {
        Ok(Some(app_ref)) => Ok(app_ref),
        Ok(None) => Err("app '"@ + app + "' not found"@),
        Err(err) => Err(err),
    }
}

/// The container that serves the traffic of an app, which must have one.
pub fn resolve_existing_active_app_ref(
    states: &mut Table<AppRuntimeStateRow>,
    app: &str,
    live: &Vec<String>,
    project: &Result<String, String>,
    now: u64,
) -> (r: Result<String, String>)
    requires
        old(states).wf(),
    ensures
        final(states).wf(),
        ({
            let (found, after) = resolved(
                old(states).deep_view(),
                app@,
                live.deep_view(),
                *project,
                now,
            );
            outcome(r) == or_not_found(found, app@) && final(states).deep_view() == after
        }),
{
    match resolve_active_app_ref(states, app, live, project, now) {
        Ok(Some(app_ref)) => Ok(app_ref),
        Ok(None) => {
            let mut message = String::from_str("app '");
            message.append(app);
            message.append("' not found");
            Err(message)
        },
        Err(err) => Err(err),
    }
}

/// The container that is found exists, and asking again finds the same one and changes
/// nothing more. Where it takes the place of one that is gone, this is so of names without
/// white space at their ends that do not start like that of a container.
pub proof fn resolving_settles(
    states: Map<Seq<char>, RuntimeRowView>,
    app: Seq<char>,
    live: Seq<Seq<char>>,
    project: Result<String, String>,
    now: u64,
    later: u64,
)
    ensures
        ({
            let (found, after) = resolved(states, app, live, project, now);
            &&& found matches Ok(Some(app_ref)) ==> {
                &&& live.contains(app_ref)
                &&& is_on_record(states, app, live) || plain(app_ref) ==> resolved(
                    after,
                    app,
                    live,
                    project,
                    later,
                ) == (found, after)
            }
            &&& found is Err || found == Ok::<Option<Seq<char>>, Seq<char>>(None) ==> after
                == states
        }),
{
    let (found, after) = resolved(states, app, live, project, now);
    if let Ok(state) = recorded(states, app) {
        match active_choice(state, app, live) {
            ActiveChoice::Fallback(app_ref) => {
                if plain(app_ref) {
                    plain_containers_are_named_after_apps(app_ref);
                }
                stored_times_read_back(now, app, "updated_at"@);
            },
            _ => {},
        }
    }
}

/// The names of the containers of an app, as far as they are known.
pub fn runtime_state_snapshot(
    states: &mut Table<AppRuntimeStateRow>,
    app: &str,
    live: &Vec<String>,
    project: &Result<String, String>,
    now: u64,
) -> (r: (Option<String>, Option<String>))
    requires
        old(states).wf(),
    ensures
        final(states).wf(),
        match recorded(old(states).deep_view(), app@) {
            Ok(Some(state)) => r.deep_view() == (
                Some(state.active_instance),
                state.previous_instance,
            ) && *final(states) == *old(states),
            _ => {
                let (found, after) = resolved(
                    old(states).deep_view(),
                    app@,
                    live.deep_view(),
                    *project,
                    now,
                );
                &&& final(states).deep_view() == after
                &&& r.deep_view() == (
                    match found {
                        Ok(Some(app_ref)) => Some(instance_of(app_ref)),
                        _ => None,
                    },
                    None::<Seq<char>>,
                )
            },
        },
{
    if let Ok(Some(state)) = read_app_runtime_state(states, app) {
        return (Some(state.active_instance), state.previous_instance);
    }
    let active = match resolve_active_app_ref(states, app, live, project, now) {
        Ok(Some(app_ref)) => Some(instance_name_from_app_ref(app_ref.as_str())),
        _ => None,
    };
    (active, None)
}

/// What a deploy starts from.
pub struct RuntimeSnapshot {
    pub active_instance: Option<String>,
    pub previous_instance: Option<String>,
    pub active_revision: Option<String>,
    pub candidate_instance: Option<String>,
    pub candidate_revision: Option<String>,
}

/// The containers of an app and the revision it runs. No candidate is known yet.
pub fn control_plane_snapshot(
    states: &mut Table<AppRuntimeStateRow>,
    app: &str,
    live: &Vec<String>,
    project: &Result<String, String>,
    now: u64,
    active_revision: Option<String>,
) -> (r: RuntimeSnapshot)
    requires
        old(states).wf(),
    ensures
        final(states).wf(),
        r.active_revision == active_revision,
        r.candidate_instance is None,
        r.candidate_revision is None,
        match recorded(old(states).deep_view(), app@) {
            Ok(Some(state)) => r.active_instance.deep_view() == Some(state.active_instance)
                && r.previous_instance.deep_view() == state.previous_instance && *final(states)
                == *old(states),
            _ => {
                let (found, after) = resolved(
                    old(states).deep_view(),
                    app@,
                    live.deep_view(),
                    *project,
                    now,
                );
                &&& final(states).deep_view() == after
                &&& r.previous_instance is None
                &&& r.active_instance.deep_view() == match found {
                    Ok(Some(app_ref)) => Some(instance_of(app_ref)),
                    _ => None,
                }
            },
        },
{
    let (active_instance, previous_instance) = runtime_state_snapshot(
        states,
        app,
        live,
        project,
        now,
    );
    RuntimeSnapshot {
        active_instance,
        previous_instance,
        active_revision,
        candidate_instance: None,
        candidate_revision: None,
    }
}

// ---------------------------------------------------------------------------
// Whether an app is meant to run
// ---------------------------------------------------------------------------

#[derive(Clone, Copy, PartialEq, Eq, Structural, Debug)]
pub enum DesiredState {
    Running,
    Stopped,
}

pub open spec fn desired_name(state: DesiredState) -> Seq<char> {
    match state {
        DesiredState::Running => "running"@,
        DesiredState::Stopped => "stopped"@,
    }
}

pub fn desired_state_name(state: DesiredState) -> (r: &'static str)
    ensures
        r@ == desired_name(state),
{
    match state {
        DesiredState::Running => "running",
        DesiredState::Stopped => "stopped",
    }
}

/// What a text says: whatever is not `stopped` is meant to run.
pub open spec fn desired_of(value: Seq<char>) -> DesiredState {
    if lowered(value) == lowered("stopped"@) {
        DesiredState::Stopped
    } else {
        DesiredState::Running
    }
}

pub fn normalized_desired_state(value: &str) -> (r: DesiredState)
    ensures
        r == desired_of(value@),
{
    if eq_ignore_ascii_case(value, "stopped") {
        DesiredState::Stopped
    } else {
        DesiredState::Running
    }
}

/// The row of what an app is meant to be.
pub struct AppSpecRow {
    pub app_id: String,
    pub generation: i64,
    pub desired_state: String,
    pub source_kind: String,
    pub source_payload_json: String,
    pub runtime_payload_json: String,
}

/// The mathematical form of the row.
#[verifier::ext_equal]
pub struct SpecRowView {
    pub app_id: Seq<char>,
    pub generation: i64,
    pub desired_state: Seq<char>,
    pub source_kind: Seq<char>,
    pub source_payload_json: Seq<char>,
    pub runtime_payload_json: Seq<char>,
}

impl DeepView for AppSpecRow {
    type V = SpecRowView;

    open spec fn deep_view(&self) -> SpecRowView {
        SpecRowView {
            app_id: self.app_id@,
            generation: self.generation,
            desired_state: self.desired_state@,
            source_kind: self.source_kind@,
            source_payload_json: self.source_payload_json@,
            runtime_payload_json: self.runtime_payload_json@,
        }
    }
}

/// Whether an app is meant to run. One that nothing is known of is.
pub open spec fn desired_on_record(specs: Map<Seq<char>, SpecRowView>, app: Seq<char>) -> DesiredState {
    match lookup(specs, app) {
        Some(row) => desired_of(row.desired_state),
        None => DesiredState::Running,
    }
}

pub fn desired_state(specs: &Table<AppSpecRow>, app: &str) -> (r: DesiredState)
    requires
        specs.wf(),
    ensures
        r == desired_on_record(specs.deep_view(), app@),
{
    match specs.get(app) {
        Some(row) => normalized_desired_state(row.desired_state.as_str()),
        None => DesiredState::Running,
    }
}

/// The row of an app that is meant to be in a state.
pub open spec fn spec_row_with(
    specs: Map<Seq<char>, SpecRowView>,
    app: Seq<char>,
    state: DesiredState,
) -> SpecRowView {
    match lookup(specs, app) {
        Some(row) => SpecRowView { desired_state: desired_name(state), ..row },
        None => SpecRowView {
            app_id: app,
            generation: 0,
            desired_state: desired_name(state),
            source_kind: "manual"@,
            source_payload_json: "{}"@,
            runtime_payload_json: "{}"@,
        },
    }
}

pub fn set_desired_state(specs: &mut Table<AppSpecRow>, app: &str, desired_state: DesiredState)
    requires
        old(specs).wf(),
    ensures
        final(specs).wf(),
        final(specs).deep_view() == old(specs).deep_view().insert(
            app@,
            spec_row_with(old(specs).deep_view(), app@, desired_state),
        ),
{
    let name = desired_state_name(desired_state).to_owned();
    let row = match specs.get(app) {
        Some(row) => AppSpecRow {
            app_id: row.app_id.clone(),
            generation: row.generation,
            desired_state: name,
            source_kind: row.source_kind.clone(),
            source_payload_json: row.source_payload_json.clone(),
            runtime_payload_json: row.runtime_payload_json.clone(),
        },
        None => AppSpecRow {
            app_id: app.to_owned(),
            generation: 0,
            desired_state: name,
            source_kind: String::from_str("manual"),
            source_payload_json: String::from_str("{}"),
            runtime_payload_json: String::from_str("{}"),
        },
    };
    specs.put(app, row);
}

/// What an app is meant to be reads back, and a new app is meant to run.
pub proof fn desired_states_read_back(
    specs: Map<Seq<char>, SpecRowView>,
    app: Seq<char>,
    state: DesiredState,
    other: Seq<char>,
)
    ensures
        desired_on_record(specs.insert(app, spec_row_with(specs, app, state)), app) == state,
        other != app ==> desired_on_record(
            specs.insert(app, spec_row_with(specs, app, state)),
            other,
        ) == desired_on_record(specs, other),
        lookup(specs, app) is None ==> desired_on_record(specs, app) == DesiredState::Running,
{
    reveal_strlit("running");
    reveal_strlit("stopped");
    assert(lowered("running"@)[0] == 'r');
    assert(lowered("stopped"@)[0] == 's');
}

/// Whether the container that a record names exists.
pub open spec fn is_there(instance: Option<Seq<char>>, live: Seq<Seq<char>>) -> bool {
    instance is Some && app_ref_of(instance->0) is Some && live.contains(
        app_ref_of(instance->0)->0,
    )
}

/// The active container of an app is the one on record if it exists, else the previous one
/// on record if that does, else the app's own, else none. Only where it is another than
/// the one on record does the record change, and it names no previous one any more.
pub proof fn active_containers_are_found_in_this_order(
    state: Option<RuntimeView>,
    app: Seq<char>,
    live: Seq<Seq<char>>,
)
    ensures
        ({
            let choice = active_choice(state, app, live);
            let active = if state is Some {
                Some(state->0.active_instance)
            } else {
                None
            };
            let previous = if state is Some {
                state->0.previous_instance
            } else {
                None
            };
            &&& choice is OnRecord <==> is_there(active, live)
            &&& choice is OnRecord ==> app_ref_of(active->0) == Some(choice->OnRecord_0)
            &&& choice is Missing <==> !is_there(active, live) && !is_there(previous, live)
                && !live.contains(app)
            &&& choice is Fallback && is_there(previous, live) ==> app_ref_of(previous->0) == Some(
                choice->Fallback_0,
            )
            &&& choice is Fallback && !is_there(previous, live) ==> choice->Fallback_0 == app
        }),
{
}

/// Once an app was looked for, what is on record of it changes only where another
/// container took the place of one that is gone: that one is on record, alone, and nothing
/// else changes.
pub proof fn lost_containers_are_replaced_on_record(
    states: Map<Seq<char>, RuntimeRowView>,
    app: Seq<char>,
    live: Seq<Seq<char>>,
    project: Result<String, String>,
    now: u64,
    other: Seq<char>,
)
    ensures
        ({
            let (found, after) = resolved(states, app, live, project, now);
            &&& other != app ==> lookup(after, other) == lookup(states, other)
            &&& after != states ==> {
                &&& found matches Ok(Some(app_ref)) && after[app].active_instance == instance_of(
                    app_ref,
                )
                &&& after[app].previous_instance is None
                &&& project is Ok && after[app].runtime_project == Some(project->Ok_0@)
                &&& after[app].updated_at == now
            }
            &&& recorded(states, app) is Err ==> found is Err
        }),
{
}

/// A record of a container that comes and goes is forgotten exactly where it names no
/// container that exists, neither as the active nor as the previous one.
pub proof fn records_are_kept_for_what_exists(
    states: Seq<(Seq<char>, RuntimeView)>,
    live: Seq<Seq<char>>,
    i: int,
)
    requires
        0 <= i < states.len(),
    ensures
        transient(states[i].0) && !is_there(Some(states[i].1.active_instance), live) && !is_there(
            states[i].1.previous_instance,
            live,
        ) ==> stale(states, live).contains(states[i].0),
        !transient(states[i].0) <==> managed(states).contains(states[i]),
        forall|name: Seq<char>| #[trigger]
            stale(states, live).contains(name) ==> exists|j: int|
                0 <= j < states.len() && (#[trigger] states[j]).0 == name && transient(name)
                    && !is_there(Some(states[j].1.active_instance), live) && !is_there(
                    states[j].1.previous_instance,
                    live,
                ),
{
    let gone = |row: (Seq<char>, RuntimeView)| transient(row.0) && !refers_to_live(row.1, live);
    let stays = |row: (Seq<char>, RuntimeView)| !transient(row.0);
    let kept = states.filter(gone);
    if gone(states[i]) {
        states.lemma_filter_contains(gone, i);
        let k = choose|k: int| 0 <= k < kept.len() && kept[k] == states[i];
        assert(stale(states, live)[k] == states[i].0);
    }
    if stays(states[i]) {
        states.lemma_filter_contains(stays, i);
    } else if managed(states).contains(states[i]) {
        let k = choose|k: int| 0 <= k < managed(states).len() && managed(states)[k] == states[i];
        states.lemma_filter_pred(stays, k);
    }
    assert forall|name: Seq<char>| #[trigger] stale(states, live).contains(name) implies exists|
        j: int,
    |
        0 <= j < states.len() && (#[trigger] states[j]).0 == name && transient(name) && !is_there(
            Some(states[j].1.active_instance),
            live,
        ) && !is_there(states[j].1.previous_instance, live) by {
        let k = choose|k: int| 0 <= k < kept.len() && stale(states, live)[k] == name;
        states.lemma_filter_pred(gone, k);
        states.lemma_filter_contains_rev(gone, kept[k]);
        let j = choose|j: int| 0 <= j < states.len() && states[j] == kept[k];
        assert(states[j].0 == name);
    }
}

/// An app is meant to be stopped only where that is on record, in whatever case; and what
/// is put on record of one app keeps all else that is known of it.
pub proof fn apps_are_meant_to_run_unless_stopped(
    specs: Map<Seq<char>, SpecRowView>,
    app: Seq<char>,
    state: DesiredState,
)
    ensures
        desired_on_record(specs, app) == DesiredState::Stopped <==> specs.dom().contains(app)
            && lowered(specs[app].desired_state) == lowered("stopped"@),
        ({
            let row = spec_row_with(specs, app, state);
            &&& specs.dom().contains(app) ==> {
                &&& row.app_id == specs[app].app_id
                &&& row.generation == specs[app].generation
                &&& row.source_kind == specs[app].source_kind
                &&& row.source_payload_json == specs[app].source_payload_json
                &&& row.runtime_payload_json == specs[app].runtime_payload_json
            }
            &&& !specs.dom().contains(app) ==> row.app_id == app && row.generation == 0
        }),
{
}

/// The states of all apps are read all or none, in their order: none where one of them
/// cannot be read.
pub proof fn states_are_read_whole(rows: Seq<(Seq<char>, RuntimeRowView)>)
    ensures
        all_recorded(rows) is Ok <==> forall|i: int|
            0 <= i < rows.len() ==> runtime_of((#[trigger] rows[i]).0, rows[i].1) is Ok,
        all_recorded(rows) matches Ok(states) ==> states.len() == rows.len() && forall|i: int|
            0 <= i < rows.len() ==> (#[trigger] states[i]).0 == rows[i].0 && runtime_of(
                rows[i].0,
                rows[i].1,
            ) == Ok::<RuntimeView, Seq<char>>(states[i].1),
    decreases rows.len(),
{
    if rows.len() > 0 {
        let head = rows.drop_last();
        let last = rows.len() - 1;
        states_are_read_whole(head);
        assert(rows[last] == rows.last());
        assert forall|i: int| 0 <= i < head.len() implies #[trigger] head[i] == rows[i] by {}
        if all_recorded(rows) is Ok {
            assert forall|i: int| 0 <= i < rows.len() implies runtime_of(
                (#[trigger] rows[i]).0,
                rows[i].1,
            ) is Ok by {
                if i < last {
                    assert(runtime_of(head[i].0, head[i].1) is Ok);
                }
            }
            let states = all_recorded(rows)->Ok_0;
            let before = all_recorded(head)->Ok_0;
            assert forall|i: int| 0 <= i < rows.len() implies (#[trigger] states[i]).0 == rows[i].0
                && runtime_of(rows[i].0, rows[i].1) == Ok::<RuntimeView, Seq<char>>(
                states[i].1,
            ) by {
                if i < last {
                    assert(states[i] == before[i]);
                    assert(head[i] == rows[i]);
                }
            }
        } else if forall|i: int|
            0 <= i < rows.len() ==> runtime_of((#[trigger] rows[i]).0, rows[i].1) is Ok {
            assert forall|i: int| 0 <= i < head.len() implies runtime_of(
                (#[trigger] head[i]).0,
                head[i].1,
            ) is Ok by {
                assert(runtime_of(rows[i].0, rows[i].1) is Ok);
            }
            assert(runtime_of(rows[last].0, rows[last].1) is Ok);
        }
    }
}

} // verus!
