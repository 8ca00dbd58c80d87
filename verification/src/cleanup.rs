//! Containers that are in the way or left over, and how they are cleaned away.

use vstd::prelude::*;
use crate::app_name::{
    app_ref_from_instance_name, app_ref_of, deploy_app_family_from_app_ref, family_of, in_family,
    instance_name_from_app_ref, instance_of, invalid_name_message, is_instance_in_app_family,
    is_transient_deploy_app_for, transient_for, valid_app_name, validate_app_name,
};
use crate::app_state::{read_app_runtime_state, recorded, AppRuntimeStateRow, RuntimeRowView};
use crate::number::{decimal, decimal_of};
use crate::rows::{
    cleanup_of, cleanup_row, clear_cleanup_job, read_cleanup_job, read_row, write_cleanup_job,
    CleanupJobRow, CleanupJobState, CleanupRowView, CleanupView,
};
use crate::runtime::{
    resolve_active_app_ref, resolved, runtime_row, write_app_runtime_state,
};
use crate::shell::{join_or_none, spec_join_or_none};
use crate::split::{join, join_with};
use crate::table::{lookup, Table};
use crate::text::{contains_text, copy_opt, outcome, push_text, same};

verus! {

// ---------------------------------------------------------------------------
// One container
// ---------------------------------------------------------------------------

pub const CONTAINER_DELETE_RETRY_CHECKS: u32 = 20;

/// What to do about a container that is to go.
pub enum Removal {
    /// It is gone.
    Gone,
    /// Try to delete it.
    Delete,
    /// It stays in spite of all tries.
    GiveUp(String),
}

pub open spec fn still_there_message(app: Seq<char>) -> Seq<char> {
    "failed to delete container '"@ + app + "' after waiting for background operations"@
}

/// What to do about a container that is to go, after so many tries.
pub fn removal_step(app: &str, tries: u32, exists: bool) -> (r: Removal)
    ensures
        r is Gone <==> !exists,
        r is Delete <==> exists && tries < CONTAINER_DELETE_RETRY_CHECKS,
        r matches Removal::GiveUp(message) ==> message@ == still_there_message(app@),
{
    if !exists {
        Removal::Gone
    } else if tries < CONTAINER_DELETE_RETRY_CHECKS {
        Removal::Delete
    } else {
        let mut message = String::from_str("failed to delete container '");
        message.append(app);
        message.append("' after waiting for background operations");
        Removal::GiveUp(message)
    }
}

// ---------------------------------------------------------------------------
// A port that another container holds
// ---------------------------------------------------------------------------

/// The attempt to lead a port of the host to a container.
pub struct ProxyRecovery {
    pub target_instance: String,
    pub family_app: String,
    pub project: String,
    pub host_port: u16,
    pub first_err: String,
}

/// Whether an owner of the port belongs to the app of the container and is not it.
pub open spec fn is_kin(target: Seq<char>, family: Seq<char>) -> spec_fn(Seq<char>) -> bool {
    |owner: Seq<char>| owner != target && in_family(family, owner)
}

/// Whether an owner of the port belongs to another app.
pub open spec fn is_stranger(target: Seq<char>, family: Seq<char>) -> spec_fn(Seq<char>) -> bool {
    |owner: Seq<char>| owner != target && !in_family(family, owner)
}

/// The owners of the port that belong to the app of the container and are not it.
pub open spec fn kin_of(owners: Seq<Seq<char>>, target: Seq<char>, family: Seq<char>) -> Seq<
    Seq<char>,
> {
    owners.filter(is_kin(target, family))
}

/// The owners of the port that belong to other apps.
pub open spec fn strangers_to(owners: Seq<Seq<char>>, target: Seq<char>, family: Seq<char>) -> Seq<
    Seq<char>,
> {
    owners.filter(is_stranger(target, family))
}

pub open spec fn no_owner_message(p: ProxyRecovery) -> Seq<char> {
    "failed to attach proxy device to "@ + p.target_instance@ + " on :"@ + decimal(
        p.host_port as nat,
    ) + ": "@ + p.first_err@ + "; no proxy owners discovered in project "@ + p.project@
}

pub open spec fn not_attached_message(
    p: ProxyRecovery,
    retry_err: Seq<char>,
    removed: Seq<Seq<char>>,
    strangers: Seq<Seq<char>>,
    errors: Seq<Seq<char>>,
) -> Seq<char> {
    "failed to attach proxy device to "@ + p.target_instance@ + " on :"@ + decimal(
        p.host_port as nat,
    ) + " after same-app cleanup: "@ + retry_err + "; initial error: "@ + p.first_err@
        + "; removed owners: "@ + spec_join_or_none(removed) + "; non-family owners: "@
        + spec_join_or_none(strangers) + "; remove errors: "@ + spec_join_or_none(errors)
}

impl ProxyRecovery {
    /// Begins after the first attempt failed.
    pub fn new(target_app_ref: &str, project: &str, host_port: u16, first_err: &str) -> (r:
        ProxyRecovery)
        ensures
            r.target_instance@ == instance_of(target_app_ref@),
            r.family_app@ == family_of(target_app_ref@),
            r.project@ == project@,
            r.host_port == host_port,
            r.first_err@ == first_err@,
    {
        ProxyRecovery {
            target_instance: instance_name_from_app_ref(target_app_ref),
            family_app: deploy_app_family_from_app_ref(target_app_ref),
            project: project.to_owned(),
            host_port,
            first_err: first_err.to_owned(),
        }
    }

    /// Which owners of the port give it up, and which are left alone.
    pub fn owners(&self, owners: &Vec<String>) -> (r: Result<(Vec<String>, Vec<String>), String>)
        ensures
            outcome(r) == if owners@.len() == 0 {
                Err::<(Seq<Seq<char>>, Seq<Seq<char>>), Seq<char>>(no_owner_message(*self))
            } else {
                Ok(
                    (
                        kin_of(owners.deep_view(), self.target_instance@, self.family_app@),
                        strangers_to(owners.deep_view(), self.target_instance@, self.family_app@),
                    ),
                )
            },
    {
        if owners.is_empty() {
            let mut message = String::from_str("failed to attach proxy device to ");
            message.append(self.target_instance.as_str());
            message.append(" on :");
            let port = decimal_of(self.host_port as u64);
            message.append(port.as_str());
            message.append(": ");
            message.append(self.first_err.as_str());
            message.append("; no proxy owners discovered in project ");
            message.append(self.project.as_str());
            return Err(message);
        }
        Ok(self.sorted_out(owners))
    }

    fn sorted_out(&self, owners: &Vec<String>) -> (r: (Vec<String>, Vec<String>))
        ensures
            r.deep_view() == (
                kin_of(owners.deep_view(), self.target_instance@, self.family_app@),
                strangers_to(owners.deep_view(), self.target_instance@, self.family_app@),
            ),
    {
        let ghost all = owners.deep_view();
        let ghost target = self.target_instance@;
        let ghost family = self.family_app@;
        let ghost kin_pred = is_kin(target, family);
        let ghost other_pred = is_stranger(target, family);
        let mut kin: Vec<String> = Vec::new();
        let mut strangers: Vec<String> = Vec::new();
        let mut i: usize = 0;
        proof {
            reveal(Seq::filter);
            assert(kin.deep_view() =~= all.take(0).filter(kin_pred));
            assert(strangers.deep_view() =~= all.take(0).filter(other_pred));
        }
        while i < owners.len()
            invariant
                i <= owners@.len(),
                all == owners.deep_view(),
                target == self.target_instance@,
                family == self.family_app@,
                kin_pred == is_kin(target, family),
                other_pred == is_stranger(target, family),
                kin.deep_view() == all.take(i as int).filter(kin_pred),
                strangers.deep_view() == all.take(i as int).filter(other_pred),
            decreases owners.len() - i,
        {
            proof {
                assert(all.take(i + 1).drop_last() =~= all.take(i as int));
                assert(all.take(i + 1).last() == owners@[i as int]@);
                reveal(Seq::filter);
            }
            let owner = owners[i].as_str();
            if !same(owner, self.target_instance.as_str()) {
                if is_instance_in_app_family(self.family_app.as_str(), owner) {
                    push_text(&mut kin, owner.to_owned());
                } else {
                    push_text(&mut strangers, owner.to_owned());
                }
            }
            i = i + 1;
        }
        assert(all.take(i as int) =~= all);
        (kin, strangers)
    }

    /// The line for an owner that did not give the port up.
    pub fn remove_error(owner: &str, err: &str) -> (r: String)
        ensures
            r@ == owner@ + ": "@ + err@,
    {
        let mut r = owner.to_owned();
        r.append(": ");
        r.append(err);
        r
    }

    /// The line for a port that leads to the container at last, where another held it.
    pub fn recovered_line(&self, removed: &Vec<String>, strangers: &Vec<String>) -> (r: Option<
        String,
    >)
        ensures
            r.deep_view() == if removed@.len() == 0 && strangers@.len() == 0 {
                None
            } else {
                Some(
                    "       Recovered proxy :"@ + decimal(self.host_port as nat) + " for "@
                        + self.target_instance@ + " (removed: "@ + spec_join_or_none(
                        removed.deep_view(),
                    ) + "; non-family owners: "@ + spec_join_or_none(strangers.deep_view())
                        + ")"@,
                )
            },
    {
        if removed.is_empty() && strangers.is_empty() {
            return None;
        }
        let mut line = String::from_str("       Recovered proxy :");
        let port = decimal_of(self.host_port as u64);
        line.append(port.as_str());
        line.append(" for ");
        line.append(self.target_instance.as_str());
        line.append(" (removed: ");
        let list = join_or_none(removed);
        line.append(list.as_str());
        line.append("; non-family owners: ");
        let list = join_or_none(strangers);
        line.append(list.as_str());
        line.append(")");
        Some(line)
    }

    /// The error where the port leads elsewhere in the end. `owners_now` are those who
    /// hold it then, as far as they can be told.
    pub fn not_attached_error(
        &self,
        retry_err: &str,
        removed: &Vec<String>,
        strangers: &Vec<String>,
        errors: &Vec<String>,
        owners_now: Option<&Vec<String>>,
    ) -> (r: String)
        ensures
            r@ == not_attached_message(
                *self,
                retry_err@,
                removed.deep_view(),
                strangers_to(
                    match owners_now {
                        Some(owners) => owners.deep_view(),
                        None => strangers.deep_view(),
                    },
                    self.target_instance@,
                    self.family_app@,
                ),
                errors.deep_view(),
            ),
    {
        let (_, remaining) = match owners_now {
            Some(owners) => self.sorted_out(owners),
            None => self.sorted_out(strangers),
        };
        let mut message = String::from_str("failed to attach proxy device to ");
        message.append(self.target_instance.as_str());
        message.append(" on :");
        let port = decimal_of(self.host_port as u64);
        message.append(port.as_str());
        message.append(" after same-app cleanup: ");
        message.append(retry_err);
        message.append("; initial error: ");
        message.append(self.first_err.as_str());
        message.append("; removed owners: ");
        let list = join_or_none(removed);
        message.append(list.as_str());
        message.append("; non-family owners: ");
        let list = join_or_none(&remaining);
        message.append(list.as_str());
        message.append("; remove errors: ");
        let list = join_or_none(errors);
        message.append(list.as_str());
        message
    }
}

/// Only containers of the same app are made to give a port up, and never the one that is
/// to get it.
pub proof fn strangers_keep_their_ports(
    owners: Seq<Seq<char>>,
    target: Seq<char>,
    family: Seq<char>,
    i: int,
)
    requires
        0 <= i < kin_of(owners, target, family).len(),
    ensures
        in_family(family, kin_of(owners, target, family)[i]),
        kin_of(owners, target, family)[i] != target,
        owners.contains(kin_of(owners, target, family)[i]),
{
    let pred = is_kin(target, family);
    owners.lemma_filter_pred(pred, i);
    owners.lemma_filter_contains_rev(pred, kin_of(owners, target, family)[i]);
}

// ---------------------------------------------------------------------------
// The containers of an app
// ---------------------------------------------------------------------------

/// The containers of an app, but for those that stay.
pub open spec fn to_prune(app: Seq<char>, names: Seq<Seq<char>>, keep: Seq<Seq<char>>) -> Seq<
    Seq<char>,
> {
    names.filter(|name: Seq<char>| in_family(app, name) && !keep.contains(name))
}

/// The containers of an app that are to go.
pub fn family_to_prune(app: &str, names: &Vec<String>, keep: &Vec<String>) -> (r: Vec<String>)
    ensures
        r.deep_view() == to_prune(app@, names.deep_view(), keep.deep_view()),
{
    let ghost all = names.deep_view();
    let ghost kept = keep.deep_view();
    let ghost pred = |name: Seq<char>| in_family(app@, name) && !kept.contains(name);
    let mut r: Vec<String> = Vec::new();
    let mut i: usize = 0;
    proof {
        reveal(Seq::filter);
        assert(r.deep_view() =~= all.take(0).filter(pred));
    }
    while i < names.len()
        invariant
            i <= names@.len(),
            all == names.deep_view(),
            kept == keep.deep_view(),
            pred == (|name: Seq<char>| in_family(app@, name) && !kept.contains(name)),
            r.deep_view() == all.take(i as int).filter(pred),
        decreases names.len() - i,
    {
        proof {
            assert(all.take(i + 1).drop_last() =~= all.take(i as int));
            assert(all.take(i + 1).last() == names@[i as int]@);
            reveal(Seq::filter);
        }
        let name = names[i].as_str();
        if is_instance_in_app_family(app, name) && !contains_text(keep, name) {
            push_text(&mut r, name.to_owned());
        }
        i = i + 1;
    }
    assert(all.take(i as int) =~= all);
    r
}

/// Containers of other apps are never pruned, nor those that are to stay.
pub proof fn only_the_family_is_pruned(
    app: Seq<char>,
    names: Seq<Seq<char>>,
    keep: Seq<Seq<char>>,
    i: int,
)
    requires
        0 <= i < to_prune(app, names, keep).len(),
    ensures
        in_family(app, to_prune(app, names, keep)[i]),
        !keep.contains(to_prune(app, names, keep)[i]),
        names.contains(to_prune(app, names, keep)[i]),
{
    let pred = |name: Seq<char>| in_family(app, name) && !keep.contains(name);
    names.lemma_filter_pred(pred, i);
    names.lemma_filter_contains_rev(pred, to_prune(app, names, keep)[i]);
}

/// The app that runs in a container to prune.
pub fn prune_target(instance_name: &str) -> (r: Result<String, String>)
    ensures
        outcome(r) == match app_ref_of(instance_name@) {
            Some(app_ref) => Ok::<Seq<char>, Seq<char>>(app_ref),
            None => Err("invalid app family instance name '"@ + instance_name@ + "'"@),
        },
{
    match app_ref_from_instance_name(instance_name) {
        Some(app_ref) => Ok(app_ref),
        None => {
            let mut message = String::from_str("invalid app family instance name '");
            message.append(instance_name);
            message.append("'");
            Err(message)
        },
    }
}

/// The end of a pruning, by a line for each container that could not be pruned.
pub fn family_reconciled(app: &str, failures: &Vec<String>) -> (r: Result<(), String>)
    ensures
        outcome(r) == if failures@.len() == 0 {
            Ok::<(), Seq<char>>(())
        } else {
            Err(
                "failed to reconcile app family instances for '"@ + app@ + "': "@ + join(
                    failures.deep_view(),
                    " | "@,
                ),
            )
        },
{
    if failures.is_empty() {
        return Ok(());
    }
    let mut message = String::from_str("failed to reconcile app family instances for '");
    message.append(app);
    message.append("': ");
    let list = join_with(failures, " | ");
    message.append(list.as_str());
    Err(message)
}

// ---------------------------------------------------------------------------
// The container before the active one
// ---------------------------------------------------------------------------

/// What is on record of an app after the container before the active one is forgotten,
/// where it is gone.
pub open spec fn previous_forgotten(
    states: Map<Seq<char>, RuntimeRowView>,
    app: Seq<char>,
    live: Seq<Seq<char>>,
    now: u64,
) -> (Result<(), Seq<char>>, Map<Seq<char>, RuntimeRowView>) {
    match recorded(states, app) {
        Err(err) => (Err(err), states),
        Ok(None) => (Ok(()), states),
        Ok(Some(state)) => match state.previous_instance {
            None => (Ok(()), states),
            Some(previous) => match (app_ref_of(previous), app_ref_of(state.active_instance)) {
                (Some(previous), Some(active)) => if live.contains(previous) {
                    (Ok(()), states)
                } else {
                    (Ok(()), states.insert(app, runtime_row(active, None, now)))
                },
                _ => (Ok(()), states),
            },
        },
    }
}

pub fn clear_previous_runtime_reference_if_missing(
    states: &mut Table<AppRuntimeStateRow>,
    app: &str,
    live: &Vec<String>,
    now: u64,
) -> (r: Result<(), String>)
    requires
        old(states).wf(),
    ensures
        final(states).wf(),
        (outcome(r), final(states).deep_view()) == previous_forgotten(
            old(states).deep_view(),
            app@,
            live.deep_view(),
            now,
        ),
{
    let state = match read_app_runtime_state(states, app) {
        Ok(Some(state)) => state,
        Ok(None) => {
            return Ok(());
        },
        Err(err) => {
            return Err(err);
        },
    };
    let previous_instance = match &state.previous_instance {
        Some(previous) => previous,
        None => {
            return Ok(());
        },
    };
    let previous_app_ref = match app_ref_from_instance_name(previous_instance.as_str()) {
        Some(app_ref) => app_ref,
        None => {
            return Ok(());
        },
    };
    if contains_text(live, previous_app_ref.as_str()) {
        return Ok(());
    }
    if let Some(active) = app_ref_from_instance_name(state.active_instance.as_str()) {
        write_app_runtime_state(states, app, active.as_str(), None, now);
    }
    Ok(())
}

/// A cleanup after one more attempt failed.
pub open spec fn failed_once_more(job: CleanupView, err: Seq<char>, now: u64) -> CleanupView {
    CleanupView {
        attempts: if job.attempts < u32::MAX {
            (job.attempts + 1) as u32
        } else {
            job.attempts
        },
        last_error: Some(err),
        updated_at: now,
        ..job
    }
}

/// The end of a cleanup that failed, and what is on record of it.
pub open spec fn failure_of(
    jobs: Map<Seq<char>, CleanupRowView>,
    app: Seq<char>,
    job: CleanupView,
    err: Seq<char>,
    now: u64,
) -> (Seq<char>, Map<Seq<char>, CleanupRowView>) {
    match cleanup_row(app, failed_once_more(job, err, now)) {
        Ok(row) => (err, jobs.insert(app, row)),
        Err(err) => (err, jobs),
    }
}

fn copy_job(job: &CleanupJobState) -> (r: CleanupJobState)
    ensures
        r.deep_view() == job.deep_view(),
{
    CleanupJobState {
        app: job.app.clone(),
        active_instance_at_schedule: job.active_instance_at_schedule.clone(),
        scheduled_previous_instance: job.scheduled_previous_instance.clone(),
        attempts: job.attempts,
        last_error: copy_opt(&job.last_error),
        scheduled_at: job.scheduled_at,
        updated_at: job.updated_at,
    }
}

/// Puts on record that a cleanup failed, and gives the error to end with.
pub fn record_cleanup_job_failure(
    jobs: &mut Table<CleanupJobRow>,
    app: &str,
    job: &CleanupJobState,
    error_message: String,
    now: u64,
) -> (r: String)
    requires
        old(jobs).wf(),
    ensures
        final(jobs).wf(),
        (r@, final(jobs).deep_view()) == failure_of(
            old(jobs).deep_view(),
            app@,
            job.deep_view(),
            error_message@,
            now,
        ),
{
    let mut job = copy_job(job);
    if job.attempts < u32::MAX {
        job.attempts = job.attempts + 1;
    }
    job.last_error = Some(error_message.clone());
    job.updated_at = now;
    match write_cleanup_job(jobs, app, &job) {
        Ok(_) => error_message,
        Err(err) => err,
    }
}

/// A container that is to be cleaned away now.
pub struct CleanupPlan {
    pub job: CleanupJobState,
    pub previous_app: String,
}

impl DeepView for CleanupPlan {
    type V = (CleanupView, Seq<char>);

    open spec fn deep_view(&self) -> (CleanupView, Seq<char>) {
        (self.job.deep_view(), self.previous_app@)
    }
}

/// What a cleanup reads and writes: the cleanups and the containers on record.
pub struct CleanupRecords {
    pub jobs: Map<Seq<char>, CleanupRowView>,
    pub states: Map<Seq<char>, RuntimeRowView>,
}

pub open spec fn mismatched_message(app: Seq<char>, found: Seq<char>) -> Seq<char> {
    "cleanup job app mismatch: expected '"@ + app + "', found '"@ + found + "'"@
}

/// Whether there is a container to clean away, and what is on record then.
pub open spec fn cleanup_begun(
    records: CleanupRecords,
    app: Seq<char>,
    locked: bool,
    live: Seq<Seq<char>>,
    project: Result<String, String>,
    now: u64,
) -> (Result<Option<(CleanupView, Seq<char>)>, Seq<char>>, CleanupRecords) {
    let jobs = records.jobs;
    let cleared = jobs.remove(app);
    if !valid_app_name(app) {
        (Err(invalid_name_message(app)), records)
    } else if !locked {
        (Ok(None), records)
    } else {
        match read_row(lookup(jobs, app), |row: CleanupRowView| cleanup_of(row)) {
            Err(err) => (Err(err), records),
            Ok(None) => (Ok(None), records),
            Ok(Some(job)) => if job.app != app {
                let (err, jobs) = failure_of(
                    jobs,
                    app,
                    job,
                    mismatched_message(app, job.app),
                    now,
                );
                (Err(err), CleanupRecords { jobs, ..records })
            } else {
                match app_ref_of(job.scheduled_previous_instance) {
                    None => {
                        let (err, jobs) = failure_of(
                            jobs,
                            app,
                            job,
                            "cleanup job has invalid scheduled previous instance"@,
                            now,
                        );
                        (Err(err), CleanupRecords { jobs, ..records })
                    },
                    Some(previous) => if !transient_for(app, previous) {
                        (Ok(None), CleanupRecords { jobs: cleared, ..records })
                    } else {
                        cleanup_of_leftover(records, app, job, previous, live, project, now)
                    },
                }
            },
        }
    }
}

/// Whether a container of a deploy is to be cleaned away, and what is on record then.
pub open spec fn cleanup_of_leftover(
    records: CleanupRecords,
    app: Seq<char>,
    job: CleanupView,
    previous: Seq<char>,
    live: Seq<Seq<char>>,
    project: Result<String, String>,
    now: u64,
) -> (Result<Option<(CleanupView, Seq<char>)>, Seq<char>>, CleanupRecords) {
    let jobs = records.jobs;
    let cleared = jobs.remove(app);
    let (active, states) = resolved(records.states, app, live, now);
    match active {
        Err(err) => (Err(err), CleanupRecords { jobs, states }),
        Ok(active) => if active == Some(previous) {
            (Ok(None), CleanupRecords { jobs: cleared, states })
        } else if !live.contains(previous) {
            let (forgotten, states) = previous_forgotten(states, app, live, now);
            match forgotten {
                Ok(_) => (Ok(None), CleanupRecords { jobs: cleared, states }),
                Err(err) => (Err(err), CleanupRecords { jobs, states }),
            }
        } else {
            match project {
                Ok(_) => (Ok(Some((job, previous))), CleanupRecords { jobs, states }),
                Err(err) => (Err(err@), CleanupRecords { jobs, states }),
            }
        },
    }
}

/// Begins the cleanup of the container that an app ran in before, where one is on record.
/// `locked` tells whether this process alone cleans up for the app.
pub fn begin_cleanup_previous(
    jobs: &mut Table<CleanupJobRow>,
    states: &mut Table<AppRuntimeStateRow>,
    app: &str,
    locked: bool,
    live: &Vec<String>,
    project: &Result<String, String>,
    now: u64,
) -> (r: Result<Option<CleanupPlan>, String>)
    requires
        old(jobs).wf(),
        old(states).wf(),
    ensures
        final(jobs).wf(),
        final(states).wf(),
        (
            outcome(r),
            CleanupRecords { jobs: final(jobs).deep_view(), states: final(states).deep_view() },
        ) == cleanup_begun(
            CleanupRecords { jobs: old(jobs).deep_view(), states: old(states).deep_view() },
            app@,
            locked,
            live.deep_view(),
            *project,
            now,
        ),
{
    if let Err(err) = validate_app_name(app) {
        return Err(err);
    }
    if !locked {
        return Ok(None);
    }
    let job = match read_cleanup_job(jobs, app) {
        Ok(Some(job)) => job,
        Ok(None) => {
            return Ok(None);
        },
        Err(err) => {
            return Err(err);
        },
    };
    if !same(job.app.as_str(), app) {
        let mut message = String::from_str("cleanup job app mismatch: expected '");
        message.append(app);
        message.append("', found '");
        message.append(job.app.as_str());
        message.append("'");
        return Err(record_cleanup_job_failure(jobs, app, &job, message, now));
    }
    let previous_app = match app_ref_from_instance_name(job.scheduled_previous_instance.as_str()) {
        Some(app_ref) => app_ref,
        None => {
            let message = String::from_str("cleanup job has invalid scheduled previous instance");
            return Err(record_cleanup_job_failure(jobs, app, &job, message, now));
        },
    };
    if !is_transient_deploy_app_for(app, previous_app.as_str()) {
        clear_cleanup_job(jobs, app);
        return Ok(None);
    }
    let active = match resolve_active_app_ref(states, app, live, now) {
        Ok(active) => active,
        Err(err) => {
            return Err(err);
        },
    };
    if let Some(active) = &active {
        if same(active.as_str(), previous_app.as_str()) {
            clear_cleanup_job(jobs, app);
            return Ok(None);
        }
    }
    if !contains_text(live, previous_app.as_str()) {
        if let Err(err) = clear_previous_runtime_reference_if_missing(states, app, live, now) {
            return Err(err);
        }
        clear_cleanup_job(jobs, app);
        return Ok(None);
    }
    match project {
        Ok(_) => Ok(Some(CleanupPlan { job, previous_app })),
        Err(err) => Err(err.clone()),
    }
}

/// The end of a cleanup, by what came of the deletion, and what is on record then.
pub open spec fn cleanup_ended(
    records: CleanupRecords,
    app: Seq<char>,
    job: CleanupView,
    previous: Seq<char>,
    deleted: Result<(), Seq<char>>,
    live: Seq<Seq<char>>,
    now: u64,
) -> (Result<(), Seq<char>>, CleanupRecords) {
    match deleted {
        Err(err) => {
            let (err, jobs) = failure_of(
                records.jobs,
                app,
                job,
                "failed to clean previous instance '"@ + previous + "': "@ + err,
                now,
            );
            (Err(err), CleanupRecords { jobs, ..records })
        },
        Ok(_) => {
            let (forgotten, states) = previous_forgotten(
                records.states,
                app,
                live,
                now,
            );
            match forgotten {
                Ok(_) => (Ok(()), CleanupRecords { jobs: records.jobs.remove(app), states }),
                Err(err) => (Err(err), CleanupRecords { states, ..records }),
            }
        },
    }
}

pub fn end_cleanup_previous(
    jobs: &mut Table<CleanupJobRow>,
    states: &mut Table<AppRuntimeStateRow>,
    app: &str,
    plan: &CleanupPlan,
    deleted: &Result<(), String>,
    live: &Vec<String>,
    now: u64,
) -> (r: Result<(), String>)
    requires
        old(jobs).wf(),
        old(states).wf(),
    ensures
        final(jobs).wf(),
        final(states).wf(),
        (
            outcome(r),
            CleanupRecords { jobs: final(jobs).deep_view(), states: final(states).deep_view() },
        ) == cleanup_ended(
            CleanupRecords { jobs: old(jobs).deep_view(), states: old(states).deep_view() },
            app@,
            plan.job.deep_view(),
            plan.previous_app@,
            outcome(*deleted),
            live.deep_view(),
            now,
        ),
{
    if let Err(err) = deleted {
        let mut message = String::from_str("failed to clean previous instance '");
        message.append(plan.previous_app.as_str());
        message.append("': ");
        message.append(err.as_str());
        return Err(record_cleanup_job_failure(jobs, app, &plan.job, message, now));
    }
    if let Err(err) = clear_previous_runtime_reference_if_missing(states, app, live, now) {
        return Err(err);
    }
    clear_cleanup_job(jobs, app);
    Ok(())
}

/// A container is cleaned away only where it exists, belongs to a deploy of the app, and
/// does not serve the app's traffic.
pub proof fn serving_containers_are_not_cleaned_away(
    records: CleanupRecords,
    app: Seq<char>,
    locked: bool,
    live: Seq<Seq<char>>,
    project: Result<String, String>,
    now: u64,
)
    ensures
        cleanup_begun(records, app, locked, live, project, now).0 matches Ok(Some(plan)) ==> {
            &&& locked
            &&& live.contains(plan.1)
            &&& transient_for(app, plan.1)
            &&& resolved(records.states, app, live, now).0 != Ok::<
                Option<Seq<char>>,
                Seq<char>,
            >(Some(plan.1))
        },
{
}

/// A cleanup that is done is off the record; one that fails stays on it, with the error
/// and one attempt more.
pub proof fn cleanups_are_tried_until_done(
    records: CleanupRecords,
    app: Seq<char>,
    job: CleanupView,
    previous: Seq<char>,
    deleted: Result<(), Seq<char>>,
    live: Seq<Seq<char>>,
    now: u64,
)
    requires
        job.app == app,
        job.attempts < u32::MAX,
        job.scheduled_at <= i64::MAX,
        now <= i64::MAX,
    ensures
        ({
            let (r, after) = cleanup_ended(
                records,
                app,
                job,
                previous,
                deleted,
                live,
                now,
            );
            &&& r is Ok ==> !after.jobs.dom().contains(app)
            &&& deleted is Err ==> r is Err && read_row(
                lookup(after.jobs, app),
                |row: CleanupRowView| cleanup_of(row),
            ) == Ok::<Option<CleanupView>, Seq<char>>(
                Some(
                    CleanupView {
                        attempts: (job.attempts + 1) as u32,
                        last_error: Some(r->Err_0),
                        updated_at: now,
                        ..job
                    },
                ),
            )
        }),
{
    if let Err(err) = deleted {
        let message = "failed to clean previous instance '"@ + previous + "': "@ + err;
        crate::rows::cleanups_read_back(records.jobs, failed_once_more(job, message, now));
    }
}

/// What is said of a cleanup that is on record.
pub open spec fn pending_detail(job: Option<CleanupView>) -> Option<Seq<char>> {
    match job {
        Some(job) => {
            let detail = "cleanup pending (attempts: "@ + decimal(job.attempts as nat) + ")"@;
            match job.last_error {
                Some(err) => Some(detail + ", last error: "@ + err),
                None => Some(detail),
            }
        },
        None => None,
    }
}

pub fn cleanup_pending_detail(job: Option<&CleanupJobState>) -> (r: Option<String>)
    ensures
        r.deep_view() == pending_detail(job.deep_view()),
{
    match job {
        Some(job) => {
            let mut detail = String::from_str("cleanup pending (attempts: ");
            let attempts = decimal_of(job.attempts as u64);
            detail.append(attempts.as_str());
            detail.append(")");
            if let Some(err) = &job.last_error {
                detail.append(", last error: ");
                detail.append(err.as_str());
            }
            Some(detail)
        },
        None => None,
    }
}

/// Every other owner of a port is either kin or a stranger, and the container that wants
/// the port is neither.
pub proof fn owners_are_kin_or_strangers(
    owners: Seq<Seq<char>>,
    target: Seq<char>,
    family: Seq<char>,
    owner: Seq<char>,
)
    requires
        owners.contains(owner),
    ensures
        kin_of(owners, target, family).contains(owner) <==> owner != target && in_family(
            family,
            owner,
        ),
        strangers_to(owners, target, family).contains(owner) <==> owner != target && !in_family(
            family,
            owner,
        ),
{
    let i = choose|i: int| 0 <= i < owners.len() && owners[i] == owner;
    let kin = is_kin(target, family);
    let strange = is_stranger(target, family);
    if kin(owner) {
        owners.lemma_filter_contains(kin, i);
    } else if kin_of(owners, target, family).contains(owner) {
        owners.lemma_filter_contains_rev(kin, owner);
        let k = choose|k: int|
            0 <= k < kin_of(owners, target, family).len() && kin_of(owners, target, family)[k]
                == owner;
        owners.lemma_filter_pred(kin, k);
    }
    if strange(owner) {
        owners.lemma_filter_contains(strange, i);
    } else if strangers_to(owners, target, family).contains(owner) {
        let k = choose|k: int|
            0 <= k < strangers_to(owners, target, family).len() && strangers_to(
                owners,
                target,
                family,
            )[k] == owner;
        owners.lemma_filter_pred(strange, k);
    }
}

/// All of the family of an app that is not to be kept is cleaned away.
pub proof fn the_whole_family_is_pruned(
    app: Seq<char>,
    names: Seq<Seq<char>>,
    keep: Seq<Seq<char>>,
    i: int,
)
    requires
        0 <= i < names.len(),
        in_family(app, names[i]),
        !keep.contains(names[i]),
    ensures
        to_prune(app, names, keep).contains(names[i]),
{
    let pred = |name: Seq<char>| in_family(app, name) && !keep.contains(name);
    names.lemma_filter_contains(pred, i);
}

/// The previous container of an app is struck from the record exactly where it is gone;
/// the active one stays on it, and nothing else changes.
pub proof fn previous_containers_are_forgotten_once_gone(
    states: Map<Seq<char>, RuntimeRowView>,
    app: Seq<char>,
    live: Seq<Seq<char>>,
    now: u64,
    other: Seq<char>,
)
    ensures
        ({
            let (r, after) = previous_forgotten(states, app, live, now);
            let state = recorded(states, app);
            let known = state is Ok && state->Ok_0 is Some && state->Ok_0->0.previous_instance
                is Some && app_ref_of(state->Ok_0->0.previous_instance->0) is Some && app_ref_of(
                state->Ok_0->0.active_instance,
            ) is Some;
            &&& r is Err <==> state is Err
            &&& other != app ==> lookup(after, other) == lookup(states, other)
            &&& known && !live.contains(app_ref_of(state->Ok_0->0.previous_instance->0)->0) ==> {
                &&& after.dom().contains(app)
                &&& after[app].previous_instance is None
                &&& after[app].active_instance == instance_of(
                    app_ref_of(state->Ok_0->0.active_instance)->0,
                )
            }
            &&& !known || live.contains(app_ref_of(state->Ok_0->0.previous_instance->0)->0)
                ==> after == states
        }),
{
}

/// A cleanup that is on the list is carried out where the app is not locked by a deploy, the
/// container that it is about is one of those that come and go with deploys of the app,
/// exists and does not serve. Where it serves, is gone or is of another kind there is
/// nothing to clean, and the cleanup leaves the list.
pub proof fn leftovers_are_cleaned_away(
    records: CleanupRecords,
    app: Seq<char>,
    live: Seq<Seq<char>>,
    project: Result<String, String>,
    now: u64,
    job: CleanupView,
)
    requires
        valid_app_name(app),
        read_row(lookup(records.jobs, app), |row: CleanupRowView| cleanup_of(row)) == Ok::<
            Option<CleanupView>,
            Seq<char>,
        >(Some(job)),
        job.app == app,
        app_ref_of(job.scheduled_previous_instance) is Some,
        resolved(records.states, app, live, now).0 is Ok,
        recorded(resolved(records.states, app, live, now).1, app) is Ok,
        project is Ok,
    ensures
        ({
            let previous = app_ref_of(job.scheduled_previous_instance)->0;
            let (r, after) = cleanup_begun(records, app, true, live, project, now);
            let serves = resolved(records.states, app, live, now).0->Ok_0 == Some(previous);
            let leftover = transient_for(app, previous) && !serves && live.contains(previous);
            &&& r is Ok
            &&& leftover ==> r->Ok_0 == Some((job, previous)) && after.jobs == records.jobs
            &&& !leftover ==> r->Ok_0 is None && after.jobs == records.jobs.remove(app)
        }),
{
}

/// Without the lock nothing is begun and nothing changes.
pub proof fn locked_apps_are_left_alone(
    records: CleanupRecords,
    app: Seq<char>,
    live: Seq<Seq<char>>,
    project: Result<String, String>,
    now: u64,
)
    ensures
        ({
            let (r, after) = cleanup_begun(records, app, false, live, project, now);
            &&& after == records
            &&& valid_app_name(app) ==> r == Ok::<Option<(CleanupView, Seq<char>)>, Seq<char>>(None)
            &&& !valid_app_name(app) ==> r is Err
        }),
{
}

/// A container that was deleted leaves the list and the record; one that was not stays on
/// the list, and what is on record of the app stays as it is.
pub proof fn deleted_containers_leave_the_list(
    records: CleanupRecords,
    app: Seq<char>,
    job: CleanupView,
    previous: Seq<char>,
    deleted: Result<(), Seq<char>>,
    live: Seq<Seq<char>>,
    now: u64,
    other: Seq<char>,
)
    ensures
        ({
            let (r, after) = cleanup_ended(records, app, job, previous, deleted, live, now);
            &&& r is Ok <==> deleted is Ok && recorded(records.states, app) is Ok
            &&& r is Ok ==> after.jobs == records.jobs.remove(app)
            &&& deleted is Err ==> after.states == records.states
            &&& other != app ==> lookup(after.jobs, other) == lookup(records.jobs, other)
            &&& other != app ==> lookup(after.states, other) == lookup(records.states, other)
        }),
{
}

/// What is told of a pending cleanup is how often it was tried and the last error, and
/// nothing where none is pending.
pub proof fn pending_cleanups_are_told(job: Option<CleanupView>)
    ensures
        pending_detail(job) is Some <==> job is Some,
        job is Some && job->0.last_error is Some ==> job->0.last_error->0.is_suffix_of(
            pending_detail(job)->0,
        ),
{
    if let Some(job) = job {
        if let Some(err) = job.last_error {
            let text = pending_detail(Some(job))->0;
            assert(text.skip(text.len() - err.len()) =~= err);
        }
    }
}

} // verus!
