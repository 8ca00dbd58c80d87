//! The rows in which deploys are kept on record, and how they are read and written.
//! The store holds signed integers alone, so times and counts are checked both ways.

use vstd::prelude::*;
use crate::failure::{DeployInterruptState, InterruptView};
use crate::git::{
    git_deploy_status_as_str, git_deploy_status_from_str, status_name, status_named,
    status_names_read_back, GitCheckoutTarget, GitDeployState, GitDeployStatus, GitStateView,
    PendingGitDeployRequest, PendingView, TargetView,
};
use crate::table::{lookup, Table};
use crate::text::{copy_opt, outcome};

verus! {

pub open spec fn negative_message(app: Seq<char>, field: Seq<char>) -> Seq<char> {
    "invalid sqlite value for "@ + field + " in app '"@ + app
        + "': expected non-negative integer"@
}

pub open spec fn not_u32_message(app: Seq<char>, field: Seq<char>) -> Seq<char> {
    "invalid sqlite value for "@ + field + " in app '"@ + app
        + "': expected u32-compatible integer"@
}

pub open spec fn too_large_message(app: Seq<char>, field: Seq<char>) -> Seq<char> {
    "value for "@ + field + " in app '"@ + app + "' exceeds sqlite integer range"@
}

/// A time that the store holds.
pub open spec fn time_of(value: i64, app: Seq<char>, field: Seq<char>) -> Result<u64, Seq<char>> {
    if value >= 0 {
        Ok(value as u64)
    } else {
        Err(negative_message(app, field))
    }
}

pub fn sqlite_i64_to_u64(value: i64, app: &str, field: &str) -> (r: Result<u64, String>)
    ensures
        outcome(r) == time_of(value, app@, field@),
{
    if value >= 0 {
        return Ok(value as u64);
    }
    let mut message = String::from_str("invalid sqlite value for ");
    message.append(field);
    message.append(" in app '");
    message.append(app);
    message.append("': expected non-negative integer");
    Err(message)
}

/// A count that the store holds.
pub open spec fn count_of(value: i64, app: Seq<char>, field: Seq<char>) -> Result<u32, Seq<char>> {
    if 0 <= value <= u32::MAX {
        Ok(value as u32)
    } else {
        Err(not_u32_message(app, field))
    }
}

pub fn sqlite_i64_to_u32(value: i64, app: &str, field: &str) -> (r: Result<u32, String>)
    ensures
        outcome(r) == count_of(value, app@, field@),
{
    if 0 <= value && value <= 0xffff_ffff {
        return Ok(value as u32);
    }
    let mut message = String::from_str("invalid sqlite value for ");
    message.append(field);
    message.append(" in app '");
    message.append(app);
    message.append("': expected u32-compatible integer");
    Err(message)
}

/// A time as the store holds it.
pub open spec fn stored_time(value: u64, app: Seq<char>, field: Seq<char>) -> Result<
    i64,
    Seq<char>,
> {
    if value <= i64::MAX {
        Ok(value as i64)
    } else {
        Err(too_large_message(app, field))
    }
}

pub fn sqlite_u64_to_i64(value: u64, app: &str, field: &str) -> (r: Result<i64, String>)
    ensures
        outcome(r) == stored_time(value, app@, field@),
{
    if value <= 0x7fff_ffff_ffff_ffff {
        return Ok(value as i64);
    }
    let mut message = String::from_str("value for ");
    message.append(field);
    message.append(" in app '");
    message.append(app);
    message.append("' exceeds sqlite integer range");
    Err(message)
}

/// A time that was stored reads back.
pub proof fn stored_times_read_back(value: u64, app: Seq<char>, field: Seq<char>)
    ensures
        match stored_time(value, app, field) {
            Ok(stored) => time_of(stored, app, field) == Ok::<u64, Seq<char>>(value),
            Err(_) => value > i64::MAX,
        },
{
}

// ---------------------------------------------------------------------------
// Revisions
// ---------------------------------------------------------------------------

/// The row of the last deploy of a revision.
pub struct GitDeployStateRow {
    pub ref_name: String,
    pub sha: String,
    pub status: String,
}

/// The mathematical form of the row.
#[verifier::ext_equal]
pub struct GitRowView {
    pub ref_name: Seq<char>,
    pub sha: Seq<char>,
    pub status: Seq<char>,
}

impl DeepView for GitDeployStateRow {
    type V = GitRowView;

    open spec fn deep_view(&self) -> GitRowView {
        GitRowView { ref_name: self.ref_name@, sha: self.sha@, status: self.status@ }
    }
}

/// What a row says.
pub open spec fn git_state_of(row: GitRowView) -> Result<GitStateView, Seq<char>> {
    match status_named(row.status) {
        Ok(status) => Ok(GitStateView { ref_name: row.ref_name, sha: row.sha, status }),
        Err(err) => Err(err),
    }
}

/// What the rows say of an app.
pub open spec fn read_row<R, S>(
    row: Option<R>,
    read: spec_fn(R) -> Result<S, Seq<char>>,
) -> Result<Option<S>, Seq<char>> {
    match row {
        Some(row) => match read(row) {
            Ok(value) => Ok(Some(value)),
            Err(err) => Err(err),
        },
        None => Ok(None),
    }
}

pub fn git_deploy_state_from_row(row: &GitDeployStateRow) -> (r: Result<GitDeployState, String>)
    ensures
        outcome(r) == git_state_of(row.deep_view()),
{
    match git_deploy_status_from_str(row.status.as_str()) {
        Ok(status) => Ok(
            GitDeployState { ref_name: row.ref_name.clone(), sha: row.sha.clone(), status },
        ),
        Err(err) => Err(err),
    }
}

pub fn read_git_deploy_state(states: &Table<GitDeployStateRow>, app: &str) -> (r: Result<
    Option<GitDeployState>,
    String,
>)
    requires
        states.wf(),
    ensures
        outcome(r) == read_row(
            lookup(states.deep_view(), app@),
            |row: GitRowView| git_state_of(row),
        ),
{
    match states.get(app) {
        Some(row) => match git_deploy_state_from_row(row) {
            Ok(state) => Ok(Some(state)),
            Err(err) => Err(err),
        },
        None => Ok(None),
    }
}

pub open spec fn git_row(target: TargetView, status: GitDeployStatus) -> GitRowView {
    GitRowView { ref_name: target.ref_name, sha: target.sha, status: status_name(status) }
}

pub fn write_git_deploy_state(
    states: &mut Table<GitDeployStateRow>,
    app: &str,
    target: &GitCheckoutTarget,
    status: GitDeployStatus,
)
    requires
        old(states).wf(),
    ensures
        final(states).wf(),
        final(states).deep_view() == old(states).deep_view().insert(
            app@,
            git_row(target.deep_view(), status),
        ),
{
    states.put(
        app,
        GitDeployStateRow {
            ref_name: target.ref_name.clone(),
            sha: target.sha.clone(),
            status: git_deploy_status_as_str(status).to_owned(),
        },
    );
}

pub fn clear_git_deploy_state(states: &mut Table<GitDeployStateRow>, app: &str)
    requires
        old(states).wf(),
    ensures
        final(states).wf(),
        final(states).deep_view() == old(states).deep_view().remove(app@),
{
    states.forget(app);
}

/// What is put on record of a revision reads back.
pub proof fn git_states_read_back(
    states: Map<Seq<char>, GitRowView>,
    app: Seq<char>,
    target: TargetView,
    status: GitDeployStatus,
)
    ensures
        read_row(
            lookup(states.insert(app, git_row(target, status)), app),
            |row: GitRowView| git_state_of(row),
        ) == Ok::<Option<GitStateView>, Seq<char>>(
            Some(GitStateView { ref_name: target.ref_name, sha: target.sha, status }),
        ),
{
    status_names_read_back(status);
}

// ---------------------------------------------------------------------------
// Requests that wait
// ---------------------------------------------------------------------------

/// The row of a request that waits.
pub struct PendingGitRequestRow {
    pub ref_name: String,
    pub sha: String,
    pub force: bool,
    pub request_id: Option<String>,
    pub interrupt_requested_at: Option<i64>,
}

/// The mathematical form of the row.
#[verifier::ext_equal]
pub struct PendingRowView {
    pub ref_name: Seq<char>,
    pub sha: Seq<char>,
    pub force: bool,
    pub request_id: Option<Seq<char>>,
    pub interrupt_requested_at: Option<i64>,
}

impl DeepView for PendingGitRequestRow {
    type V = PendingRowView;

    open spec fn deep_view(&self) -> PendingRowView {
        PendingRowView {
            ref_name: self.ref_name@,
            sha: self.sha@,
            force: self.force,
            request_id: self.request_id.deep_view(),
            interrupt_requested_at: self.interrupt_requested_at,
        }
    }
}

/// What the row of an app says.
pub open spec fn pending_of(app: Seq<char>, row: PendingRowView) -> Result<PendingView, Seq<char>> {
    let request = PendingView {
        ref_name: row.ref_name,
        sha: row.sha,
        force: row.force,
        request_id: row.request_id,
        interrupt_requested_at: None,
    };
    match row.interrupt_requested_at {
        None => Ok(request),
        Some(at) => match time_of(at, app, "interrupt_requested_at"@) {
            Ok(at) => Ok(PendingView { interrupt_requested_at: Some(at), ..request }),
            Err(err) => Err(err),
        },
    }
}

pub fn pending_git_request_from_row(app: &str, row: &PendingGitRequestRow) -> (r: Result<
    PendingGitDeployRequest,
    String,
>)
    ensures
        outcome(r) == pending_of(app@, row.deep_view()),
{
    let interrupt_requested_at = match row.interrupt_requested_at {
        None => None,
        Some(at) => match sqlite_i64_to_u64(at, app, "interrupt_requested_at") {
            Ok(at) => Some(at),
            Err(err) => {
                return Err(err);
            },
        },
    };
    Ok(
        PendingGitDeployRequest {
            ref_name: row.ref_name.clone(),
            sha: row.sha.clone(),
            force: row.force,
            request_id: copy_opt(&row.request_id),
            interrupt_requested_at,
        },
    )
}

/// The row for a request.
pub open spec fn pending_row(app: Seq<char>, request: PendingView) -> Result<
    PendingRowView,
    Seq<char>,
> {
    let row = PendingRowView {
        ref_name: request.ref_name,
        sha: request.sha,
        force: request.force,
        request_id: request.request_id,
        interrupt_requested_at: None,
    };
    match request.interrupt_requested_at {
        None => Ok(row),
        Some(at) => match stored_time(at, app, "interrupt_requested_at"@) {
            Ok(at) => Ok(PendingRowView { interrupt_requested_at: Some(at), ..row }),
            Err(err) => Err(err),
        },
    }
}

/// Puts a request on the list, in place of one that waits.
pub fn write_pending_git_request(
    requests: &mut Table<PendingGitRequestRow>,
    app: &str,
    request: &PendingGitDeployRequest,
) -> (r: Result<(), String>)
    requires
        old(requests).wf(),
    ensures
        final(requests).wf(),
        match pending_row(app@, request.deep_view()) {
            Ok(row) => r is Ok && final(requests).deep_view() == old(requests).deep_view().insert(
                app@,
                row,
            ),
            Err(err) => outcome(r) == Err::<(), Seq<char>>(err) && *final(requests) == *old(
                requests,
            ),
        },
{
    let interrupt_requested_at = match request.interrupt_requested_at {
        None => None,
        Some(at) => match sqlite_u64_to_i64(at, app, "interrupt_requested_at") {
            Ok(at) => Some(at),
            Err(err) => {
                return Err(err);
            },
        },
    };
    requests.put(
        app,
        PendingGitRequestRow {
            ref_name: request.ref_name.clone(),
            sha: request.sha.clone(),
            force: request.force,
            request_id: copy_opt(&request.request_id),
            interrupt_requested_at,
        },
    );
    Ok(())
}

pub fn read_pending_git_request(requests: &Table<PendingGitRequestRow>, app: &str) -> (r: Result<
    Option<PendingGitDeployRequest>,
    String,
>)
    requires
        requests.wf(),
    ensures
        outcome(r) == read_row(
            lookup(requests.deep_view(), app@),
            |row: PendingRowView| pending_of(app@, row),
        ),
{
    match requests.get(app) {
        Some(row) => match pending_git_request_from_row(app, row) {
            Ok(request) => Ok(Some(request)),
            Err(err) => Err(err),
        },
        None => Ok(None),
    }
}

/// Takes the request of an app off the list.
pub fn take_pending_git_request(requests: &mut Table<PendingGitRequestRow>, app: &str) -> (r:
    Result<Option<PendingGitDeployRequest>, String>)
    requires
        old(requests).wf(),
    ensures
        final(requests).wf(),
        outcome(r) == read_row(
            lookup(old(requests).deep_view(), app@),
            |row: PendingRowView| pending_of(app@, row),
        ),
        final(requests).deep_view() == old(requests).deep_view().remove(app@),
{
    let r = read_pending_git_request(requests, app);
    requests.forget(app);
    r
}

/// A request that is put on the list reads back, and is taken off once.
pub proof fn pending_requests_read_back(
    requests: Map<Seq<char>, PendingRowView>,
    app: Seq<char>,
    request: PendingView,
)
    ensures
        match pending_row(app, request) {
            Ok(row) => read_row(
                lookup(requests.insert(app, row), app),
                |row: PendingRowView| pending_of(app, row),
            ) == Ok::<Option<PendingView>, Seq<char>>(Some(request)) && lookup(
                requests.insert(app, row).remove(app),
                app,
            ) is None,
            Err(_) => request.interrupt_requested_at is Some
                && request.interrupt_requested_at->0 > i64::MAX,
        },
{
}

// ---------------------------------------------------------------------------
// Interrupts
// ---------------------------------------------------------------------------

/// The row of a request that the running deploy make way.
pub struct DeployInterruptRow {
    pub request_id: String,
    pub requested_at: i64,
    pub target_sha: String,
}

/// The mathematical form of the row.
#[verifier::ext_equal]
pub struct InterruptRowView {
    pub request_id: Seq<char>,
    pub requested_at: i64,
    pub target_sha: Seq<char>,
}

impl DeepView for DeployInterruptRow {
    type V = InterruptRowView;

    open spec fn deep_view(&self) -> InterruptRowView {
        InterruptRowView {
            request_id: self.request_id@,
            requested_at: self.requested_at,
            target_sha: self.target_sha@,
        }
    }
}

/// What the row of an app says.
pub open spec fn interrupt_of(app: Seq<char>, row: InterruptRowView) -> Result<
    InterruptView,
    Seq<char>,
> {
    match time_of(row.requested_at, app, "requested_at"@) {
        Ok(requested_at) => Ok(
            InterruptView { request_id: row.request_id, requested_at, target_sha: row.target_sha },
        ),
        Err(err) => Err(err),
    }
}

pub fn deploy_interrupt_from_row(app: &str, row: &DeployInterruptRow) -> (r: Result<
    DeployInterruptState,
    String,
>)
    ensures
        outcome(r) == interrupt_of(app@, row.deep_view()),
{
    match sqlite_i64_to_u64(row.requested_at, app, "requested_at") {
        Ok(requested_at) => Ok(
            DeployInterruptState {
                request_id: row.request_id.clone(),
                requested_at,
                target_sha: row.target_sha.clone(),
            },
        ),
        Err(err) => Err(err),
    }
}

pub fn read_deploy_interrupt(interrupts: &Table<DeployInterruptRow>, app: &str) -> (r: Result<
    Option<DeployInterruptState>,
    String,
>)
    requires
        interrupts.wf(),
    ensures
        outcome(r) == read_row(
            lookup(interrupts.deep_view(), app@),
            |row: InterruptRowView| interrupt_of(app@, row),
        ),
{
    match interrupts.get(app) {
        Some(row) => match deploy_interrupt_from_row(app, row) {
            Ok(state) => Ok(Some(state)),
            Err(err) => Err(err),
        },
        None => Ok(None),
    }
}

/// The row for an interrupt.
pub open spec fn interrupt_row(app: Seq<char>, state: InterruptView) -> Result<
    InterruptRowView,
    Seq<char>,
> {
    match stored_time(state.requested_at, app, "requested_at"@) {
        Ok(requested_at) => Ok(
            InterruptRowView {
                request_id: state.request_id,
                requested_at,
                target_sha: state.target_sha,
            },
        ),
        Err(err) => Err(err),
    }
}

pub fn request_deploy_interrupt(
    interrupts: &mut Table<DeployInterruptRow>,
    app: &str,
    state: &DeployInterruptState,
) -> (r: Result<(), String>)
    requires
        old(interrupts).wf(),
    ensures
        final(interrupts).wf(),
        match interrupt_row(app@, state.deep_view()) {
            Ok(row) => r is Ok && final(interrupts).deep_view() == old(
                interrupts,
            ).deep_view().insert(app@, row),
            Err(err) => outcome(r) == Err::<(), Seq<char>>(err) && *final(interrupts) == *old(
                interrupts,
            ),
        },
{
    let requested_at: i64 = match sqlite_u64_to_i64(state.requested_at, app, "requested_at") {
        Ok(at) => at,
        Err(err) => {
            return Err(err);
        },
    };
    interrupts.put(
        app,
        DeployInterruptRow {
            request_id: state.request_id.clone(),
            requested_at,
            target_sha: state.target_sha.clone(),
        },
    );
    Ok(())
}

pub fn clear_deploy_interrupt(interrupts: &mut Table<DeployInterruptRow>, app: &str)
    requires
        old(interrupts).wf(),
    ensures
        final(interrupts).wf(),
        final(interrupts).deep_view() == old(interrupts).deep_view().remove(app@),
{
    interrupts.forget(app);
}

/// An interrupt that is put on record reads back.
pub proof fn interrupts_read_back(
    interrupts: Map<Seq<char>, InterruptRowView>,
    app: Seq<char>,
    state: InterruptView,
)
    ensures
        match interrupt_row(app, state) {
            Ok(row) => read_row(
                lookup(interrupts.insert(app, row), app),
                |row: InterruptRowView| interrupt_of(app, row),
            ) == Ok::<Option<InterruptView>, Seq<char>>(Some(state)),
            Err(_) => state.requested_at > i64::MAX,
        },
{
}

// ---------------------------------------------------------------------------
// Cleanups
// ---------------------------------------------------------------------------

/// A container that is to be cleaned away after a deploy.
#[derive(PartialEq, Eq, Debug)]
pub struct CleanupJobState {
    pub app: String,
    pub active_instance_at_schedule: String,
    pub scheduled_previous_instance: String,
    pub attempts: u32,
    pub last_error: Option<String>,
    pub scheduled_at: u64,
    pub updated_at: u64,
}

/// The mathematical form of a cleanup.
#[verifier::ext_equal]
pub struct CleanupView {
    pub app: Seq<char>,
    pub active_instance_at_schedule: Seq<char>,
    pub scheduled_previous_instance: Seq<char>,
    pub attempts: u32,
    pub last_error: Option<Seq<char>>,
    pub scheduled_at: u64,
    pub updated_at: u64,
}

impl DeepView for CleanupJobState {
    type V = CleanupView;

    open spec fn deep_view(&self) -> CleanupView {
        CleanupView {
            app: self.app@,
            active_instance_at_schedule: self.active_instance_at_schedule@,
            scheduled_previous_instance: self.scheduled_previous_instance@,
            attempts: self.attempts,
            last_error: self.last_error.deep_view(),
            scheduled_at: self.scheduled_at,
            updated_at: self.updated_at,
        }
    }
}

/// The row of a cleanup.
pub struct CleanupJobRow {
    pub app_id: String,
    pub active_instance_at_schedule: String,
    pub scheduled_previous_instance: String,
    pub attempts: i64,
    pub last_error: Option<String>,
    pub scheduled_at: i64,
    pub updated_at: i64,
}

/// The mathematical form of the row.
#[verifier::ext_equal]
pub struct CleanupRowView {
    pub app_id: Seq<char>,
    pub active_instance_at_schedule: Seq<char>,
    pub scheduled_previous_instance: Seq<char>,
    pub attempts: i64,
    pub last_error: Option<Seq<char>>,
    pub scheduled_at: i64,
    pub updated_at: i64,
}

impl DeepView for CleanupJobRow {
    type V = CleanupRowView;

    open spec fn deep_view(&self) -> CleanupRowView {
        CleanupRowView {
            app_id: self.app_id@,
            active_instance_at_schedule: self.active_instance_at_schedule@,
            scheduled_previous_instance: self.scheduled_previous_instance@,
            attempts: self.attempts,
            last_error: self.last_error.deep_view(),
            scheduled_at: self.scheduled_at,
            updated_at: self.updated_at,
        }
    }
}

/// What a row says.
pub open spec fn cleanup_of(row: CleanupRowView) -> Result<CleanupView, Seq<char>> {
    match count_of(row.attempts, row.app_id, "attempts"@) {
        Err(err) => Err(err),
        Ok(attempts) => match time_of(row.scheduled_at, row.app_id, "scheduled_at"@) {
            Err(err) => Err(err),
            Ok(scheduled_at) => match time_of(row.updated_at, row.app_id, "updated_at"@) {
                Err(err) => Err(err),
                Ok(updated_at) => Ok(
                    CleanupView {
                        app: row.app_id,
                        active_instance_at_schedule: row.active_instance_at_schedule,
                        scheduled_previous_instance: row.scheduled_previous_instance,
                        attempts,
                        last_error: row.last_error,
                        scheduled_at,
                        updated_at,
                    },
                ),
            },
        },
    }
}

pub fn cleanup_job_from_row(row: &CleanupJobRow) -> (r: Result<CleanupJobState, String>)
    ensures
        outcome(r) == cleanup_of(row.deep_view()),
{
    let app = row.app_id.as_str();
    let attempts: u32 = match sqlite_i64_to_u32(row.attempts, app, "attempts") {
        Ok(n) => n,
        Err(err) => {
            return Err(err);
        },
    };
    let scheduled_at: u64 = match sqlite_i64_to_u64(row.scheduled_at, app, "scheduled_at") {
        Ok(n) => n,
        Err(err) => {
            return Err(err);
        },
    };
    let updated_at: u64 = match sqlite_i64_to_u64(row.updated_at, app, "updated_at") {
        Ok(n) => n,
        Err(err) => {
            return Err(err);
        },
    };
    Ok(
        CleanupJobState {
            app: row.app_id.clone(),
            active_instance_at_schedule: row.active_instance_at_schedule.clone(),
            scheduled_previous_instance: row.scheduled_previous_instance.clone(),
            attempts,
            last_error: copy_opt(&row.last_error),
            scheduled_at,
            updated_at,
        },
    )
}

pub fn read_cleanup_job(jobs: &Table<CleanupJobRow>, app: &str) -> (r: Result<
    Option<CleanupJobState>,
    String,
>)
    requires
        jobs.wf(),
    ensures
        outcome(r) == read_row(
            lookup(jobs.deep_view(), app@),
            |row: CleanupRowView| cleanup_of(row),
        ),
{
    match jobs.get(app) {
        Some(row) => match cleanup_job_from_row(row) {
            Ok(job) => Ok(Some(job)),
            Err(err) => Err(err),
        },
        None => Ok(None),
    }
}

/// The row for a cleanup of an app.
pub open spec fn cleanup_row(app: Seq<char>, job: CleanupView) -> Result<
    CleanupRowView,
    Seq<char>,
> {
    match stored_time(job.scheduled_at, app, "scheduled_at"@) {
        Err(err) => Err(err),
        Ok(scheduled_at) => match stored_time(job.updated_at, app, "updated_at"@) {
            Err(err) => Err(err),
            Ok(updated_at) => Ok(
                CleanupRowView {
                    app_id: app,
                    active_instance_at_schedule: job.active_instance_at_schedule,
                    scheduled_previous_instance: job.scheduled_previous_instance,
                    attempts: job.attempts as i64,
                    last_error: job.last_error,
                    scheduled_at,
                    updated_at,
                },
            ),
        },
    }
}

pub fn write_cleanup_job(
    jobs: &mut Table<CleanupJobRow>,
    app: &str,
    state: &CleanupJobState,
) -> (r: Result<(), String>)
    requires
        old(jobs).wf(),
    ensures
        final(jobs).wf(),
        match cleanup_row(app@, state.deep_view()) {
            Ok(row) => r is Ok && final(jobs).deep_view() == old(jobs).deep_view().insert(
                app@,
                row,
            ),
            Err(err) => outcome(r) == Err::<(), Seq<char>>(err) && *final(jobs) == *old(jobs),
        },
{
    let scheduled_at: i64 = match sqlite_u64_to_i64(state.scheduled_at, app, "scheduled_at") {
        Ok(n) => n,
        Err(err) => {
            return Err(err);
        },
    };
    let updated_at: i64 = match sqlite_u64_to_i64(state.updated_at, app, "updated_at") {
        Ok(n) => n,
        Err(err) => {
            return Err(err);
        },
    };
    jobs.put(
        app,
        CleanupJobRow {
            app_id: app.to_owned(),
            active_instance_at_schedule: state.active_instance_at_schedule.clone(),
            scheduled_previous_instance: state.scheduled_previous_instance.clone(),
            attempts: state.attempts as i64,
            last_error: copy_opt(&state.last_error),
            scheduled_at,
            updated_at,
        },
    );
    Ok(())
}

pub fn clear_cleanup_job(jobs: &mut Table<CleanupJobRow>, app: &str)
    requires
        old(jobs).wf(),
    ensures
        final(jobs).wf(),
        final(jobs).deep_view() == old(jobs).deep_view().remove(app@),
{
    jobs.forget(app);
}

/// A cleanup that is put on record for its app reads back.
pub proof fn cleanups_read_back(jobs: Map<Seq<char>, CleanupRowView>, job: CleanupView)
    ensures
        match cleanup_row(job.app, job) {
            Ok(row) => read_row(
                lookup(jobs.insert(job.app, row), job.app),
                |row: CleanupRowView| cleanup_of(row),
            ) == Ok::<Option<CleanupView>, Seq<char>>(Some(job)),
            Err(_) => job.scheduled_at > i64::MAX || job.updated_at > i64::MAX,
        },
{
}

/// Numbers are read back as they are, and only where they fit: times from zero on, counts
/// up to what 32 bits hold; times are kept only as far as the store holds them.
pub proof fn numbers_are_kept_within_their_bounds(
    value: i64,
    time: u64,
    app: Seq<char>,
    field: Seq<char>,
)
    ensures
        time_of(value, app, field) is Ok <==> value >= 0,
        time_of(value, app, field) matches Ok(n) ==> n == value,
        count_of(value, app, field) is Ok <==> 0 <= value <= 0xffff_ffff,
        count_of(value, app, field) matches Ok(n) ==> n == value,
        stored_time(time, app, field) is Ok <==> time <= 0x7fff_ffff_ffff_ffff,
        stored_time(time, app, field) matches Ok(n) ==> n == time,
{
}

/// A row that is not there is none, and one that cannot be read is an error; it is not
/// taken for none.
pub proof fn rows_that_cannot_be_read_are_errors<R, S>(
    row: Option<R>,
    read: spec_fn(R) -> Result<S, Seq<char>>,
)
    ensures
        read_row(row, read) == Ok::<Option<S>, Seq<char>>(None) <==> row is None,
        read_row(row, read) is Err <==> row is Some && read(row->0) is Err,
        row is Some && read(row->0) is Ok ==> read_row(row, read) == Ok::<Option<S>, Seq<char>>(
            Some(read(row->0)->Ok_0),
        ),
{
}

} // verus!
