//! The course of a deploy as a whole: its retries, the requests that come in while it
//! runs, and what a forced deploy does about one that is under way.

use vstd::prelude::*;
use crate::failure::{
    is_cached_setup_failure, is_deploy_interrupted_error,
    strip_internal_deploy_error_markers, unmarked, DeployInterruptState, InterruptView,
    CACHED_SETUP_FAILURE, DEPLOY_INTERRUPT_ERR_PREFIX,
};
use crate::fingerprint::{bytes_writes, digest, digests_are_plain, text_writes};
use crate::git::{
    active_revision, deployed_revision, git_deploy_status_as_str,
    git_target_already_succeeded_with_state, parse_git_checkout_target, status_name, succeeded,
    target_of, GitCheckoutTarget, GitDeployState, GitDeployStatus, GitStateView,
    PendingGitDeployRequest, PendingView, TargetView,
};
use crate::host::kept_hash;
use crate::json::{
    field, json_bool, json_object, json_text, json_text_or_null, render_json, rendered_json,
    text_or_null, JsonView,
};
use crate::lock::DeployLockMetadata;
use crate::number::{decimal, decimal_of};
use crate::rows::{git_row, git_state_of, git_states_read_back, read_row, GitRowView};
use crate::table::lookup;
use crate::text::{
    cut_end, cut_start, is_white, outcome, same, starts_with, trim, CharClass,
};

verus! {

pub const RETRY_INITIAL_SLEEP_SECS: u64 = 1;

pub const RETRY_MAX_SLEEP_SECS: u64 = 15;

pub const FORCE_TAKEOVER_TIMEOUT_SECS: u64 = 30;

pub const WAIT_HEARTBEAT_SECS: u64 = 5;

pub const WAIT_POLL_MS: u64 = 1000;

pub const KILL_WAIT_CHECKS: u32 = 8;

pub const KILL_WAIT_MS: u64 = 150;

// ---------------------------------------------------------------------------
// Retries
// ---------------------------------------------------------------------------

/// The retries of a deploy.
#[derive(Clone, Copy, PartialEq, Eq, Structural, Debug)]
pub struct Retries {
    pub attempt: u64,
    /// The pause after the next failure.
    pub sleep_secs: u64,
    /// The next attempt must not start from a cached setup image.
    pub fresh: bool,
}

/// What follows an attempt.
pub enum AfterAttempt {
    /// The deploy is over with this result.
    Over(Result<(), String>),
    /// Try again at once.
    RetryNow,
    /// Try again after so many seconds.
    RetryAfter(u64),
}

/// The pause that follows a pause: twice as long, up to a bound.
pub open spec fn longer(sleep_secs: u64) -> u64 {
    if sleep_secs * 2 <= RETRY_MAX_SLEEP_SECS {
        (sleep_secs * 2) as u64
    } else {
        RETRY_MAX_SLEEP_SECS
    }
}

fn next_sleep(sleep_secs: u64) -> (r: u64)
    ensures
        r == longer(sleep_secs),
{
    if sleep_secs <= RETRY_MAX_SLEEP_SECS / 2 {
        sleep_secs * 2
    } else {
        RETRY_MAX_SLEEP_SECS
    }
}

/// The retries of a deploy before its first attempt.
pub fn new_retries() -> (r: Retries)
    ensures
        r == (Retries { attempt: 0, sleep_secs: RETRY_INITIAL_SLEEP_SECS, fresh: false }),
{
    Retries { attempt: 0, sleep_secs: RETRY_INITIAL_SLEEP_SECS, fresh: false }
}

pub open spec fn one_more(attempt: u64) -> u64 {
    if attempt == u64::MAX {
        attempt
    } else {
        (attempt + 1) as u64
    }
}

/// Counts an attempt.
pub fn begin_attempt(retries: Retries) -> (r: Retries)
    ensures
        r == (Retries { attempt: one_more(retries.attempt), ..retries }),
{
    let attempt: u64 = if retries.attempt == u64::MAX {
        u64::MAX
    } else {
        retries.attempt + 1
    };
    Retries { attempt, ..retries }
}

/// The retries after a pause.
pub open spec fn backed_off(retries: Retries) -> Retries {
    Retries { sleep_secs: longer(retries.sleep_secs), ..retries }
}

/// An attempt that could not even begin is made again after a pause.
pub fn back_off(retries: Retries) -> (r: (Retries, u64))
    ensures
        r.0 == backed_off(retries),
        r.1 == retries.sleep_secs,
{
    (Retries { sleep_secs: next_sleep(retries.sleep_secs), ..retries }, retries.sleep_secs)
}

pub open spec fn is_interruption(err: Seq<char>) -> bool {
    starts_with(err, DEPLOY_INTERRUPT_ERR_PREFIX@)
}

/// Whether an attempt failed on a cached setup image for the first time.
pub open spec fn blames_cache(retries: Retries, err: Seq<char>) -> bool {
    !retries.fresh && starts_with(err, CACHED_SETUP_FAILURE@)
}

/// How a deploy of a revision goes on after an attempt failed, if it does. An
/// interruption ends it. A failure on a cached setup image is tried again without it. Any
/// other failure is tried again.
pub open spec fn retried(retries: Retries, err: Seq<char>) -> Option<Retries> {
    if is_interruption(err) {
        None
    } else if blames_cache(retries, err) {
        Some(Retries { fresh: true, sleep_secs: RETRY_INITIAL_SLEEP_SECS, ..retries })
    } else {
        Some(backed_off(retries))
    }
}

/// Whether this is what follows an attempt to deploy.
pub open spec fn answers_deploy(
    retries: Retries,
    result: Result<(), Seq<char>>,
    after: Retries,
    next: AfterAttempt,
) -> bool {
    match result {
        Ok(_) => after == retries && (next matches AfterAttempt::Over(over) && over is Ok),
        Err(err) => match retried(retries, err) {
            None => {
                &&& after == retries
                &&& next matches AfterAttempt::Over(over) && outcome(over) == Err::<
                    (),
                    Seq<char>,
                >(unmarked(err))
            },
            Some(again) => {
                &&& after == again
                &&& next == if blames_cache(retries, err) {
                    AfterAttempt::RetryNow
                } else {
                    AfterAttempt::RetryAfter(retries.sleep_secs)
                }
            },
        },
    }
}

/// What follows an attempt to deploy a revision: the end, or another attempt, at once
/// where a cached setup image is to blame, else after a pause.
pub fn after_deploy_attempt(retries: Retries, result: Result<(), String>) -> (r: (
    Retries,
    AfterAttempt,
))
    ensures
        answers_deploy(retries, outcome(result), r.0, r.1),
{
    match result {
        Ok(_) => (retries, AfterAttempt::Over(Ok(()))),
        Err(err) => {
            if is_deploy_interrupted_error(err.as_str()) {
                let text = strip_internal_deploy_error_markers(err.as_str()).to_owned();
                return (retries, AfterAttempt::Over(Err(text)));
            }
            if is_cached_setup_failure(err.as_str()) && !retries.fresh {
                return (
                    Retries { fresh: true, sleep_secs: RETRY_INITIAL_SLEEP_SECS, ..retries },
                    AfterAttempt::RetryNow,
                );
            }
            let (after, pause) = back_off(retries);
            (after, AfterAttempt::RetryAfter(pause))
        },
    }
}

/// Whether this is what follows an attempt to deploy what was pushed.
pub open spec fn answers_push(
    retries: Retries,
    result: Result<(), Seq<char>>,
    after: Retries,
    next: AfterAttempt,
) -> bool {
    match result {
        Ok(_) => after == retries && (next matches AfterAttempt::Over(over) && over is Ok),
        Err(err) => if is_interruption(err) {
            &&& after == retries
            &&& next matches AfterAttempt::Over(over) && outcome(over) == Err::<(), Seq<char>>(err)
        } else {
            &&& after == backed_off(retries)
            &&& next == AfterAttempt::RetryAfter(retries.sleep_secs)
        },
    }
}

/// What follows an attempt to deploy code that was sent along.
pub fn after_push_attempt(retries: Retries, result: Result<(), String>) -> (r: (
    Retries,
    AfterAttempt,
))
    ensures
        answers_push(retries, outcome(result), r.0, r.1),
{
    match result {
        Ok(_) => (retries, AfterAttempt::Over(Ok(()))),
        Err(err) => {
            if is_deploy_interrupted_error(err.as_str()) {
                return (retries, AfterAttempt::Over(Err(err)));
            }
            let (after, pause) = back_off(retries);
            (after, AfterAttempt::RetryAfter(pause))
        },
    }
}

/// How a deploy of a revision goes on after its attempts failed in turn, if it does.
pub open spec fn still_trying(errors: Seq<Seq<char>>) -> Option<Retries>
    decreases errors.len(),
{
    if errors.len() == 0 {
        Some(Retries { attempt: 0, sleep_secs: RETRY_INITIAL_SLEEP_SECS, fresh: false })
    } else {
        match still_trying(errors.drop_last()) {
            None => None,
            Some(retries) => retried(
                Retries { attempt: one_more(retries.attempt), ..retries },
                errors.last(),
            ),
        }
    }
}

/// A deploy is tried until it succeeds: no failure ends it but an interruption, and every
/// other one is followed by another attempt.
pub proof fn failed_deploys_are_tried_again(errors: Seq<Seq<char>>)
    ensures
        still_trying(errors) is None <==> exists|i: int|
            0 <= i < errors.len() && is_interruption(#[trigger] errors[i]),
    decreases errors.len(),
{
    if errors.len() > 0 {
        let earlier = errors.drop_last();
        let last = errors.len() - 1;
        failed_deploys_are_tried_again(earlier);
        assert(errors[last] == errors.last());
        if still_trying(earlier) is None {
            let i = choose|i: int|
                0 <= i < earlier.len() && is_interruption(#[trigger] earlier[i]);
            assert(errors[i] == earlier[i]);
        } else {
            assert forall|i: int| 0 <= i < last implies !is_interruption(#[trigger] errors[i]) by {
                assert(errors[i] == earlier[i]);
            }
        }
    }
}

/// The pause after so many pauses.
pub open spec fn pause(n: nat) -> u64
    decreases n,
{
    if n == 0 {
        RETRY_INITIAL_SLEEP_SECS
    } else {
        longer(pause((n - 1) as nat))
    }
}

/// The pauses between attempts are 1, 2, 4 and 8 seconds, and 15 from then on.
pub proof fn pauses_double_up_to_a_bound(n: nat)
    ensures
        1 <= pause(n) <= 15,
        n == 0 ==> pause(n) == 1,
        n == 1 ==> pause(n) == 2,
        n == 2 ==> pause(n) == 4,
        n == 3 ==> pause(n) == 8,
        n >= 4 ==> pause(n) == 15,
    decreases n,
{
    reveal_with_fuel(pause, 5);
    if n > 0 {
        pauses_double_up_to_a_bound((n - 1) as nat);
    }
}

/// What an attempt reports when it fails, as it is shown to people.
pub fn deploy_failure_footer(app: &str, attempt: u64, err: &str, retry_sleep_secs: u64) -> (r:
    String)
    ensures
        r@ == "-----> Deploy attempt "@ + decimal(attempt as nat) + " failed for "@ + app@
            + "\n       Cause: "@ + unmarked(err@) + "\n       Auto-recovery: retrying in "@
            + decimal(retry_sleep_secs as nat) + "s (use `psht logs "@ + app@
            + "` or `psht health` to inspect)"@,
{
    let mut r = String::from_str("-----> Deploy attempt ");
    let count = decimal_of(attempt);
    r.append(count.as_str());
    r.append(" failed for ");
    r.append(app);
    r.append("\n       Cause: ");
    r.append(strip_internal_deploy_error_markers(err));
    r.append("\n       Auto-recovery: retrying in ");
    let secs = decimal_of(retry_sleep_secs);
    r.append(secs.as_str());
    r.append("s (use `psht logs ");
    r.append(app);
    r.append("` or `psht health` to inspect)");
    r
}

/// What is on record of the source of a deploy of a revision.
pub fn git_source_payload(
    git_ref: &Option<String>,
    git_sha: &Option<String>,
    force: bool,
) -> (r: String)
    ensures
        r@ == rendered_json(
            JsonView::Object(
                seq![
                    ("mode"@, JsonView::Text("git"@)),
                    ("ref"@, text_or_null(git_ref.deep_view())),
                    ("sha"@, text_or_null(git_sha.deep_view())),
                    ("force"@, JsonView::Bool(force)),
                ],
            ),
        ),
{
    let members = vec![
        field("mode", json_text("git")),
        field("ref", json_text_or_null(git_ref)),
        field("sha", json_text_or_null(git_sha)),
        field("force", json_bool(force)),
    ];
    assert(members.deep_view() =~= seq![
        ("mode"@, JsonView::Text("git"@)),
        ("ref"@, text_or_null(git_ref.deep_view())),
        ("sha"@, text_or_null(git_sha.deep_view())),
        ("force"@, JsonView::Bool(force)),
    ]);
    render_json(&json_object(members))
}

/// What is on record of the source of a deploy of code that was sent along.
pub fn push_source_payload(force: bool) -> (r: String)
    ensures
        r@ == rendered_json(
            JsonView::Object(
                seq![("mode"@, JsonView::Text("push"@)), ("force"@, JsonView::Bool(force))],
            ),
        ),
{
    let members = vec![field("mode", json_text("push")), field("force", json_bool(force))];
    assert(members.deep_view() =~= seq![
        ("mode"@, JsonView::Text("push"@)),
        ("force"@, JsonView::Bool(force)),
    ]);
    render_json(&json_object(members))
}

// ---------------------------------------------------------------------------
// Requests that come in while a deploy runs
// ---------------------------------------------------------------------------

/// Whether a request that is waiting is to be taken up after a deploy.
pub open spec fn to_process(active: Option<TargetView>, pending: PendingView) -> bool {
    pending.force || match active {
        Some(target) => target.sha != pending.sha,
        None => true,
    }
}

pub fn should_process_pending_request(
    active_target: Option<&GitCheckoutTarget>,
    pending: &PendingGitDeployRequest,
) -> (r: bool)
    ensures
        r == to_process(active_target.deep_view(), pending.deep_view()),
{
    if pending.force {
        return true;
    }
    match active_target {
        Some(target) => !same(target.sha.as_str(), pending.sha.as_str()),
        None => true,
    }
}

/// Whether a waiting request is the one with the name, or a forced one without a name
/// for the same revision.
pub open spec fn is_ours(
    pending: Option<PendingView>,
    request_id: Seq<char>,
    target_sha: Seq<char>,
) -> bool {
    match pending {
        Some(request) => request.request_id == Some(request_id) || (request.request_id is None
            && request.force && request.sha == target_sha),
        None => false,
    }
}

pub fn pending_force_request_is_ours(
    pending_request: Option<&PendingGitDeployRequest>,
    request_id: &str,
    target_sha: &str,
) -> (r: bool)
    ensures
        r == is_ours(pending_request.deep_view(), request_id@, target_sha@),
{
    match pending_request {
        Some(request) => match &request.request_id {
            Some(id) => same(id.as_str(), request_id),
            None => request.force && same(request.sha.as_str(), target_sha),
        },
        None => false,
    }
}

/// What follows a deploy that holds the lock.
#[derive(Clone, Copy, PartialEq, Eq, Structural, Debug)]
pub enum AfterDeploy {
    /// It is over; the interrupt on record is cleared where the flag is set.
    Over { clear_interrupt: bool },
    /// The waiting request is taken up; the interrupt is cleared where the flag is set.
    TakeUp { clear_interrupt: bool },
}

pub open spec fn spec_after_deploy(
    target: Option<TargetView>,
    interrupted: bool,
    pending: Option<PendingView>,
) -> AfterDeploy {
    match pending {
        None => AfterDeploy::Over { clear_interrupt: interrupted },
        Some(request) => if to_process(target, request) {
            AfterDeploy::TakeUp { clear_interrupt: interrupted }
        } else {
            AfterDeploy::Over { clear_interrupt: false }
        },
    }
}

pub fn after_deploy(
    target: Option<&GitCheckoutTarget>,
    interrupted: bool,
    pending: Option<&PendingGitDeployRequest>,
) -> (r: AfterDeploy)
    ensures
        r == spec_after_deploy(target.deep_view(), interrupted, pending.deep_view()),
{
    match pending {
        None => AfterDeploy::Over { clear_interrupt: interrupted },
        Some(request) => if should_process_pending_request(target, request) {
            AfterDeploy::TakeUp { clear_interrupt: interrupted }
        } else {
            AfterDeploy::Over { clear_interrupt: false }
        },
    }
}

/// What a deploy does that finds the lock taken.
#[derive(Clone, Copy, PartialEq, Eq, Structural, Debug)]
pub enum WhenLocked {
    /// Put the revision on the list, ask the running deploy to stop, and wait.
    InterruptAndWait,
    /// Put the revision on the list and leave it there.
    Queue,
    /// There is nothing to put on the list.
    Refuse,
}

/// What is done where another deploy of the app is under way.
pub open spec fn spec_when_locked(has_target: bool, force: bool) -> WhenLocked {
    if !has_target {
        WhenLocked::Refuse
    } else if force {
        WhenLocked::InterruptAndWait
    } else {
        WhenLocked::Queue
    }
}

pub fn when_locked(has_target: bool, force: bool) -> (r: WhenLocked)
    ensures
        r == spec_when_locked(has_target, force),
{
    if !has_target {
        WhenLocked::Refuse
    } else if force {
        WhenLocked::InterruptAndWait
    } else {
        WhenLocked::Queue
    }
}

/// The error of a deploy that finds the lock taken and has no revision to wait with.
pub fn deploy_in_progress_error(app: &str) -> (r: String)
    ensures
        r@ == "deploy already in progress for '"@ + app@ + "'; retry after it completes"@,
{
    let mut r = String::from_str("deploy already in progress for '");
    r.append(app);
    r.append("'; retry after it completes");
    r
}

/// Whether there is nothing to deploy.
pub open spec fn is_deployed(
    target: Option<TargetView>,
    force: bool,
    state: Option<GitStateView>,
) -> bool {
    !force && target is Some && succeeded(state, target->0)
}

/// Whether a revision need not be deployed: it is on record as deployed and the deploy
/// is not forced. A record that cannot be read counts as none.
pub fn already_deployed(
    target: Option<&GitCheckoutTarget>,
    force: bool,
    state: Option<&GitDeployState>,
) -> (r: bool)
    ensures
        r == is_deployed(target.deep_view(), force, state.deep_view()),
{
    match target {
        Some(target) => !force && git_target_already_succeeded_with_state(state, target),
        None => false,
    }
}

/// What is put on record of a revision after its deploy.
pub open spec fn status_after(result: Result<(), Seq<char>>) -> GitDeployStatus {
    match result {
        Ok(_) => GitDeployStatus::Success,
        Err(err) => if is_interruption(err) {
            GitDeployStatus::Interrupted
        } else {
            GitDeployStatus::Failed
        },
    }
}

pub fn git_status_after(result: &Result<(), String>) -> (r: GitDeployStatus)
    ensures
        r == status_after(outcome(*result)),
{
    match result {
        Ok(_) => GitDeployStatus::Success,
        Err(err) => if is_deploy_interrupted_error(err.as_str()) {
            GitDeployStatus::Interrupted
        } else {
            GitDeployStatus::Failed
        },
    }
}

/// A revision counts as deployed only once its deploy succeeded: one that failed or was
/// interrupted is deployed again.
pub proof fn only_successes_count(
    states: Map<Seq<char>, GitRowView>,
    app: Seq<char>,
    target: TargetView,
    result: Result<(), Seq<char>>,
)
    ensures
        ({
            let after = states.insert(app, git_row(target, status_after(result)));
            let read = read_row(lookup(after, app), |row: GitRowView| git_state_of(row));
            read is Ok && (succeeded(read->Ok_0, target) <==> result is Ok)
        }),
{
    git_states_read_back(states, app, target, status_after(result));
}

/// The revision that a deploy is put on record with: the one that was asked for, or else
/// the last that was deployed.
pub open spec fn revision_of(
    target: Result<Option<TargetView>, Seq<char>>,
    state: Option<GitStateView>,
) -> Option<Seq<char>> {
    match target {
        Ok(Some(target)) => Some(target.sha),
        _ => deployed_revision(state),
    }
}

pub fn deploy_revision(
    git_ref: Option<&str>,
    git_sha: Option<&str>,
    state: Option<&GitDeployState>,
) -> (r: Option<String>)
    ensures
        r.deep_view() == revision_of(
            target_of(git_ref.deep_view(), git_sha.deep_view()),
            state.deep_view(),
        ),
{
    match parse_git_checkout_target(git_ref, git_sha) {
        Ok(Some(target)) => Some(target.sha),
        _ => active_revision(state),
    }
}

/// What becomes of code that was sent along.
#[derive(Clone, Copy, PartialEq, Eq, Structural, Debug)]
pub enum PushDecision {
    Deploy,
    /// The binary is the one that runs, and is deployed all the same.
    Force,
    /// The binary is the one that runs.
    Skip,
}

pub open spec fn spec_push_decision(
    sent: Option<Seq<char>>,
    active: bool,
    kept: Option<Seq<char>>,
    force: bool,
) -> PushDecision {
    if sent is Some && active && kept == sent {
        if force {
            PushDecision::Force
        } else {
            PushDecision::Skip
        }
    } else {
        PushDecision::Deploy
    }
}

/// What becomes of code that was sent along, by the hash of its binary where it is one,
/// and the hash of the binary that was deployed last.
pub fn push_decision(sent: Option<&str>, active: bool, kept: Option<&str>, force: bool) -> (r:
    PushDecision)
    ensures
        r == spec_push_decision(sent.deep_view(), active, kept.deep_view(), force),
{
    let unchanged = match (sent, kept) {
        (Some(sent), Some(kept)) => same(sent, kept),
        _ => false,
    };
    if unchanged && active {
        if force {
            PushDecision::Force
        } else {
            PushDecision::Skip
        }
    } else {
        PushDecision::Deploy
    }
}

/// A deploy is skipped only where it is not forced, the app is active, and the binary is
/// the one that was deployed last.
pub proof fn forced_pushes_are_not_skipped(
    sent: Option<Seq<char>>,
    active: bool,
    kept: Option<Seq<char>>,
    force: bool,
)
    ensures
        spec_push_decision(sent, active, kept, force) == PushDecision::Skip <==> !force && active
            && sent is Some && kept == sent,
{
}

/// A binary that was deployed is not deployed again while its app is active: its hash,
/// once kept, reads back as the hash of the same binary and start command.
pub proof fn unchanged_binaries_are_skipped(marker: Seq<char>, bytes: Seq<u8>)
    ensures
        ({
            let hash = digest(text_writes(trim(marker)) + bytes_writes(bytes));
            spec_push_decision(Some(hash), true, kept_hash(Some(hash + "\n"@)), false)
                == PushDecision::Skip
        }),
{
    let writes = text_writes(trim(marker)) + bytes_writes(bytes);
    let hash = digest(writes);
    let text = hash + "\n"@;
    digests_are_plain(writes);
    reveal_strlit("\n");
    assert(!is_white(hash[0]) && !is_white(hash[15]));
    assert(text[0] == hash[0]);
    assert(text.last() == '\n');
    assert(text.drop_last() =~= hash);
    assert(cut_start(text, CharClass::White) == text);
    assert(cut_end(hash, CharClass::White) == hash);
    assert(trim(text) == hash);
}

// ---------------------------------------------------------------------------
// The wait of a forced deploy
// ---------------------------------------------------------------------------

/// What a forced deploy sees while it waits for the one under way.
pub struct Watch {
    pub lock_active: bool,
    pub pending: Option<PendingGitDeployRequest>,
    pub state: Option<GitDeployState>,
    pub interrupt: Option<DeployInterruptState>,
    pub elapsed_secs: u64,
    /// The lock was free a moment ago, but could not be had.
    pub lock_refused: bool,
}

/// The mathematical form of what is seen.
#[verifier::ext_equal]
pub struct WatchView {
    pub lock_active: bool,
    pub pending: Option<PendingView>,
    pub state: Option<GitStateView>,
    pub interrupt: Option<InterruptView>,
    pub elapsed_secs: u64,
    pub lock_refused: bool,
}

impl DeepView for Watch {
    type V = WatchView;

    open spec fn deep_view(&self) -> WatchView {
        WatchView {
            lock_active: self.lock_active,
            pending: self.pending.deep_view(),
            state: self.state.deep_view(),
            interrupt: self.interrupt.deep_view(),
            elapsed_secs: self.elapsed_secs,
            lock_refused: self.lock_refused,
        }
    }
}

/// What a forced deploy does next.
pub enum Forced {
    /// The revision is deployed.
    Complete,
    /// The running deploy does not make way: stop it and take its lock.
    StopHolder,
    /// The running deploy is gone: take the lock, and the waiting request where the
    /// flag is set.
    TakeLock { take_request: bool },
    /// The deploy of the revision came to nothing.
    Fail(String),
    /// Wait on, and say this.
    Wait(String),
}

pub open spec fn interrupt_is_ours(w: WatchView, request_id: Seq<char>) -> bool {
    match w.interrupt {
        Some(interrupt) => interrupt.request_id == request_id,
        None => false,
    }
}

/// Whether the deploy of the revision is on record as failed or interrupted.
pub open spec fn came_to_nothing(w: WatchView, target: TargetView) -> bool {
    match w.state {
        Some(state) => state.sha == target.sha && (state.status == GitDeployStatus::Failed
            || state.status == GitDeployStatus::Interrupted),
        None => false,
    }
}

pub open spec fn pending_is_for(w: WatchView, target: TargetView) -> bool {
    match w.pending {
        Some(request) => request.sha == target.sha,
        None => false,
    }
}

/// What is said while a forced deploy waits.
pub open spec fn wait_line(w: WatchView, target: TargetView, request_id: Seq<char>) -> Seq<char> {
    match w.pending {
        Some(request) => if request.request_id != Some(request_id) {
            "forced request superseded by newer pending request "@ + (match request.request_id {
                Some(id) => id,
                None => "-"@,
            }) + "; waiting for latest"@
        } else if w.lock_active && w.elapsed_secs >= 15 {
            "interrupt requested; waiting for active deploy to stop (it may be in a long-running command)"@
        } else if w.lock_active {
            "interrupt requested; waiting for active deploy to stop"@
        } else {
            "interrupt requested; waiting for forced deploy to start"@
        },
        None => if w.lock_active {
            "forced pending picked up; waiting for deploy completion"@
        } else {
            match w.state {
                Some(state) if state.sha == target.sha => "last deploy status for target is "@
                    + status_name(state.status),
                _ => "waiting for deploy scheduler state"@,
            }
        },
    }
}

pub open spec fn forced_failure(target: TargetView) -> Seq<char> {
    "forced deploy did not complete successfully for "@ + target.ref_name + " ("@ + target.sha
        + ")"@
}

/// What a forced deploy does about what it sees.
pub open spec fn forced_step_is(
    w: WatchView,
    target: TargetView,
    request_id: Seq<char>,
    step: Forced,
) -> bool {
    let ours = is_ours(w.pending, request_id, target.sha);
    let asked = interrupt_is_ours(w, request_id);
    if succeeded(w.state, target) && !ours {
        step is Complete
    } else if w.lock_active && asked && ours && w.elapsed_secs >= FORCE_TAKEOVER_TIMEOUT_SECS {
        step is StopHolder
    } else if !w.lock_active && asked && !w.lock_refused {
        step == Forced::TakeLock { take_request: ours }
    } else if !w.lock_active && !pending_is_for(w, target) && came_to_nothing(w, target) {
        step matches Forced::Fail(message) && message@ == forced_failure(target)
    } else {
        step matches Forced::Wait(line) && line@ == wait_line(w, target, request_id)
    }
}

fn wait_text(w: &Watch, target: &GitCheckoutTarget, request_id: &str) -> (r: String)
    ensures
        r@ == wait_line(w.deep_view(), target.deep_view(), request_id@),
{
    match &w.pending {
        Some(request) => {
            let own = match &request.request_id {
                Some(id) => same(id.as_str(), request_id),
                None => false,
            };
            if !own {
                let mut r = String::from_str("forced request superseded by newer pending request ");
                match &request.request_id {
                    Some(id) => r.append(id.as_str()),
                    None => r.append("-"),
                }
                r.append("; waiting for latest");
                return r;
            }
            if w.lock_active && w.elapsed_secs >= 15 {
                String::from_str(
                    "interrupt requested; waiting for active deploy to stop (it may be in a long-running command)",
                )
            } else if w.lock_active {
                String::from_str("interrupt requested; waiting for active deploy to stop")
            } else {
                String::from_str("interrupt requested; waiting for forced deploy to start")
            }
        },
        None => {
            if w.lock_active {
                return String::from_str("forced pending picked up; waiting for deploy completion");
            }
            if let Some(state) = &w.state {
                if same(state.sha.as_str(), target.sha.as_str()) {
                    let mut r = String::from_str("last deploy status for target is ");
                    r.append(git_deploy_status_as_str(state.status));
                    return r;
                }
            }
            String::from_str("waiting for deploy scheduler state")
        },
    }
}

/// What a forced deploy does about what it sees.
pub fn forced_step(w: &Watch, target: &GitCheckoutTarget, request_id: &str) -> (r: Forced)
    ensures
        forced_step_is(w.deep_view(), target.deep_view(), request_id@, r),
{
    let ours = pending_force_request_is_ours(w.pending.as_ref(), request_id, target.sha.as_str());
    let asked = match &w.interrupt {
        Some(interrupt) => same(interrupt.request_id.as_str(), request_id),
        None => false,
    };
    if git_target_already_succeeded_with_state(w.state.as_ref(), target) && !ours {
        return Forced::Complete;
    }
    if w.lock_active && asked && ours && w.elapsed_secs >= FORCE_TAKEOVER_TIMEOUT_SECS {
        return Forced::StopHolder;
    }
    if !w.lock_active && asked && !w.lock_refused {
        return Forced::TakeLock { take_request: ours };
    }
    let waiting = match &w.pending {
        Some(request) => same(request.sha.as_str(), target.sha.as_str()),
        None => false,
    };
    let failed = match &w.state {
        Some(state) => same(state.sha.as_str(), target.sha.as_str()) && (state.status
            == GitDeployStatus::Failed || state.status == GitDeployStatus::Interrupted),
        None => false,
    };
    if !w.lock_active && !waiting && failed {
        let mut message = String::from_str("forced deploy did not complete successfully for ");
        message.append(target.ref_name.as_str());
        message.append(" (");
        message.append(target.sha.as_str());
        message.append(")");
        return Forced::Fail(message);
    }
    Forced::Wait(wait_text(w, target, request_id))
}

/// A running deploy is stopped by force only where it was asked to stop by this
/// request, the request still waits, and it has had its time to make way.
pub proof fn holders_get_their_time(
    w: WatchView,
    target: TargetView,
    request_id: Seq<char>,
    step: Forced,
)
    requires
        forced_step_is(w, target, request_id, step),
        step is StopHolder,
    ensures
        w.lock_active,
        w.elapsed_secs >= 30,
        interrupt_is_ours(w, request_id),
        is_ours(w.pending, request_id, target.sha),
{
}

/// What is done about the process that holds a lock.
#[derive(Clone, Copy, PartialEq, Eq, Structural, Debug)]
pub enum HolderAction {
    /// The lock is gone, or the process is, or it is not known.
    ClearLock,
    Kill(u32),
}

/// What is done about the holder of a lock.
pub open spec fn spec_holder_action(metadata: Option<DeployLockMetadata>, alive: bool) -> HolderAction {
    match metadata {
        Some(DeployLockMetadata { pid: Some(pid), .. }) if alive => HolderAction::Kill(pid),
        _ => HolderAction::ClearLock,
    }
}

pub fn holder_action(metadata: Option<DeployLockMetadata>, alive: bool) -> (r: HolderAction)
    ensures
        r == spec_holder_action(metadata, alive),
{
    match metadata {
        Some(metadata) => match metadata.pid {
            Some(pid) => if alive {
                HolderAction::Kill(pid)
            } else {
                HolderAction::ClearLock
            },
            None => HolderAction::ClearLock,
        },
        None => HolderAction::ClearLock,
    }
}

pub open spec fn survived_message(pid: u32) -> Seq<char> {
    "lock holder pid "@ + decimal(pid as nat) + " did not exit after SIGKILL"@
}

pub fn holder_survived_error(pid: u32) -> (r: String)
    ensures
        r@ == survived_message(pid),
{
    let mut r = String::from_str("lock holder pid ");
    let n = decimal_of(pid as u64);
    r.append(n.as_str());
    r.append(" did not exit after SIGKILL");
    r
}

/// What follows the attempt to kill the holder of a lock.
pub enum KillStep {
    Gone,
    /// See whether it is still there, and pause where it is.
    Check,
    Survived(String),
}

/// What follows the attempt to kill the holder of a lock, after so many looks at it.
pub fn kill_step(pid: u32, checks: u32, gone: bool) -> (r: KillStep)
    ensures
        r is Gone <==> gone,
        r is Check <==> !gone && checks < KILL_WAIT_CHECKS,
        r matches KillStep::Survived(message) ==> message@ == survived_message(pid),
{
    if gone {
        KillStep::Gone
    } else if checks < KILL_WAIT_CHECKS {
        KillStep::Check
    } else {
        KillStep::Survived(holder_survived_error(pid))
    }
}

pub fn takeover_refused_error(lock_path: &str) -> (r: String)
    ensures
        r@ == "failed to acquire deploy lock after forced takeover at "@ + lock_path@
            + "; a concurrent deploy may still be running"@,
{
    let mut r = String::from_str("failed to acquire deploy lock after forced takeover at ");
    r.append(lock_path);
    r.append("; a concurrent deploy may still be running");
    r
}

/// Whether a line is said again: it is new, or was not said for a while. Gives the time
/// from which on it is said again.
pub fn say_again(line: &str, last_line: &str, elapsed_secs: u64, next_heartbeat: u64) -> (r: Option<
    u64,
>)
    ensures
        r is Some <==> line@ != last_line@ || elapsed_secs >= next_heartbeat,
        r is Some ==> r->0 == if elapsed_secs + WAIT_HEARTBEAT_SECS <= u64::MAX {
            (elapsed_secs + WAIT_HEARTBEAT_SECS) as u64
        } else {
            u64::MAX
        },
{
    if !same(line, last_line) || elapsed_secs >= next_heartbeat {
        Some(elapsed_secs.saturating_add(WAIT_HEARTBEAT_SECS))
    } else {
        None
    }
}

/// A failed attempt is the last one exactly where it was interrupted. The next one follows
/// at once, and from scratch, the first time a cached setup is to blame; from then on every
/// attempt is from scratch. Any other failure is followed by a pause, and the one after by
/// a longer one.
pub proof fn failures_are_answered(retries: Retries, err: Seq<char>)
    ensures
        ({
            let after = retried(retries, err);
            let interrupted = starts_with(err, DEPLOY_INTERRUPT_ERR_PREFIX@);
            let cached = starts_with(err, CACHED_SETUP_FAILURE@);
            &&& after is None <==> interrupted
            &&& after is Some ==> {
                &&& after->0.attempt == retries.attempt
                &&& after->0.fresh <==> retries.fresh || cached
                &&& cached && !retries.fresh ==> after->0.sleep_secs == 1
                &&& !cached || retries.fresh ==> after->0.sleep_secs == if retries.sleep_secs >= 8 {
                    15
                } else {
                    2 * retries.sleep_secs
                }
            }
        }),
{
}

/// A request that waits is taken up after a deploy exactly where it insists, no revision was
/// deployed, or another one was.
pub proof fn waiting_requests_are_taken_up(
    target: Option<TargetView>,
    interrupted: bool,
    pending: Option<PendingView>,
)
    ensures
        ({
            let after = spec_after_deploy(target, interrupted, pending);
            &&& after is TakeUp <==> pending is Some && (pending->0.force || target is None
                || target->0.sha != pending->0.sha)
            &&& after is TakeUp ==> after->TakeUp_clear_interrupt == interrupted
            &&& after is Over ==> after->Over_clear_interrupt == (pending is None && interrupted)
        }),
{
}

/// A deploy counts as a success exactly where it ended without an error, and as interrupted
/// exactly where its error says so.
pub proof fn results_are_told_apart(result: Result<(), Seq<char>>)
    ensures
        status_after(result) == GitDeployStatus::Success <==> result is Ok,
        status_after(result) == GitDeployStatus::Interrupted <==> result is Err && starts_with(
            result->Err_0,
            DEPLOY_INTERRUPT_ERR_PREFIX@,
        ),
        status_after(result) == GitDeployStatus::Failed <==> result is Err && !starts_with(
            result->Err_0,
            DEPLOY_INTERRUPT_ERR_PREFIX@,
        ),
{
}

/// The revision of a deploy is the one asked for, or else the last one that was deployed
/// with success.
pub proof fn deploys_are_of_a_revision(
    target: Result<Option<TargetView>, Seq<char>>,
    state: Option<GitStateView>,
)
    ensures
        target matches Ok(Some(asked)) ==> revision_of(target, state) == Some(asked.sha),
        !(target matches Ok(Some(_))) ==> {
            &&& revision_of(target, state) is Some <==> state is Some && state->0.status
                == GitDeployStatus::Success
            &&& revision_of(target, state) is Some ==> revision_of(target, state)->0
                == state->0.sha
        },
{
}

/// A binary that is sent is passed over exactly where it is the one that runs and nothing
/// insists on it.
pub proof fn binaries_are_passed_over_where_they_run(
    sent: Option<Seq<char>>,
    active: bool,
    kept: Option<Seq<char>>,
    force: bool,
)
    ensures
        ({
            let same = sent is Some && kept is Some && sent->0 == kept->0 && active;
            &&& spec_push_decision(sent, active, kept, force) == PushDecision::Skip <==> same
                && !force
            &&& spec_push_decision(sent, active, kept, force) == PushDecision::Force <==> same
                && force
            &&& spec_push_decision(sent, active, kept, force) == PushDecision::Deploy <==> !same
        }),
{
}

/// A request is one's own by its id; one without an id by what it asks for, if it insists.
pub proof fn requests_are_known_by_their_id(
    pending: Option<PendingView>,
    request_id: Seq<char>,
    target_sha: Seq<char>,
)
    ensures
        is_ours(pending, request_id, target_sha) <==> pending is Some && {
            ||| pending->0.request_id is Some && pending->0.request_id->0 == request_id
            ||| pending->0.request_id is None && pending->0.force && pending->0.sha == target_sha
        },
{
}

/// One who insists on a revision is done where it is deployed and the request does not wait
/// any more. A lock that is free is taken by one whose interrupt stands, unless another was
/// just faster. A revision that came to nothing is given up only where the lock is free and
/// nobody asks for it again.
pub proof fn insisting_ends_when_it_is_met_or_fails(
    w: WatchView,
    target: TargetView,
    request_id: Seq<char>,
    step: Forced,
)
    requires
        forced_step_is(w, target, request_id, step),
    ensures
        ({
            let waits = is_ours(w.pending, request_id, target.sha);
            let met = w.state is Some && w.state->0.status == GitDeployStatus::Success
                && w.state->0.sha == target.sha && !waits;
            let asked = w.interrupt is Some && w.interrupt->0.request_id == request_id;
            let lost = w.state is Some && w.state->0.sha == target.sha && (w.state->0.status
                == GitDeployStatus::Failed || w.state->0.status == GitDeployStatus::Interrupted);
            let wanted = w.pending is Some && w.pending->0.sha == target.sha;
            &&& step is Complete <==> met
            &&& step is StopHolder <==> !met && w.lock_active && asked && waits && w.elapsed_secs
                >= 30
            &&& step is TakeLock <==> !met && !w.lock_active && asked && !w.lock_refused
            &&& step is TakeLock ==> step->take_request == waits
            &&& step is Fail <==> !met && !w.lock_active && (!asked || w.lock_refused) && lost
                && !wanted
        }),
{
}

/// A deploy that finds another under way is refused where it names no revision; one that
/// does is put on the list, and asks the other to stop exactly where it insists.
pub proof fn locked_apps_take_requests(has_target: bool, force: bool)
    ensures
        spec_when_locked(has_target, force) == WhenLocked::Refuse <==> !has_target,
        spec_when_locked(has_target, force) == WhenLocked::InterruptAndWait <==> has_target
            && force,
        spec_when_locked(has_target, force) == WhenLocked::Queue <==> has_target && !force,
{
}

/// Only a process that is known to hold the lock and lives is stopped; else the lock alone
/// is taken away.
pub proof fn only_living_holders_are_stopped(metadata: Option<DeployLockMetadata>, alive: bool)
    ensures
        spec_holder_action(metadata, alive) is Kill <==> alive && metadata is Some
            && metadata->0.pid is Some,
        spec_holder_action(metadata, alive) matches HolderAction::Kill(pid) ==> metadata->0.pid
            == Some(pid),
{
}

/// A deploy is over exactly where it succeeded or was interrupted, and then with what came
/// of it. Any other failure is followed by another attempt: at once the first time a cached
/// setup is to blame, and else after the pause that is due.
pub proof fn deploys_are_over_or_tried_again(
    retries: Retries,
    result: Result<(), Seq<char>>,
    after: Retries,
    next: AfterAttempt,
)
    requires
        answers_deploy(retries, result, after, next),
    ensures
        ({
            let interrupted = result is Err && starts_with(
                result->Err_0,
                DEPLOY_INTERRUPT_ERR_PREFIX@,
            );
            let cached = result is Err && starts_with(result->Err_0, CACHED_SETUP_FAILURE@);
            &&& next is Over <==> result is Ok || interrupted
            &&& next is Over ==> (next->Over_0 is Ok <==> result is Ok) && after == retries
            &&& next is RetryNow <==> result is Err && !interrupted && cached && !retries.fresh
            &&& next is RetryNow ==> after.fresh
            &&& next is RetryAfter ==> next->RetryAfter_0 == retries.sleep_secs && after.fresh
                == retries.fresh
        }),
{
}

/// The same holds of what was pushed, save that no attempt follows at once.
pub proof fn pushes_are_over_or_tried_again(
    retries: Retries,
    result: Result<(), Seq<char>>,
    after: Retries,
    next: AfterAttempt,
)
    requires
        answers_push(retries, result, after, next),
    ensures
        ({
            let interrupted = result is Err && starts_with(
                result->Err_0,
                DEPLOY_INTERRUPT_ERR_PREFIX@,
            );
            &&& next is Over <==> result is Ok || interrupted
            &&& next is Over ==> (next->Over_0 is Ok <==> result is Ok) && after == retries
            &&& !(next is Over) ==> next == AfterAttempt::RetryAfter(retries.sleep_secs)
                && after.sleep_secs == if retries.sleep_secs >= 8 {
                15
            } else {
                2 * retries.sleep_secs
            }
        }),
{
}

/// There is nothing to deploy exactly where a revision is named that was deployed with
/// success last, and nothing insists on it.
pub proof fn deployed_revisions_are_left_alone(
    target: Option<TargetView>,
    force: bool,
    state: Option<GitStateView>,
)
    ensures
        is_deployed(target, force, state) <==> {
            &&& !force
            &&& target is Some && state is Some
            &&& state->0.status == GitDeployStatus::Success
            &&& state->0.sha == target->0.sha
        },
{
}

} // verus!
