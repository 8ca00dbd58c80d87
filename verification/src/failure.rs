//! The messages with which a deploy fails, and what is read off them.

use vstd::prelude::*;
use crate::number::{decimal, decimal_of};
use crate::text::{has_prefix, starts_with, strip_prefix, without_prefix};

verus! {

pub const DEPLOY_INTERRUPT_ERR_PREFIX: &'static str = "deploy interrupted";

pub const CACHED_SETUP_FAILURE: &'static str = "__psht_cached_setup_failure__:";

pub const FRESH_SETUP_FAILURE: &'static str = "__psht_fresh_setup_failure__:";

/// Marks the failure of a build that started from a cached setup image.
pub fn mark_cached_setup_failure(err: &str) -> (r: String)
    ensures
        r@ == CACHED_SETUP_FAILURE@ + err@,
{
    let mut r = CACHED_SETUP_FAILURE.to_owned();
    r.append(err);
    r
}

/// Marks the failure of a build that was told not to use a cached setup image.
pub fn mark_fresh_setup_failure(err: &str) -> (r: String)
    ensures
        r@ == FRESH_SETUP_FAILURE@ + err@,
{
    let mut r = FRESH_SETUP_FAILURE.to_owned();
    r.append(err);
    r
}

pub fn is_cached_setup_failure(err: &str) -> (r: bool)
    ensures
        r == starts_with(err@, CACHED_SETUP_FAILURE@),
{
    has_prefix(err, CACHED_SETUP_FAILURE)
}

pub fn is_fresh_setup_failure(err: &str) -> (r: bool)
    ensures
        r == starts_with(err@, FRESH_SETUP_FAILURE@),
{
    has_prefix(err, FRESH_SETUP_FAILURE)
}

/// The message without the mark in front of it.
pub open spec fn unmarked(err: Seq<char>) -> Seq<char> {
    match strip_prefix(err, CACHED_SETUP_FAILURE@) {
        Some(rest) => rest,
        None => match strip_prefix(err, FRESH_SETUP_FAILURE@) {
            Some(rest) => rest,
            None => err,
        },
    }
}

pub fn strip_internal_deploy_error_markers<'a>(err: &'a str) -> (r: &'a str)
    ensures
        r@ == unmarked(err@),
{
    match without_prefix(err, CACHED_SETUP_FAILURE) {
        Some(rest) => rest,
        None => match without_prefix(err, FRESH_SETUP_FAILURE) {
            Some(rest) => rest,
            None => err,
        },
    }
}

/// Taking a mark off gives back the message that was marked, and each mark is told
/// from the other.
pub proof fn marks_come_off(err: Seq<char>)
    ensures
        unmarked(CACHED_SETUP_FAILURE@ + err) == err,
        unmarked(FRESH_SETUP_FAILURE@ + err) == err,
        !starts_with(CACHED_SETUP_FAILURE@ + err, FRESH_SETUP_FAILURE@),
        !starts_with(FRESH_SETUP_FAILURE@ + err, CACHED_SETUP_FAILURE@),
{
    let cached = CACHED_SETUP_FAILURE@;
    let fresh = FRESH_SETUP_FAILURE@;
    reveal_strlit("__psht_cached_setup_failure__:");
    reveal_strlit("__psht_fresh_setup_failure__:");
    assert((cached + err).take(cached.len() as int) =~= cached);
    assert((cached + err).skip(cached.len() as int) =~= err);
    assert((fresh + err).take(fresh.len() as int) =~= fresh);
    assert((fresh + err).skip(fresh.len() as int) =~= err);
    assert(cached[7] == 'c' && fresh[7] == 'f');
    if starts_with(cached + err, fresh) {
        assert((cached + err).take(fresh.len() as int)[7] == cached[7]);
    }
    if starts_with(fresh + err, cached) {
        assert((fresh + err).take(cached.len() as int)[7] == fresh[7]);
    }
}

/// A request that the running deploy make way.
#[derive(PartialEq, Eq, Debug)]
pub struct DeployInterruptState {
    pub request_id: String,
    pub requested_at: u64,
    pub target_sha: String,
}

/// The mathematical form of an interrupt request.
#[verifier::ext_equal]
pub struct InterruptView {
    pub request_id: Seq<char>,
    pub requested_at: u64,
    pub target_sha: Seq<char>,
}

impl DeepView for DeployInterruptState {
    type V = InterruptView;

    open spec fn deep_view(&self) -> InterruptView {
        InterruptView {
            request_id: self.request_id@,
            requested_at: self.requested_at,
            target_sha: self.target_sha@,
        }
    }
}

/// The message of a deploy that made way during `phase`.
pub open spec fn interrupted_message(phase: Seq<char>, state: InterruptView) -> Seq<char> {
    DEPLOY_INTERRUPT_ERR_PREFIX@ + " (phase: "@ + phase + ", request: "@ + state.request_id
        + ", requested_at: "@ + decimal(state.requested_at as nat) + ")"@
}

pub fn deploy_interrupted_error(phase: &str, state: &DeployInterruptState) -> (r: String)
    ensures
        r@ == interrupted_message(phase@, state.deep_view()),
{
    let mut r = DEPLOY_INTERRUPT_ERR_PREFIX.to_owned();
    r.append(" (phase: ");
    r.append(phase);
    r.append(", request: ");
    r.append(state.request_id.as_str());
    r.append(", requested_at: ");
    let at = decimal_of(state.requested_at);
    r.append(at.as_str());
    r.append(")");
    r
}

pub fn is_deploy_interrupted_error(err: &str) -> (r: bool)
    ensures
        r == starts_with(err@, DEPLOY_INTERRUPT_ERR_PREFIX@),
{
    has_prefix(err, DEPLOY_INTERRUPT_ERR_PREFIX)
}

pub fn deploy_result_was_interrupted(result: &Result<(), String>) -> (r: bool)
    ensures
        r == (result is Err && starts_with(result->Err_0@, DEPLOY_INTERRUPT_ERR_PREFIX@)),
{
    match result {
        Ok(_) => false,
        Err(err) => is_deploy_interrupted_error(err.as_str()),
    }
}

/// Every message of an interrupted deploy is known as one.
pub proof fn interruptions_are_recognised(phase: Seq<char>, state: InterruptView)
    ensures
        starts_with(interrupted_message(phase, state), DEPLOY_INTERRUPT_ERR_PREFIX@),
{
    let prefix = DEPLOY_INTERRUPT_ERR_PREFIX@;
    assert(interrupted_message(phase, state).take(prefix.len() as int) =~= prefix);
}

/// What a check between two steps of a deploy finds: the lease on the app, a signal
/// to stop, and the interrupt that is on record.
pub enum InterruptCheck {
    /// The lease is lost, with this error.
    LeaseLost(String),
    /// Nothing asks the deploy to stop.
    Clear,
    /// An interrupt is on record.
    OnRecord(DeployInterruptState),
    /// A signal came and nothing is on record: this is the interrupt to record.
    Signalled(DeployInterruptState),
}

/// Whether the deploy goes on after a check during `phase`, and how it fails if not.
pub open spec fn interrupt_verdict(phase: Seq<char>, check: InterruptCheck) -> Result<(), Seq<char>> {
    match check {
        InterruptCheck::LeaseLost(err) => Err(
            "reconcile lease check failed during "@ + phase + ": "@ + err@,
        ),
        InterruptCheck::Clear => Ok(()),
        InterruptCheck::OnRecord(state) => Err(interrupted_message(phase, state.deep_view())),
        InterruptCheck::Signalled(state) => Err(interrupted_message(phase, state.deep_view())),
    }
}

pub fn check_deploy_interrupt(phase: &str, check: &InterruptCheck) -> (r: Result<(), String>)
    ensures
        crate::text::outcome(r) == interrupt_verdict(phase@, *check),
{
    match check {
        InterruptCheck::LeaseLost(err) => {
            let mut message = String::from_str("reconcile lease check failed during ");
            message.append(phase);
            message.append(": ");
            message.append(err.as_str());
            Err(message)
        },
        InterruptCheck::Clear => Ok(()),
        InterruptCheck::OnRecord(state) => Err(deploy_interrupted_error(phase, state)),
        InterruptCheck::Signalled(state) => Err(deploy_interrupted_error(phase, state)),
    }
}

/// The interrupt that a signal to the process stands for.
pub fn deploy_interrupt_state_for_signal(
    process_id: u32,
    now: u64,
    deployed_sha: &Option<String>,
) -> (r: DeployInterruptState)
    ensures
        r.deep_view() == (InterruptView {
            request_id: "signal-"@ + decimal(process_id as nat) + "-"@ + decimal(now as nat),
            requested_at: now,
            target_sha: match deployed_sha {
                Some(sha) => sha@,
                None => "unknown"@,
            },
        }),
{
    let mut request_id = String::from_str("signal-");
    let pid = decimal_of(process_id as u64);
    request_id.append(pid.as_str());
    request_id.append("-");
    let at = decimal_of(now);
    request_id.append(at.as_str());
    let target_sha = match deployed_sha {
        Some(sha) => sha.clone(),
        None => String::from_str("unknown"),
    };
    DeployInterruptState { request_id, requested_at: now, target_sha }
}

/// The name of a request: when and by which process it was made.
pub fn deploy_request_id(now: u64, process_id: u32) -> (r: String)
    ensures
        r@ == decimal(now as nat) + "-"@ + decimal(process_id as nat),
{
    let mut r = decimal_of(now);
    r.append("-");
    let pid = decimal_of(process_id as u64);
    r.append(pid.as_str());
    r
}

/// A deploy goes on exactly where its lease holds and nothing asks it to stop; only what
/// asks it to stop interrupts it.
pub proof fn deploys_go_on_until_they_are_asked_to_stop(phase: Seq<char>, check: InterruptCheck)
    ensures
        interrupt_verdict(phase, check) is Ok <==> check is Clear,
        check is OnRecord || check is Signalled ==> starts_with(
            interrupt_verdict(phase, check)->Err_0,
            DEPLOY_INTERRUPT_ERR_PREFIX@,
        ),
        check is LeaseLost ==> !starts_with(
            interrupt_verdict(phase, check)->Err_0,
            DEPLOY_INTERRUPT_ERR_PREFIX@,
        ),
{
    match check {
        InterruptCheck::OnRecord(state) => {
            interruptions_are_recognised(phase, state.deep_view());
        },
        InterruptCheck::Signalled(state) => {
            interruptions_are_recognised(phase, state.deep_view());
        },
        InterruptCheck::LeaseLost(err) => {
            let said = interrupt_verdict(phase, check)->Err_0;
            reveal_strlit("reconcile lease check failed during ");
            reveal_strlit("deploy interrupted");
            assert(said[0] == 'r');
            if starts_with(said, DEPLOY_INTERRUPT_ERR_PREFIX@) {
                assert(said.take(DEPLOY_INTERRUPT_ERR_PREFIX@.len() as int)[0] == 'd');
            }
        },
        InterruptCheck::Clear => {},
    }
}

} // verus!
