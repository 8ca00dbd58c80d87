//! A deploy that builds a candidate container beside the active one, switches the
//! traffic over, and switches it back where the cutover fails.
//!
//! The deploy is a state machine. Its steps are numbered in the order in which they
//! are done; [`BlueGreen::step`] is the step to do now. The caller does it and
//! reports what became of it, and [`next`] gives the state that follows: the first
//! later step that is due.

use vstd::prelude::*;
use crate::failure::{
    mark_cached_setup_failure, mark_fresh_setup_failure, CACHED_SETUP_FAILURE, FRESH_SETUP_FAILURE,
};
use crate::shell::{join_or_none, spec_join_or_none};
use crate::text::{outcome, push_text};

verus! {

// The preparation: nothing that serves traffic is touched.

pub const READ_PROJECT: u8 = 0;

pub const PROBE_PROJECT: u8 = 1;

pub const ENSURE_PROFILE: u8 = 2;

pub const INIT_STACKS: u8 = 3;

pub const CHECK_PREFLIGHT: u8 = 4;

pub const RESOLVE_ACTIVE: u8 = 5;

pub const READ_PREVIOUS: u8 = 6;

pub const DETECT_APP: u8 = 7;

pub const READ_ENV: u8 = 8;

pub const CHECK_REQUIRED_ENV: u8 = 9;

pub const HASH_BINARY: u8 = 10;

pub const CHECK_DETECTION: u8 = 11;

pub const RESOLVE_STACK: u8 = 12;

pub const ENSURE_STORAGE_VOLUME: u8 = 13;

pub const ENSURE_TAILSCALE_VOLUME: u8 = 14;

pub const READ_CLEANUP_JOB: u8 = 15;

pub const WAIT_PREVIOUS_QUIET: u8 = 16;

pub const COMPARE_PREVIOUS_SETUP: u8 = 17;

pub const PROBE_CANDIDATE: u8 = 18;

pub const RESET_CANDIDATE: u8 = 19;

pub const WAIT_ACTIVE_QUIET: u8 = 20;

pub const PROBE_ACTIVE_SERVING: u8 = 21;

pub const CHECK_PREPARATION: u8 = 22;

// The build of the candidate.

pub const CHECK_BUILD_SETUP: u8 = 23;

pub const PROBE_CANDIDATE_RUNNING: u8 = 24;

pub const START_CANDIDATE: u8 = 25;

pub const STOP_CANDIDATE_PROCESS: u8 = 26;

pub const REMOVE_CANDIDATE_PROXY: u8 = 27;

pub const REMOVE_CANDIDATE_STORAGE: u8 = 28;

pub const REMOVE_CANDIDATE_TAILSCALE: u8 = 29;

pub const REFRESH_TAILSCALE: u8 = 30;

pub const DOWN_CANDIDATE_TAILNET: u8 = 31;

pub const STOP_CANDIDATE_TAILSCALED: u8 = 32;

pub const PROBE_SETUP_IMAGE: u8 = 33;

pub const CREATE_FROM_SETUP_IMAGE: u8 = 34;

pub const PROBE_STACK_IMAGE: u8 = 35;

pub const CREATE_FROM_STACK_IMAGE: u8 = 36;

pub const ENSURE_CREATE_PREREQS: u8 = 37;

pub const CREATE_CANDIDATE: u8 = 38;

pub const INSTALL_TAILSCALE: u8 = 39;

pub const PUSH_SETUP_SCRIPT: u8 = 40;

pub const RUN_SETUP_SCRIPT: u8 = 41;

pub const PUBLISH_STACK_IMAGE: u8 = 42;

pub const WRITE_SETUP_HASH: u8 = 43;

pub const CHECK_BUILD: u8 = 44;

pub const PUSH_CODE: u8 = 45;

pub const INSTALL_PACKAGES: u8 = 46;

pub const PUBLISH_SETUP_IMAGE: u8 = 47;

pub const PERSIST_START_COMMAND: u8 = 48;

pub const PERSIST_REQUIRED_ENV: u8 = 49;

pub const RUN_PREINSTALL: u8 = 50;

pub const RUN_INSTALL: u8 = 51;

pub const RUN_POSTINSTALL: u8 = 52;

// The last look around before the cutover.

pub const RECONCILE_BEFORE_CUTOVER: u8 = 53;

pub const CHECK_BEFORE_CUTOVER: u8 = 54;

// The cutover: the traffic moves from the active container to the candidate.

pub const CHECK_CUTOVER_START: u8 = 55;

pub const STOP_ACTIVE_PROCESS: u8 = 56;

pub const REMOVE_ACTIVE_PROXY: u8 = 57;

pub const DETACH_ACTIVE_STORAGE: u8 = 58;

pub const ATTACH_CANDIDATE_STORAGE: u8 = 59;

pub const ATTACH_CANDIDATE_PROXY: u8 = 60;

pub const LAUNCH_CANDIDATE: u8 = 61;

pub const CHECK_READINESS: u8 = 62;

pub const WAIT_CANDIDATE_LISTENER: u8 = 63;

pub const CHECK_TAILSCALE: u8 = 64;

pub const DOWN_ACTIVE_TAILNET: u8 = 65;

pub const STOP_ACTIVE_TAILSCALED: u8 = 66;

pub const SEED_TAILSCALE_STATE: u8 = 67;

pub const PROBE_ACTIVE_TAILSCALE: u8 = 68;

pub const DETACH_ACTIVE_TAILSCALE: u8 = 69;

pub const ATTACH_CANDIDATE_TAILSCALE: u8 = 70;

pub const ACQUIRE_HOSTNAME: u8 = 71;

pub const EXPOSE_HTTP: u8 = 72;

pub const CHECK_FINALIZE: u8 = 73;

pub const ADD_ROUTE: u8 = 74;

pub const WRITE_RUNTIME_STATE: u8 = 75;

// What follows the cutover.

pub const RECONCILE_AFTER_CUTOVER: u8 = 76;

pub const CLEAR_CLEANUP_JOB: u8 = 77;

pub const INCREMENT_BUILD: u8 = 78;

pub const WRITE_BINARY_HASH: u8 = 79;

pub const CLEAR_BINARY_HASH: u8 = 80;

pub const WAIT_LIVE_LISTENER: u8 = 81;

pub const SUCCEEDED: u8 = 82;

pub const CLEAN_BUILD: u8 = 83;

// The rollback of a cutover that failed.

pub const UNDO_CANDIDATE_PROXY: u8 = 84;

pub const UNDO_CANDIDATE_STORAGE: u8 = 85;

pub const RESTORE_ACTIVE_STORAGE: u8 = 86;

pub const RESTORE_ACTIVE_PROXY: u8 = 87;

pub const READ_ACTIVE_START_COMMAND: u8 = 88;

pub const RELAUNCH_ACTIVE: u8 = 89;

pub const STOP_FAILED_TAILSCALED: u8 = 90;

pub const UNDO_CANDIDATE_TAILSCALE: u8 = 91;

pub const RESTORE_ACTIVE_TAILSCALE: u8 = 92;

pub const REJOIN_WITH_STATE: u8 = 93;

pub const REJOIN_WITH_AUTH_KEY: u8 = 94;

pub const READ_ACTIVE_DNS_NAME: u8 = 95;

pub const REEXPOSE_HTTP: u8 = 96;

pub const RESTORE_ROUTE: u8 = 97;

pub const CLEAN_FAILED_CANDIDATE: u8 = 98;

pub const FAILED: u8 = 99;

/// What became of a step. A step that asks a question is answered with `Yes` or
/// `No`; any other report of it counts as `No`.
#[derive(Clone, Copy, PartialEq, Eq, Structural, Debug)]
pub enum Signal {
    Done,
    Yes,
    No,
    /// What the detection of the app found.
    Detected { binary: bool, packages: bool, install: bool },
    Failed,
}

/// The state of a deploy.
#[derive(Clone, Copy, PartialEq, Eq, Structural, Debug)]
pub struct BlueGreen {
    pub step: u8,
    /// The step at which an error stopped the deploy.
    pub stopped_at: u8,
    /// The deploy leaves the tailnet alone.
    pub skip_tailscale: bool,
    /// The deploy must not start from a cached setup image.
    pub force_fresh: bool,
    pub project_exists: bool,
    /// The app is a plain binary.
    pub binary: bool,
    /// The app names packages to install.
    pub packages: bool,
    /// The app names an install command.
    pub install: bool,
    pub binary_hash: bool,
    /// The inactive container of an earlier deploy exists.
    pub has_previous: bool,
    pub pending_cleanup: bool,
    /// The candidate is that inactive container.
    pub reused: bool,
    pub candidate_exists: bool,
    /// Operations on the active container do not come to an end.
    pub active_blocked: bool,
    pub candidate_running: bool,
    /// An image with the packages of the app is cached.
    pub setup_cached: bool,
    /// An image with the stack of the app is cached.
    pub stack_cached: bool,
    pub active_proxy_removed: bool,
    pub active_storage_detached: bool,
    pub candidate_storage_attached: bool,
    pub candidate_proxy_attached: bool,
    pub candidate_listening: bool,
    pub active_tailnet_down: bool,
    pub active_has_tailscale: bool,
    pub active_tailscale_detached: bool,
    pub candidate_tailscale_attached: bool,
    pub start_command_known: bool,
    pub state_rejoin_failed: bool,
    pub key_rejoin_failed: bool,
    /// The active container has a name on the tailnet.
    pub name_known: bool,
}

/// Whether the deploy goes on where a step fails.
pub open spec fn spec_lenient(step: u8) -> bool {
    step == COMPARE_PREVIOUS_SETUP || step == STOP_CANDIDATE_PROCESS || step
        == REMOVE_CANDIDATE_PROXY || step == REMOVE_CANDIDATE_STORAGE || step
        == REMOVE_CANDIDATE_TAILSCALE || step == DOWN_CANDIDATE_TAILNET || step
        == STOP_CANDIDATE_TAILSCALED || step == PUBLISH_STACK_IMAGE || step == PUBLISH_SETUP_IMAGE
        || step == DETACH_ACTIVE_STORAGE || step == DOWN_ACTIVE_TAILNET || step
        == STOP_ACTIVE_TAILSCALED || step == EXPOSE_HTTP || step == CLEAR_CLEANUP_JOB || step
        == WRITE_BINARY_HASH || step == CLEAR_BINARY_HASH || step >= SUCCEEDED
}

pub fn lenient(step: u8) -> (r: bool)
    ensures
        r == spec_lenient(step),
{
    step == COMPARE_PREVIOUS_SETUP || step == STOP_CANDIDATE_PROCESS || step
        == REMOVE_CANDIDATE_PROXY || step == REMOVE_CANDIDATE_STORAGE || step
        == REMOVE_CANDIDATE_TAILSCALE || step == DOWN_CANDIDATE_TAILNET || step
        == STOP_CANDIDATE_TAILSCALED || step == PUBLISH_STACK_IMAGE || step == PUBLISH_SETUP_IMAGE
        || step == DETACH_ACTIVE_STORAGE || step == DOWN_ACTIVE_TAILNET || step
        == STOP_ACTIVE_TAILSCALED || step == EXPOSE_HTTP || step == CLEAR_CLEANUP_JOB || step
        == WRITE_BINARY_HASH || step == CLEAR_BINARY_HASH || step >= SUCCEEDED
}

/// Whether the candidate is made from scratch.
pub open spec fn spec_from_scratch(s: BlueGreen) -> bool {
    !s.reused && !s.setup_cached && !s.stack_cached
}

pub fn from_scratch(s: BlueGreen) -> (r: bool)
    ensures
        r == spec_from_scratch(s),
{
    !s.reused && !s.setup_cached && !s.stack_cached
}

/// Whether a step is due in the state.
#[verifier::opaque]
pub open spec fn spec_due(s: BlueGreen, step: u8) -> bool {
    if step == ENSURE_PROFILE {
        s.project_exists
    } else if step == HASH_BINARY {
        s.binary
    } else if step == ENSURE_TAILSCALE_VOLUME {
        !s.skip_tailscale
    } else if step == WAIT_PREVIOUS_QUIET || step == COMPARE_PREVIOUS_SETUP {
        !s.pending_cleanup && !s.force_fresh && s.has_previous
    } else if step == PROBE_CANDIDATE {
        !s.reused
    } else if step == RESET_CANDIDATE {
        !s.reused && s.candidate_exists
    } else if step == PROBE_ACTIVE_SERVING {
        s.active_blocked
    } else if step == START_CANDIDATE {
        s.reused && !s.candidate_running
    } else if PROBE_CANDIDATE_RUNNING <= step && step <= REMOVE_CANDIDATE_TAILSCALE {
        s.reused
    } else if REFRESH_TAILSCALE <= step && step <= STOP_CANDIDATE_TAILSCALED {
        s.reused && !s.skip_tailscale
    } else if step == PROBE_SETUP_IMAGE {
        !s.reused && !s.force_fresh
    } else if step == CREATE_FROM_SETUP_IMAGE {
        !s.reused && s.setup_cached
    } else if step == PROBE_STACK_IMAGE {
        !s.reused && !s.setup_cached
    } else if step == CREATE_FROM_STACK_IMAGE {
        !s.reused && !s.setup_cached && s.stack_cached
    } else if step == ENSURE_CREATE_PREREQS || step == CREATE_CANDIDATE {
        spec_from_scratch(s)
    } else if step == INSTALL_TAILSCALE {
        !s.reused && !s.skip_tailscale
    } else if PUSH_SETUP_SCRIPT <= step && step <= PUBLISH_STACK_IMAGE {
        spec_from_scratch(s)
    } else if step == WRITE_SETUP_HASH {
        !s.reused
    } else if step == INSTALL_PACKAGES {
        !s.reused && !s.setup_cached
    } else if step == PUBLISH_SETUP_IMAGE {
        !s.reused && !s.setup_cached && s.packages
    } else if step == RUN_INSTALL {
        s.install
    } else if step == DETACH_ACTIVE_TAILSCALE {
        !s.skip_tailscale && s.active_has_tailscale
    } else if CHECK_TAILSCALE <= step && step <= EXPOSE_HTTP {
        !s.skip_tailscale
    } else if step == WRITE_BINARY_HASH {
        s.binary_hash
    } else if step == CLEAR_BINARY_HASH {
        !s.binary_hash
    } else if step == UNDO_CANDIDATE_PROXY {
        s.candidate_proxy_attached
    } else if step == UNDO_CANDIDATE_STORAGE {
        s.candidate_storage_attached
    } else if step == RESTORE_ACTIVE_STORAGE {
        s.active_storage_detached
    } else if step == RESTORE_ACTIVE_PROXY {
        s.active_proxy_removed
    } else if step == RELAUNCH_ACTIVE {
        s.start_command_known
    } else if step == STOP_FAILED_TAILSCALED || step == UNDO_CANDIDATE_TAILSCALE {
        !s.skip_tailscale && s.candidate_tailscale_attached
    } else if step == RESTORE_ACTIVE_TAILSCALE {
        !s.skip_tailscale && (s.active_tailscale_detached || s.candidate_tailscale_attached)
    } else if step == REJOIN_WITH_STATE {
        !s.skip_tailscale && s.active_tailnet_down
    } else if step == REJOIN_WITH_AUTH_KEY {
        !s.skip_tailscale && s.state_rejoin_failed
    } else if step == READ_ACTIVE_DNS_NAME {
        !s.skip_tailscale && (!s.active_tailnet_down || s.key_rejoin_failed)
    } else if step == REEXPOSE_HTTP {
        !s.skip_tailscale && s.name_known
    } else if step == CLEAN_FAILED_CANDIDATE {
        !s.reused
    } else {
        true
    }
}

pub fn due(s: BlueGreen, step: u8) -> (r: bool)
    ensures
        r == spec_due(s, step),
{
    proof {
        reveal(spec_due);
    }
    if step == ENSURE_PROFILE {
        s.project_exists
    } else if step == HASH_BINARY {
        s.binary
    } else if step == ENSURE_TAILSCALE_VOLUME {
        !s.skip_tailscale
    } else if step == WAIT_PREVIOUS_QUIET || step == COMPARE_PREVIOUS_SETUP {
        !s.pending_cleanup && !s.force_fresh && s.has_previous
    } else if step == PROBE_CANDIDATE {
        !s.reused
    } else if step == RESET_CANDIDATE {
        !s.reused && s.candidate_exists
    } else if step == PROBE_ACTIVE_SERVING {
        s.active_blocked
    } else if step == START_CANDIDATE {
        s.reused && !s.candidate_running
    } else if PROBE_CANDIDATE_RUNNING <= step && step <= REMOVE_CANDIDATE_TAILSCALE {
        s.reused
    } else if REFRESH_TAILSCALE <= step && step <= STOP_CANDIDATE_TAILSCALED {
        s.reused && !s.skip_tailscale
    } else if step == PROBE_SETUP_IMAGE {
        !s.reused && !s.force_fresh
    } else if step == CREATE_FROM_SETUP_IMAGE {
        !s.reused && s.setup_cached
    } else if step == PROBE_STACK_IMAGE {
        !s.reused && !s.setup_cached
    } else if step == CREATE_FROM_STACK_IMAGE {
        !s.reused && !s.setup_cached && s.stack_cached
    } else if step == ENSURE_CREATE_PREREQS || step == CREATE_CANDIDATE {
        from_scratch(s)
    } else if step == INSTALL_TAILSCALE {
        !s.reused && !s.skip_tailscale
    } else if PUSH_SETUP_SCRIPT <= step && step <= PUBLISH_STACK_IMAGE {
        from_scratch(s)
    } else if step == WRITE_SETUP_HASH {
        !s.reused
    } else if step == INSTALL_PACKAGES {
        !s.reused && !s.setup_cached
    } else if step == PUBLISH_SETUP_IMAGE {
        !s.reused && !s.setup_cached && s.packages
    } else if step == RUN_INSTALL {
        s.install
    } else if step == DETACH_ACTIVE_TAILSCALE {
        !s.skip_tailscale && s.active_has_tailscale
    } else if CHECK_TAILSCALE <= step && step <= EXPOSE_HTTP {
        !s.skip_tailscale
    } else if step == WRITE_BINARY_HASH {
        s.binary_hash
    } else if step == CLEAR_BINARY_HASH {
        !s.binary_hash
    } else if step == UNDO_CANDIDATE_PROXY {
        s.candidate_proxy_attached
    } else if step == UNDO_CANDIDATE_STORAGE {
        s.candidate_storage_attached
    } else if step == RESTORE_ACTIVE_STORAGE {
        s.active_storage_detached
    } else if step == RESTORE_ACTIVE_PROXY {
        s.active_proxy_removed
    } else if step == RELAUNCH_ACTIVE {
        s.start_command_known
    } else if step == STOP_FAILED_TAILSCALED || step == UNDO_CANDIDATE_TAILSCALE {
        !s.skip_tailscale && s.candidate_tailscale_attached
    } else if step == RESTORE_ACTIVE_TAILSCALE {
        !s.skip_tailscale && (s.active_tailscale_detached || s.candidate_tailscale_attached)
    } else if step == REJOIN_WITH_STATE {
        !s.skip_tailscale && s.active_tailnet_down
    } else if step == REJOIN_WITH_AUTH_KEY {
        !s.skip_tailscale && s.state_rejoin_failed
    } else if step == READ_ACTIVE_DNS_NAME {
        !s.skip_tailscale && (!s.active_tailnet_down || s.key_rejoin_failed)
    } else if step == REEXPOSE_HTTP {
        !s.skip_tailscale && s.name_known
    } else if step == CLEAN_FAILED_CANDIDATE {
        !s.reused
    } else {
        true
    }
}

/// What the state holds of a step once it is done, or has failed and may.
#[verifier::opaque]
pub open spec fn spec_record(s: BlueGreen, signal: Signal) -> BlueGreen {
    let yes: bool = signal == Signal::Yes;
    let failed: bool = signal == Signal::Failed;
    if s.step == DETECT_APP {
        match signal {
            Signal::Detected { binary, packages, install } => BlueGreen {
                binary,
                packages,
                install,
                ..s
            },
            _ => s,
        }
    } else if s.step == PROBE_PROJECT {
        BlueGreen { project_exists: yes, ..s }
    } else if s.step == READ_PREVIOUS {
        BlueGreen { has_previous: yes, ..s }
    } else if s.step == HASH_BINARY {
        BlueGreen { binary_hash: yes, ..s }
    } else if s.step == READ_CLEANUP_JOB {
        BlueGreen { pending_cleanup: yes, ..s }
    } else if s.step == COMPARE_PREVIOUS_SETUP {
        BlueGreen { reused: yes, ..s }
    } else if s.step == PROBE_CANDIDATE {
        BlueGreen { candidate_exists: yes, ..s }
    } else if s.step == PROBE_CANDIDATE_RUNNING {
        BlueGreen { candidate_running: yes, ..s }
    } else if s.step == PROBE_SETUP_IMAGE {
        BlueGreen { setup_cached: yes, ..s }
    } else if s.step == PROBE_STACK_IMAGE {
        BlueGreen { stack_cached: yes, ..s }
    } else if s.step == REMOVE_ACTIVE_PROXY {
        BlueGreen { active_proxy_removed: true, ..s }
    } else if s.step == DETACH_ACTIVE_STORAGE {
        BlueGreen { active_storage_detached: true, ..s }
    } else if s.step == ATTACH_CANDIDATE_STORAGE {
        BlueGreen { candidate_storage_attached: true, ..s }
    } else if s.step == ATTACH_CANDIDATE_PROXY {
        BlueGreen { candidate_proxy_attached: true, ..s }
    } else if s.step == WAIT_CANDIDATE_LISTENER {
        BlueGreen { candidate_listening: true, ..s }
    } else if s.step == DOWN_ACTIVE_TAILNET {
        BlueGreen { active_tailnet_down: !failed, ..s }
    } else if s.step == PROBE_ACTIVE_TAILSCALE {
        BlueGreen { active_has_tailscale: yes, ..s }
    } else if s.step == DETACH_ACTIVE_TAILSCALE {
        BlueGreen { active_tailscale_detached: true, ..s }
    } else if s.step == ATTACH_CANDIDATE_TAILSCALE {
        BlueGreen { candidate_tailscale_attached: true, ..s }
    } else if s.step == READ_ACTIVE_START_COMMAND {
        BlueGreen { start_command_known: yes, ..s }
    } else if s.step == REJOIN_WITH_STATE {
        BlueGreen { state_rejoin_failed: failed, name_known: yes, ..s }
    } else if s.step == REJOIN_WITH_AUTH_KEY {
        BlueGreen { key_rejoin_failed: failed, name_known: yes, ..s }
    } else if s.step == READ_ACTIVE_DNS_NAME {
        BlueGreen { name_known: yes, ..s }
    } else {
        s
    }
}

pub fn record(s: BlueGreen, signal: Signal) -> (r: BlueGreen)
    ensures
        r == spec_record(s, signal),
{
    proof {
        reveal(spec_record);
    }
    let yes: bool = signal == Signal::Yes;
    let failed: bool = signal == Signal::Failed;
    if s.step == DETECT_APP {
        match signal {
            Signal::Detected { binary, packages, install } => BlueGreen {
                binary,
                packages,
                install,
                ..s
            },
            _ => s,
        }
    } else if s.step == PROBE_PROJECT {
        BlueGreen { project_exists: yes, ..s }
    } else if s.step == READ_PREVIOUS {
        BlueGreen { has_previous: yes, ..s }
    } else if s.step == HASH_BINARY {
        BlueGreen { binary_hash: yes, ..s }
    } else if s.step == READ_CLEANUP_JOB {
        BlueGreen { pending_cleanup: yes, ..s }
    } else if s.step == COMPARE_PREVIOUS_SETUP {
        BlueGreen { reused: yes, ..s }
    } else if s.step == PROBE_CANDIDATE {
        BlueGreen { candidate_exists: yes, ..s }
    } else if s.step == PROBE_CANDIDATE_RUNNING {
        BlueGreen { candidate_running: yes, ..s }
    } else if s.step == PROBE_SETUP_IMAGE {
        BlueGreen { setup_cached: yes, ..s }
    } else if s.step == PROBE_STACK_IMAGE {
        BlueGreen { stack_cached: yes, ..s }
    } else if s.step == REMOVE_ACTIVE_PROXY {
        BlueGreen { active_proxy_removed: true, ..s }
    } else if s.step == DETACH_ACTIVE_STORAGE {
        BlueGreen { active_storage_detached: true, ..s }
    } else if s.step == ATTACH_CANDIDATE_STORAGE {
        BlueGreen { candidate_storage_attached: true, ..s }
    } else if s.step == ATTACH_CANDIDATE_PROXY {
        BlueGreen { candidate_proxy_attached: true, ..s }
    } else if s.step == WAIT_CANDIDATE_LISTENER {
        BlueGreen { candidate_listening: true, ..s }
    } else if s.step == DOWN_ACTIVE_TAILNET {
        BlueGreen { active_tailnet_down: !failed, ..s }
    } else if s.step == PROBE_ACTIVE_TAILSCALE {
        BlueGreen { active_has_tailscale: yes, ..s }
    } else if s.step == DETACH_ACTIVE_TAILSCALE {
        BlueGreen { active_tailscale_detached: true, ..s }
    } else if s.step == ATTACH_CANDIDATE_TAILSCALE {
        BlueGreen { candidate_tailscale_attached: true, ..s }
    } else if s.step == READ_ACTIVE_START_COMMAND {
        BlueGreen { start_command_known: yes, ..s }
    } else if s.step == REJOIN_WITH_STATE {
        BlueGreen { state_rejoin_failed: failed, name_known: yes, ..s }
    } else if s.step == REJOIN_WITH_AUTH_KEY {
        BlueGreen { key_rejoin_failed: failed, name_known: yes, ..s }
    } else if s.step == READ_ACTIVE_DNS_NAME {
        BlueGreen { name_known: yes, ..s }
    } else {
        s
    }
}

/// The first step from `step` on that is due.
pub open spec fn spec_first_due(s: BlueGreen, step: u8) -> u8
    decreases FAILED - step,
{
    if step >= FAILED || spec_due(s, step) {
        step
    } else {
        spec_first_due(s, (step + 1) as u8)
    }
}

pub fn first_due(s: BlueGreen, step: u8) -> (r: u8)
    ensures
        r == spec_first_due(s, step),
{
    let mut r: u8 = step;
    while r < FAILED && !due(s, r)
        invariant
            spec_first_due(s, step) == spec_first_due(s, r),
        decreases 255 - r,
    {
        r = r + 1;
    }
    r
}

/// The state where an error has stopped the deploy at its step.
pub open spec fn spec_stopped(s: BlueGreen) -> BlueGreen {
    if s.step == WAIT_ACTIVE_QUIET {
        BlueGreen { step: PROBE_ACTIVE_SERVING, stopped_at: s.step, active_blocked: true, ..s }
    } else if CHECK_BUILD_SETUP <= s.step && s.step <= RUN_POSTINSTALL && !s.reused {
        BlueGreen { step: CLEAN_BUILD, stopped_at: s.step, ..s }
    } else if CHECK_CUTOVER_START <= s.step && s.step <= WRITE_RUNTIME_STATE {
        BlueGreen { step: spec_first_due(s, UNDO_CANDIDATE_PROXY), stopped_at: s.step, ..s }
    } else {
        BlueGreen { step: FAILED, stopped_at: s.step, ..s }
    }
}

pub fn stopped(s: BlueGreen) -> (r: BlueGreen)
    ensures
        r == spec_stopped(s),
{
    if s.step == WAIT_ACTIVE_QUIET {
        BlueGreen { step: PROBE_ACTIVE_SERVING, stopped_at: s.step, active_blocked: true, ..s }
    } else if CHECK_BUILD_SETUP <= s.step && s.step <= RUN_POSTINSTALL && !s.reused {
        BlueGreen { step: CLEAN_BUILD, stopped_at: s.step, ..s }
    } else if CHECK_CUTOVER_START <= s.step && s.step <= WRITE_RUNTIME_STATE {
        BlueGreen { step: first_due(s, UNDO_CANDIDATE_PROXY), stopped_at: s.step, ..s }
    } else {
        BlueGreen { step: FAILED, stopped_at: s.step, ..s }
    }
}

/// The state after a step, by what became of it.
pub open spec fn spec_next(s: BlueGreen, signal: Signal) -> BlueGreen {
    if s.step == SUCCEEDED || s.step >= FAILED {
        s
    } else if signal == Signal::Failed && !spec_lenient(s.step) {
        spec_stopped(s)
    } else if s.step == CLEAN_BUILD {
        BlueGreen { step: FAILED, ..s }
    } else if (s.step == RESOLVE_ACTIVE || s.step == PROBE_ACTIVE_SERVING) && signal
        != Signal::Yes {
        BlueGreen { step: FAILED, ..s }
    } else {
        let recorded = spec_record(s, signal);
        BlueGreen { step: spec_first_due(recorded, (s.step + 1) as u8), ..recorded }
    }
}

pub fn next(s: BlueGreen, signal: Signal) -> (r: BlueGreen)
    ensures
        r == spec_next(s, signal),
{
    if s.step == SUCCEEDED || s.step >= FAILED {
        s
    } else if signal == Signal::Failed && !lenient(s.step) {
        stopped(s)
    } else if s.step == CLEAN_BUILD {
        BlueGreen { step: FAILED, ..s }
    } else if (s.step == RESOLVE_ACTIVE || s.step == PROBE_ACTIVE_SERVING) && signal
        != Signal::Yes {
        BlueGreen { step: FAILED, ..s }
    } else {
        let recorded = record(s, signal);
        BlueGreen { step: first_due(recorded, (s.step + 1) as u8), ..recorded }
    }
}

/// The state of a deploy before its first step.
pub open spec fn spec_start(skip_tailscale: bool, force_fresh: bool) -> BlueGreen {
    BlueGreen {
        step: READ_PROJECT,
        stopped_at: READ_PROJECT,
        skip_tailscale,
        force_fresh,
        project_exists: false,
        binary: false,
        packages: false,
        install: false,
        binary_hash: false,
        has_previous: false,
        pending_cleanup: false,
        reused: false,
        candidate_exists: false,
        active_blocked: false,
        candidate_running: false,
        setup_cached: false,
        stack_cached: false,
        active_proxy_removed: false,
        active_storage_detached: false,
        candidate_storage_attached: false,
        candidate_proxy_attached: false,
        candidate_listening: false,
        active_tailnet_down: false,
        active_has_tailscale: false,
        active_tailscale_detached: false,
        candidate_tailscale_attached: false,
        start_command_known: false,
        state_rejoin_failed: false,
        key_rejoin_failed: false,
        name_known: false,
    }
}

pub fn start(skip_tailscale: bool, force_fresh: bool) -> (r: BlueGreen)
    ensures
        r == spec_start(skip_tailscale, force_fresh),
{
    BlueGreen {
        step: READ_PROJECT,
        stopped_at: READ_PROJECT,
        skip_tailscale,
        force_fresh,
        project_exists: false,
        binary: false,
        packages: false,
        install: false,
        binary_hash: false,
        has_previous: false,
        pending_cleanup: false,
        reused: false,
        candidate_exists: false,
        active_blocked: false,
        candidate_running: false,
        setup_cached: false,
        stack_cached: false,
        active_proxy_removed: false,
        active_storage_detached: false,
        candidate_storage_attached: false,
        candidate_proxy_attached: false,
        candidate_listening: false,
        active_tailnet_down: false,
        active_has_tailscale: false,
        active_tailscale_detached: false,
        candidate_tailscale_attached: false,
        start_command_known: false,
        state_rejoin_failed: false,
        key_rejoin_failed: false,
        name_known: false,
    }
}

// ---------------------------------------------------------------------------
// A deploy with its messages
// ---------------------------------------------------------------------------

/// What became of a step, with the message of its failure.
pub enum Reply {
    Done,
    Yes,
    No,
    Detected { binary: bool, packages: bool, install: bool },
    Failed(String),
}

pub open spec fn spec_signal(reply: Reply) -> Signal {
    match reply {
        Reply::Done => Signal::Done,
        Reply::Yes => Signal::Yes,
        Reply::No => Signal::No,
        Reply::Detected { binary, packages, install } => Signal::Detected {
            binary,
            packages,
            install,
        },
        Reply::Failed(_) => Signal::Failed,
    }
}

pub fn signal(reply: &Reply) -> (r: Signal)
    ensures
        r == spec_signal(*reply),
{
    match reply {
        Reply::Done => Signal::Done,
        Reply::Yes => Signal::Yes,
        Reply::No => Signal::No,
        Reply::Detected { binary, packages, install } => Signal::Detected {
            binary: *binary,
            packages: *packages,
            install: *install,
        },
        Reply::Failed(_) => Signal::Failed,
    }
}

/// A deploy under way: its state, the containers it works on and what went wrong.
pub struct Rollout {
    pub state: BlueGreen,
    pub app: String,
    pub candidate: String,
    /// The inactive container of an earlier deploy.
    pub previous: Option<String>,
    /// The error that stopped the deploy.
    pub error: Option<String>,
    /// What the rollback could not undo.
    pub issues: Vec<String>,
}

/// The mathematical form of a deploy under way.
#[verifier::ext_equal]
pub struct RolloutView {
    pub state: BlueGreen,
    pub app: Seq<char>,
    pub candidate: Seq<char>,
    pub previous: Option<Seq<char>>,
    pub error: Option<Seq<char>>,
    pub issues: Seq<Seq<char>>,
}

impl DeepView for Rollout {
    type V = RolloutView;

    open spec fn deep_view(&self) -> RolloutView {
        RolloutView {
            state: self.state,
            app: self.app@,
            candidate: self.candidate@,
            previous: self.previous.deep_view(),
            error: self.error.deep_view(),
            issues: self.issues.deep_view(),
        }
    }
}

/// The error of a deploy that `message` stops at `step`.
pub open spec fn stop_message(step: u8, candidate: Seq<char>, message: Seq<char>) -> Seq<char> {
    if step == RESET_CANDIDATE {
        "failed to reset existing candidate '"@ + candidate + "' before rebuild: "@ + message
    } else if step == RECONCILE_AFTER_CUTOVER {
        "post-cutover family reconciliation failed: "@ + message
    } else {
        message
    }
}

/// What is noted down of a step of the rollback that failed with `message`.
pub open spec fn rollback_issue(step: u8, candidate: Seq<char>, message: Seq<char>) -> Option<
    Seq<char>,
> {
    if step == UNDO_CANDIDATE_PROXY {
        Some("failed to detach candidate proxy device: "@ + message)
    } else if step == RESTORE_ACTIVE_PROXY {
        Some("failed to restore previous proxy device: "@ + message)
    } else if step == CLEAN_FAILED_CANDIDATE {
        Some("failed to clean failed candidate '"@ + candidate + "': "@ + message)
    } else {
        None
    }
}

/// The error on record after a step.
pub open spec fn noted_error(r: RolloutView, reply: Reply) -> Option<Seq<char>> {
    match reply {
        Reply::Failed(message) => if r.state.step == CLEAN_BUILD {
            match r.error {
                Some(error) => Some(error + "; candidate cleanup failed: "@ + message@),
                None => None,
            }
        } else if spec_lenient(r.state.step) {
            r.error
        } else {
            Some(stop_message(r.state.step, r.candidate, message@))
        },
        Reply::Yes => if r.state.step == PROBE_ACTIVE_SERVING {
            None
        } else {
            r.error
        },
        _ => if r.state.step == RESOLVE_ACTIVE {
            Some("app '"@ + r.app + "' not found for blue/green deploy"@)
        } else {
            r.error
        },
    }
}

/// A deploy after a step.
pub open spec fn noted(r: RolloutView, reply: Reply) -> RolloutView {
    RolloutView {
        state: spec_next(r.state, spec_signal(reply)),
        app: r.app,
        candidate: match r.previous {
            Some(previous) if r.state.step == COMPARE_PREVIOUS_SETUP && reply is Yes => previous,
            _ => r.candidate,
        },
        previous: r.previous,
        error: noted_error(r, reply),
        issues: match reply {
            Reply::Failed(message) => match rollback_issue(r.state.step, r.candidate, message@) {
                Some(issue) => r.issues.push(issue),
                None => r.issues,
            },
            _ => r.issues,
        },
    }
}

/// Whether a step belongs to the cutover.
pub open spec fn spec_in_cutover(step: u8) -> bool {
    CHECK_CUTOVER_START <= step <= WRITE_RUNTIME_STATE
}

fn in_cutover(step: u8) -> (r: bool)
    ensures
        r == spec_in_cutover(step),
{
    CHECK_CUTOVER_START <= step && step <= WRITE_RUNTIME_STATE
}

/// Whether a step builds the app in the candidate, which is then set up.
pub open spec fn spec_in_build(step: u8) -> bool {
    CHECK_BUILD <= step <= RUN_POSTINSTALL
}

fn in_build(step: u8) -> (r: bool)
    ensures
        r == spec_in_build(step),
{
    CHECK_BUILD <= step && step <= RUN_POSTINSTALL
}

/// The result of a deploy that is over.
pub open spec fn verdict_of(r: RolloutView) -> Result<(), Seq<char>> {
    let error = match r.error {
        Some(error) => error,
        None => Seq::empty(),
    };
    if r.state.step == SUCCEEDED {
        Ok(())
    } else if spec_in_cutover(r.state.stopped_at) {
        Err(
            "deploy cutover failed and rollback was applied: "@ + error + "; rollback issues: "@
                + spec_join_or_none(r.issues),
        )
    } else if spec_in_build(r.state.stopped_at) && r.state.force_fresh {
        Err(FRESH_SETUP_FAILURE@ + error)
    } else if spec_in_build(r.state.stopped_at) && r.state.setup_cached {
        Err(CACHED_SETUP_FAILURE@ + error)
    } else {
        Err(error)
    }
}

impl Rollout {
    /// A deploy of `app` into the container `candidate`, before its first step.
    pub fn new(app: &str, candidate: &str, skip_tailscale: bool, force_fresh: bool) -> (r: Rollout)
        ensures
            r.deep_view() == (RolloutView {
                state: spec_start(skip_tailscale, force_fresh),
                app: app@,
                candidate: candidate@,
                previous: None,
                error: None,
                issues: Seq::empty(),
            }),
    {
        let r = Rollout {
            state: start(skip_tailscale, force_fresh),
            app: app.to_owned(),
            candidate: candidate.to_owned(),
            previous: None,
            error: None,
            issues: Vec::new(),
        };
        assert(r.issues.deep_view() =~= Seq::empty());
        r
    }

    /// Takes note of what became of the step and goes on to the next.
    pub fn advance(&mut self, reply: Reply)
        ensures
            final(self).deep_view() == noted(old(self).deep_view(), reply),
    {
        let step = self.state.step;
        let sig = signal(&reply);
        match &reply {
            Reply::Failed(message) => {
                if step == CLEAN_BUILD {
                    if let Some(error) = &self.error {
                        let mut text = error.clone();
                        text.append("; candidate cleanup failed: ");
                        text.append(message.as_str());
                        self.error = Some(text);
                    }
                } else if !lenient(step) {
                    self.error = Some(stop_error(step, self.candidate.as_str(), message.as_str()));
                }
                if let Some(issue) = issue_of(step, self.candidate.as_str(), message.as_str()) {
                    push_text(&mut self.issues, issue);
                }
            },
            Reply::Yes => {
                if step == PROBE_ACTIVE_SERVING {
                    self.error = None;
                }
                if step == COMPARE_PREVIOUS_SETUP {
                    if let Some(previous) = &self.previous {
                        self.candidate = previous.clone();
                    }
                }
            },
            _ => {
                if step == RESOLVE_ACTIVE {
                    let mut text = String::from_str("app '");
                    text.append(self.app.as_str());
                    text.append("' not found for blue/green deploy");
                    self.error = Some(text);
                }
            },
        }
        self.state = next(self.state, sig);
    }

    /// The result of a deploy that is over.
    pub fn verdict(&self) -> (r: Result<(), String>)
        ensures
            outcome(r) == verdict_of(self.deep_view()),
    {
        if self.state.step == SUCCEEDED {
            return Ok(());
        }
        let error = match &self.error {
            Some(error) => error.clone(),
            None => String::new(),
        };
        if in_cutover(self.state.stopped_at) {
            let mut text = String::from_str("deploy cutover failed and rollback was applied: ");
            text.append(error.as_str());
            text.append("; rollback issues: ");
            let issues = join_or_none(&self.issues);
            text.append(issues.as_str());
            Err(text)
        } else if in_build(self.state.stopped_at) && self.state.force_fresh {
            Err(mark_fresh_setup_failure(error.as_str()))
        } else if in_build(self.state.stopped_at) && self.state.setup_cached {
            Err(mark_cached_setup_failure(error.as_str()))
        } else {
            Err(error)
        }
    }
}

fn stop_error(step: u8, candidate: &str, message: &str) -> (r: String)
    ensures
        r@ == stop_message(step, candidate@, message@),
{
    if step == RESET_CANDIDATE {
        let mut text = String::from_str("failed to reset existing candidate '");
        text.append(candidate);
        text.append("' before rebuild: ");
        text.append(message);
        text
    } else if step == RECONCILE_AFTER_CUTOVER {
        let mut text = String::from_str("post-cutover family reconciliation failed: ");
        text.append(message);
        text
    } else {
        message.to_owned()
    }
}

fn issue_of(step: u8, candidate: &str, message: &str) -> (r: Option<String>)
    ensures
        r.deep_view() == rollback_issue(step, candidate@, message@),
{
    if step == UNDO_CANDIDATE_PROXY {
        let mut text = String::from_str("failed to detach candidate proxy device: ");
        text.append(message);
        Some(text)
    } else if step == RESTORE_ACTIVE_PROXY {
        let mut text = String::from_str("failed to restore previous proxy device: ");
        text.append(message);
        Some(text)
    } else if step == CLEAN_FAILED_CANDIDATE {
        let mut text = String::from_str("failed to clean failed candidate '");
        text.append(candidate);
        text.append("': ");
        text.append(message);
        Some(text)
    } else {
        None
    }
}

// ---------------------------------------------------------------------------
// Laws
// ---------------------------------------------------------------------------

/// The state after a run of signals.
pub open spec fn run(s: BlueGreen, signals: Seq<Signal>) -> BlueGreen
    decreases signals.len(),
{
    if signals.len() == 0 {
        s
    } else {
        spec_next(run(s, signals.drop_last()), signals.last())
    }
}

/// Whether a deploy is over.
pub open spec fn is_over(s: BlueGreen) -> bool {
    s.step == SUCCEEDED || s.step >= FAILED
}

/// `first_due` passes over steps that are not due, and stops at one that is.
proof fn first_due_stops(s: BlueGreen, step: u8)
    requires
        step <= FAILED,
    ensures
        step <= spec_first_due(s, step) <= FAILED,
        spec_first_due(s, step) < FAILED ==> spec_due(s, spec_first_due(s, step)),
        forall|k: u8| step <= k < spec_first_due(s, step) ==> !#[trigger] spec_due(s, k),
    decreases FAILED - step,
{
    if step >= FAILED || spec_due(s, step) {
    } else {
        first_due_stops(s, (step + 1) as u8);
        assert forall|k: u8| step <= k < spec_first_due(s, step) implies !#[trigger] spec_due(
            s,
            k,
        ) by {
            if k > step {
                assert((step + 1) as u8 <= k);
            }
        }
    }
}

/// Every step brings the deploy nearer to its end.
pub proof fn each_step_leads_on(s: BlueGreen, signal: Signal)
    requires
        !is_over(s),
    ensures
        s.step < spec_next(s, signal).step <= FAILED,
{
    first_due_stops(s, UNDO_CANDIDATE_PROXY);
    first_due_stops(spec_record(s, signal), (s.step + 1) as u8);
}

/// A step that is taken leads to the next one that is due, or, where it fails and is
/// needed, to what the deploy does on its way out.
pub proof fn due_steps_are_next(s: BlueGreen, signal: Signal)
    requires
        s.step != SUCCEEDED,
        s.step < FAILED,
    ensures
        ({
            let after = spec_next(s, signal);
            let recorded = spec_record(s, signal);
            let fails = signal == Signal::Failed && !spec_lenient(s.step);
            let refused = (s.step == RESOLVE_ACTIVE || s.step == PROBE_ACTIVE_SERVING) && signal
                != Signal::Yes;
            &&& s.step < after.step <= FAILED
            &&& !fails && !refused && s.step != CLEAN_BUILD ==> {
                &&& after == (BlueGreen { step: after.step, ..recorded })
                &&& after.step < FAILED ==> spec_due(recorded, after.step)
                &&& forall|k: u8|
                    s.step < k && k < after.step ==> !#[trigger] spec_due(recorded, k)
                &&& s.step < SUCCEEDED ==> after.step <= SUCCEEDED
            }
            &&& refused || s.step == CLEAN_BUILD ==> after.step == FAILED
            &&& fails && CHECK_CUTOVER_START <= s.step <= WRITE_RUNTIME_STATE ==> {
                &&& CLEAN_BUILD < after.step
                &&& after == (BlueGreen { step: after.step, stopped_at: s.step, ..s })
                &&& after.step < FAILED ==> spec_due(s, after.step)
                &&& forall|k: u8|
                    CLEAN_BUILD < k && k < after.step ==> !#[trigger] spec_due(s, k)
            }
        }),
{
    first_due_stops(spec_record(s, signal), (s.step + 1) as u8);
    first_due_stops(s, UNDO_CANDIDATE_PROXY);
    assert(spec_due(spec_record(s, signal), SUCCEEDED)) by {
        reveal(spec_due);
    }
}

/// A deploy is over after at most as many steps as there are, whatever becomes of
/// them.
pub proof fn every_deploy_ends(s: BlueGreen, signals: Seq<Signal>)
    requires
        signals.len() >= FAILED,
    ensures
        is_over(run(s, signals)),
{
    runs_lead_on(s, signals);
}

proof fn runs_lead_on(s: BlueGreen, signals: Seq<Signal>)
    ensures
        is_over(run(s, signals)) || signals.len() <= run(s, signals).step,
    decreases signals.len(),
{
    if signals.len() > 0 {
        let before = run(s, signals.drop_last());
        runs_lead_on(s, signals.drop_last());
        if !is_over(before) {
            each_step_leads_on(before, signals.last());
        }
    }
}

/// Steps are taken in their order.
pub proof fn steps_are_taken_in_order(s: BlueGreen, signals: Seq<Signal>, i: int, j: int)
    requires
        0 <= i < j <= signals.len(),
        !(is_over(run(s, signals.take(i)))),
    ensures
        run(s, signals.take(i)).step < run(s, signals.take(j)).step,
    decreases j,
{
    let before = run(s, signals.take(j - 1));
    assert(signals.take(j).drop_last() =~= signals.take(j - 1));
    if i < j - 1 {
        steps_are_taken_in_order(s, signals, i, j - 1);
    }
    if !(is_over(before)) {
        each_step_leads_on(before, signals[j - 1]);
    }
}

/// Whether a step was taken and did not fail.
pub open spec fn took(s: BlueGreen, signals: Seq<Signal>, step: u8) -> bool {
    exists|i: int|
        0 <= i < signals.len() && (#[trigger] run(s, signals.take(i))).step == step && signals[i]
            != Signal::Failed
}

/// Whether no launch does without a step.
pub open spec fn prepares(s: BlueGreen, step: u8) -> bool {
    step == CHECK_REQUIRED_ENV || step == RUN_PREINSTALL || step == RUN_INSTALL && s.install || step
        == RUN_POSTINSTALL || step == ATTACH_CANDIDATE_STORAGE
}

#[verifier::spinoff_prover]
proof fn preparations_are_due(s: BlueGreen, step: u8)
    requires
        prepares(s, step),
    ensures
        spec_due(s, step),
        !spec_lenient(step),
        step != WAIT_ACTIVE_QUIET,
        step < SUCCEEDED,
{
    reveal(spec_due);
}

#[verifier::spinoff_prover]
proof fn install_is_kept(s: BlueGreen, signal: Signal)
    ensures
        s.step != DETECT_APP ==> spec_record(s, signal).install == s.install,
{
    reveal(spec_record);
}

/// A step that a launch needs is not passed over.
proof fn preparation_is_next(s: BlueGreen, signal: Signal, step: u8)
    requires
        !is_over(s),
        prepares(spec_next(s, signal), step),
        step < spec_next(s, signal).step <= SUCCEEDED,
    ensures
        step <= s.step,
        step == s.step ==> signal != Signal::Failed,
        step < s.step ==> prepares(s, step),
{
    let after = spec_next(s, signal);
    let recorded = spec_record(s, signal);
    preparations_are_due(after, step);
    install_is_kept(s, signal);
    first_due_stops(s, UNDO_CANDIDATE_PROXY);
    if signal == Signal::Failed && !spec_lenient(s.step) {
        assert(s.step == WAIT_ACTIVE_QUIET);
    } else {
        assert(prepares(recorded, step));
        preparations_are_due(recorded, step);
        first_due_stops(recorded, (s.step + 1) as u8);
        if step > s.step {
            assert((s.step + 1) as u8 <= step);
            assert(!spec_due(recorded, step));
        }
        if step < s.step && s.step == DETECT_APP {
            assert(prepares(s, step));
        }
    }
}

proof fn preparations_are_not_passed(s: BlueGreen, signals: Seq<Signal>, step: u8)
    requires
        s.step == READ_PROJECT,
        prepares(run(s, signals), step),
        step < run(s, signals).step <= SUCCEEDED,
    ensures
        took(s, signals, step),
    decreases signals.len(),
{
    assert(signals.len() > 0);
    let earlier = signals.drop_last();
    let before = run(s, earlier);
    let last = signals.len() - 1;
    assert(run(s, signals) == spec_next(before, signals.last()));
    assert(signals.take(last) =~= earlier);
    if !is_over(before) {
        each_step_leads_on(before, signals.last());
        preparation_is_next(before, signals.last(), step);
    }
    if before.step == step {
        assert(run(s, signals.take(last)).step == step);
        assert(signals[last] != Signal::Failed);
    } else {
        preparations_are_not_passed(s, earlier, step);
        let i = choose|i: int|
            0 <= i < earlier.len() && (#[trigger] run(s, earlier.take(i))).step == step
                && earlier[i] != Signal::Failed;
        assert(signals.take(i) =~= earlier.take(i));
        assert(signals[i] == earlier[i]);
        assert(run(s, signals.take(i)).step == step);
    }
}

/// An app is launched only after its required variables were found to be set, its storage
/// was attached, and its hooks ran, the first before its dependencies were installed and
/// the second after that.
pub proof fn launches_are_prepared(skip_tailscale: bool, force_fresh: bool, signals: Seq<Signal>)
    ensures
        ({
            let s = spec_start(skip_tailscale, force_fresh);
            let reached = run(s, signals);
            LAUNCH_CANDIDATE <= reached.step <= SUCCEEDED ==> forall|step: u8|
                #[trigger] prepares(reached, step) ==> took(s, signals, step)
        }),
{
    let s = spec_start(skip_tailscale, force_fresh);
    let reached = run(s, signals);
    assert forall|step: u8| #[trigger] prepares(reached, step) && LAUNCH_CANDIDATE <= reached.step
        && reached.step <= SUCCEEDED implies took(s, signals, step) by {
        preparations_are_not_passed(s, signals, step);
    }
}

/// What is attached to the two containers, and which one is on record as active.
#[verifier::ext_equal]
pub struct Traffic {
    pub active_proxy: bool,
    pub active_storage: bool,
    pub active_tailscale: bool,
    pub candidate_proxy: bool,
    pub candidate_storage: bool,
    pub candidate_tailscale: bool,
    pub candidate_on_record: bool,
}

/// What a step does to the traffic. One that fails does nothing.
pub open spec fn effect(t: Traffic, step: u8, signal: Signal) -> Traffic {
    if signal == Signal::Failed {
        t
    } else if step == REMOVE_ACTIVE_PROXY {
        Traffic { active_proxy: false, ..t }
    } else if step == DETACH_ACTIVE_STORAGE {
        Traffic { active_storage: false, ..t }
    } else if step == ATTACH_CANDIDATE_STORAGE {
        Traffic { candidate_storage: true, ..t }
    } else if step == ATTACH_CANDIDATE_PROXY {
        Traffic { candidate_proxy: true, ..t }
    } else if step == DETACH_ACTIVE_TAILSCALE {
        Traffic { active_tailscale: false, ..t }
    } else if step == ATTACH_CANDIDATE_TAILSCALE {
        Traffic { candidate_tailscale: true, ..t }
    } else if step == WRITE_RUNTIME_STATE {
        Traffic { candidate_on_record: true, ..t }
    } else if step == UNDO_CANDIDATE_PROXY {
        Traffic { candidate_proxy: false, ..t }
    } else if step == UNDO_CANDIDATE_STORAGE {
        Traffic { candidate_storage: false, ..t }
    } else if step == RESTORE_ACTIVE_STORAGE {
        Traffic { active_storage: true, ..t }
    } else if step == RESTORE_ACTIVE_PROXY {
        Traffic { active_proxy: true, ..t }
    } else if step == UNDO_CANDIDATE_TAILSCALE {
        Traffic { candidate_tailscale: false, ..t }
    } else if step == RESTORE_ACTIVE_TAILSCALE {
        Traffic { active_tailscale: true, ..t }
    } else {
        t
    }
}

/// The traffic after a run of signals.
pub open spec fn traffic_after(s: BlueGreen, t: Traffic, signals: Seq<Signal>) -> Traffic
    decreases signals.len(),
{
    if signals.len() == 0 {
        t
    } else {
        effect(
            traffic_after(s, t, signals.drop_last()),
            run(s, signals.drop_last()).step,
            signals.last(),
        )
    }
}

/// Whether a step undoes a part of a cutover that failed.
pub open spec fn undoes(step: u8) -> bool {
    UNDO_CANDIDATE_PROXY <= step <= RESTORE_ACTIVE_PROXY || step == UNDO_CANDIDATE_TAILSCALE
        || step == RESTORE_ACTIVE_TAILSCALE
}

/// Whether no step that undoes something fails in a run.
pub open spec fn undoing_succeeds(s: BlueGreen, signals: Seq<Signal>) -> bool {
    forall|n: int|
        0 <= n < signals.len() && undoes((#[trigger] run(s, signals.take(n))).step) ==> signals[n]
            != Signal::Failed
}

/// Traffic that goes to the active container alone.
pub open spec fn on_active(t: Traffic) -> bool {
    t.active_proxy && t.active_storage && !t.candidate_proxy && !t.candidate_storage
        && !t.candidate_tailscale && !t.candidate_on_record
}

/// Traffic that goes to the candidate, which is on record as active.
pub open spec fn on_candidate(t: Traffic) -> bool {
    !t.active_proxy && t.candidate_proxy && t.candidate_storage && t.candidate_on_record
}

/// What the flags of a deploy say while it goes forward.
pub open spec fn flags_follow(s: BlueGreen) -> bool {
    &&& s.active_proxy_removed == (s.step > REMOVE_ACTIVE_PROXY)
    &&& s.active_storage_detached == (s.step > DETACH_ACTIVE_STORAGE)
    &&& s.candidate_storage_attached == (s.step > ATTACH_CANDIDATE_STORAGE)
    &&& s.candidate_proxy_attached == (s.step > ATTACH_CANDIDATE_PROXY)
    &&& s.candidate_listening == (s.step > WAIT_CANDIDATE_LISTENER)
    &&& s.candidate_tailscale_attached == (!s.skip_tailscale && s.step > ATTACH_CANDIDATE_TAILSCALE)
    &&& s.active_tailscale_detached ==> !s.skip_tailscale && s.step > DETACH_ACTIVE_TAILSCALE
    &&& CHECK_TAILSCALE <= s.step <= EXPOSE_HTTP ==> !s.skip_tailscale
}

/// What the state of a deploy says of the traffic, which was `t0` before it.
pub open spec fn accounts_for(s: BlueGreen, t: Traffic, t0: Traffic) -> bool {
    &&& s.step <= FAILED
    &&& s.step <= SUCCEEDED ==> flags_follow(s)
    &&& s.step <= CHECK_CUTOVER_START || s.step == CLEAN_BUILD ==> t == t0
    &&& s.step <= WRITE_RUNTIME_STATE ==> {
        &&& !t.candidate_on_record
        &&& t.active_proxy == !s.active_proxy_removed
        &&& t.active_storage || s.active_storage_detached
        &&& t.candidate_storage == s.candidate_storage_attached
        &&& t.candidate_proxy == s.candidate_proxy_attached
        &&& t.candidate_tailscale == s.candidate_tailscale_attached
        &&& s.active_tailscale_detached || t.active_tailscale == t0.active_tailscale
    }
    &&& WRITE_RUNTIME_STATE < s.step <= SUCCEEDED ==> on_candidate(t)
    &&& UNDO_CANDIDATE_PROXY <= s.step < FAILED ==> {
        &&& s.skip_tailscale ==> !s.candidate_tailscale_attached && !s.active_tailscale_detached
        &&& !t.candidate_on_record
        &&& t.candidate_proxy == (s.step <= UNDO_CANDIDATE_PROXY && s.candidate_proxy_attached)
        &&& t.candidate_storage == (s.step <= UNDO_CANDIDATE_STORAGE
            && s.candidate_storage_attached)
        &&& t.active_storage || (s.step <= RESTORE_ACTIVE_STORAGE && s.active_storage_detached)
        &&& t.active_proxy == !(s.step <= RESTORE_ACTIVE_PROXY && s.active_proxy_removed)
        &&& t.candidate_tailscale == (s.step <= UNDO_CANDIDATE_TAILSCALE
            && s.candidate_tailscale_attached)
        &&& (s.step <= RESTORE_ACTIVE_TAILSCALE && s.active_tailscale_detached) || (
        t0.active_tailscale ==> t.active_tailscale)
    }
    &&& s.step == FAILED ==> on_candidate(t) || (on_active(t) && (t0.active_tailscale
        ==> t.active_tailscale))
}

#[verifier::spinoff_prover]
#[verifier::rlimit(60)]
proof fn accounting_is_kept(s: BlueGreen, t: Traffic, t0: Traffic, signal: Signal)
    requires
        on_active(t0),
        accounts_for(s, t, t0),
        undoes(s.step) ==> signal != Signal::Failed,
    ensures
        accounts_for(spec_next(s, signal), effect(t, s.step, signal), t0),
{
    reveal(spec_record);
    if !is_over(s) {
        let recorded = spec_record(s, signal);
        if signal == Signal::Failed && !spec_lenient(s.step) {
            if CHECK_CUTOVER_START <= s.step <= WRITE_RUNTIME_STATE {
                rollback_passes(s, UNDO_CANDIDATE_PROXY);
            }
        } else if s.step < SUCCEEDED {
            forward_passes(recorded, (s.step + 1) as u8);
        } else {
            rollback_passes(recorded, (s.step + 1) as u8);
        }
    }
}

/// The steps that the way forward never passes over.
proof fn forward_passes(s: BlueGreen, from: u8)
    requires
        from <= SUCCEEDED,
    ensures
        ({
            let to = spec_first_due(s, from);
            &&& from <= to <= SUCCEEDED
            &&& from <= CHECK_CUTOVER_START ==> to <= CHECK_CUTOVER_START
            &&& from <= REMOVE_ACTIVE_PROXY ==> to <= REMOVE_ACTIVE_PROXY
            &&& from <= DETACH_ACTIVE_STORAGE ==> to <= DETACH_ACTIVE_STORAGE
            &&& from <= ATTACH_CANDIDATE_STORAGE ==> to <= ATTACH_CANDIDATE_STORAGE
            &&& from <= ATTACH_CANDIDATE_PROXY ==> to <= ATTACH_CANDIDATE_PROXY
            &&& from <= WAIT_CANDIDATE_LISTENER ==> to <= WAIT_CANDIDATE_LISTENER
            &&& from <= ATTACH_CANDIDATE_TAILSCALE && !s.skip_tailscale ==> to
                <= ATTACH_CANDIDATE_TAILSCALE
            &&& from <= WRITE_RUNTIME_STATE ==> to <= WRITE_RUNTIME_STATE
            &&& CHECK_TAILSCALE <= to <= EXPOSE_HTTP ==> !s.skip_tailscale
            &&& to == COMPARE_PREVIOUS_SETUP ==> !s.force_fresh
            &&& to == RESET_CANDIDATE ==> !s.reused
            &&& to == PROBE_SETUP_IMAGE ==> !s.force_fresh && !s.reused
        }),
{
    reveal(spec_due);
    first_due_stops(s, from);
    assert(spec_due(s, CHECK_CUTOVER_START));
    assert(spec_due(s, REMOVE_ACTIVE_PROXY));
    assert(spec_due(s, DETACH_ACTIVE_STORAGE));
    assert(spec_due(s, ATTACH_CANDIDATE_STORAGE));
    assert(spec_due(s, ATTACH_CANDIDATE_PROXY));
    assert(spec_due(s, WAIT_CANDIDATE_LISTENER));
    assert(!s.skip_tailscale ==> spec_due(s, ATTACH_CANDIDATE_TAILSCALE));
    assert(spec_due(s, WRITE_RUNTIME_STATE));
    assert(spec_due(s, SUCCEEDED));
}

/// The rollback passes over no step that has something to undo.
proof fn rollback_passes(s: BlueGreen, from: u8)
    requires
        UNDO_CANDIDATE_PROXY <= from <= FAILED,
    ensures
        ({
            let to = spec_first_due(s, from);
            &&& from <= to <= FAILED
            &&& from <= UNDO_CANDIDATE_PROXY && s.candidate_proxy_attached ==> to
                <= UNDO_CANDIDATE_PROXY
            &&& from <= UNDO_CANDIDATE_STORAGE && s.candidate_storage_attached ==> to
                <= UNDO_CANDIDATE_STORAGE
            &&& from <= RESTORE_ACTIVE_STORAGE && s.active_storage_detached ==> to
                <= RESTORE_ACTIVE_STORAGE
            &&& from <= RESTORE_ACTIVE_PROXY && s.active_proxy_removed ==> to
                <= RESTORE_ACTIVE_PROXY
            &&& from <= UNDO_CANDIDATE_TAILSCALE && !s.skip_tailscale
                && s.candidate_tailscale_attached ==> to <= UNDO_CANDIDATE_TAILSCALE
            &&& from <= RESTORE_ACTIVE_TAILSCALE && !s.skip_tailscale
                && s.active_tailscale_detached ==> to <= RESTORE_ACTIVE_TAILSCALE
            &&& to == CLEAN_FAILED_CANDIDATE ==> !s.reused
        }),
{
    reveal(spec_due);
    first_due_stops(s, from);
    assert(spec_due(s, UNDO_CANDIDATE_PROXY) == s.candidate_proxy_attached);
    assert(spec_due(s, UNDO_CANDIDATE_STORAGE) == s.candidate_storage_attached);
    assert(spec_due(s, RESTORE_ACTIVE_STORAGE) == s.active_storage_detached);
    assert(spec_due(s, RESTORE_ACTIVE_PROXY) == s.active_proxy_removed);
    assert(spec_due(s, UNDO_CANDIDATE_TAILSCALE) == (!s.skip_tailscale
        && s.candidate_tailscale_attached));
    assert(spec_due(s, RESTORE_ACTIVE_TAILSCALE) == (!s.skip_tailscale && (
    s.active_tailscale_detached || s.candidate_tailscale_attached)));
}

proof fn runs_account_for_traffic(s: BlueGreen, t0: Traffic, signals: Seq<Signal>)
    requires
        on_active(t0),
        accounts_for(s, t0, t0),
        undoing_succeeds(s, signals),
    ensures
        accounts_for(run(s, signals), traffic_after(s, t0, signals), t0),
    decreases signals.len(),
{
    if signals.len() > 0 {
        let head = signals.drop_last();
        assert(undoing_succeeds(s, head)) by {
            assert forall|n: int|
                0 <= n < head.len() && undoes((#[trigger] run(s, head.take(n))).step) implies head[n]
                != Signal::Failed by {
                assert(head.take(n) =~= signals.take(n));
            }
        }
        runs_account_for_traffic(s, t0, head);
        assert(signals.take(head.len() as int) =~= head);
        assert(run(s, signals.take(head.len() as int)) == run(s, head));
        accounting_is_kept(run(s, head), traffic_after(s, t0, head), t0, signals.last());
    }
}

/// Until the cutover, the traffic is as it was before the deploy.
pub proof fn traffic_stays_until_the_cutover(
    skip_tailscale: bool,
    force_fresh: bool,
    t0: Traffic,
    signals: Seq<Signal>,
)
    requires
        on_active(t0),
        undoing_succeeds(spec_start(skip_tailscale, force_fresh), signals),
    ensures
        ({
            let s = spec_start(skip_tailscale, force_fresh);
            let step = run(s, signals).step;
            step <= CHECK_CUTOVER_START || step == CLEAN_BUILD ==> traffic_after(s, t0, signals)
                == t0
        }),
{
    runs_account_for_traffic(spec_start(skip_tailscale, force_fresh), t0, signals);
}

/// A deploy that is over leaves the traffic on one container alone. Where it
/// succeeded, that is the candidate, which was seen listening. Where it failed
/// before the candidate was on record and whatever had to be undone was undone, it
/// is the container that was active before, with all that was attached to it.
pub proof fn traffic_ends_on_one_container(
    skip_tailscale: bool,
    force_fresh: bool,
    t0: Traffic,
    signals: Seq<Signal>,
)
    requires
        on_active(t0),
        undoing_succeeds(spec_start(skip_tailscale, force_fresh), signals),
    ensures
        ({
            let s0 = spec_start(skip_tailscale, force_fresh);
            let s = run(s0, signals);
            let t = traffic_after(s0, t0, signals);
            &&& s.step == SUCCEEDED ==> on_candidate(t) && s.candidate_listening
            &&& s.step == FAILED && t.candidate_on_record ==> on_candidate(t)
            &&& s.step == FAILED && !t.candidate_on_record ==> on_active(t) && (t0.active_tailscale
                ==> t.active_tailscale)
        }),
{
    runs_account_for_traffic(spec_start(skip_tailscale, force_fresh), t0, signals);
}

/// What holds of the state at every step of a deploy: a container that is reused is
/// neither made anew nor cleaned away, and a deploy that must not start from a
/// cached setup image does not.
pub open spec fn sound(s: BlueGreen) -> bool {
    &&& s.force_fresh ==> !s.setup_cached && !s.reused
    &&& s.setup_cached ==> !s.reused
    &&& s.step == CLEAN_BUILD || s.step == CLEAN_FAILED_CANDIDATE || s.step == RESET_CANDIDATE
        ==> !s.reused
    &&& s.step == COMPARE_PREVIOUS_SETUP ==> !s.force_fresh
    &&& s.step == PROBE_SETUP_IMAGE ==> !s.force_fresh && !s.reused
    &&& s.step <= COMPARE_PREVIOUS_SETUP ==> !s.setup_cached && !s.reused
    &&& s.step <= PROBE_SETUP_IMAGE ==> !s.setup_cached
}

/// A deploy starts sound.
pub proof fn deploys_start_sound(skip_tailscale: bool, force_fresh: bool)
    ensures
        sound(spec_start(skip_tailscale, force_fresh)),
{
}

/// Few steps decide how the candidate comes about.
#[verifier::spinoff_prover]
proof fn record_keeps(s: BlueGreen, signal: Signal)
    ensures
        spec_record(s, signal).force_fresh == s.force_fresh,
        s.step != COMPARE_PREVIOUS_SETUP ==> spec_record(s, signal).reused == s.reused,
        s.step != PROBE_SETUP_IMAGE ==> spec_record(s, signal).setup_cached == s.setup_cached,
{
    reveal(spec_record);
}

/// A deploy that is sound stays so, whatever becomes of its steps.
pub proof fn deploys_stay_sound(s: BlueGreen, signal: Signal)
    requires
        sound(s),
    ensures
        sound(spec_next(s, signal)),
{
    record_keeps(s, signal);
    if !is_over(s) {
        let recorded = spec_record(s, signal);
        if signal == Signal::Failed && !spec_lenient(s.step) {
            if CHECK_CUTOVER_START <= s.step <= WRITE_RUNTIME_STATE {
                rollback_passes(s, UNDO_CANDIDATE_PROXY);
            }
        } else if s.step < SUCCEEDED {
            forward_passes(recorded, (s.step + 1) as u8);
        } else {
            rollback_passes(recorded, (s.step + 1) as u8);
        }
    }
}

} // verus!
