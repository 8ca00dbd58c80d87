//! What the course of a deploy into the second container of an app comes to, by the
//! answers that its steps were given.

use vstd::prelude::*;
use crate::blue_green::{
    ACQUIRE_HOSTNAME, ADD_ROUTE, ATTACH_CANDIDATE_PROXY, ATTACH_CANDIDATE_STORAGE,
    ATTACH_CANDIDATE_TAILSCALE, BlueGreen, CHECK_BEFORE_CUTOVER, CHECK_BUILD, CHECK_BUILD_SETUP,
    CHECK_CUTOVER_START, CHECK_DETECTION, CHECK_FINALIZE, CHECK_PREFLIGHT, CHECK_PREPARATION,
    CHECK_READINESS, CHECK_REQUIRED_ENV, CHECK_TAILSCALE, CLEAN_BUILD, CLEAN_FAILED_CANDIDATE,
    CLEAR_BINARY_HASH, CLEAR_CLEANUP_JOB, COMPARE_PREVIOUS_SETUP, CREATE_CANDIDATE,
    CREATE_FROM_SETUP_IMAGE, CREATE_FROM_STACK_IMAGE, DETACH_ACTIVE_STORAGE,
    DETACH_ACTIVE_TAILSCALE, DETECT_APP, DOWN_ACTIVE_TAILNET, DOWN_CANDIDATE_TAILNET,
    due_steps_are_next, ENSURE_CREATE_PREREQS, ENSURE_PROFILE, ENSURE_STORAGE_VOLUME,
    ENSURE_TAILSCALE_VOLUME, EXPOSE_HTTP, FAILED, HASH_BINARY, INCREMENT_BUILD, INIT_STACKS,
    INSTALL_PACKAGES, INSTALL_TAILSCALE, LAUNCH_CANDIDATE, noted, PERSIST_REQUIRED_ENV,
    PERSIST_START_COMMAND, PROBE_ACTIVE_SERVING, PROBE_ACTIVE_TAILSCALE, PROBE_CANDIDATE,
    PROBE_CANDIDATE_RUNNING, PROBE_PROJECT, PROBE_SETUP_IMAGE, PROBE_STACK_IMAGE,
    PUBLISH_SETUP_IMAGE, PUBLISH_STACK_IMAGE, PUSH_CODE, PUSH_SETUP_SCRIPT, READ_ACTIVE_DNS_NAME,
    READ_ACTIVE_START_COMMAND, READ_CLEANUP_JOB, READ_ENV, READ_PREVIOUS, READ_PROJECT,
    RECONCILE_AFTER_CUTOVER, RECONCILE_BEFORE_CUTOVER, REEXPOSE_HTTP, REFRESH_TAILSCALE,
    REJOIN_WITH_AUTH_KEY, REJOIN_WITH_STATE, RELAUNCH_ACTIVE, REMOVE_ACTIVE_PROXY,
    REMOVE_CANDIDATE_PROXY, REMOVE_CANDIDATE_STORAGE, REMOVE_CANDIDATE_TAILSCALE, Reply,
    RESET_CANDIDATE, RESOLVE_ACTIVE, RESOLVE_STACK, RESTORE_ACTIVE_PROXY, RESTORE_ACTIVE_STORAGE,
    RESTORE_ACTIVE_TAILSCALE, RESTORE_ROUTE, RolloutView, run, RUN_INSTALL, RUN_POSTINSTALL,
    RUN_PREINSTALL, RUN_SETUP_SCRIPT, SEED_TAILSCALE_STATE, Signal, spec_due, spec_lenient,
    spec_next, spec_record, spec_signal, spec_start, START_CANDIDATE, STOP_ACTIVE_PROCESS,
    STOP_ACTIVE_TAILSCALED, STOP_CANDIDATE_PROCESS, STOP_CANDIDATE_TAILSCALED,
    STOP_FAILED_TAILSCALED, SUCCEEDED, UNDO_CANDIDATE_PROXY, UNDO_CANDIDATE_STORAGE,
    UNDO_CANDIDATE_TAILSCALE, verdict_of, WAIT_ACTIVE_QUIET, WAIT_CANDIDATE_LISTENER,
    WAIT_LIVE_LISTENER, WAIT_PREVIOUS_QUIET, WRITE_BINARY_HASH, WRITE_RUNTIME_STATE,
    WRITE_SETUP_HASH,
};
use crate::failure::{CACHED_SETUP_FAILURE, FRESH_SETUP_FAILURE};

verus! {

/// What became of a step in a run of signals, if the run came to it.
pub open spec fn told(s: BlueGreen, signals: Seq<Signal>, step: u8) -> Option<Signal>
    decreases signals.len(),
{
    if signals.len() == 0 {
        None
    } else {
        let before = run(s, signals.drop_last());
        if before.step == step && step != SUCCEEDED && step < FAILED {
            Some(signals.last())
        } else {
            told(s, signals.drop_last(), step)
        }
    }
}

/// A deploy into the second container of an app, by its settings and what became of its
/// steps one after the other.
pub struct Course {
    pub skip_tailscale: bool,
    pub force_fresh: bool,
    pub signals: Seq<Signal>,
}

impl Course {
    pub open spec fn start(self) -> BlueGreen {
        spec_start(self.skip_tailscale, self.force_fresh)
    }

    /// The deploy with one more signal.
    pub open spec fn with(self, signal: Signal) -> Course {
        Course { signals: self.signals.push(signal), ..self }
    }

    /// Where the deploy stands.
    pub open spec fn state(self) -> BlueGreen {
        run(self.start(), self.signals)
    }

    /// Whether the deploy goes on or has succeeded, and a step lies behind it.
    pub open spec fn is_past(self, step: u8) -> bool {
        step < self.state().step <= SUCCEEDED
    }

    pub open spec fn told(self, step: u8) -> Option<Signal> {
        told(self.start(), self.signals, step)
    }

    /// Whether a step was taken, whatever became of it.
    pub open spec fn tried(self, step: u8) -> bool {
        self.told(step) is Some
    }

    /// Whether a step was taken and failed.
    pub open spec fn failed(self, step: u8) -> bool {
        self.told(step) == Some(Signal::Failed)
    }

    /// Whether a step was taken and did not fail.
    pub open spec fn did(self, step: u8) -> bool {
        self.tried(step) && !self.failed(step)
    }

    /// Whether a step that asks something was answered with yes.
    pub open spec fn yes(self, step: u8) -> bool {
        self.told(step) == Some(Signal::Yes)
    }

    /// Whether the app was found to be a binary.
    pub open spec fn is_binary(self) -> bool {
        self.told(DETECT_APP) matches Some(Signal::Detected { binary, .. }) && binary
    }

    /// Whether the app was found to want packages.
    pub open spec fn wants_packages(self) -> bool {
        self.told(DETECT_APP) matches Some(Signal::Detected { packages, .. }) && packages
    }

    /// Whether the app was found to have dependencies to install.
    pub open spec fn has_dependencies(self) -> bool {
        self.told(DETECT_APP) matches Some(Signal::Detected { install, .. }) && install
    }

    /// Whether the candidate is the container that an earlier deploy left, found to be set
    /// up as it is to be.
    pub open spec fn reuses(self) -> bool {
        self.yes(COMPARE_PREVIOUS_SETUP)
    }

    /// Whether the deploy broke off at a step of the cutover.
    pub open spec fn broke_off_at(self, step: u8) -> bool {
        CHECK_CUTOVER_START <= step <= WRITE_RUNTIME_STATE && self.failed(step)
            && !is_dispensable(step)
    }
}

/// The steps whose failure a deploy gets over: to compare the previous setup, to strip a
/// candidate that is used again, to publish an image, to take the storage and the tailnet
/// from the active container, to expose the app on the tailnet, to clear the cleanup job
/// and to keep the hash of a binary.
pub open spec fn is_dispensable(step: u8) -> bool {
    ||| step == COMPARE_PREVIOUS_SETUP
    ||| STOP_CANDIDATE_PROCESS <= step <= REMOVE_CANDIDATE_TAILSCALE
    ||| step == DOWN_CANDIDATE_TAILNET
    ||| step == STOP_CANDIDATE_TAILSCALED
    ||| step == PUBLISH_STACK_IMAGE
    ||| step == PUBLISH_SETUP_IMAGE
    ||| step == DETACH_ACTIVE_STORAGE
    ||| step == DOWN_ACTIVE_TAILNET
    ||| step == STOP_ACTIVE_TAILSCALED
    ||| step == EXPOSE_HTTP
    ||| step == CLEAR_CLEANUP_JOB
    ||| step == WRITE_BINARY_HASH
    ||| step == CLEAR_BINARY_HASH
}

/// What the flags of the preparation say is what the steps were told.
spec fn preparation_flags_hold(c: Course) -> bool {
    let t = c.state();
    &&& t.skip_tailscale == c.skip_tailscale
    &&& t.force_fresh == c.force_fresh
    &&& t.project_exists == c.yes(PROBE_PROJECT)
    &&& t.binary == c.is_binary()
    &&& t.packages == c.wants_packages()
    &&& t.install == c.has_dependencies()
    &&& t.binary_hash == c.yes(HASH_BINARY)
    &&& t.has_previous == c.yes(READ_PREVIOUS)
    &&& t.pending_cleanup == c.yes(READ_CLEANUP_JOB)
    &&& t.reused == c.yes(COMPARE_PREVIOUS_SETUP)
    &&& t.candidate_exists == c.yes(PROBE_CANDIDATE)
    &&& t.active_blocked == c.failed(WAIT_ACTIVE_QUIET)
    &&& t.candidate_running == c.yes(PROBE_CANDIDATE_RUNNING)
    &&& t.setup_cached == c.yes(PROBE_SETUP_IMAGE)
    &&& t.stack_cached == c.yes(PROBE_STACK_IMAGE)
}

/// What the flags of the cutover say is what the steps were told.
spec fn cutover_flags_hold(c: Course) -> bool {
    let t = c.state();
    &&& t.active_proxy_removed == c.did(REMOVE_ACTIVE_PROXY)
    &&& t.active_storage_detached == c.tried(DETACH_ACTIVE_STORAGE)
    &&& t.candidate_storage_attached == c.did(ATTACH_CANDIDATE_STORAGE)
    &&& t.candidate_proxy_attached == c.did(ATTACH_CANDIDATE_PROXY)
    &&& t.active_tailnet_down == c.did(DOWN_ACTIVE_TAILNET)
    &&& t.active_has_tailscale == c.yes(PROBE_ACTIVE_TAILSCALE)
    &&& t.active_tailscale_detached == c.did(DETACH_ACTIVE_TAILSCALE)
    &&& t.candidate_tailscale_attached == c.did(ATTACH_CANDIDATE_TAILSCALE)
    &&& t.start_command_known == c.yes(READ_ACTIVE_START_COMMAND)
    &&& t.state_rejoin_failed == c.failed(REJOIN_WITH_STATE)
    &&& t.key_rejoin_failed == c.failed(REJOIN_WITH_AUTH_KEY)
    &&& t.name_known == if c.tried(READ_ACTIVE_DNS_NAME) {
        c.yes(READ_ACTIVE_DNS_NAME)
    } else if c.tried(REJOIN_WITH_AUTH_KEY) {
        c.yes(REJOIN_WITH_AUTH_KEY)
    } else {
        c.yes(REJOIN_WITH_STATE)
    }
}

/// The deploy but for its last signal.
spec fn earlier(c: Course) -> Course {
    Course { signals: c.signals.drop_last(), ..c }
}

proof fn steps_to_come_are_not_told(c: Course)
    ensures
        c.state().step <= FAILED,
        forall|k: u8| c.state().step <= k ==> #[trigger] c.told(k) is None,
    decreases c.signals.len(),
{
    if c.signals.len() > 0 {
        let e = earlier(c);
        steps_to_come_are_not_told(e);
        let before = e.state();
        if before.step != SUCCEEDED && before.step < FAILED {
            due_steps_are_next(before, c.signals.last());
        }
        assert forall|k: u8| c.state().step <= k implies #[trigger] c.told(k) is None by {
            assert(e.told(k) is None);
        }
    }
}

/// What one signal does to the flags of the preparation.
#[verifier::spinoff_prover]
#[verifier::rlimit(30)]
proof fn detections_are_recorded(s: BlueGreen, signal: Signal)
    ensures
        spec_record(s, signal).skip_tailscale == s.skip_tailscale,
        spec_record(s, signal).force_fresh == s.force_fresh,
        spec_record(s, signal).active_blocked == s.active_blocked,
        spec_record(s, signal).stopped_at == s.stopped_at,
        s.step != DETECT_APP ==> spec_record(s, signal).binary == s.binary,
        s.step == DETECT_APP && !(signal is Detected) ==> spec_record(s, signal).binary == s.binary,
        s.step == DETECT_APP && signal is Detected ==> spec_record(s, signal).binary
            == signal->binary,
        s.step != DETECT_APP ==> spec_record(s, signal).packages == s.packages,
        s.step == DETECT_APP && !(signal is Detected) ==> spec_record(s, signal).packages
            == s.packages,
        s.step == DETECT_APP && signal is Detected ==> spec_record(s, signal).packages
            == signal->packages,
        s.step != DETECT_APP ==> spec_record(s, signal).install == s.install,
        s.step == DETECT_APP && !(signal is Detected) ==> spec_record(s, signal).install
            == s.install,
        s.step == DETECT_APP && signal is Detected ==> spec_record(s, signal).install
            == signal->install,
{
    reveal(spec_record);
}

#[verifier::spinoff_prover]
#[verifier::rlimit(30)]
proof fn answers_are_recorded(s: BlueGreen, signal: Signal)
    ensures
        s.step != PROBE_PROJECT ==> spec_record(s, signal).project_exists == s.project_exists,
        s.step == PROBE_PROJECT ==> spec_record(s, signal).project_exists == (signal
            == Signal::Yes),
        s.step != HASH_BINARY ==> spec_record(s, signal).binary_hash == s.binary_hash,
        s.step == HASH_BINARY ==> spec_record(s, signal).binary_hash == (signal == Signal::Yes),
        s.step != READ_PREVIOUS ==> spec_record(s, signal).has_previous == s.has_previous,
        s.step == READ_PREVIOUS ==> spec_record(s, signal).has_previous == (signal == Signal::Yes),
        s.step != READ_CLEANUP_JOB ==> spec_record(s, signal).pending_cleanup == s.pending_cleanup,
        s.step == READ_CLEANUP_JOB ==> spec_record(s, signal).pending_cleanup == (signal
            == Signal::Yes),
        s.step != COMPARE_PREVIOUS_SETUP ==> spec_record(s, signal).reused == s.reused,
        s.step == COMPARE_PREVIOUS_SETUP ==> spec_record(s, signal).reused == (signal
            == Signal::Yes),
        s.step != PROBE_CANDIDATE ==> spec_record(s, signal).candidate_exists == s.candidate_exists,
        s.step == PROBE_CANDIDATE ==> spec_record(s, signal).candidate_exists == (signal
            == Signal::Yes),
        s.step != PROBE_CANDIDATE_RUNNING ==> spec_record(s, signal).candidate_running
            == s.candidate_running,
        s.step == PROBE_CANDIDATE_RUNNING ==> spec_record(s, signal).candidate_running == (signal
            == Signal::Yes),
        s.step != PROBE_SETUP_IMAGE ==> spec_record(s, signal).setup_cached == s.setup_cached,
        s.step == PROBE_SETUP_IMAGE ==> spec_record(s, signal).setup_cached == (signal
            == Signal::Yes),
        s.step != PROBE_STACK_IMAGE ==> spec_record(s, signal).stack_cached == s.stack_cached,
        s.step == PROBE_STACK_IMAGE ==> spec_record(s, signal).stack_cached == (signal
            == Signal::Yes),
        s.step != PROBE_ACTIVE_TAILSCALE ==> spec_record(s, signal).active_has_tailscale
            == s.active_has_tailscale,
        s.step == PROBE_ACTIVE_TAILSCALE ==> spec_record(s, signal).active_has_tailscale == (signal
            == Signal::Yes),
        s.step != READ_ACTIVE_START_COMMAND ==> spec_record(s, signal).start_command_known
            == s.start_command_known,
        s.step == READ_ACTIVE_START_COMMAND
            ==> spec_record(s, signal).start_command_known == (signal == Signal::Yes),
{
    reveal(spec_record);
}

/// What one signal does to the flags of the cutover and of the rollback.
#[verifier::spinoff_prover]
#[verifier::rlimit(30)]
proof fn changes_are_recorded(s: BlueGreen, signal: Signal)
    ensures
        s.step != REMOVE_ACTIVE_PROXY ==> spec_record(s, signal).active_proxy_removed
            == s.active_proxy_removed,
        s.step == REMOVE_ACTIVE_PROXY ==> spec_record(s, signal).active_proxy_removed == true,
        s.step != DETACH_ACTIVE_STORAGE ==> spec_record(s, signal).active_storage_detached
            == s.active_storage_detached,
        s.step == DETACH_ACTIVE_STORAGE ==> spec_record(s, signal).active_storage_detached == true,
        s.step != ATTACH_CANDIDATE_STORAGE ==> spec_record(s, signal).candidate_storage_attached
            == s.candidate_storage_attached,
        s.step == ATTACH_CANDIDATE_STORAGE ==> spec_record(s, signal).candidate_storage_attached
            == true,
        s.step != ATTACH_CANDIDATE_PROXY ==> spec_record(s, signal).candidate_proxy_attached
            == s.candidate_proxy_attached,
        s.step == ATTACH_CANDIDATE_PROXY ==> spec_record(s, signal).candidate_proxy_attached
            == true,
        s.step != DETACH_ACTIVE_TAILSCALE ==> spec_record(s, signal).active_tailscale_detached
            == s.active_tailscale_detached,
        s.step == DETACH_ACTIVE_TAILSCALE ==> spec_record(s, signal).active_tailscale_detached
            == true,
        s.step != ATTACH_CANDIDATE_TAILSCALE ==> spec_record(s, signal).candidate_tailscale_attached
            == s.candidate_tailscale_attached,
        s.step == ATTACH_CANDIDATE_TAILSCALE ==> spec_record(s, signal).candidate_tailscale_attached
            == true,
        s.step != DOWN_ACTIVE_TAILNET ==> spec_record(s, signal).active_tailnet_down
            == s.active_tailnet_down,
        s.step == DOWN_ACTIVE_TAILNET ==> spec_record(s, signal).active_tailnet_down
            == (signal != Signal::Failed),
        s.step != REJOIN_WITH_STATE ==> spec_record(s, signal).state_rejoin_failed
            == s.state_rejoin_failed,
        s.step == REJOIN_WITH_STATE ==> spec_record(s, signal).state_rejoin_failed == (signal
            == Signal::Failed),
        s.step != REJOIN_WITH_AUTH_KEY ==> spec_record(s, signal).key_rejoin_failed
            == s.key_rejoin_failed,
        s.step == REJOIN_WITH_AUTH_KEY ==> spec_record(s, signal).key_rejoin_failed == (signal
            == Signal::Failed),
        s.step != REJOIN_WITH_STATE && s.step != REJOIN_WITH_AUTH_KEY && s.step != READ_ACTIVE_DNS_NAME
            ==> spec_record(s, signal).name_known == s.name_known,
        s.step == REJOIN_WITH_STATE || s.step == REJOIN_WITH_AUTH_KEY || s.step == READ_ACTIVE_DNS_NAME
            ==> spec_record(s, signal).name_known == (signal == Signal::Yes),
{
    reveal(spec_record);
}

/// Whether two states have the same flags, as far as steps before a given one set them.
spec fn agree_before(s: BlueGreen, t: BlueGreen, k: u8) -> bool {
    &&& s.skip_tailscale == t.skip_tailscale
    &&& s.force_fresh == t.force_fresh
    &&& DETECT_APP < k ==> s.binary == t.binary
    &&& DETECT_APP < k ==> s.packages == t.packages
    &&& DETECT_APP < k ==> s.install == t.install
    &&& PROBE_PROJECT < k ==> s.project_exists == t.project_exists
    &&& HASH_BINARY < k ==> s.binary_hash == t.binary_hash
    &&& READ_PREVIOUS < k ==> s.has_previous == t.has_previous
    &&& READ_CLEANUP_JOB < k ==> s.pending_cleanup == t.pending_cleanup
    &&& COMPARE_PREVIOUS_SETUP < k ==> s.reused == t.reused
    &&& PROBE_CANDIDATE < k ==> s.candidate_exists == t.candidate_exists
    &&& PROBE_CANDIDATE_RUNNING < k ==> s.candidate_running == t.candidate_running
    &&& PROBE_SETUP_IMAGE < k ==> s.setup_cached == t.setup_cached
    &&& PROBE_STACK_IMAGE < k ==> s.stack_cached == t.stack_cached
    &&& WAIT_ACTIVE_QUIET < k ==> s.active_blocked == t.active_blocked
    &&& PROBE_ACTIVE_TAILSCALE < k ==> s.active_has_tailscale == t.active_has_tailscale
    &&& READ_ACTIVE_START_COMMAND < k ==> s.start_command_known == t.start_command_known
    &&& REMOVE_ACTIVE_PROXY < k ==> s.active_proxy_removed == t.active_proxy_removed
    &&& DETACH_ACTIVE_STORAGE < k ==> s.active_storage_detached == t.active_storage_detached
    &&& ATTACH_CANDIDATE_STORAGE < k ==> s.candidate_storage_attached
        == t.candidate_storage_attached
    &&& ATTACH_CANDIDATE_PROXY < k ==> s.candidate_proxy_attached == t.candidate_proxy_attached
    &&& DETACH_ACTIVE_TAILSCALE < k ==> s.active_tailscale_detached == t.active_tailscale_detached
    &&& ATTACH_CANDIDATE_TAILSCALE < k ==> s.candidate_tailscale_attached
        == t.candidate_tailscale_attached
    &&& DOWN_ACTIVE_TAILNET < k ==> s.active_tailnet_down == t.active_tailnet_down
    &&& REJOIN_WITH_STATE < k ==> s.state_rejoin_failed == t.state_rejoin_failed
    &&& REJOIN_WITH_AUTH_KEY < k ==> s.key_rejoin_failed == t.key_rejoin_failed
    &&& READ_ACTIVE_DNS_NAME < k ==> s.name_known == t.name_known
}

#[verifier::spinoff_prover]
#[verifier::rlimit(30)]
proof fn early_steps_are_due_alike(s: BlueGreen, t: BlueGreen, k: u8)
    requires
        k <= STOP_CANDIDATE_TAILSCALED,
        agree_before(s, t, k),
    ensures
        spec_due(s, k) == spec_due(t, k),
{
    reveal(spec_due);
}

#[verifier::spinoff_prover]
#[verifier::rlimit(30)]
proof fn building_steps_are_due_alike(s: BlueGreen, t: BlueGreen, k: u8)
    requires
        STOP_CANDIDATE_TAILSCALED < k <= RUN_POSTINSTALL,
        agree_before(s, t, k),
    ensures
        spec_due(s, k) == spec_due(t, k),
{
    reveal(spec_due);
}

#[verifier::spinoff_prover]
#[verifier::rlimit(30)]
proof fn cutover_steps_are_due_alike(s: BlueGreen, t: BlueGreen, k: u8)
    requires
        RUN_POSTINSTALL < k <= CLEAN_BUILD,
        agree_before(s, t, k),
    ensures
        spec_due(s, k) == spec_due(t, k),
{
    reveal(spec_due);
}

#[verifier::spinoff_prover]
#[verifier::rlimit(30)]
proof fn rollback_steps_are_due_alike(s: BlueGreen, t: BlueGreen, k: u8)
    requires
        CLEAN_BUILD < k,
        agree_before(s, t, k),
    ensures
        spec_due(s, k) == spec_due(t, k),
{
    reveal(spec_due);
}

/// Whether a step is due goes by what the steps before it set, and by nothing else.
proof fn steps_are_due_alike(s: BlueGreen, t: BlueGreen, k: u8)
    requires
        agree_before(s, t, k),
    ensures
        spec_due(s, k) == spec_due(t, k),
{
    if k <= STOP_CANDIDATE_TAILSCALED {
        early_steps_are_due_alike(s, t, k);
    } else if k <= RUN_POSTINSTALL {
        building_steps_are_due_alike(s, t, k);
    } else if k <= CLEAN_BUILD {
        cutover_steps_are_due_alike(s, t, k);
    } else {
        rollback_steps_are_due_alike(s, t, k);
    }
}

/// What one signal records sets nothing that a step before goes by.
#[verifier::spinoff_prover]
#[verifier::rlimit(30)]
proof fn records_set_nothing_before(s: BlueGreen, signal: Signal, k: u8)
    requires
        k <= s.step,
    ensures
        agree_before(s, spec_record(s, signal), k),
{
    detections_are_recorded(s, signal);
    answers_are_recorded(s, signal);
    changes_are_recorded(s, signal);
}

/// What one more signal tells.
proof fn signals_tell(c: Course)
    requires
        c.signals.len() > 0,
    ensures
        ({
            let e = earlier(c);
            let s = e.state();
            let live = s.step != SUCCEEDED && s.step < FAILED;
            &&& c.state() == if live {
                spec_next(s, c.signals.last())
            } else {
                s
            }
            &&& forall|k: u8| #[trigger]
                c.told(k) == if live && s.step == k {
                    Some(c.signals.last())
                } else {
                    e.told(k)
                }
            &&& forall|k: u8| s.step <= k ==> #[trigger] e.told(k) is None
            &&& s.step < c.state().step || !live
            &&& c.state().step <= FAILED
        }),
{
    let e = earlier(c);
    steps_to_come_are_not_told(c);
    steps_to_come_are_not_told(e);
    let s = e.state();
    if s.step != SUCCEEDED && s.step < FAILED {
        due_steps_are_next(s, c.signals.last());
    }
}

/// The flags of the preparation after one signal.
#[verifier::spinoff_prover]
#[verifier::rlimit(30)]
proof fn signals_set_preparation_flags(s: BlueGreen, signal: Signal)
    requires
        s.step != SUCCEEDED,
        s.step < FAILED,
    ensures
        spec_next(s, signal).skip_tailscale == s.skip_tailscale,
        spec_next(s, signal).force_fresh == s.force_fresh,
        s.step != PROBE_PROJECT ==> spec_next(s, signal).project_exists == s.project_exists,
        s.step == PROBE_PROJECT && !s.project_exists
            ==> spec_next(s, signal).project_exists == (signal == Signal::Yes),
        s.step != HASH_BINARY ==> spec_next(s, signal).binary_hash == s.binary_hash,
        s.step == HASH_BINARY && !s.binary_hash ==> spec_next(s, signal).binary_hash == (signal
            == Signal::Yes),
        s.step != READ_PREVIOUS ==> spec_next(s, signal).has_previous == s.has_previous,
        s.step == READ_PREVIOUS && !s.has_previous ==> spec_next(s, signal).has_previous == (signal
            == Signal::Yes),
        s.step != READ_CLEANUP_JOB ==> spec_next(s, signal).pending_cleanup == s.pending_cleanup,
        s.step == READ_CLEANUP_JOB && !s.pending_cleanup
            ==> spec_next(s, signal).pending_cleanup == (signal == Signal::Yes),
        s.step != COMPARE_PREVIOUS_SETUP ==> spec_next(s, signal).reused == s.reused,
        s.step == COMPARE_PREVIOUS_SETUP && !s.reused ==> spec_next(s, signal).reused == (signal
            == Signal::Yes),
        s.step != PROBE_CANDIDATE ==> spec_next(s, signal).candidate_exists == s.candidate_exists,
        s.step == PROBE_CANDIDATE && !s.candidate_exists
            ==> spec_next(s, signal).candidate_exists == (signal == Signal::Yes),
        s.step != PROBE_CANDIDATE_RUNNING ==> spec_next(s, signal).candidate_running
            == s.candidate_running,
        s.step == PROBE_CANDIDATE_RUNNING && !s.candidate_running
            ==> spec_next(s, signal).candidate_running == (signal == Signal::Yes),
        s.step != PROBE_SETUP_IMAGE ==> spec_next(s, signal).setup_cached == s.setup_cached,
        s.step == PROBE_SETUP_IMAGE && !s.setup_cached
            ==> spec_next(s, signal).setup_cached == (signal == Signal::Yes),
        s.step != PROBE_STACK_IMAGE ==> spec_next(s, signal).stack_cached == s.stack_cached,
        s.step == PROBE_STACK_IMAGE && !s.stack_cached
            ==> spec_next(s, signal).stack_cached == (signal == Signal::Yes),
        s.step != DETECT_APP ==> spec_next(s, signal).binary == s.binary,
        s.step == DETECT_APP && !(signal is Detected) ==> spec_next(s, signal).binary == s.binary,
        s.step == DETECT_APP && signal is Detected ==> spec_next(s, signal).binary
            == signal->binary,
        s.step != DETECT_APP ==> spec_next(s, signal).packages == s.packages,
        s.step == DETECT_APP && !(signal is Detected) ==> spec_next(s, signal).packages
            == s.packages,
        s.step == DETECT_APP && signal is Detected ==> spec_next(s, signal).packages
            == signal->packages,
        s.step != DETECT_APP ==> spec_next(s, signal).install == s.install,
        s.step == DETECT_APP && !(signal is Detected) ==> spec_next(s, signal).install == s.install,
        s.step == DETECT_APP && signal is Detected ==> spec_next(s, signal).install
            == signal->install,
        s.step != WAIT_ACTIVE_QUIET ==> spec_next(s, signal).active_blocked == s.active_blocked,
        s.step == WAIT_ACTIVE_QUIET && !s.active_blocked ==> spec_next(s, signal).active_blocked
            == (signal
            == Signal::Failed),
{
    detections_are_recorded(s, signal);
    answers_are_recorded(s, signal);
}

#[verifier::spinoff_prover]
#[verifier::rlimit(30)]
proof fn preparation_flags_are_what_was_told(c: Course)
    ensures
        preparation_flags_hold(c),
    decreases c.signals.len(),
{
    if c.signals.len() > 0 {
        let e = earlier(c);
        preparation_flags_are_what_was_told(e);
        signals_tell(c);
        if e.state().step != SUCCEEDED && e.state().step < FAILED {
            signals_set_preparation_flags(e.state(), c.signals.last());
        }
    }
}

#[verifier::spinoff_prover]
#[verifier::rlimit(30)]
proof fn cutover_flags_are_what_was_told(c: Course)
    ensures
        cutover_flags_hold(c),
    decreases c.signals.len(),
{
    if c.signals.len() > 0 {
        let e = earlier(c);
        cutover_flags_are_what_was_told(e);
        signals_tell(c);
        answers_are_recorded(e.state(), c.signals.last());
        changes_are_recorded(e.state(), c.signals.last());
    }
}

/// What is due around a signal after which the deploy goes on: what was due before stays
/// so, what is passed over is not due, and what comes next is.
#[verifier::spinoff_prover]
#[verifier::rlimit(30)]
proof fn signals_lead_to_what_is_due(s: BlueGreen, signal: Signal, k: u8)
    requires
        s.step < SUCCEEDED,
        spec_next(s, signal).step <= SUCCEEDED,
    ensures
        spec_due(spec_next(s, signal), spec_next(s, signal).step),
        k <= s.step ==> spec_due(spec_next(s, signal), k) == spec_due(s, k),
        s.step < k < spec_next(s, signal).step ==> !spec_due(spec_next(s, signal), k),
        signal == Signal::Failed ==> spec_lenient(s.step) || s.step == WAIT_ACTIVE_QUIET,
        s.step == RESOLVE_ACTIVE || s.step == PROBE_ACTIVE_SERVING ==> signal == Signal::Yes,
{
    let after = spec_next(s, signal);
    let recorded = spec_record(s, signal);
    due_steps_are_next(s, signal);
    if signal == Signal::Failed && s.step == WAIT_ACTIVE_QUIET {
        if k <= s.step {
            steps_are_due_alike(s, after, k);
        }
        assert(spec_due(after, PROBE_ACTIVE_SERVING)) by {
            reveal(spec_due);
        }
    } else {
        steps_are_due_alike(recorded, after, after.step);
        steps_are_due_alike(recorded, after, k);
        if k <= s.step {
            records_set_nothing_before(s, signal, k);
            steps_are_due_alike(s, recorded, k);
        } else if k < after.step {
            assert(!spec_due(recorded, k));
        }
    }
}

/// A deploy that goes on has taken the steps that were due, and no others.
#[verifier::spinoff_prover]
#[verifier::rlimit(30)]
proof fn due_steps_were_taken(c: Course, k: u8)
    ensures
        c.state().step < SUCCEEDED ==> spec_due(c.state(), c.state().step),
        c.is_past(k) ==> (c.tried(k) <==> spec_due(c.state(), k)),
        c.is_past(k) && c.failed(k) ==> spec_lenient(k) || k == WAIT_ACTIVE_QUIET,
        c.is_past(k) && c.tried(k) && (k == RESOLVE_ACTIVE || k == PROBE_ACTIVE_SERVING) ==> c.yes(
            k,
        ),
    decreases c.signals.len(),
{
    steps_to_come_are_not_told(c);
    if c.signals.len() == 0 {
        reveal(spec_due);
    } else {
        let e = earlier(c);
        due_steps_were_taken(e, k);
        signals_tell(c);
        assert(c.told(k) is Some ==> c.told(k) == e.told(k) || k == e.state().step);
        if e.state().step < SUCCEEDED && c.state().step <= SUCCEEDED {
            signals_lead_to_what_is_due(e.state(), c.signals.last(), k);
        }
    }
}

/// The deploy is rolling the cutover back, or has done so.
spec fn is_rolled_back(t: BlueGreen) -> bool {
    t.step > CLEAN_BUILD && CHECK_CUTOVER_START <= t.stopped_at <= WRITE_RUNTIME_STATE
}

/// What is due around a signal of a rollback, or one that starts it.
#[verifier::spinoff_prover]
#[verifier::rlimit(30)]
proof fn signals_lead_to_what_is_rolled_back(s: BlueGreen, signal: Signal, k: u8)
    requires
        s.step != SUCCEEDED,
        s.step < FAILED,
        CLEAN_BUILD < k,
        CLEAN_BUILD < s.step || CHECK_CUTOVER_START <= s.step <= WRITE_RUNTIME_STATE && signal
            == Signal::Failed && !spec_lenient(s.step),
    ensures
        spec_next(s, signal).step < FAILED ==> spec_due(
            spec_next(s, signal),
            spec_next(s, signal).step,
        ),
        CLEAN_BUILD < spec_next(s, signal).step,
        k <= s.step ==> spec_due(spec_next(s, signal), k) == spec_due(s, k),
        s.step < k < spec_next(s, signal).step ==> !spec_due(spec_next(s, signal), k),
        CLEAN_BUILD < s.step ==> spec_next(s, signal).stopped_at == s.stopped_at,
        s.step < CLEAN_BUILD ==> spec_next(s, signal).stopped_at == s.step,
{
    let after = spec_next(s, signal);
    let recorded = spec_record(s, signal);
    due_steps_are_next(s, signal);
    detections_are_recorded(s, signal);
    if CLEAN_BUILD < s.step {
        steps_are_due_alike(recorded, after, k);
        steps_are_due_alike(recorded, after, after.step);
        if k <= s.step {
            records_set_nothing_before(s, signal, k);
            steps_are_due_alike(s, recorded, k);
        } else if k < after.step {
            assert(!spec_due(recorded, k));
        }
    } else {
        steps_are_due_alike(s, after, k);
        steps_are_due_alike(s, after, after.step);
        if k < after.step {
            assert(!spec_due(s, k));
        }
    }
}

/// Where a signal leads that neither belongs to a rollback nor starts one.
#[verifier::spinoff_prover]
#[verifier::rlimit(30)]
proof fn other_signals_start_no_rollback(s: BlueGreen, signal: Signal)
    requires
        s.step <= CLEAN_BUILD,
        s.step != SUCCEEDED,
        !(CHECK_CUTOVER_START <= s.step <= WRITE_RUNTIME_STATE && signal == Signal::Failed
            && !spec_lenient(s.step)),
        s.step < CLEAN_BUILD ==> s.stopped_at < CHECK_BUILD_SETUP,
        s.step == CLEAN_BUILD ==> s.stopped_at < CHECK_CUTOVER_START,
    ensures
        ({
            let t = spec_next(s, signal);
            &&& t.step <= CLEAN_BUILD || t.step == FAILED
            &&& t.step < CLEAN_BUILD ==> t.stopped_at < CHECK_BUILD_SETUP
            &&& t.stopped_at < CHECK_CUTOVER_START || t.stopped_at > WRITE_RUNTIME_STATE
            &&& t.step == CLEAN_BUILD ==> t.stopped_at < CHECK_CUTOVER_START
        }),
{
    due_steps_are_next(s, signal);
    detections_are_recorded(s, signal);
}

/// A deploy rolls back exactly where the cutover broke off.
#[verifier::spinoff_prover]
#[verifier::rlimit(30)]
proof fn rollbacks_follow_the_cutover(c: Course, k: u8)
    ensures
        CLEAN_BUILD < c.state().step < FAILED ==> is_rolled_back(c.state()),
        is_rolled_back(c.state()) ==> c.broke_off_at(c.state().stopped_at),
        c.broke_off_at(k) ==> is_rolled_back(c.state()) && c.state().stopped_at == k,
        c.state().step < CLEAN_BUILD ==> c.state().stopped_at < CHECK_BUILD_SETUP,
        c.state().step == CLEAN_BUILD ==> c.state().stopped_at < CHECK_CUTOVER_START,
    decreases c.signals.len(),
{
    steps_to_come_are_not_told(c);
    if c.signals.len() > 0 {
        let e = earlier(c);
        rollbacks_follow_the_cutover(e, k);
        signals_tell(c);
        let s = e.state();
        let signal = c.signals.last();
        assert(c.told(k) is Some ==> c.told(k) == e.told(k) || k == s.step);
        assert(e.told(s.stopped_at) is Some ==> c.told(s.stopped_at) == e.told(s.stopped_at));
        assert(s.step != SUCCEEDED && s.step < FAILED ==> c.told(s.step) == Some(signal));
        if s.step != SUCCEEDED && s.step < FAILED {
            if CLEAN_BUILD < s.step || CHECK_CUTOVER_START <= s.step <= WRITE_RUNTIME_STATE
                && signal == Signal::Failed && !spec_lenient(s.step) {
                signals_lead_to_what_is_rolled_back(s, signal, UNDO_CANDIDATE_PROXY);
            } else {
                other_signals_start_no_rollback(s, signal);
            }
        }
    }
}

/// A rollback has taken the steps that were due, and no others.
#[verifier::spinoff_prover]
#[verifier::rlimit(30)]
proof fn rollback_steps_were_taken(c: Course, k: u8)
    requires
        CLEAN_BUILD < k,
    ensures
        CLEAN_BUILD < c.state().step < FAILED ==> spec_due(c.state(), c.state().step),
        is_rolled_back(c.state()) && k < c.state().step ==> (c.tried(k) <==> spec_due(
            c.state(),
            k,
        )),
    decreases c.signals.len(),
{
    steps_to_come_are_not_told(c);
    if c.signals.len() > 0 {
        let e = earlier(c);
        rollback_steps_were_taken(e, k);
        rollbacks_follow_the_cutover(e, k);
        signals_tell(c);
        let s = e.state();
        let signal = c.signals.last();
        assert(c.told(k) is Some ==> c.told(k) == e.told(k) || k == s.step);
        if s.step != SUCCEEDED && s.step < FAILED {
            if CLEAN_BUILD < s.step || CHECK_CUTOVER_START <= s.step <= WRITE_RUNTIME_STATE
                && signal == Signal::Failed && !spec_lenient(s.step) {
                signals_lead_to_what_is_rolled_back(s, signal, k);
            } else {
                other_signals_start_no_rollback(s, signal);
            }
        }
    }
}

/// The steps without which no deploy gets past them.
pub open spec fn is_for_every_deploy(step: u8) -> bool {
    ||| step == READ_PROJECT
    ||| step == PROBE_PROJECT
    ||| step == INIT_STACKS
    ||| step == CHECK_PREFLIGHT
    ||| step == RESOLVE_ACTIVE
    ||| step == READ_PREVIOUS
    ||| step == DETECT_APP
    ||| step == READ_ENV
    ||| step == CHECK_REQUIRED_ENV
    ||| step == CHECK_DETECTION
    ||| step == RESOLVE_STACK
    ||| step == ENSURE_STORAGE_VOLUME
    ||| step == READ_CLEANUP_JOB
    ||| step == CHECK_PREPARATION
    ||| step == CHECK_BUILD_SETUP
    ||| step == CHECK_BUILD
    ||| step == PUSH_CODE
    ||| step == PERSIST_START_COMMAND
    ||| step == PERSIST_REQUIRED_ENV
    ||| step == RUN_PREINSTALL
    ||| step == RUN_POSTINSTALL
    ||| step == RECONCILE_BEFORE_CUTOVER
    ||| step == CHECK_BEFORE_CUTOVER
    ||| step == CHECK_CUTOVER_START
    ||| step == STOP_ACTIVE_PROCESS
    ||| step == REMOVE_ACTIVE_PROXY
    ||| step == ATTACH_CANDIDATE_STORAGE
    ||| step == ATTACH_CANDIDATE_PROXY
    ||| step == LAUNCH_CANDIDATE
    ||| step == CHECK_READINESS
    ||| step == WAIT_CANDIDATE_LISTENER
    ||| step == CHECK_FINALIZE
    ||| step == ADD_ROUTE
    ||| step == WRITE_RUNTIME_STATE
    ||| step == RECONCILE_AFTER_CUTOVER
    ||| step == INCREMENT_BUILD
    ||| step == WAIT_LIVE_LISTENER
}

/// However the candidate came about, every deploy checks what the app requires, pushes its
/// code, keeps how it is started and what it requires, runs its hooks, takes the proxy and
/// the process from the active container, attaches storage and proxy to the candidate,
/// launches it, waits until it listens, routes to it and notes what it did: none of this is
/// passed over, and a deploy in which any of it fails does not go on.
pub proof fn no_deploy_gets_past_these_steps(c: Course, step: u8)
    requires
        is_for_every_deploy(step),
        c.is_past(step),
    ensures
        c.did(step),
{
    due_steps_were_taken(c, step);
    reveal(spec_due);
}

/// The wait for the active container, the release of its storage and the end of the
/// cleanup job belong to every deploy too. Each may fail: the wait only where the container
/// is found to be serving, and this is asked only where the wait failed.
pub proof fn waits_may_fail_on_serving_containers(c: Course)
    ensures
        c.is_past(WAIT_ACTIVE_QUIET) ==> c.tried(WAIT_ACTIVE_QUIET),
        c.is_past(DETACH_ACTIVE_STORAGE) ==> c.tried(DETACH_ACTIVE_STORAGE),
        c.is_past(CLEAR_CLEANUP_JOB) ==> c.tried(CLEAR_CLEANUP_JOB),
        c.is_past(PROBE_ACTIVE_SERVING) ==> (c.tried(PROBE_ACTIVE_SERVING) <==> c.failed(
            WAIT_ACTIVE_QUIET,
        )),
        c.is_past(PROBE_ACTIVE_SERVING) ==> (c.yes(PROBE_ACTIVE_SERVING) <==> c.failed(
            WAIT_ACTIVE_QUIET,
        )),
        c.is_past(RESOLVE_ACTIVE) ==> c.yes(RESOLVE_ACTIVE),
{
    preparation_flags_are_what_was_told(c);
    due_steps_were_taken(c, WAIT_ACTIVE_QUIET);
    due_steps_were_taken(c, DETACH_ACTIVE_STORAGE);
    due_steps_were_taken(c, CLEAR_CLEANUP_JOB);
    due_steps_were_taken(c, PROBE_ACTIVE_SERVING);
    due_steps_were_taken(c, RESOLVE_ACTIVE);
    reveal(spec_due);
}

/// An app that has dependencies has them installed, another has not.
pub proof fn dependencies_are_installed(c: Course)
    requires
        c.is_past(RUN_INSTALL),
    ensures
        c.tried(RUN_INSTALL) <==> c.has_dependencies(),
        c.tried(RUN_INSTALL) ==> c.did(RUN_INSTALL),
{
    preparation_flags_are_what_was_told(c);
    due_steps_were_taken(c, RUN_INSTALL);
    reveal(spec_due);
}

/// The profile of a project is seen to where the project is there already.
pub proof fn profiles_of_known_projects_are_seen_to(c: Course)
    requires
        c.is_past(ENSURE_PROFILE),
    ensures
        c.tried(ENSURE_PROFILE) <==> c.yes(PROBE_PROJECT),
        c.tried(ENSURE_PROFILE) ==> c.did(ENSURE_PROFILE),
{
    preparation_flags_are_what_was_told(c);
    due_steps_were_taken(c, ENSURE_PROFILE);
    reveal(spec_due);
}

/// The hash of a binary is taken exactly where the app is one. Where there is a hash it is
/// kept, and else what was kept is cleared.
pub proof fn hashes_are_kept_or_cleared(c: Course)
    ensures
        c.is_past(HASH_BINARY) ==> (c.did(HASH_BINARY) <==> c.is_binary()),
        c.is_past(HASH_BINARY) && c.tried(HASH_BINARY) ==> c.did(HASH_BINARY),
        c.is_past(WRITE_BINARY_HASH) ==> (c.tried(WRITE_BINARY_HASH) <==> c.yes(HASH_BINARY)),
        c.is_past(CLEAR_BINARY_HASH) ==> (c.tried(CLEAR_BINARY_HASH) <==> !c.yes(HASH_BINARY)),
{
    preparation_flags_are_what_was_told(c);
    due_steps_were_taken(c, HASH_BINARY);
    due_steps_were_taken(c, WRITE_BINARY_HASH);
    due_steps_were_taken(c, CLEAR_BINARY_HASH);
    reveal(spec_due);
}

/// The container of an earlier deploy is looked at, once the tasks in it are quiet, exactly
/// where there is one, no cleanup of it is pending and no fresh one is called for; so only
/// then can it be used again.
pub proof fn previous_containers_are_compared(c: Course)
    requires
        c.is_past(COMPARE_PREVIOUS_SETUP),
    ensures
        c.did(WAIT_PREVIOUS_QUIET) <==> c.yes(READ_PREVIOUS) && !c.yes(READ_CLEANUP_JOB)
            && !c.force_fresh,
        c.tried(COMPARE_PREVIOUS_SETUP) <==> c.did(WAIT_PREVIOUS_QUIET),
        c.tried(WAIT_PREVIOUS_QUIET) ==> c.did(WAIT_PREVIOUS_QUIET),
        c.reuses() ==> c.yes(READ_PREVIOUS) && !c.yes(READ_CLEANUP_JOB) && !c.force_fresh,
{
    preparation_flags_are_what_was_told(c);
    due_steps_were_taken(c, WAIT_PREVIOUS_QUIET);
    due_steps_were_taken(c, COMPARE_PREVIOUS_SETUP);
    reveal(spec_due);
}

/// What stands in the place of a candidate that is made is reset first, and nothing else
/// is.
pub proof fn old_candidates_are_reset(c: Course)
    requires
        c.is_past(RESET_CANDIDATE),
    ensures
        c.did(PROBE_CANDIDATE) <==> !c.reuses(),
        c.tried(PROBE_CANDIDATE) ==> c.did(PROBE_CANDIDATE),
        c.did(RESET_CANDIDATE) <==> !c.reuses() && c.yes(PROBE_CANDIDATE),
        c.tried(RESET_CANDIDATE) ==> c.did(RESET_CANDIDATE),
{
    preparation_flags_are_what_was_told(c);
    due_steps_were_taken(c, PROBE_CANDIDATE);
    due_steps_were_taken(c, RESET_CANDIDATE);
    reveal(spec_due);
}

/// A candidate that is used again is started if it does not run, and stripped of its
/// process, its proxy, its storage and its tailnet state; with the tailnet, of its place
/// there too. A candidate that is made goes through none of this.
pub proof fn reused_candidates_are_stripped(c: Course)
    requires
        c.is_past(STOP_CANDIDATE_TAILSCALED),
    ensures
        c.did(PROBE_CANDIDATE_RUNNING) <==> c.reuses(),
        c.did(START_CANDIDATE) <==> c.reuses() && !c.yes(PROBE_CANDIDATE_RUNNING),
        c.tried(START_CANDIDATE) ==> c.did(START_CANDIDATE),
        c.tried(STOP_CANDIDATE_PROCESS) <==> c.reuses(),
        c.tried(REMOVE_CANDIDATE_PROXY) <==> c.reuses(),
        c.tried(REMOVE_CANDIDATE_STORAGE) <==> c.reuses(),
        c.tried(REMOVE_CANDIDATE_TAILSCALE) <==> c.reuses(),
        c.did(REFRESH_TAILSCALE) <==> c.reuses() && !c.skip_tailscale,
        c.tried(REFRESH_TAILSCALE) ==> c.did(REFRESH_TAILSCALE),
        c.tried(DOWN_CANDIDATE_TAILNET) <==> c.reuses() && !c.skip_tailscale,
        c.tried(STOP_CANDIDATE_TAILSCALED) <==> c.reuses() && !c.skip_tailscale,
{
    preparation_flags_are_what_was_told(c);
    due_steps_were_taken(c, PROBE_CANDIDATE_RUNNING);
    due_steps_were_taken(c, START_CANDIDATE);
    due_steps_were_taken(c, STOP_CANDIDATE_PROCESS);
    due_steps_were_taken(c, REMOVE_CANDIDATE_PROXY);
    due_steps_were_taken(c, REMOVE_CANDIDATE_STORAGE);
    due_steps_were_taken(c, REMOVE_CANDIDATE_TAILSCALE);
    due_steps_were_taken(c, REFRESH_TAILSCALE);
    due_steps_were_taken(c, DOWN_CANDIDATE_TAILNET);
    due_steps_were_taken(c, STOP_CANDIDATE_TAILSCALED);
    reveal(spec_due);
}

/// A candidate that is not used again is made in one of three ways: from the image with the
/// packages of the app, from the image with its stack, or anew. The first is not looked for
/// where a fresh container is called for, and the second only where the first is not there.
/// One that is used again is not made.
pub proof fn candidates_are_made_in_one_way(c: Course)
    requires
        c.is_past(CREATE_CANDIDATE),
    ensures
        c.did(PROBE_SETUP_IMAGE) <==> !c.reuses() && !c.force_fresh,
        c.did(CREATE_FROM_SETUP_IMAGE) <==> !c.reuses() && c.yes(PROBE_SETUP_IMAGE),
        c.did(PROBE_STACK_IMAGE) <==> !c.reuses() && !c.did(CREATE_FROM_SETUP_IMAGE),
        c.did(CREATE_FROM_STACK_IMAGE) <==> !c.reuses() && c.yes(PROBE_STACK_IMAGE),
        c.did(ENSURE_CREATE_PREREQS) <==> c.did(CREATE_CANDIDATE),
        c.did(CREATE_CANDIDATE) <==> !c.reuses() && !c.did(CREATE_FROM_SETUP_IMAGE) && !c.did(
            CREATE_FROM_STACK_IMAGE,
        ),
        !(c.did(CREATE_FROM_SETUP_IMAGE) && c.did(CREATE_FROM_STACK_IMAGE)),
{
    preparation_flags_are_what_was_told(c);
    due_steps_were_taken(c, PROBE_SETUP_IMAGE);
    due_steps_were_taken(c, CREATE_FROM_SETUP_IMAGE);
    due_steps_were_taken(c, PROBE_STACK_IMAGE);
    due_steps_were_taken(c, CREATE_FROM_STACK_IMAGE);
    due_steps_were_taken(c, ENSURE_CREATE_PREREQS);
    due_steps_were_taken(c, CREATE_CANDIDATE);
    reveal(spec_due);
}

/// A candidate that is made has written down in it what it is made for and, with the
/// tailnet, the client of it installed. Only one that was made anew has the script of its
/// stack run in it, and an image of it published.
pub proof fn made_candidates_are_set_up(c: Course)
    requires
        c.is_past(WRITE_SETUP_HASH),
    ensures
        c.did(INSTALL_TAILSCALE) <==> !c.reuses() && !c.skip_tailscale,
        c.tried(INSTALL_TAILSCALE) ==> c.did(INSTALL_TAILSCALE),
        c.did(PUSH_SETUP_SCRIPT) <==> c.did(CREATE_CANDIDATE),
        c.did(RUN_SETUP_SCRIPT) <==> c.did(CREATE_CANDIDATE),
        c.tried(PUBLISH_STACK_IMAGE) <==> c.did(CREATE_CANDIDATE),
        c.did(WRITE_SETUP_HASH) <==> !c.reuses(),
        c.tried(WRITE_SETUP_HASH) ==> c.did(WRITE_SETUP_HASH),
{
    preparation_flags_are_what_was_told(c);
    due_steps_were_taken(c, INSTALL_TAILSCALE);
    due_steps_were_taken(c, CREATE_CANDIDATE);
    due_steps_were_taken(c, PUSH_SETUP_SCRIPT);
    due_steps_were_taken(c, RUN_SETUP_SCRIPT);
    due_steps_were_taken(c, PUBLISH_STACK_IMAGE);
    due_steps_were_taken(c, WRITE_SETUP_HASH);
    reveal(spec_due);
}

/// The packages of an app are installed in every candidate that is made in the deploy
/// without them: in every one but one from the image that holds them. An image with them is
/// published only after that, and exactly where there are some.
pub proof fn packages_are_installed(c: Course)
    requires
        c.is_past(PUBLISH_SETUP_IMAGE),
    ensures
        c.did(INSTALL_PACKAGES) <==> !c.reuses() && !c.did(CREATE_FROM_SETUP_IMAGE),
        c.did(INSTALL_PACKAGES) <==> c.did(CREATE_FROM_STACK_IMAGE) || c.did(CREATE_CANDIDATE),
        c.tried(INSTALL_PACKAGES) ==> c.did(INSTALL_PACKAGES),
        c.tried(PUBLISH_SETUP_IMAGE) <==> c.did(INSTALL_PACKAGES) && c.wants_packages(),
{
    preparation_flags_are_what_was_told(c);
    due_steps_were_taken(c, INSTALL_PACKAGES);
    due_steps_were_taken(c, PUBLISH_SETUP_IMAGE);
    candidates_are_made_in_one_way(c);
    reveal(spec_due);
}

/// The image with the packages is not published before the packages and the code are in.
pub proof fn images_are_published_after_the_packages(c: Course)
    requires
        c.state().step == PUBLISH_SETUP_IMAGE,
    ensures
        c.did(INSTALL_PACKAGES),
        c.did(PUSH_CODE),
        c.wants_packages(),
        !c.reuses(),
        !c.did(CREATE_FROM_SETUP_IMAGE),
{
    preparation_flags_are_what_was_told(c);
    due_steps_were_taken(c, INSTALL_PACKAGES);
    due_steps_were_taken(c, PUSH_CODE);
    candidates_are_made_in_one_way(c);
    reveal(spec_due);
}

/// A deploy without the tailnet does nothing with it.
pub proof fn deploys_without_the_tailnet_leave_it_alone(c: Course, step: u8)
    requires
        c.skip_tailscale,
        step == ENSURE_TAILSCALE_VOLUME || REFRESH_TAILSCALE <= step <= STOP_CANDIDATE_TAILSCALED
            || step == INSTALL_TAILSCALE || CHECK_TAILSCALE <= step <= EXPOSE_HTTP,
        c.is_past(step),
    ensures
        !c.tried(step),
{
    preparation_flags_are_what_was_told(c);
    due_steps_were_taken(c, step);
    reveal(spec_due);
}

/// A deploy with the tailnet sees to the volume for its state; in the cutover it takes the
/// active container off the tailnet, seeds the state, hands the state from one container to
/// the other where the active one has it, gets the candidate its name and exposes it.
pub proof fn deploys_move_on_the_tailnet(c: Course)
    requires
        !c.skip_tailscale,
    ensures
        c.is_past(ENSURE_TAILSCALE_VOLUME) ==> c.did(ENSURE_TAILSCALE_VOLUME),
        c.is_past(CHECK_TAILSCALE) ==> c.did(CHECK_TAILSCALE),
        c.is_past(DOWN_ACTIVE_TAILNET) ==> c.tried(DOWN_ACTIVE_TAILNET),
        c.is_past(STOP_ACTIVE_TAILSCALED) ==> c.tried(STOP_ACTIVE_TAILSCALED),
        c.is_past(SEED_TAILSCALE_STATE) ==> c.did(SEED_TAILSCALE_STATE),
        c.is_past(PROBE_ACTIVE_TAILSCALE) ==> c.did(PROBE_ACTIVE_TAILSCALE),
        c.is_past(DETACH_ACTIVE_TAILSCALE) ==> (c.did(DETACH_ACTIVE_TAILSCALE) <==> c.yes(
            PROBE_ACTIVE_TAILSCALE,
        )),
        c.is_past(DETACH_ACTIVE_TAILSCALE) && c.tried(DETACH_ACTIVE_TAILSCALE) ==> c.did(
            DETACH_ACTIVE_TAILSCALE,
        ),
        c.is_past(ATTACH_CANDIDATE_TAILSCALE) ==> c.did(ATTACH_CANDIDATE_TAILSCALE),
        c.is_past(ACQUIRE_HOSTNAME) ==> c.did(ACQUIRE_HOSTNAME),
        c.is_past(EXPOSE_HTTP) ==> c.tried(EXPOSE_HTTP),
{
    preparation_flags_are_what_was_told(c);
    cutover_flags_are_what_was_told(c);
    due_steps_were_taken(c, ENSURE_TAILSCALE_VOLUME);
    due_steps_were_taken(c, CHECK_TAILSCALE);
    due_steps_were_taken(c, DOWN_ACTIVE_TAILNET);
    due_steps_were_taken(c, STOP_ACTIVE_TAILSCALED);
    due_steps_were_taken(c, SEED_TAILSCALE_STATE);
    due_steps_were_taken(c, PROBE_ACTIVE_TAILSCALE);
    due_steps_were_taken(c, DETACH_ACTIVE_TAILSCALE);
    due_steps_were_taken(c, ATTACH_CANDIDATE_TAILSCALE);
    due_steps_were_taken(c, ACQUIRE_HOSTNAME);
    due_steps_were_taken(c, EXPOSE_HTTP);
    reveal(spec_due);
}

/// A deploy that goes on leaves its course with its next signal exactly where a step fails
/// that it cannot do without, or where the active container is not made out or does not
/// serve. What it does on its way out goes by where it was: a candidate that is being made
/// is cleaned up, a cutover is rolled back, and else there is nothing to do. A step that
/// fails and can be done without, and one that does not fail, lead on.
#[verifier::spinoff_prover]
#[verifier::rlimit(30)]
pub proof fn deploys_leave_their_course_with_what_they_need(c: Course, signal: Signal)
    requires
        c.state().step < SUCCEEDED,
    ensures
        ({
            let step = c.state().step;
            let after = c.with(signal).state().step;
            let fails = signal == Signal::Failed && !is_dispensable(step) && step
                != WAIT_ACTIVE_QUIET;
            let refused = (step == RESOLVE_ACTIVE || step == PROBE_ACTIVE_SERVING) && signal
                != Signal::Yes;
            &&& step < after
            &&& SUCCEEDED < after <==> fails || refused
            &&& after == CLEAN_BUILD <==> fails && CHECK_BUILD_SETUP <= step <= RUN_POSTINSTALL
                && !c.reuses()
            &&& CLEAN_BUILD < after < FAILED <==> fails && CHECK_CUTOVER_START <= step
                <= WRITE_RUNTIME_STATE
            &&& signal == Signal::Failed && step == WAIT_ACTIVE_QUIET ==> after
                == PROBE_ACTIVE_SERVING
        }),
{
    let d = c.with(signal);
    assert(d.signals.drop_last() =~= c.signals);
    preparation_flags_are_what_was_told(c);
    due_steps_are_next(c.state(), signal);
    assert(spec_due(c.state(), RESTORE_ROUTE)) by {
        reveal(spec_due);
    }
}

/// A deploy that is on its way out goes on with it to its end, whatever becomes of each of
/// its steps.
#[verifier::spinoff_prover]
#[verifier::rlimit(30)]
pub proof fn ways_out_are_not_left(c: Course, signal: Signal)
    requires
        SUCCEEDED < c.state().step < FAILED,
    ensures
        c.state().step < c.with(signal).state().step <= FAILED,
{
    let d = c.with(signal);
    assert(d.signals.drop_last() =~= c.signals);
    due_steps_are_next(c.state(), signal);
}

/// A deploy that has failed stays failed, and one that has succeeded stays so.
pub proof fn ends_are_final(c: Course, signal: Signal)
    requires
        c.state().step == SUCCEEDED || c.state().step >= FAILED,
    ensures
        c.with(signal).state() == c.state(),
{
    assert(c.with(signal).signals.drop_last() =~= c.signals);
}

/// A rollback takes from the candidate the proxy and the storage that the cutover attached to
/// it, and gives back to the active container the storage and the proxy that it took from
/// there: each exactly where the cutover came to do it.
#[verifier::spinoff_prover]
#[verifier::rlimit(30)]
pub proof fn rollbacks_undo_what_the_cutover_did(c: Course, step: u8)
    requires
        c.broke_off_at(step),
        RESTORE_ACTIVE_PROXY < c.state().step,
    ensures
        c.tried(UNDO_CANDIDATE_PROXY) <==> c.did(ATTACH_CANDIDATE_PROXY),
        c.tried(UNDO_CANDIDATE_STORAGE) <==> c.did(ATTACH_CANDIDATE_STORAGE),
        c.tried(RESTORE_ACTIVE_STORAGE) <==> c.tried(DETACH_ACTIVE_STORAGE),
        c.tried(RESTORE_ACTIVE_PROXY) <==> c.did(REMOVE_ACTIVE_PROXY),
{
    preparation_flags_are_what_was_told(c);
    cutover_flags_are_what_was_told(c);
    rollbacks_follow_the_cutover(c, step);
    rollback_steps_were_taken(c, UNDO_CANDIDATE_PROXY);
    rollback_steps_were_taken(c, UNDO_CANDIDATE_STORAGE);
    rollback_steps_were_taken(c, RESTORE_ACTIVE_STORAGE);
    rollback_steps_were_taken(c, RESTORE_ACTIVE_PROXY);
    reveal(spec_due);
}

/// A rollback launches the active container again, if it can be made out how it is
/// started.
#[verifier::spinoff_prover]
#[verifier::rlimit(30)]
pub proof fn rollbacks_launch_the_active_container(c: Course, step: u8)
    requires
        c.broke_off_at(step),
        RELAUNCH_ACTIVE < c.state().step,
    ensures
        c.tried(READ_ACTIVE_START_COMMAND),
        c.tried(RELAUNCH_ACTIVE) <==> c.yes(READ_ACTIVE_START_COMMAND),
{
    preparation_flags_are_what_was_told(c);
    cutover_flags_are_what_was_told(c);
    rollbacks_follow_the_cutover(c, step);
    rollback_steps_were_taken(c, READ_ACTIVE_START_COMMAND);
    rollback_steps_were_taken(c, RELAUNCH_ACTIVE);
    reveal(spec_due);
}

/// A rollback takes the tailnet state from a candidate that got it, and gives it back to the
/// active container where that lost it or the candidate got it.
#[verifier::spinoff_prover]
#[verifier::rlimit(30)]
pub proof fn rollbacks_return_the_tailnet_state(c: Course, step: u8)
    requires
        c.broke_off_at(step),
        RESTORE_ACTIVE_TAILSCALE < c.state().step,
    ensures
        c.tried(STOP_FAILED_TAILSCALED) <==> c.did(ATTACH_CANDIDATE_TAILSCALE) && !c.skip_tailscale,
        c.tried(UNDO_CANDIDATE_TAILSCALE) <==> c.did(ATTACH_CANDIDATE_TAILSCALE)
            && !c.skip_tailscale,
        c.tried(RESTORE_ACTIVE_TAILSCALE) <==> (c.did(DETACH_ACTIVE_TAILSCALE) || c.did(
            ATTACH_CANDIDATE_TAILSCALE,
        )) && !c.skip_tailscale,
{
    preparation_flags_are_what_was_told(c);
    cutover_flags_are_what_was_told(c);
    rollbacks_follow_the_cutover(c, step);
    rollback_steps_were_taken(c, STOP_FAILED_TAILSCALED);
    rollback_steps_were_taken(c, UNDO_CANDIDATE_TAILSCALE);
    rollback_steps_were_taken(c, RESTORE_ACTIVE_TAILSCALE);
    reveal(spec_due);
}

/// A rollback brings an active container back to the tailnet that was taken off it: with its
/// state, and where that fails with a key. Where it was not taken off, or both fail, its name
/// is read; and it is exposed again where there is a name in the end.
#[verifier::spinoff_prover]
#[verifier::rlimit(30)]
pub proof fn rollbacks_rejoin_the_tailnet(c: Course, step: u8)
    requires
        c.broke_off_at(step),
        REEXPOSE_HTTP < c.state().step,
    ensures
        c.tried(REJOIN_WITH_STATE) <==> c.did(DOWN_ACTIVE_TAILNET) && !c.skip_tailscale,
        c.tried(REJOIN_WITH_AUTH_KEY) <==> c.failed(REJOIN_WITH_STATE) && !c.skip_tailscale,
        c.tried(READ_ACTIVE_DNS_NAME) <==> (!c.did(DOWN_ACTIVE_TAILNET) || c.failed(
            REJOIN_WITH_AUTH_KEY,
        )) && !c.skip_tailscale,
        c.tried(REEXPOSE_HTTP) <==> (c.yes(REJOIN_WITH_STATE) || c.yes(REJOIN_WITH_AUTH_KEY)
            || c.yes(READ_ACTIVE_DNS_NAME)) && !c.skip_tailscale,
{
    preparation_flags_are_what_was_told(c);
    cutover_flags_are_what_was_told(c);
    rollbacks_follow_the_cutover(c, step);
    rollback_steps_were_taken(c, REJOIN_WITH_STATE);
    rollback_steps_were_taken(c, REJOIN_WITH_AUTH_KEY);
    rollback_steps_were_taken(c, READ_ACTIVE_DNS_NAME);
    rollback_steps_were_taken(c, REEXPOSE_HTTP);
    reveal(spec_due);
}

/// A rollback ends with the route to the active container, and with the candidate done away
/// with unless it was there before.
#[verifier::spinoff_prover]
#[verifier::rlimit(30)]
pub proof fn rollbacks_restore_the_route(c: Course, step: u8)
    requires
        c.broke_off_at(step),
        CLEAN_FAILED_CANDIDATE < c.state().step,
    ensures
        c.tried(RESTORE_ROUTE),
        c.tried(CLEAN_FAILED_CANDIDATE) <==> !c.reuses(),
{
    preparation_flags_are_what_was_told(c);
    cutover_flags_are_what_was_told(c);
    rollbacks_follow_the_cutover(c, step);
    rollback_steps_were_taken(c, RESTORE_ROUTE);
    rollback_steps_were_taken(c, CLEAN_FAILED_CANDIDATE);
    reveal(spec_due);
}

/// A deploy with its messages after each of the replies.
pub open spec fn noted_all(r: RolloutView, replies: Seq<Reply>) -> RolloutView
    decreases replies.len(),
{
    if replies.len() == 0 {
        r
    } else {
        noted(noted_all(r, replies.drop_last()), replies.last())
    }
}

/// A deploy with its messages, before its first step.
pub open spec fn begun(
    app: Seq<char>,
    candidate: Seq<char>,
    skip_tailscale: bool,
    force_fresh: bool,
) -> RolloutView {
    RolloutView {
        state: spec_start(skip_tailscale, force_fresh),
        app,
        candidate,
        previous: None,
        error: None,
        issues: Seq::empty(),
    }
}

#[verifier::spinoff_prover]
#[verifier::rlimit(30)]
proof fn errors_are_noted(r: RolloutView, reply: Reply)
    requires
        r.state.step <= FAILED,
        r.state.active_blocked ==> r.state.step >= PROBE_ACTIVE_SERVING,
        r.state.step > SUCCEEDED || r.state.step == PROBE_ACTIVE_SERVING <==> r.error is Some,
        r.state.step != SUCCEEDED,
        r.state.step < FAILED,
    ensures
        ({
            let after = noted(r, reply);
            &&& after.state.step <= FAILED
            &&& after.state.active_blocked ==> after.state.step >= PROBE_ACTIVE_SERVING
            &&& after.state.step > SUCCEEDED || after.state.step == PROBE_ACTIVE_SERVING
                <==> after.error is Some
        }),
{
    let signal = spec_signal(reply);
    let recorded = spec_record(r.state, signal);
    due_steps_are_next(r.state, signal);
    detections_are_recorded(r.state, signal);
    assert(spec_due(recorded, PROBE_ACTIVE_SERVING) == recorded.active_blocked) by {
        reveal(spec_due);
    }
}

/// A deploy that fails, or is on its way out, has the error that stopped it on record; one
/// that goes on or has succeeded has none, save while the active container is asked whether
/// it serves.
pub proof fn failed_deploys_have_an_error(
    app: Seq<char>,
    candidate: Seq<char>,
    skip_tailscale: bool,
    force_fresh: bool,
    replies: Seq<Reply>,
)
    ensures
        ({
            let r = noted_all(begun(app, candidate, skip_tailscale, force_fresh), replies);
            &&& r.state.step > SUCCEEDED || r.state.step == PROBE_ACTIVE_SERVING <==> r.error
                is Some
            &&& r.state.step <= FAILED
            &&& r.state.active_blocked ==> r.state.step >= PROBE_ACTIVE_SERVING
        }),
    decreases replies.len(),
{
    if replies.len() > 0 {
        let earlier = replies.drop_last();
        failed_deploys_have_an_error(app, candidate, skip_tailscale, force_fresh, earlier);
        let before = noted_all(begun(app, candidate, skip_tailscale, force_fresh), earlier);
        if before.state.step != SUCCEEDED && before.state.step < FAILED {
            errors_are_noted(before, replies.last());
        } else {
            ended_deploys_note_nothing(before, replies.last());
        }
    }
}

proof fn ended_deploys_note_nothing(r: RolloutView, reply: Reply)
    requires
        r.state.step == SUCCEEDED || r.state.step == FAILED,
    ensures
        noted(r, reply).state == r.state,
        noted(r, reply).error == r.error,
{
}

/// The error of a deploy is what the step that failed said, and what failed while a failed
/// build was cleaned up is added to it. Nothing that can be done without, and nothing in
/// the rollback, changes it.
pub proof fn errors_say_what_failed(r: RolloutView, message: String)
    requires
        r.state.step != SUCCEEDED,
        r.state.step < FAILED,
    ensures
        ({
            let after = noted(r, Reply::Failed(message));
            &&& r.state.step < SUCCEEDED && !is_dispensable(r.state.step) ==> after.error is Some
                && message@.is_suffix_of(after.error->0)
            &&& is_dispensable(r.state.step) || r.state.step > CLEAN_BUILD ==> after.error
                == r.error
            &&& r.state.step == CLEAN_BUILD && r.error is Some ==> after.error is Some
                && r.error->0.is_prefix_of(after.error->0) && message@.is_suffix_of(
                after.error->0,
            )
        }),
{
    let after = noted(r, Reply::Failed(message));
    if after.error is Some && (r.state.step < SUCCEEDED && !is_dispensable(r.state.step)
        || r.state.step == CLEAN_BUILD) {
        let said = after.error->0;
        if said.len() >= message@.len() {
            assert(said.skip(said.len() - message@.len()) =~= message@);
        }
        if r.state.step == CLEAN_BUILD && r.error is Some {
            assert(said.take(r.error->0.len() as int) =~= r.error->0);
        }
    }
}

/// What a rollback could not undo is noted where it leaves the proxy with the wrong
/// container or a failed candidate behind; the candidate is the container that was there
/// once it is found to be fit.
pub proof fn rollbacks_note_what_they_leave(r: RolloutView, reply: Reply)
    ensures
        ({
            let after = noted(r, reply);
            let left = r.state.step == UNDO_CANDIDATE_PROXY || r.state.step
                == RESTORE_ACTIVE_PROXY || r.state.step == CLEAN_FAILED_CANDIDATE;
            &&& after.issues.len() == r.issues.len() + if reply is Failed && left {
                1int
            } else {
                0
            }
            &&& reply is Failed && left ==> after.issues.drop_last() == r.issues
                && reply->Failed_0@.is_suffix_of(after.issues.last())
            &&& after.candidate == if r.state.step == COMPARE_PREVIOUS_SETUP && reply is Yes
                && r.previous is Some {
                r.previous->0
            } else {
                r.candidate
            }
            &&& after.app == r.app && after.previous == r.previous
        }),
{
    let after = noted(r, reply);
    if let Reply::Failed(message) = reply {
        if after.issues.len() > r.issues.len() {
            let said = after.issues.last();
            assert(after.issues.drop_last() =~= r.issues);
            assert(said.skip(said.len() - message@.len()) =~= message@);
        }
    }
}

/// A deploy that is over succeeded exactly where it came to its last step. One that failed
/// tells its error, after a word on what was rolled back where the cutover broke off, or
/// the mark by which a build on a cached or a fresh setup is known.
pub proof fn verdicts_tell_the_error(r: RolloutView)
    requires
        r.error is Some,
    ensures
        verdict_of(r) is Ok <==> r.state.step == SUCCEEDED,
        verdict_of(r) matches Err(told) ==> {
            let at = r.state.stopped_at;
            let build = CHECK_BUILD <= at <= RUN_POSTINSTALL;
            let cutover = CHECK_CUTOVER_START <= at <= WRITE_RUNTIME_STATE;
            &&& build && r.state.force_fresh ==> told == FRESH_SETUP_FAILURE@ + r.error->0
            &&& build && !r.state.force_fresh && r.state.setup_cached ==> told
                == CACHED_SETUP_FAILURE@ + r.error->0
            &&& cutover ==> ("deploy cutover failed and rollback was applied: "@
                + r.error->0).is_prefix_of(told)
            &&& !build && !cutover ==> told == r.error->0
            &&& build && !r.state.force_fresh && !r.state.setup_cached ==> told == r.error->0
        },
{
    if let Err(told) = verdict_of(r) {
        let start = "deploy cutover failed and rollback was applied: "@ + r.error->0;
        if CHECK_CUTOVER_START <= r.state.stopped_at <= WRITE_RUNTIME_STATE {
            assert(told.take(start.len() as int) =~= start);
        }
    }
}

/// What became of a step is handed on as it was told; only the message of a failure is left
/// out.
pub proof fn replies_are_handed_on(reply: Reply)
    ensures
        spec_signal(reply) == Signal::Yes <==> reply is Yes,
        spec_signal(reply) == Signal::No <==> reply is No,
        spec_signal(reply) == Signal::Done <==> reply is Done,
        spec_signal(reply) == Signal::Failed <==> reply is Failed,
        reply matches Reply::Detected { binary, packages, install } ==> spec_signal(reply) == (
        Signal::Detected { binary, packages, install }),
{
}

} // verus!
