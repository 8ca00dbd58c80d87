//! A deploy into the one container of an app, which is set up anew where it is
//! missing or was set up otherwise.
//!
//! Like [`crate::blue_green`], the deploy is a state machine whose steps are numbered
//! in the order in which they are done.

use vstd::prelude::*;
use crate::blue_green::Signal;

verus! {

// The preparation.

pub const READ_PROJECT: u8 = 0;

pub const PROBE_PROJECT: u8 = 1;

pub const ENSURE_PROFILE: u8 = 2;

pub const INIT_STACKS: u8 = 3;

pub const CHECK_PREFLIGHT: u8 = 4;

pub const DETECT_APP: u8 = 5;

pub const READ_ENV: u8 = 6;

pub const CHECK_REQUIRED_ENV: u8 = 7;

pub const HASH_BINARY: u8 = 8;

pub const CHECK_DETECTION: u8 = 9;

pub const RESOLVE_STACK: u8 = 10;

pub const ENSURE_STORAGE_VOLUME: u8 = 11;

pub const ENSURE_TAILSCALE_VOLUME: u8 = 12;

pub const READ_DNS_NAME: u8 = 13;

pub const PROBE_CONTAINER: u8 = 14;

pub const COMPARE_SETUP: u8 = 15;

pub const CLEAN_CONTAINER: u8 = 16;

pub const STOP_PROCESS: u8 = 17;

pub const CHECK_SETUP_EVALUATION: u8 = 18;

// The setup of a new container.

pub const CHECK_SETUP_START: u8 = 19;

pub const WAIT_QUIET: u8 = 20;

pub const PROBE_SETUP_IMAGE: u8 = 21;

pub const CREATE_FROM_SETUP_IMAGE: u8 = 22;

pub const PROBE_STACK_IMAGE: u8 = 23;

pub const CREATE_FROM_STACK_IMAGE: u8 = 24;

pub const ENSURE_CREATE_PREREQS: u8 = 25;

pub const CREATE_CONTAINER: u8 = 26;

pub const INSTALL_TAILSCALE: u8 = 27;

pub const PUSH_SETUP_SCRIPT: u8 = 28;

pub const RUN_SETUP_SCRIPT: u8 = 29;

pub const PUBLISH_STACK_IMAGE: u8 = 30;

pub const CHECK_PACKAGE_SETUP: u8 = 31;

pub const INSTALL_PACKAGES: u8 = 32;

pub const PUBLISH_SETUP_IMAGE: u8 = 33;

pub const WRITE_SETUP_HASH: u8 = 34;

pub const ATTACH_TAILSCALE_STATE: u8 = 35;

pub const CHECK_TAILSCALE: u8 = 36;

pub const ACQUIRE_HOSTNAME: u8 = 37;

pub const ATTACH_PROXY: u8 = 38;

// The deploy into the container.

pub const CHECK_STORAGE: u8 = 39;

pub const ATTACH_STORAGE: u8 = 40;

pub const CHECK_CODE_PUSH: u8 = 41;

pub const PUSH_CODE: u8 = 42;

pub const PERSIST_START_COMMAND: u8 = 43;

pub const PERSIST_REQUIRED_ENV: u8 = 44;

pub const RUN_PREINSTALL: u8 = 45;

pub const RUN_INSTALL: u8 = 46;

pub const RUN_POSTINSTALL: u8 = 47;

pub const CHECK_APP_START: u8 = 48;

pub const LAUNCH: u8 = 49;

pub const READ_DNS_NAME_AGAIN: u8 = 50;

pub const EXPOSE_HTTP: u8 = 51;

pub const CHECK_FINALIZE: u8 = 52;

pub const ADD_ROUTE: u8 = 53;

// The record of the deploy.

pub const WRITE_RUNTIME_STATE: u8 = 54;

pub const INCREMENT_BUILD: u8 = 55;

pub const WRITE_BINARY_HASH: u8 = 56;

pub const CLEAR_BINARY_HASH: u8 = 57;

pub const SUCCEEDED: u8 = 58;

pub const FAILED: u8 = 59;

/// The state of a deploy.
#[derive(Clone, Copy, PartialEq, Eq, Structural, Debug)]
pub struct InPlace {
    pub step: u8,
    /// The deploy leaves the tailnet alone.
    pub skip_tailscale: bool,
    /// The deploy must not start from a cached setup image.
    pub force_fresh: bool,
    pub project_exists: bool,
    /// The app is a plain binary.
    pub binary: bool,
    /// The app names packages to install.
    pub packages: bool,
    /// The app names an install command.
    pub install: bool,
    pub binary_hash: bool,
    /// The container has a name on the tailnet.
    pub name_known: bool,
    pub container_exists: bool,
    /// The container was set up as this deploy would do it.
    pub setup_matches: bool,
    /// An image with the packages of the app is cached.
    pub setup_cached: bool,
    /// An image with the stack of the app is cached.
    pub stack_cached: bool,
    pub proxy_attached: bool,
    pub storage_attached: bool,
    pub launched: bool,
}

/// Whether the deploy goes on where a step fails.
pub open spec fn spec_lenient(step: u8) -> bool {
    step == READ_DNS_NAME || step == COMPARE_SETUP || step == PUBLISH_STACK_IMAGE || step
        == PUBLISH_SETUP_IMAGE || step == READ_DNS_NAME_AGAIN || step == EXPOSE_HTTP || step
        == WRITE_BINARY_HASH || step == CLEAR_BINARY_HASH
}

pub fn lenient(step: u8) -> (r: bool)
    ensures
        r == spec_lenient(step),
{
    step == READ_DNS_NAME || step == COMPARE_SETUP || step == PUBLISH_STACK_IMAGE || step
        == PUBLISH_SETUP_IMAGE || step == READ_DNS_NAME_AGAIN || step == EXPOSE_HTTP || step
        == WRITE_BINARY_HASH || step == CLEAR_BINARY_HASH
}

/// Whether a container must be set up.
pub open spec fn spec_needs_setup(s: InPlace) -> bool {
    !s.container_exists || s.force_fresh || !s.setup_matches
}

pub fn needs_setup(s: InPlace) -> (r: bool)
    ensures
        r == spec_needs_setup(s),
{
    !s.container_exists || s.force_fresh || !s.setup_matches
}

/// Whether a step is due in the state.
#[verifier::opaque]
pub open spec fn spec_due(s: InPlace, step: u8) -> bool {
    if step == ENSURE_PROFILE {
        s.project_exists
    } else if step == HASH_BINARY {
        s.binary
    } else if step == ENSURE_TAILSCALE_VOLUME || step == READ_DNS_NAME {
        !s.skip_tailscale
    } else if step == COMPARE_SETUP {
        s.container_exists
    } else if step == CLEAN_CONTAINER {
        s.container_exists && spec_needs_setup(s)
    } else if step == STOP_PROCESS {
        !spec_needs_setup(s)
    } else if step == PROBE_SETUP_IMAGE {
        spec_needs_setup(s) && !s.force_fresh
    } else if step == CREATE_FROM_SETUP_IMAGE {
        spec_needs_setup(s) && s.setup_cached
    } else if step == PROBE_STACK_IMAGE {
        spec_needs_setup(s) && !s.setup_cached
    } else if step == CREATE_FROM_STACK_IMAGE {
        spec_needs_setup(s) && !s.setup_cached && s.stack_cached
    } else if step == ENSURE_CREATE_PREREQS || step == CREATE_CONTAINER || step == PUSH_SETUP_SCRIPT || step
        == RUN_SETUP_SCRIPT || step == PUBLISH_STACK_IMAGE {
        spec_needs_setup(s) && !s.setup_cached && !s.stack_cached
    } else if step == CHECK_PACKAGE_SETUP || step == INSTALL_PACKAGES {
        spec_needs_setup(s) && !s.setup_cached
    } else if step == PUBLISH_SETUP_IMAGE {
        spec_needs_setup(s) && !s.setup_cached && s.packages
    } else if step == INSTALL_TAILSCALE || step == ATTACH_TAILSCALE_STATE || step == CHECK_TAILSCALE || step
        == ACQUIRE_HOSTNAME {
        spec_needs_setup(s) && !s.skip_tailscale
    } else if CHECK_SETUP_START <= step && step <= ATTACH_PROXY {
        spec_needs_setup(s)
    } else if step == RUN_INSTALL {
        s.install
    } else if step == READ_DNS_NAME_AGAIN {
        !s.skip_tailscale && !s.name_known
    } else if step == EXPOSE_HTTP {
        !s.skip_tailscale && s.name_known
    } else if step == WRITE_BINARY_HASH {
        s.binary_hash
    } else if step == CLEAR_BINARY_HASH {
        !s.binary_hash
    } else {
        true
    }
}

pub fn due(s: InPlace, step: u8) -> (r: bool)
    ensures
        r == spec_due(s, step),
{
    proof {
        reveal(spec_due);
    }
    if step == ENSURE_PROFILE {
        s.project_exists
    } else if step == HASH_BINARY {
        s.binary
    } else if step == ENSURE_TAILSCALE_VOLUME || step == READ_DNS_NAME {
        !s.skip_tailscale
    } else if step == COMPARE_SETUP {
        s.container_exists
    } else if step == CLEAN_CONTAINER {
        s.container_exists && needs_setup(s)
    } else if step == STOP_PROCESS {
        !needs_setup(s)
    } else if step == PROBE_SETUP_IMAGE {
        needs_setup(s) && !s.force_fresh
    } else if step == CREATE_FROM_SETUP_IMAGE {
        needs_setup(s) && s.setup_cached
    } else if step == PROBE_STACK_IMAGE {
        needs_setup(s) && !s.setup_cached
    } else if step == CREATE_FROM_STACK_IMAGE {
        needs_setup(s) && !s.setup_cached && s.stack_cached
    } else if step == ENSURE_CREATE_PREREQS || step == CREATE_CONTAINER || step == PUSH_SETUP_SCRIPT || step
        == RUN_SETUP_SCRIPT || step == PUBLISH_STACK_IMAGE {
        needs_setup(s) && !s.setup_cached && !s.stack_cached
    } else if step == CHECK_PACKAGE_SETUP || step == INSTALL_PACKAGES {
        needs_setup(s) && !s.setup_cached
    } else if step == PUBLISH_SETUP_IMAGE {
        needs_setup(s) && !s.setup_cached && s.packages
    } else if step == INSTALL_TAILSCALE || step == ATTACH_TAILSCALE_STATE || step == CHECK_TAILSCALE || step
        == ACQUIRE_HOSTNAME {
        needs_setup(s) && !s.skip_tailscale
    } else if CHECK_SETUP_START <= step && step <= ATTACH_PROXY {
        needs_setup(s)
    } else if step == RUN_INSTALL {
        s.install
    } else if step == READ_DNS_NAME_AGAIN {
        !s.skip_tailscale && !s.name_known
    } else if step == EXPOSE_HTTP {
        !s.skip_tailscale && s.name_known
    } else if step == WRITE_BINARY_HASH {
        s.binary_hash
    } else if step == CLEAR_BINARY_HASH {
        !s.binary_hash
    } else {
        true
    }
}

/// What the state holds of a step once it is done, or has failed and may.
#[verifier::opaque]
pub open spec fn spec_record(s: InPlace, signal: Signal) -> InPlace {
    let yes: bool = signal == Signal::Yes;
    if s.step == DETECT_APP {
        match signal {
            Signal::Detected { binary, packages, install } => InPlace {
                binary,
                packages,
                install,
                ..s
            },
            _ => s,
        }
    } else if s.step == PROBE_PROJECT {
        InPlace { project_exists: yes, ..s }
    } else if s.step == HASH_BINARY {
        InPlace { binary_hash: yes, ..s }
    } else if s.step == READ_DNS_NAME || s.step == ACQUIRE_HOSTNAME || s.step == READ_DNS_NAME_AGAIN {
        InPlace { name_known: yes, ..s }
    } else if s.step == PROBE_CONTAINER {
        InPlace { container_exists: yes, ..s }
    } else if s.step == COMPARE_SETUP {
        InPlace { setup_matches: yes, ..s }
    } else if s.step == PROBE_SETUP_IMAGE {
        InPlace { setup_cached: yes, ..s }
    } else if s.step == PROBE_STACK_IMAGE {
        InPlace { stack_cached: yes, ..s }
    } else if s.step == ATTACH_PROXY {
        InPlace { proxy_attached: true, ..s }
    } else if s.step == ATTACH_STORAGE {
        InPlace { storage_attached: true, ..s }
    } else if s.step == LAUNCH {
        InPlace { launched: true, ..s }
    } else {
        s
    }
}

pub fn record(s: InPlace, signal: Signal) -> (r: InPlace)
    ensures
        r == spec_record(s, signal),
{
    proof {
        reveal(spec_record);
    }
    let yes: bool = signal == Signal::Yes;
    if s.step == DETECT_APP {
        match signal {
            Signal::Detected { binary, packages, install } => InPlace {
                binary,
                packages,
                install,
                ..s
            },
            _ => s,
        }
    } else if s.step == PROBE_PROJECT {
        InPlace { project_exists: yes, ..s }
    } else if s.step == HASH_BINARY {
        InPlace { binary_hash: yes, ..s }
    } else if s.step == READ_DNS_NAME || s.step == ACQUIRE_HOSTNAME || s.step == READ_DNS_NAME_AGAIN {
        InPlace { name_known: yes, ..s }
    } else if s.step == PROBE_CONTAINER {
        InPlace { container_exists: yes, ..s }
    } else if s.step == COMPARE_SETUP {
        InPlace { setup_matches: yes, ..s }
    } else if s.step == PROBE_SETUP_IMAGE {
        InPlace { setup_cached: yes, ..s }
    } else if s.step == PROBE_STACK_IMAGE {
        InPlace { stack_cached: yes, ..s }
    } else if s.step == ATTACH_PROXY {
        InPlace { proxy_attached: true, ..s }
    } else if s.step == ATTACH_STORAGE {
        InPlace { storage_attached: true, ..s }
    } else if s.step == LAUNCH {
        InPlace { launched: true, ..s }
    } else {
        s
    }
}

/// The first step from `step` on that is due.
pub open spec fn spec_first_due(s: InPlace, step: u8) -> u8
    decreases FAILED - step,
{
    if step >= FAILED || spec_due(s, step) {
        step
    } else {
        spec_first_due(s, (step + 1) as u8)
    }
}

pub fn first_due(s: InPlace, step: u8) -> (r: u8)
    ensures
        r == spec_first_due(s, step),
{
    let mut r: u8 = step;
    while r < FAILED && !due(s, r)
        invariant
            spec_first_due(s, step) == spec_first_due(s, r),
        decreases 255 - r,
    {
        r = r + 1;
    }
    r
}

/// The state after a step, by what became of it.
pub open spec fn spec_next(s: InPlace, signal: Signal) -> InPlace {
    if s.step >= SUCCEEDED {
        s
    } else if signal == Signal::Failed && !spec_lenient(s.step) {
        InPlace { step: FAILED, ..s }
    } else {
        let recorded = spec_record(s, signal);
        InPlace { step: spec_first_due(recorded, (s.step + 1) as u8), ..recorded }
    }
}

pub fn next(s: InPlace, signal: Signal) -> (r: InPlace)
    ensures
        r == spec_next(s, signal),
{
    if s.step >= SUCCEEDED {
        s
    } else if signal == Signal::Failed && !lenient(s.step) {
        InPlace { step: FAILED, ..s }
    } else {
        let recorded = record(s, signal);
        InPlace { step: first_due(recorded, (s.step + 1) as u8), ..recorded }
    }
}

/// The state of a deploy before its first step.
pub open spec fn spec_start(skip_tailscale: bool, force_fresh: bool) -> InPlace {
    InPlace {
        step: READ_PROJECT,
        skip_tailscale,
        force_fresh,
        project_exists: false,
        binary: false,
        packages: false,
        install: false,
        binary_hash: false,
        name_known: false,
        container_exists: false,
        setup_matches: false,
        setup_cached: false,
        stack_cached: false,
        proxy_attached: false,
        storage_attached: false,
        launched: false,
    }
}

pub fn start(skip_tailscale: bool, force_fresh: bool) -> (r: InPlace)
    ensures
        r == spec_start(skip_tailscale, force_fresh),
{
    InPlace {
        step: READ_PROJECT,
        skip_tailscale,
        force_fresh,
        project_exists: false,
        binary: false,
        packages: false,
        install: false,
        binary_hash: false,
        name_known: false,
        container_exists: false,
        setup_matches: false,
        setup_cached: false,
        stack_cached: false,
        proxy_attached: false,
        storage_attached: false,
        launched: false,
    }
}

/// The state after a run of signals.
pub open spec fn run(s: InPlace, signals: Seq<Signal>) -> InPlace
    decreases signals.len(),
{
    if signals.len() == 0 {
        s
    } else {
        spec_next(run(s, signals.drop_last()), signals.last())
    }
}

proof fn first_due_stops(s: InPlace, step: u8)
    requires
        step <= FAILED,
    ensures
        step <= spec_first_due(s, step) <= FAILED,
        spec_first_due(s, step) < FAILED ==> spec_due(s, spec_first_due(s, step)),
        forall|k: u8| step <= k < spec_first_due(s, step) ==> !#[trigger] spec_due(s, k),
    decreases FAILED - step,
{
    if step >= FAILED || spec_due(s, step) {
    } else {
        first_due_stops(s, (step + 1) as u8);
        assert forall|k: u8| step <= k < spec_first_due(s, step) implies !#[trigger] spec_due(
            s,
            k,
        ) by {
            if k > step {
                assert((step + 1) as u8 <= k);
            }
        }
    }
}

/// A step that is taken without failing leads to the next one that is due.
pub proof fn due_steps_are_next(s: InPlace, signal: Signal)
    requires
        s.step < SUCCEEDED,
    ensures
        ({
            let after = spec_next(s, signal);
            let recorded = spec_record(s, signal);
            &&& s.step < after.step <= FAILED
            &&& signal != Signal::Failed || spec_lenient(s.step) ==> {
                &&& after == (InPlace { step: after.step, ..recorded })
                &&& after.step < FAILED ==> spec_due(recorded, after.step)
                &&& forall|k: u8|
                    s.step < k && k < after.step ==> !#[trigger] spec_due(recorded, k)
            }
            &&& signal == Signal::Failed && !spec_lenient(s.step) ==> after.step == FAILED
        }),
{
    first_due_stops(spec_record(s, signal), (s.step + 1) as u8);
}

/// A deploy is over after at most as many steps as there are, whatever becomes of
/// them.
pub proof fn every_deploy_ends(s: InPlace, signals: Seq<Signal>)
    requires
        signals.len() >= SUCCEEDED,
    ensures
        run(s, signals).step >= SUCCEEDED,
{
    runs_lead_on(s, signals);
}

proof fn runs_lead_on(s: InPlace, signals: Seq<Signal>)
    ensures
        run(s, signals).step >= SUCCEEDED || signals.len() <= run(s, signals).step,
    decreases signals.len(),
{
    if signals.len() > 0 {
        let before = run(s, signals.drop_last());
        runs_lead_on(s, signals.drop_last());
        if before.step < SUCCEEDED {
            first_due_stops(spec_record(before, signals.last()), (before.step + 1) as u8);
        }
    }
}

/// Steps are taken in their order.
pub proof fn steps_are_taken_in_order(s: InPlace, signals: Seq<Signal>, i: int, j: int)
    requires
        0 <= i < j <= signals.len(),
        !(run(s, signals.take(i)).step >= SUCCEEDED),
    ensures
        run(s, signals.take(i)).step < run(s, signals.take(j)).step,
    decreases j,
{
    let before = run(s, signals.take(j - 1));
    assert(signals.take(j).drop_last() =~= signals.take(j - 1));
    if i < j - 1 {
        steps_are_taken_in_order(s, signals, i, j - 1);
    }
    if !(before.step >= SUCCEEDED) {
        first_due_stops(spec_record(before, signals[j - 1]), (before.step + 1) as u8);
    }
}

/// Whether a step was taken and did not fail.
pub open spec fn took(s: InPlace, signals: Seq<Signal>, step: u8) -> bool {
    exists|i: int|
        0 <= i < signals.len() && (#[trigger] run(s, signals.take(i))).step == step && signals[i]
            != Signal::Failed
}

/// Whether no launch does without a step.
pub open spec fn prepares(s: InPlace, step: u8) -> bool {
    step == CHECK_REQUIRED_ENV || step == ATTACH_STORAGE || step == RUN_PREINSTALL || step
        == RUN_INSTALL && s.install || step == RUN_POSTINSTALL
}

proof fn preparations_are_due(s: InPlace, signal: Signal, step: u8)
    ensures
        prepares(s, step) ==> spec_due(s, step) && !spec_lenient(step),
        s.step != DETECT_APP ==> spec_record(s, signal).install == s.install,
{
    reveal(spec_due);
    reveal(spec_record);
}

proof fn preparations_are_not_passed(s: InPlace, signals: Seq<Signal>, step: u8)
    requires
        s.step == READ_PROJECT,
        prepares(run(s, signals), step),
        step < run(s, signals).step <= SUCCEEDED,
    ensures
        took(s, signals, step),
    decreases signals.len(),
{
    let earlier = signals.drop_last();
    let before = run(s, earlier);
    let signal = signals.last();
    preparations_are_due(before, signal, step);
    preparations_are_due(spec_record(before, signal), signal, step);
    if before.step >= SUCCEEDED {
    } else {
        first_due_stops(spec_record(before, signal), (before.step + 1) as u8);
        first_due_stops(spec_record(before, signal), (before.step + 1) as u8);
    }
    if before.step == step {
        assert(signals.take(earlier.len() as int) =~= earlier);
    } else {
        preparations_are_not_passed(s, earlier, step);
        let i = choose|i: int|
            0 <= i < earlier.len() && (#[trigger] run(s, earlier.take(i))).step == step
                && earlier[i] != Signal::Failed;
        assert(signals.take(i) =~= earlier.take(i));
    }
}

/// An app is launched only after its required variables were found to be set, its storage
/// was attached, and its hooks ran, the first before its dependencies were installed and
/// the second after that.
pub proof fn launches_are_prepared(skip_tailscale: bool, force_fresh: bool, signals: Seq<Signal>)
    ensures
        ({
            let s = spec_start(skip_tailscale, force_fresh);
            let reached = run(s, signals);
            LAUNCH <= reached.step <= SUCCEEDED ==> forall|step: u8|
                #[trigger] prepares(reached, step) ==> took(s, signals, step)
        }),
{
    let s = spec_start(skip_tailscale, force_fresh);
    let reached = run(s, signals);
    assert forall|step: u8| #[trigger] prepares(reached, step) && LAUNCH <= reached.step
        && reached.step <= SUCCEEDED implies took(s, signals, step) by {
        preparations_are_not_passed(s, signals, step);
    }
}

/// What the flags of a deploy say while it goes forward.
pub open spec fn sound(s: InPlace) -> bool {
    &&& s.step <= FAILED
    &&& s.step <= SUCCEEDED ==> {
        &&& s.storage_attached == (s.step > ATTACH_STORAGE)
        &&& s.launched == (s.step > LAUNCH)
        &&& s.step > ATTACH_PROXY && spec_needs_setup(s) ==> s.proxy_attached
        &&& s.setup_matches ==> s.step > COMPARE_SETUP && s.container_exists
        &&& s.setup_cached ==> s.step > PROBE_SETUP_IMAGE && !s.force_fresh
        &&& s.step == COMPARE_SETUP ==> s.container_exists
    }
    &&& s.step == CLEAN_CONTAINER ==> s.container_exists && (s.force_fresh || !s.setup_matches)
    &&& CHECK_SETUP_START <= s.step <= ATTACH_PROXY ==> spec_needs_setup(s)
    &&& s.step == PROBE_SETUP_IMAGE ==> !s.force_fresh
}

proof fn steps_not_passed(s: InPlace, from: u8)
    requires
        from <= SUCCEEDED,
    ensures
        ({
            let to = spec_first_due(s, from);
            &&& from <= to <= SUCCEEDED
            &&& from <= ATTACH_STORAGE ==> to <= ATTACH_STORAGE
            &&& from <= LAUNCH ==> to <= LAUNCH
            &&& from <= ATTACH_PROXY && spec_needs_setup(s) ==> to <= ATTACH_PROXY
            &&& to == COMPARE_SETUP ==> s.container_exists
            &&& to == CLEAN_CONTAINER ==> s.container_exists && spec_needs_setup(s)
            &&& CHECK_SETUP_START <= to <= ATTACH_PROXY ==> spec_needs_setup(s)
            &&& to == PROBE_SETUP_IMAGE ==> !s.force_fresh
        }),
{
    reveal(spec_due);
    first_due_stops(s, from);
    assert(spec_due(s, ATTACH_STORAGE));
    assert(spec_due(s, LAUNCH));
    assert(spec_due(s, SUCCEEDED));
    assert(spec_needs_setup(s) ==> spec_due(s, ATTACH_PROXY));
}

/// A deploy starts sound, and whatever becomes of its steps it stays so: a container
/// is cleaned away or set up only where it must be, and nothing is on record before
/// the storage is attached and the app launched.
pub proof fn deploys_stay_sound(s: InPlace, signal: Signal)
    requires
        sound(s),
    ensures
        sound(spec_start(s.skip_tailscale, s.force_fresh)),
        sound(spec_next(s, signal)),
        spec_next(s, signal).step == WRITE_RUNTIME_STATE ==> spec_next(s, signal).launched
            && spec_next(s, signal).storage_attached,
{
    reveal(spec_record);
    if s.step < SUCCEEDED {
        steps_not_passed(spec_record(s, signal), (s.step + 1) as u8);
    }
}

} // verus!
