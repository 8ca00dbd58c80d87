//! What the course of a deploy into the one container of an app comes to, by the answers
//! that its steps were given.

use vstd::prelude::*;
use crate::blue_green::Signal;
use crate::in_place::{
    run, spec_due, spec_lenient, spec_record, spec_start, InPlace, ACQUIRE_HOSTNAME, ADD_ROUTE,
    ATTACH_PROXY, ATTACH_STORAGE, ATTACH_TAILSCALE_STATE, CHECK_APP_START, CHECK_CODE_PUSH, CHECK_DETECTION, CHECK_FINALIZE,
    CHECK_PACKAGE_SETUP, CHECK_PREFLIGHT, CHECK_REQUIRED_ENV, CHECK_SETUP_EVALUATION,
    CHECK_SETUP_START, CHECK_STORAGE, CHECK_TAILSCALE, CLEAN_CONTAINER, CLEAR_BINARY_HASH,
    COMPARE_SETUP, CREATE_CONTAINER, CREATE_FROM_SETUP_IMAGE, CREATE_FROM_STACK_IMAGE, DETECT_APP,
    ENSURE_CREATE_PREREQS, ENSURE_PROFILE, ENSURE_STORAGE_VOLUME, ENSURE_TAILSCALE_VOLUME,
    EXPOSE_HTTP, FAILED, HASH_BINARY, INCREMENT_BUILD, INIT_STACKS, INSTALL_PACKAGES,
    INSTALL_TAILSCALE, LAUNCH, PERSIST_REQUIRED_ENV, PERSIST_START_COMMAND, PROBE_CONTAINER,
    PROBE_PROJECT, PROBE_SETUP_IMAGE, PROBE_STACK_IMAGE, PUBLISH_SETUP_IMAGE, PUBLISH_STACK_IMAGE,
    PUSH_CODE, PUSH_SETUP_SCRIPT, READ_DNS_NAME, READ_DNS_NAME_AGAIN, READ_ENV, READ_PROJECT,
    RESOLVE_STACK, RUN_INSTALL, RUN_POSTINSTALL, RUN_PREINSTALL, RUN_SETUP_SCRIPT, STOP_PROCESS,
    SUCCEEDED, WAIT_QUIET, WRITE_BINARY_HASH, WRITE_RUNTIME_STATE, WRITE_SETUP_HASH,
};

verus! {

/// What became of a step in a run of signals, if the run came to it.
pub open spec fn told(s: InPlace, signals: Seq<Signal>, step: u8) -> Option<Signal>
    decreases signals.len(),
{
    if signals.len() == 0 {
        None
    } else {
        let before = run(s, signals.drop_last());
        if before.step == step && before.step < SUCCEEDED {
            Some(signals.last())
        } else {
            told(s, signals.drop_last(), step)
        }
    }
}

/// A deploy, by its settings and what became of its steps one after the other.
pub struct Course {
    pub skip_tailscale: bool,
    pub force_fresh: bool,
    pub signals: Seq<Signal>,
}

impl Course {
    pub open spec fn start(self) -> InPlace {
        spec_start(self.skip_tailscale, self.force_fresh)
    }

    /// The deploy with one more signal.
    pub open spec fn with(self, signal: Signal) -> Course {
        Course { signals: self.signals.push(signal), ..self }
    }

    /// Where the deploy stands.
    pub open spec fn state(self) -> InPlace {
        run(self.start(), self.signals)
    }

    /// Whether the deploy goes on or has succeeded, and a step lies behind it.
    pub open spec fn is_past(self, step: u8) -> bool {
        step < self.state().step <= SUCCEEDED
    }

    pub open spec fn told(self, step: u8) -> Option<Signal> {
        told(self.start(), self.signals, step)
    }

    /// Whether a step was taken, whatever became of it.
    pub open spec fn tried(self, step: u8) -> bool {
        self.told(step) is Some
    }

    /// Whether a step was taken and did not fail.
    pub open spec fn did(self, step: u8) -> bool {
        self.tried(step) && self.told(step) != Some(Signal::Failed)
    }

    /// Whether a step that asks something was answered with yes.
    pub open spec fn yes(self, step: u8) -> bool {
        self.told(step) == Some(Signal::Yes)
    }

    /// Whether the app was found to be a binary.
    pub open spec fn is_binary(self) -> bool {
        self.told(DETECT_APP) matches Some(Signal::Detected { binary, .. }) && binary
    }

    /// Whether the app was found to want packages.
    pub open spec fn wants_packages(self) -> bool {
        self.told(DETECT_APP) matches Some(Signal::Detected { packages, .. }) && packages
    }

    /// Whether the app was found to have dependencies to install.
    pub open spec fn has_dependencies(self) -> bool {
        self.told(DETECT_APP) matches Some(Signal::Detected { install, .. }) && install
    }

    /// Whether the container that is there is kept: it is set up as it is to be, and no
    /// fresh one is called for.
    pub open spec fn keeps_container(self) -> bool {
        self.yes(PROBE_CONTAINER) && self.yes(COMPARE_SETUP) && !self.force_fresh
    }
}

/// What the flags say is what the steps were told.
spec fn flags_hold(c: Course) -> bool {
    let t = c.state();
    &&& t.skip_tailscale == c.skip_tailscale
    &&& t.force_fresh == c.force_fresh
    &&& t.project_exists == c.yes(PROBE_PROJECT)
    &&& t.binary == c.is_binary()
    &&& t.packages == c.wants_packages()
    &&& t.install == c.has_dependencies()
    &&& t.binary_hash == c.yes(HASH_BINARY)
    &&& t.container_exists == c.yes(PROBE_CONTAINER)
    &&& t.setup_matches == c.yes(COMPARE_SETUP)
    &&& t.setup_cached == c.yes(PROBE_SETUP_IMAGE)
    &&& t.stack_cached == c.yes(PROBE_STACK_IMAGE)
    &&& t.name_known == if c.tried(READ_DNS_NAME_AGAIN) {
        c.yes(READ_DNS_NAME_AGAIN)
    } else if c.tried(ACQUIRE_HOSTNAME) {
        c.yes(ACQUIRE_HOSTNAME)
    } else {
        c.yes(READ_DNS_NAME)
    }
}

/// The course but for its last signal.
spec fn earlier(c: Course) -> Course {
    Course { signals: c.signals.drop_last(), ..c }
}

proof fn steps_to_come_are_not_told(c: Course)
    ensures
        c.state().step <= FAILED,
        forall|k: u8| c.state().step <= k && k < SUCCEEDED ==> #[trigger] c.told(k) is None,
    decreases c.signals.len(),
{
    if c.signals.len() > 0 {
        let e = earlier(c);
        steps_to_come_are_not_told(e);
        let before = e.state();
        if before.step < SUCCEEDED {
            crate::in_place::due_steps_are_next(before, c.signals.last());
        }
        assert forall|k: u8| c.state().step <= k && k < SUCCEEDED implies #[trigger] c.told(k)
            is None by {
            assert(e.told(k) is None);
        }
    }
}

#[verifier::spinoff_prover]
#[verifier::rlimit(60)]
proof fn flags_are_what_was_told(c: Course)
    ensures
        c.state().step <= SUCCEEDED ==> flags_hold(c),
    decreases c.signals.len(),
{
    if c.signals.len() > 0 && c.state().step <= SUCCEEDED {
        let e = earlier(c);
        flags_are_what_was_told(e);
        steps_to_come_are_not_told(e);
        let before = e.state();
        assert(before.step < SUCCEEDED ==> e.told(before.step) is None);
        reveal(spec_record);
    }
}

/// What was due when a step was come to, or passed over, stays so; the second reading of
/// the name aside, which goes by what it changes itself.
#[verifier::spinoff_prover]
#[verifier::rlimit(60)]
proof fn due_is_settled(s: InPlace, signal: Signal, to: u8, k: u8)
    requires
        k <= s.step,
        k != READ_DNS_NAME_AGAIN,
    ensures
        spec_due(InPlace { step: to, ..spec_record(s, signal) }, k) == spec_due(s, k),
{
    reveal(spec_due);
    reveal(spec_record);
}

#[verifier::spinoff_prover]
proof fn due_goes_by_flags(s: InPlace, to: u8, k: u8)
    ensures
        spec_due(InPlace { step: to, ..s }, k) == spec_due(s, k),
{
    reveal(spec_due);
}

/// A deploy that goes on has taken the steps that were due, and no others.
proof fn due_steps_were_taken(c: Course, k: u8)
    requires
        k != READ_DNS_NAME_AGAIN,
    ensures
        c.state().step < SUCCEEDED ==> spec_due(c.state(), c.state().step),
        c.is_past(k) ==> (c.tried(k) <==> spec_due(c.state(), k)),
        c.is_past(k) && c.told(k) == Some(Signal::Failed) ==> spec_lenient(k),
    decreases c.signals.len(),
{
    steps_to_come_are_not_told(c);
    if c.signals.len() == 0 {
        reveal(spec_due);
    } else {
        let e = earlier(c);
        due_steps_were_taken(e, k);
        steps_to_come_are_not_told(e);
        let before = e.state();
        let signal = c.signals.last();
        if before.step < SUCCEEDED && c.state().step <= SUCCEEDED {
            let recorded = spec_record(before, signal);
            crate::in_place::due_steps_are_next(before, signal);
            assert(c.state() == (InPlace { step: c.state().step, ..recorded }));
            due_goes_by_flags(recorded, c.state().step, c.state().step);
            due_goes_by_flags(recorded, c.state().step, k);
            if k <= before.step {
                due_is_settled(before, signal, c.state().step, k);
            }
        }
    }
}

/// The container has a name on the tailnet once it was set up.
spec fn is_named(c: Course) -> bool {
    if c.tried(ACQUIRE_HOSTNAME) {
        c.yes(ACQUIRE_HOSTNAME)
    } else {
        c.yes(READ_DNS_NAME)
    }
}

proof fn second_readings_are_for_want_of_a_name(c: Course)
    ensures
        c.is_past(READ_DNS_NAME_AGAIN) ==> (c.tried(READ_DNS_NAME_AGAIN) <==> !c.skip_tailscale
            && !is_named(c)),
    decreases c.signals.len(),
{
    if c.signals.len() > 0 && c.is_past(READ_DNS_NAME_AGAIN) {
        let e = earlier(c);
        let signal = c.signals.last();
        second_readings_are_for_want_of_a_name(e);
        steps_to_come_are_not_told(e);
        flags_are_what_was_told(e);
        flags_are_what_was_told(c);
        due_steps_were_taken(e, READ_PROJECT);
        let before = e.state();
        if before.step < SUCCEEDED {
            let recorded = spec_record(before, signal);
            crate::in_place::due_steps_are_next(before, signal);
            assert(before.step < READ_DNS_NAME_AGAIN ==> !spec_due(recorded, READ_DNS_NAME_AGAIN));
            assert(before.step <= READ_DNS_NAME_AGAIN ==> e.told(READ_DNS_NAME_AGAIN) is None);
            reveal(spec_due);
            reveal(spec_record);
        }
    }
}

/// The steps without which no deploy gets past them.
pub open spec fn is_for_every_deploy(step: u8) -> bool {
    ||| step == READ_PROJECT
    ||| step == PROBE_PROJECT
    ||| step == INIT_STACKS
    ||| step == CHECK_PREFLIGHT
    ||| step == DETECT_APP
    ||| step == READ_ENV
    ||| step == CHECK_REQUIRED_ENV
    ||| step == CHECK_DETECTION
    ||| step == RESOLVE_STACK
    ||| step == ENSURE_STORAGE_VOLUME
    ||| step == PROBE_CONTAINER
    ||| step == CHECK_SETUP_EVALUATION
    ||| step == CHECK_STORAGE
    ||| step == ATTACH_STORAGE
    ||| step == CHECK_CODE_PUSH
    ||| step == PUSH_CODE
    ||| step == PERSIST_START_COMMAND
    ||| step == PERSIST_REQUIRED_ENV
    ||| step == RUN_PREINSTALL
    ||| step == RUN_POSTINSTALL
    ||| step == CHECK_APP_START
    ||| step == LAUNCH
    ||| step == CHECK_FINALIZE
    ||| step == ADD_ROUTE
    ||| step == WRITE_RUNTIME_STATE
    ||| step == INCREMENT_BUILD
}

/// However the container of an app came about, every deploy checks what the app requires,
/// attaches its storage, pushes its code, keeps how it is started and what it requires,
/// runs its hooks, launches it, routes to it and notes what it did: none of this is passed
/// over, and a deploy in which any of it fails does not go on.
pub proof fn no_deploy_gets_past_these_steps(c: Course, step: u8)
    requires
        is_for_every_deploy(step),
        c.is_past(step),
    ensures
        c.did(step),
{
    due_steps_were_taken(c, step);
    reveal(spec_due);
}

/// An app that has dependencies has them installed, another has not.
pub proof fn dependencies_are_installed(c: Course)
    requires
        c.is_past(RUN_INSTALL),
    ensures
        c.tried(RUN_INSTALL) <==> c.has_dependencies(),
        c.tried(RUN_INSTALL) ==> c.did(RUN_INSTALL),
{
    flags_are_what_was_told(c);
    due_steps_were_taken(c, RUN_INSTALL);
    reveal(spec_due);
}

/// The profile of a project is seen to where the project is there already.
pub proof fn profiles_of_known_projects_are_seen_to(c: Course)
    requires
        c.is_past(ENSURE_PROFILE),
    ensures
        c.tried(ENSURE_PROFILE) <==> c.yes(PROBE_PROJECT),
        c.tried(ENSURE_PROFILE) ==> c.did(ENSURE_PROFILE),
{
    flags_are_what_was_told(c);
    due_steps_were_taken(c, ENSURE_PROFILE);
    reveal(spec_due);
}

/// A container that is there is compared with what the app wants now. It is kept, and only
/// its process stopped, where the two match and no fresh one is called for; else it is
/// done away with.
pub proof fn containers_are_kept_or_cleaned(c: Course)
    requires
        c.is_past(STOP_PROCESS),
    ensures
        c.tried(COMPARE_SETUP) <==> c.yes(PROBE_CONTAINER),
        c.did(STOP_PROCESS) <==> c.keeps_container(),
        c.tried(STOP_PROCESS) ==> c.did(STOP_PROCESS),
        c.did(CLEAN_CONTAINER) <==> c.yes(PROBE_CONTAINER) && !c.keeps_container(),
        c.tried(CLEAN_CONTAINER) ==> c.did(CLEAN_CONTAINER),
{
    flags_are_what_was_told(c);
    due_steps_were_taken(c, COMPARE_SETUP);
    due_steps_were_taken(c, STOP_PROCESS);
    due_steps_were_taken(c, CLEAN_CONTAINER);
    reveal(spec_due);
}

/// A container that is not kept is made in one of three ways: from the image with the
/// packages of the app, from the image with its stack, or anew. The first is not looked
/// for where a fresh container is called for, and the second only where the first is not
/// there. One that is kept is not made again.
pub proof fn containers_are_made_in_one_way(c: Course)
    requires
        c.is_past(CREATE_CONTAINER),
    ensures
        c.did(PROBE_SETUP_IMAGE) <==> !c.keeps_container() && !c.force_fresh,
        c.did(CREATE_FROM_SETUP_IMAGE) <==> !c.keeps_container() && c.yes(PROBE_SETUP_IMAGE),
        c.did(PROBE_STACK_IMAGE) <==> !c.keeps_container() && !c.did(CREATE_FROM_SETUP_IMAGE),
        c.did(CREATE_FROM_STACK_IMAGE) <==> !c.keeps_container() && c.yes(PROBE_STACK_IMAGE),
        c.did(ENSURE_CREATE_PREREQS) <==> c.did(CREATE_CONTAINER),
        c.did(CREATE_CONTAINER) <==> !c.keeps_container() && !c.did(CREATE_FROM_SETUP_IMAGE)
            && !c.did(CREATE_FROM_STACK_IMAGE),
        !(c.did(CREATE_FROM_SETUP_IMAGE) && c.did(CREATE_FROM_STACK_IMAGE)),
{
    flags_are_what_was_told(c);
    due_steps_were_taken(c, COMPARE_SETUP);
    due_steps_were_taken(c, PROBE_CONTAINER);
    due_steps_were_taken(c, PROBE_SETUP_IMAGE);
    due_steps_were_taken(c, CREATE_FROM_SETUP_IMAGE);
    due_steps_were_taken(c, PROBE_STACK_IMAGE);
    due_steps_were_taken(c, CREATE_FROM_STACK_IMAGE);
    due_steps_were_taken(c, ENSURE_CREATE_PREREQS);
    due_steps_were_taken(c, CREATE_CONTAINER);
    reveal(spec_due);
}

/// A container that is made has to wait until the tasks in it are quiet, and what it is
/// made for is written down in it; it gets its proxy. None of this befalls one that is
/// kept.
pub proof fn made_containers_are_set_up(c: Course, step: u8)
    requires
        step == CHECK_SETUP_START || step == WAIT_QUIET || step == WRITE_SETUP_HASH || step
            == ATTACH_PROXY,
        c.is_past(step),
    ensures
        c.did(step) <==> !c.keeps_container(),
        c.tried(step) ==> c.did(step),
{
    flags_are_what_was_told(c);
    due_steps_were_taken(c, step);
    reveal(spec_due);
}

/// Only a container that was made anew has the script of its stack run in it, and an image
/// of it published.
pub proof fn stacks_are_set_up_in_new_containers(c: Course)
    requires
        c.is_past(PUBLISH_STACK_IMAGE),
    ensures
        c.did(PUSH_SETUP_SCRIPT) <==> c.did(CREATE_CONTAINER),
        c.did(RUN_SETUP_SCRIPT) <==> c.did(CREATE_CONTAINER),
        c.tried(PUBLISH_STACK_IMAGE) <==> c.did(CREATE_CONTAINER),
{
    flags_are_what_was_told(c);
    due_steps_were_taken(c, CREATE_CONTAINER);
    due_steps_were_taken(c, PUSH_SETUP_SCRIPT);
    due_steps_were_taken(c, RUN_SETUP_SCRIPT);
    due_steps_were_taken(c, PUBLISH_STACK_IMAGE);
    reveal(spec_due);
}

/// The packages of an app are installed in every container that is made in the deploy
/// without them: in every one but one from the image that holds them. An image with them
/// is published only after that, and exactly where there are some.
pub proof fn packages_are_installed(c: Course)
    requires
        c.is_past(PUBLISH_SETUP_IMAGE),
    ensures
        c.did(INSTALL_PACKAGES) <==> !c.keeps_container() && !c.did(CREATE_FROM_SETUP_IMAGE),
        c.did(INSTALL_PACKAGES) <==> c.did(CREATE_FROM_STACK_IMAGE) || c.did(CREATE_CONTAINER),
        c.did(CHECK_PACKAGE_SETUP) <==> c.did(INSTALL_PACKAGES),
        c.tried(INSTALL_PACKAGES) ==> c.did(INSTALL_PACKAGES),
        c.tried(PUBLISH_SETUP_IMAGE) <==> c.did(INSTALL_PACKAGES) && c.wants_packages(),
{
    flags_are_what_was_told(c);
    containers_are_made_in_one_way(c);
    due_steps_were_taken(c, INSTALL_PACKAGES);
    due_steps_were_taken(c, CHECK_PACKAGE_SETUP);
    due_steps_were_taken(c, PUBLISH_SETUP_IMAGE);
    reveal(spec_due);
}

/// The image with the packages is not published before the packages are in.
pub proof fn images_are_published_after_the_packages(c: Course)
    requires
        c.state().step == PUBLISH_SETUP_IMAGE,
    ensures
        c.did(INSTALL_PACKAGES),
        c.wants_packages(),
        !c.keeps_container(),
        !c.did(CREATE_FROM_SETUP_IMAGE),
{
    flags_are_what_was_told(c);
    containers_are_made_in_one_way(c);
    due_steps_were_taken(c, INSTALL_PACKAGES);
    reveal(spec_due);
}

/// A deploy without the tailnet does nothing with it.
pub proof fn deploys_without_the_tailnet_leave_it_alone(c: Course, step: u8)
    requires
        c.skip_tailscale,
        step == ENSURE_TAILSCALE_VOLUME || step == READ_DNS_NAME || step == INSTALL_TAILSCALE
            || step == ATTACH_TAILSCALE_STATE || step == CHECK_TAILSCALE || step
            == ACQUIRE_HOSTNAME || step == READ_DNS_NAME_AGAIN || step == EXPOSE_HTTP,
        c.is_past(step),
    ensures
        !c.tried(step),
{
    flags_are_what_was_told(c);
    second_readings_are_for_want_of_a_name(c);
    if step != READ_DNS_NAME_AGAIN {
        due_steps_were_taken(c, step);
    }
    reveal(spec_due);
}

/// A deploy with the tailnet sees to the volume for its state and reads the name that the
/// container has there; one that makes the container installs the tailnet's client in it,
/// attaches the state and gets it a name.
pub proof fn deploys_join_the_tailnet(c: Course)
    requires
        !c.skip_tailscale,
    ensures
        c.is_past(ENSURE_TAILSCALE_VOLUME) ==> c.did(ENSURE_TAILSCALE_VOLUME),
        c.is_past(READ_DNS_NAME) ==> c.tried(READ_DNS_NAME),
        c.is_past(INSTALL_TAILSCALE) ==> (c.did(INSTALL_TAILSCALE) <==> !c.keeps_container()),
        c.is_past(ATTACH_TAILSCALE_STATE) ==> (c.did(ATTACH_TAILSCALE_STATE)
            <==> !c.keeps_container()),
        c.is_past(CHECK_TAILSCALE) ==> (c.did(CHECK_TAILSCALE) <==> !c.keeps_container()),
        c.is_past(ACQUIRE_HOSTNAME) ==> (c.did(ACQUIRE_HOSTNAME) <==> !c.keeps_container()),
{
    flags_are_what_was_told(c);
    due_steps_were_taken(c, ENSURE_TAILSCALE_VOLUME);
    due_steps_were_taken(c, READ_DNS_NAME);
    due_steps_were_taken(c, INSTALL_TAILSCALE);
    due_steps_were_taken(c, ATTACH_TAILSCALE_STATE);
    due_steps_were_taken(c, CHECK_TAILSCALE);
    due_steps_were_taken(c, ACQUIRE_HOSTNAME);
    reveal(spec_due);
}

/// Where the last that was heard of the name on the tailnet was none, it is read once
/// more; and the app is exposed on the tailnet exactly where there is a name in the end.
pub proof fn named_apps_are_exposed(c: Course)
    requires
        !c.skip_tailscale,
    ensures
        c.is_past(READ_DNS_NAME_AGAIN) ==> (c.tried(READ_DNS_NAME_AGAIN) <==> {
            ||| c.tried(ACQUIRE_HOSTNAME) && !c.yes(ACQUIRE_HOSTNAME)
            ||| !c.tried(ACQUIRE_HOSTNAME) && !c.yes(READ_DNS_NAME)
        }),
        c.is_past(EXPOSE_HTTP) ==> (c.tried(EXPOSE_HTTP) <==> {
            ||| c.yes(READ_DNS_NAME_AGAIN)
            ||| c.yes(ACQUIRE_HOSTNAME)
            ||| c.yes(READ_DNS_NAME) && !c.tried(ACQUIRE_HOSTNAME)
        }),
{
    flags_are_what_was_told(c);
    second_readings_are_for_want_of_a_name(c);
    due_steps_were_taken(c, EXPOSE_HTTP);
    reveal(spec_due);
}

/// The hash of a binary is taken exactly where the app is one. Where there is a hash it is
/// kept, and else what was kept is cleared.
pub proof fn hashes_are_kept_or_cleared(c: Course)
    ensures
        c.is_past(HASH_BINARY) ==> (c.did(HASH_BINARY) <==> c.is_binary()),
        c.is_past(HASH_BINARY) && c.tried(HASH_BINARY) ==> c.did(HASH_BINARY),
        c.is_past(WRITE_BINARY_HASH) ==> (c.tried(WRITE_BINARY_HASH) <==> c.yes(HASH_BINARY)),
        c.is_past(CLEAR_BINARY_HASH) ==> (c.tried(CLEAR_BINARY_HASH) <==> !c.yes(HASH_BINARY)),
{
    flags_are_what_was_told(c);
    due_steps_were_taken(c, HASH_BINARY);
    due_steps_were_taken(c, WRITE_BINARY_HASH);
    due_steps_were_taken(c, CLEAR_BINARY_HASH);
    reveal(spec_due);
}

/// The steps whose failure a deploy gets over: to read a name, to compare, to publish an
/// image, to expose the app on the tailnet and to keep the hash of a binary.
pub open spec fn is_dispensable(step: u8) -> bool {
    ||| step == READ_DNS_NAME
    ||| step == READ_DNS_NAME_AGAIN
    ||| step == COMPARE_SETUP
    ||| step == PUBLISH_STACK_IMAGE
    ||| step == PUBLISH_SETUP_IMAGE
    ||| step == EXPOSE_HTTP
    ||| step == WRITE_BINARY_HASH
    ||| step == CLEAR_BINARY_HASH
}

/// A deploy that goes on fails with its next signal exactly where a step fails that it
/// cannot do without; a step that fails and can be done without, and one that does not
/// fail, lead on.
pub proof fn deploys_fail_with_what_they_need(c: Course, signal: Signal)
    requires
        c.state().step < SUCCEEDED,
    ensures
        ({
            let after = c.with(signal).state();
            &&& after.step == FAILED <==> signal == Signal::Failed && !is_dispensable(
                c.state().step,
            )
            &&& c.state().step < after.step
        }),
{
    let d = c.with(signal);
    assert(d.signals.drop_last() =~= c.signals);
    let recorded = spec_record(c.state(), signal);
    crate::in_place::due_steps_are_next(c.state(), signal);
    assert(spec_due(recorded, SUCCEEDED)) by {
        reveal(spec_due);
    }
}

/// A deploy that has failed stays failed, and one that has succeeded stays so.
pub proof fn ends_are_final(c: Course, signal: Signal)
    requires
        c.state().step >= SUCCEEDED,
    ensures
        c.with(signal).state() == c.state(),
{
    assert(c.signals.push(signal).drop_last() =~= c.signals);
}

} // verus!
