//! What is said of deploys and other courses of steps while they go on.

use vstd::prelude::*;
use crate::blue_green;
use crate::blue_green::{BlueGreen, Reply, Rollout};
use crate::blue_green_course::is_dispensable;
use crate::bootstrap;
use crate::bootstrap::{Bootstrap, BootstrapView};
use crate::hostname::TailscaleJoinAttempt;
use crate::in_place;
use crate::in_place::InPlace;
use crate::number::{decimal, decimal_of};
use crate::power::{Power, PowerStep};
use crate::split::{join, join_with};
use crate::tailscale::{exact_hostname, tailscale_hostname_is_exact};
use crate::text::{trim, trimmed};

verus! {

// ---------------------------------------------------------------------------
// A candidate beside the active container
// ---------------------------------------------------------------------------

/// A text that may be missing, or none.
pub open spec fn or_empty(text: Option<Seq<char>>) -> Seq<char> {
    match text {
        Some(text) => text,
        None => Seq::empty(),
    }
}

/// What is said before a step is taken.
pub open spec fn opening(s: BlueGreen, candidate: Seq<char>, previous: Seq<char>) -> Option<
    Seq<char>,
> {
    if s.step == blue_green::DETECT_APP {
        Some("-----> Detecting app type"@)
    } else if s.step == blue_green::ENSURE_STORAGE_VOLUME {
        Some("-----> Ensuring app storage volume"@)
    } else if s.step == blue_green::ENSURE_TAILSCALE_VOLUME {
        Some("-----> Ensuring tailscale state volume"@)
    } else if s.step == blue_green::WAIT_PREVIOUS_QUIET {
        Some("-----> Evaluating reusable inactive container\n       Inactive: "@ + previous)
    } else if s.step == blue_green::WAIT_ACTIVE_QUIET {
        Some(
            "-----> Preparing candidate container\n       Candidate: "@
                + candidate
                + "\n       Traffic remains on current container"@,
        )
    } else if s.step == blue_green::PROBE_CANDIDATE_RUNNING {
        Some("-----> Reusing inactive container as candidate"@)
    } else if s.step == blue_green::REFRESH_TAILSCALE {
        Some("-----> Ensuring tailscale setup in reused candidate"@)
    } else if s.step == blue_green::CREATE_FROM_SETUP_IMAGE {
        Some("-----> Creating candidate from cached setup image"@)
    } else if s.step == blue_green::CREATE_FROM_STACK_IMAGE {
        Some("-----> Creating candidate from cached stack image"@)
    } else if s.step == blue_green::ENSURE_CREATE_PREREQS {
        Some(
            "-----> Creating candidate container\n       First run may take a while while Ubuntu image downloads"@,
        )
    } else if s.step == blue_green::INSTALL_TAILSCALE {
        Some("-----> Installing tailscale in candidate"@)
    } else if s.step == blue_green::PUSH_SETUP_SCRIPT {
        Some("-----> Setting up candidate runtime"@)
    } else if s.step == blue_green::PUBLISH_STACK_IMAGE {
        Some("-----> Caching stack image"@)
    } else if s.step == blue_green::CHECK_BUILD {
        Some("-----> Building candidate"@)
    } else if s.step == blue_green::PUBLISH_SETUP_IMAGE {
        Some("-----> Caching setup image"@)
    } else if s.step == blue_green::RUN_INSTALL {
        Some("-----> Installing candidate dependencies"@)
    } else if s.step == blue_green::CHECK_BEFORE_CUTOVER {
        Some("-----> Switching traffic"@)
    } else if s.step == blue_green::STOP_ACTIVE_PROCESS {
        Some("       Stopping current app process"@)
    } else if s.step == blue_green::REMOVE_ACTIVE_PROXY {
        Some("       Removing old proxy device"@)
    } else if s.step == blue_green::DETACH_ACTIVE_STORAGE {
        Some("       Detaching storage from current container"@)
    } else if s.step == blue_green::ATTACH_CANDIDATE_STORAGE {
        Some("       Attaching storage to candidate container"@)
    } else if s.step == blue_green::ATTACH_CANDIDATE_PROXY {
        Some("       Attaching proxy to new active container"@)
    } else if s.step == blue_green::LAUNCH_CANDIDATE {
        Some("       Starting app in new active container"@)
    } else if s.step == blue_green::CHECK_READINESS {
        Some("-----> Waiting for candidate readiness"@)
    } else if s.step == blue_green::DOWN_ACTIVE_TAILNET {
        Some("       Disconnecting previous active container from tailnet"@)
    } else if s.step == blue_green::DETACH_ACTIVE_TAILSCALE {
        Some("       Detaching tailscale state from current container"@)
    } else if s.step == blue_green::ATTACH_CANDIDATE_TAILSCALE {
        Some("       Attaching tailscale state to candidate container"@)
    } else if s.step == blue_green::ACQUIRE_HOSTNAME {
        Some("       Starting tailscaled with persisted identity"@)
    } else if s.step == blue_green::WAIT_LIVE_LISTENER {
        Some("-----> Verifying live endpoint"@)
    } else if s.step == blue_green::REJOIN_WITH_STATE {
        Some("       Reconnecting previous active container to tailnet"@)
    } else {
        None
    }
}

/// What is said of a step that failed.
pub open spec fn failing(s: BlueGreen, err: Seq<char>) -> Option<Seq<char>> {
    if s.step == blue_green::PUBLISH_STACK_IMAGE {
        Some("       Warning: failed to cache stack image: "@ + err)
    } else if s.step == blue_green::PUBLISH_SETUP_IMAGE {
        Some("       Warning: failed to cache setup image: "@ + err)
    } else if s.step == blue_green::DETACH_ACTIVE_STORAGE {
        Some("       Warning: failed to detach storage from current container: "@ + err)
    } else if s.step == blue_green::DOWN_ACTIVE_TAILNET {
        Some("       Warning: failed to bring tailscale down on previous container: "@ + err)
    } else if s.step == blue_green::EXPOSE_HTTP {
        Some("       Warning: failed to expose tailnet HTTP on :80: "@ + err)
    } else if s.step == blue_green::WRITE_BINARY_HASH {
        Some("       Warning: failed to persist binary hash: "@ + err)
    } else if s.step == blue_green::CLEAR_BINARY_HASH {
        Some("       Warning: failed to clear binary hash: "@ + err)
    } else if s.step == blue_green::RESTORE_ACTIVE_TAILSCALE {
        Some("       Warning: failed to reattach tailscale state to previous container: "@ + err)
    } else if s.step == blue_green::REJOIN_WITH_STATE {
        Some("       Warning: state-based reconnect failed, falling back to auth-key join: "@ + err)
    } else if s.step == blue_green::REJOIN_WITH_AUTH_KEY {
        Some("       Warning: failed to reconnect previous container to tailnet: "@ + err)
    } else if blue_green::CHECK_CUTOVER_START <= s.step && s.step <= blue_green::WRITE_RUNTIME_STATE
        && !blue_green::spec_lenient(s.step) {
        Some("-----> Cutover failed; rolling back traffic"@)
    } else {
        None
    }
}

/// What is said of a step that was taken; `yes` is its answer where it asks something.
pub open spec fn closing(s: BlueGreen, yes: bool, previous: Seq<char>, error: Seq<char>) -> Option<
    Seq<char>,
> {
    if s.step == blue_green::READ_CLEANUP_JOB && yes {
        Some("       Pending cleanup detected; using fresh candidate container"@)
    } else if s.step == blue_green::READ_CLEANUP_JOB && s.force_fresh {
        Some("       Fresh-image retry requested; skipping inactive container reuse"@)
    } else if s.step == blue_green::COMPARE_PREVIOUS_SETUP && yes {
        Some("       Reusing inactive container: "@ + previous)
    } else if s.step == blue_green::COMPARE_PREVIOUS_SETUP {
        Some("       Inactive setup hash mismatch; using fresh candidate"@)
    } else if s.step == blue_green::PROBE_ACTIVE_SERVING && yes {
        Some(
            "       Active container is blocked; proceeding with cutover-first recovery\n       Details: "@
                + error,
        )
    } else if s.step == blue_green::CHECK_BUILD_SETUP && s.force_fresh && !s.reused {
        Some("-----> Fresh-image retry requested; skipping cached setup image"@)
    } else if s.skip_tailscale && (s.step == blue_green::REMOVE_CANDIDATE_TAILSCALE || s.step == blue_green::CREATE_FROM_SETUP_IMAGE
        || s.step == blue_green::CREATE_FROM_STACK_IMAGE || s.step == blue_green::CREATE_CANDIDATE) {
        Some("-----> Skipping tailscale setup in candidate"@)
    } else if s.step == blue_green::CHECK_BEFORE_CUTOVER {
        Some("       Traffic remains on current container until cutover is complete"@)
    } else {
        None
    }
}

/// What is said of a step, by what became of it.
pub open spec fn said_of(
    s: BlueGreen,
    reply: Reply,
    previous: Seq<char>,
    error: Seq<char>,
) -> Option<Seq<char>> {
    match reply {
        Reply::Failed(err) => if failing(s, err@) is Some || !blue_green::spec_lenient(s.step) {
            failing(s, err@)
        } else {
            closing(s, false, previous, error)
        },
        _ => closing(s, reply is Yes, previous, error),
    }
}

fn text_or_empty<'a>(text: &'a Option<String>) -> (r: &'a str)
    ensures
        r@ == or_empty(text.deep_view()),
{
    match text {
        Some(text) => text.as_str(),
        None => {
            proof {
                reveal_strlit("");
                assert(""@ =~= Seq::<char>::empty());
            }
            ""
        },
    }
}

fn say_opening(s: BlueGreen, candidate: &str, previous: &str) -> (r: Option<String>)
    ensures
        r.deep_view() == opening(s, candidate@, previous@),
{
    if s.step == blue_green::DETECT_APP {
        return Some(String::from_str("-----> Detecting app type"));
    }
    if s.step == blue_green::ENSURE_STORAGE_VOLUME {
        return Some(String::from_str("-----> Ensuring app storage volume"));
    }
    if s.step == blue_green::ENSURE_TAILSCALE_VOLUME {
        return Some(String::from_str("-----> Ensuring tailscale state volume"));
    }
    if s.step == blue_green::WAIT_PREVIOUS_QUIET {
        let mut r = String::from_str(
            "-----> Evaluating reusable inactive container\n       Inactive: ",
        );
        r.append(previous);
        return Some(r);
    }
    if s.step == blue_green::WAIT_ACTIVE_QUIET {
        let mut r = String::from_str("-----> Preparing candidate container\n       Candidate: ");
        r.append(candidate);
        r.append("\n       Traffic remains on current container");
        return Some(r);
    }
    if s.step == blue_green::PROBE_CANDIDATE_RUNNING {
        return Some(String::from_str("-----> Reusing inactive container as candidate"));
    }
    if s.step == blue_green::REFRESH_TAILSCALE {
        return Some(String::from_str("-----> Ensuring tailscale setup in reused candidate"));
    }
    if s.step == blue_green::CREATE_FROM_SETUP_IMAGE {
        return Some(String::from_str("-----> Creating candidate from cached setup image"));
    }
    if s.step == blue_green::CREATE_FROM_STACK_IMAGE {
        return Some(String::from_str("-----> Creating candidate from cached stack image"));
    }
    if s.step == blue_green::ENSURE_CREATE_PREREQS {
        return Some(
            String::from_str("-----> Creating candidate container\n       First run may take a while while Ubuntu image downloads"),
        );
    }
    if s.step == blue_green::INSTALL_TAILSCALE {
        return Some(String::from_str("-----> Installing tailscale in candidate"));
    }
    if s.step == blue_green::PUSH_SETUP_SCRIPT {
        return Some(String::from_str("-----> Setting up candidate runtime"));
    }
    if s.step == blue_green::PUBLISH_STACK_IMAGE {
        return Some(String::from_str("-----> Caching stack image"));
    }
    if s.step == blue_green::CHECK_BUILD {
        return Some(String::from_str("-----> Building candidate"));
    }
    if s.step == blue_green::PUBLISH_SETUP_IMAGE {
        return Some(String::from_str("-----> Caching setup image"));
    }
    if s.step == blue_green::RUN_INSTALL {
        return Some(String::from_str("-----> Installing candidate dependencies"));
    }
    if s.step == blue_green::CHECK_BEFORE_CUTOVER {
        return Some(String::from_str("-----> Switching traffic"));
    }
    if s.step == blue_green::STOP_ACTIVE_PROCESS {
        return Some(String::from_str("       Stopping current app process"));
    }
    if s.step == blue_green::REMOVE_ACTIVE_PROXY {
        return Some(String::from_str("       Removing old proxy device"));
    }
    if s.step == blue_green::DETACH_ACTIVE_STORAGE {
        return Some(String::from_str("       Detaching storage from current container"));
    }
    if s.step == blue_green::ATTACH_CANDIDATE_STORAGE {
        return Some(String::from_str("       Attaching storage to candidate container"));
    }
    if s.step == blue_green::ATTACH_CANDIDATE_PROXY {
        return Some(String::from_str("       Attaching proxy to new active container"));
    }
    if s.step == blue_green::LAUNCH_CANDIDATE {
        return Some(String::from_str("       Starting app in new active container"));
    }
    if s.step == blue_green::CHECK_READINESS {
        return Some(String::from_str("-----> Waiting for candidate readiness"));
    }
    if s.step == blue_green::DOWN_ACTIVE_TAILNET {
        return Some(
            String::from_str("       Disconnecting previous active container from tailnet"),
        );
    }
    if s.step == blue_green::DETACH_ACTIVE_TAILSCALE {
        return Some(String::from_str("       Detaching tailscale state from current container"));
    }
    if s.step == blue_green::ATTACH_CANDIDATE_TAILSCALE {
        return Some(String::from_str("       Attaching tailscale state to candidate container"));
    }
    if s.step == blue_green::ACQUIRE_HOSTNAME {
        return Some(String::from_str("       Starting tailscaled with persisted identity"));
    }
    if s.step == blue_green::WAIT_LIVE_LISTENER {
        return Some(String::from_str("-----> Verifying live endpoint"));
    }
    if s.step == blue_green::REJOIN_WITH_STATE {
        return Some(String::from_str("       Reconnecting previous active container to tailnet"));
    }
    None
}

fn say_failing(s: BlueGreen, err: &str) -> (r: Option<String>)
    ensures
        r.deep_view() == failing(s, err@),
{
    if s.step == blue_green::PUBLISH_STACK_IMAGE {
        let mut r = String::from_str("       Warning: failed to cache stack image: ");
        r.append(err);
        return Some(r);
    }
    if s.step == blue_green::PUBLISH_SETUP_IMAGE {
        let mut r = String::from_str("       Warning: failed to cache setup image: ");
        r.append(err);
        return Some(r);
    }
    if s.step == blue_green::DETACH_ACTIVE_STORAGE {
        let mut r = String::from_str(
            "       Warning: failed to detach storage from current container: ",
        );
        r.append(err);
        return Some(r);
    }
    if s.step == blue_green::DOWN_ACTIVE_TAILNET {
        let mut r = String::from_str(
            "       Warning: failed to bring tailscale down on previous container: ",
        );
        r.append(err);
        return Some(r);
    }
    if s.step == blue_green::EXPOSE_HTTP {
        let mut r = String::from_str("       Warning: failed to expose tailnet HTTP on :80: ");
        r.append(err);
        return Some(r);
    }
    if s.step == blue_green::WRITE_BINARY_HASH {
        let mut r = String::from_str("       Warning: failed to persist binary hash: ");
        r.append(err);
        return Some(r);
    }
    if s.step == blue_green::CLEAR_BINARY_HASH {
        let mut r = String::from_str("       Warning: failed to clear binary hash: ");
        r.append(err);
        return Some(r);
    }
    if s.step == blue_green::RESTORE_ACTIVE_TAILSCALE {
        let mut r = String::from_str(
            "       Warning: failed to reattach tailscale state to previous container: ",
        );
        r.append(err);
        return Some(r);
    }
    if s.step == blue_green::REJOIN_WITH_STATE {
        let mut r = String::from_str(
            "       Warning: state-based reconnect failed, falling back to auth-key join: ",
        );
        r.append(err);
        return Some(r);
    }
    if s.step == blue_green::REJOIN_WITH_AUTH_KEY {
        let mut r = String::from_str(
            "       Warning: failed to reconnect previous container to tailnet: ",
        );
        r.append(err);
        return Some(r);
    }
    if blue_green::CHECK_CUTOVER_START <= s.step && s.step <= blue_green::WRITE_RUNTIME_STATE && !blue_green::lenient(s.step) {
        return Some(String::from_str("-----> Cutover failed; rolling back traffic"));
    }
    None
}

fn say_closing(s: BlueGreen, yes: bool, previous: &str, error: &str) -> (r: Option<String>)
    ensures
        r.deep_view() == closing(s, yes, previous@, error@),
{
    if s.step == blue_green::READ_CLEANUP_JOB && yes {
        return Some(
            String::from_str("       Pending cleanup detected; using fresh candidate container"),
        );
    }
    if s.step == blue_green::READ_CLEANUP_JOB && s.force_fresh {
        return Some(
            String::from_str("       Fresh-image retry requested; skipping inactive container reuse"),
        );
    }
    if s.step == blue_green::COMPARE_PREVIOUS_SETUP && yes {
        let mut r = String::from_str("       Reusing inactive container: ");
        r.append(previous);
        return Some(r);
    }
    if s.step == blue_green::COMPARE_PREVIOUS_SETUP {
        return Some(String::from_str("       Inactive setup hash mismatch; using fresh candidate"));
    }
    if s.step == blue_green::PROBE_ACTIVE_SERVING && yes {
        let mut r = String::from_str(
            "       Active container is blocked; proceeding with cutover-first recovery\n       Details: ",
        );
        r.append(error);
        return Some(r);
    }
    if s.step == blue_green::CHECK_BUILD_SETUP && s.force_fresh && !s.reused {
        return Some(
            String::from_str("-----> Fresh-image retry requested; skipping cached setup image"),
        );
    }
    if s.skip_tailscale && (s.step == blue_green::REMOVE_CANDIDATE_TAILSCALE || s.step == blue_green::CREATE_FROM_SETUP_IMAGE
        || s.step == blue_green::CREATE_FROM_STACK_IMAGE || s.step == blue_green::CREATE_CANDIDATE) {
        return Some(String::from_str("-----> Skipping tailscale setup in candidate"));
    }
    if s.step == blue_green::CHECK_BEFORE_CUTOVER {
        return Some(
            String::from_str("       Traffic remains on current container until cutover is complete"),
        );
    }
    None
}

impl Rollout {
    /// What is said before the step at hand is taken.
    pub fn opening_line(&self) -> (r: Option<String>)
        ensures
            r.deep_view() == opening(
                self.state,
                self.candidate@,
                or_empty(self.previous.deep_view()),
            ),
    {
        say_opening(self.state, self.candidate.as_str(), text_or_empty(&self.previous))
    }

    /// What is said of the step at hand, by what became of it. A step that may fail, and of
    /// whose failure nothing is said, is spoken of as taken.
    pub fn closing_line(&self, reply: &Reply) -> (r: Option<String>)
        ensures
            r.deep_view() == said_of(
                self.state,
                *reply,
                or_empty(self.previous.deep_view()),
                or_empty(self.error.deep_view()),
            ),
    {
        let mut yes: bool = false;
        match reply {
            Reply::Failed(err) => {
                let said = say_failing(self.state, err.as_str());
                if said.is_some() || !blue_green::lenient(self.state.step) {
                    return said;
                }
            },
            Reply::Yes => {
                yes = true;
            },
            _ => {},
        }
        say_closing(self.state, yes, text_or_empty(&self.previous), text_or_empty(&self.error))
    }

    /// What is said of a rollback at its end, where it could not undo everything.
    pub fn rollback_line(&self) -> (r: Option<String>)
        ensures
            r.deep_view() == if self.issues@.len() == 0 {
                None
            } else {
                Some(
                    "       Warning: rollback completed with issues: "@ + join(
                        self.issues.deep_view(),
                        " | "@,
                    ),
                )
            },
    {
        if self.issues.is_empty() {
            return None;
        }
        let mut r = String::from_str("       Warning: rollback completed with issues: ");
        let issues = join_with(&self.issues, " | ");
        r.append(issues.as_str());
        Some(r)
    }
}

// ---------------------------------------------------------------------------
// The one container of an app
// ---------------------------------------------------------------------------

/// What is said before a step is taken.
pub open spec fn in_place_opening(s: InPlace, port: u16) -> Option<Seq<char>> {
    if s.step == in_place::DETECT_APP {
        Some("-----> Detecting app type"@)
    } else if s.step == in_place::ENSURE_STORAGE_VOLUME {
        Some("-----> Ensuring app storage volume"@)
    } else if s.step == in_place::ENSURE_TAILSCALE_VOLUME {
        Some("-----> Ensuring tailscale state volume"@)
    } else if s.step == in_place::CLEAN_CONTAINER && s.force_fresh {
        Some("-----> Fresh-image retry requested; rebuilding container"@)
    } else if s.step == in_place::CLEAN_CONTAINER {
        Some("-----> Rebuilding container"@)
    } else if s.step == in_place::STOP_PROCESS {
        Some("-----> Reusing container"@)
    } else if s.step == in_place::CREATE_FROM_SETUP_IMAGE {
        Some("-----> Creating container from cached setup image"@)
    } else if s.step == in_place::CREATE_FROM_STACK_IMAGE {
        Some("-----> Creating container from cached stack image"@)
    } else if s.step == in_place::ENSURE_CREATE_PREREQS {
        Some(
            "-----> Creating container\n       First run may take a while while Ubuntu image downloads"@,
        )
    } else if s.step == in_place::INSTALL_TAILSCALE {
        Some("-----> Installing tailscale"@)
    } else if s.step == in_place::PUSH_SETUP_SCRIPT {
        Some("-----> Setting up runtime"@)
    } else if s.step == in_place::PUBLISH_STACK_IMAGE {
        Some("-----> Caching stack image"@)
    } else if s.step == in_place::PUBLISH_SETUP_IMAGE {
        Some("-----> Caching setup image"@)
    } else if s.step == in_place::CHECK_TAILSCALE {
        Some("-----> Connecting to tailnet"@)
    } else if s.step == in_place::ATTACH_PROXY {
        Some("-----> Setting up port forwarding on :"@ + decimal(port as nat))
    } else if s.step == in_place::CHECK_CODE_PUSH {
        Some("-----> Pushing code to container"@)
    } else if s.step == in_place::RUN_INSTALL {
        Some("-----> Installing dependencies"@)
    } else if s.step == in_place::CHECK_APP_START {
        Some("-----> Starting app"@)
    } else {
        None
    }
}

/// What is said of a step that failed.
pub open spec fn in_place_failing(s: InPlace, err: Seq<char>) -> Option<Seq<char>> {
    if s.step == in_place::PUBLISH_STACK_IMAGE {
        Some("       Warning: failed to cache stack image: "@ + err)
    } else if s.step == in_place::PUBLISH_SETUP_IMAGE {
        Some("       Warning: failed to cache setup image: "@ + err)
    } else if s.step == in_place::EXPOSE_HTTP {
        Some("       Warning: failed to expose tailnet HTTP on :80: "@ + err)
    } else if s.step == in_place::WRITE_BINARY_HASH {
        Some("       Warning: failed to persist binary hash: "@ + err)
    } else if s.step == in_place::CLEAR_BINARY_HASH {
        Some("       Warning: failed to clear binary hash: "@ + err)
    } else {
        None
    }
}

/// What is said of a step that was taken.
pub open spec fn in_place_closing(s: InPlace) -> Option<Seq<char>> {
    if s.step == in_place::WAIT_QUIET && s.force_fresh {
        Some("-----> Fresh-image retry requested; skipping cached setup image"@)
    } else if s.skip_tailscale && (s.step == in_place::CREATE_FROM_SETUP_IMAGE || s.step == in_place::CREATE_FROM_STACK_IMAGE
        || s.step == in_place::CREATE_CONTAINER) {
        Some("-----> Skipping tailscale setup"@)
    } else if s.step == in_place::WRITE_SETUP_HASH && s.skip_tailscale {
        Some("-----> Skipping tailnet connection"@)
    } else {
        None
    }
}

pub fn in_place_opening_line(s: InPlace, port: u16) -> (r: Option<String>)
    ensures
        r.deep_view() == in_place_opening(s, port),
{
    let port_text = decimal_of(port as u64);
    if s.step == in_place::DETECT_APP {
        return Some(String::from_str("-----> Detecting app type"));
    }
    if s.step == in_place::ENSURE_STORAGE_VOLUME {
        return Some(String::from_str("-----> Ensuring app storage volume"));
    }
    if s.step == in_place::ENSURE_TAILSCALE_VOLUME {
        return Some(String::from_str("-----> Ensuring tailscale state volume"));
    }
    if s.step == in_place::CLEAN_CONTAINER && s.force_fresh {
        return Some(String::from_str("-----> Fresh-image retry requested; rebuilding container"));
    }
    if s.step == in_place::CLEAN_CONTAINER {
        return Some(String::from_str("-----> Rebuilding container"));
    }
    if s.step == in_place::STOP_PROCESS {
        return Some(String::from_str("-----> Reusing container"));
    }
    if s.step == in_place::CREATE_FROM_SETUP_IMAGE {
        return Some(String::from_str("-----> Creating container from cached setup image"));
    }
    if s.step == in_place::CREATE_FROM_STACK_IMAGE {
        return Some(String::from_str("-----> Creating container from cached stack image"));
    }
    if s.step == in_place::ENSURE_CREATE_PREREQS {
        return Some(
            String::from_str("-----> Creating container\n       First run may take a while while Ubuntu image downloads"),
        );
    }
    if s.step == in_place::INSTALL_TAILSCALE {
        return Some(String::from_str("-----> Installing tailscale"));
    }
    if s.step == in_place::PUSH_SETUP_SCRIPT {
        return Some(String::from_str("-----> Setting up runtime"));
    }
    if s.step == in_place::PUBLISH_STACK_IMAGE {
        return Some(String::from_str("-----> Caching stack image"));
    }
    if s.step == in_place::PUBLISH_SETUP_IMAGE {
        return Some(String::from_str("-----> Caching setup image"));
    }
    if s.step == in_place::CHECK_TAILSCALE {
        return Some(String::from_str("-----> Connecting to tailnet"));
    }
    if s.step == in_place::ATTACH_PROXY {
        let mut r = String::from_str("-----> Setting up port forwarding on :");
        r.append(port_text.as_str());
        return Some(r);
    }
    if s.step == in_place::CHECK_CODE_PUSH {
        return Some(String::from_str("-----> Pushing code to container"));
    }
    if s.step == in_place::RUN_INSTALL {
        return Some(String::from_str("-----> Installing dependencies"));
    }
    if s.step == in_place::CHECK_APP_START {
        return Some(String::from_str("-----> Starting app"));
    }
    None
}

fn say_in_place_failing(s: InPlace, err: &str) -> (r: Option<String>)
    ensures
        r.deep_view() == in_place_failing(s, err@),
{
    if s.step == in_place::PUBLISH_STACK_IMAGE {
        let mut r = String::from_str("       Warning: failed to cache stack image: ");
        r.append(err);
        return Some(r);
    }
    if s.step == in_place::PUBLISH_SETUP_IMAGE {
        let mut r = String::from_str("       Warning: failed to cache setup image: ");
        r.append(err);
        return Some(r);
    }
    if s.step == in_place::EXPOSE_HTTP {
        let mut r = String::from_str("       Warning: failed to expose tailnet HTTP on :80: ");
        r.append(err);
        return Some(r);
    }
    if s.step == in_place::WRITE_BINARY_HASH {
        let mut r = String::from_str("       Warning: failed to persist binary hash: ");
        r.append(err);
        return Some(r);
    }
    if s.step == in_place::CLEAR_BINARY_HASH {
        let mut r = String::from_str("       Warning: failed to clear binary hash: ");
        r.append(err);
        return Some(r);
    }
    None
}

fn say_in_place_closing(s: InPlace) -> (r: Option<String>)
    ensures
        r.deep_view() == in_place_closing(s),
{
    if s.step == in_place::WAIT_QUIET && s.force_fresh {
        return Some(
            String::from_str("-----> Fresh-image retry requested; skipping cached setup image"),
        );
    }
    if s.skip_tailscale && (s.step == in_place::CREATE_FROM_SETUP_IMAGE || s.step == in_place::CREATE_FROM_STACK_IMAGE
        || s.step == in_place::CREATE_CONTAINER) {
        return Some(String::from_str("-----> Skipping tailscale setup"));
    }
    if s.step == in_place::WRITE_SETUP_HASH && s.skip_tailscale {
        return Some(String::from_str("-----> Skipping tailnet connection"));
    }
    None
}

/// What is said of the step at hand, by what became of it.
pub fn in_place_closing_line(s: InPlace, reply: &Reply) -> (r: Option<String>)
    ensures
        r.deep_view() == match *reply {
            Reply::Failed(err) => in_place_failing(s, err@),
            _ => in_place_closing(s),
        },
{
    match reply {
        Reply::Failed(err) => say_in_place_failing(s, err.as_str()),
        _ => say_in_place_closing(s),
    }
}

// ---------------------------------------------------------------------------
// The search for the name of an app in the tailnet
// ---------------------------------------------------------------------------

/// What is said of an attempt to join the tailnet that does not give the name of the app.
/// The identity that was kept is tried before a key is.
pub open spec fn joining(
    app: Seq<char>,
    with_state: bool,
    reply: Result<TailscaleJoinAttempt, String>,
) -> Option<Seq<char>> {
    match reply {
        Err(err) => Some(
            if with_state {
                "       State-based tailscale join failed: "@ + err@
                    + "\n       State-based tailscale recovery failed; switching to auth-key recovery"@
            } else {
                "       Auth-key tailscale join failed: "@ + err@
            },
        ),
        Ok(joined) => match joined.dns_name {
            None => Some(
                "       Tailscale DNS name unavailable yet; retrying"@ + if with_state {
                    "\n       State-based tailscale recovery produced no DNS name; switching to auth-key recovery"@
                } else {
                    Seq::empty()
                },
            ),
            Some(name) => if exact_hostname(name@, app) {
                None
            } else {
                Some(
                    "       Hostname mismatch: got '"@ + name@ + "', expected label '"@ + app
                        + "'. Retrying..."@ + if with_state {
                        "\n       State-based tailscale hostname was not exact; switching to auth-key recovery"@
                    } else {
                        Seq::empty()
                    },
                )
            },
        },
    }
}

pub fn join_line(
    app: &str,
    with_state: bool,
    reply: &Result<TailscaleJoinAttempt, String>,
) -> (r: Option<String>)
    ensures
        r.deep_view() == joining(app@, with_state, *reply),
{
    let mut r = String::new();
    match reply {
        Err(err) => {
            if with_state {
                r.append("       State-based tailscale join failed: ");
                r.append(err.as_str());
                r.append(
                    "\n       State-based tailscale recovery failed; switching to auth-key recovery",
                );
            } else {
                r.append("       Auth-key tailscale join failed: ");
                r.append(err.as_str());
            }
        },
        Ok(joined) => match &joined.dns_name {
            None => {
                r.append("       Tailscale DNS name unavailable yet; retrying");
                if with_state {
                    r.append(
                        "\n       State-based tailscale recovery produced no DNS name; switching to auth-key recovery",
                    );
                }
            },
            Some(name) => {
                if tailscale_hostname_is_exact(name.as_str(), app) {
                    return None;
                }
                r.append("       Hostname mismatch: got '");
                r.append(name.as_str());
                r.append("', expected label '");
                r.append(app);
                r.append("'. Retrying...");
                if with_state {
                    r.append(
                        "\n       State-based tailscale hostname was not exact; switching to auth-key recovery",
                    );
                }
            },
        },
    }
    assert(r@ =~= joining(app@, with_state, *reply)->0);
    Some(r)
}

/// What is said where tailscale does not come up under the name of the app.
pub fn not_healthy_line(with_state: bool, err: &str) -> (r: String)
    ensures
        r@ == "       Tailscale not healthy yet: "@ + err@ + if with_state {
            "\n       State-based tailscale health check failed; switching to auth-key recovery"@
        } else {
            Seq::empty()
        },
{
    let mut r = String::from_str("       Tailscale not healthy yet: ");
    r.append(err);
    if with_state {
        r.append(
            "\n       State-based tailscale health check failed; switching to auth-key recovery",
        );
    }
    assert(with_state || r@ =~= "       Tailscale not healthy yet: "@ + err@ + Seq::empty());
    r
}

// ---------------------------------------------------------------------------
// Starting and stopping
// ---------------------------------------------------------------------------

/// What is said before a step is taken.
pub open spec fn power_opening(power: Power, step: PowerStep, app: Seq<char>) -> Option<Seq<char>> {
    if power == Power::KeepRunning && step == PowerStep::StartContainer {
        Some("-----> Supervise: starting container for "@ + app)
    } else if power == Power::KeepRunning && step == PowerStep::Launch {
        Some("-----> Supervise: starting app service for "@ + app)
    } else if power == Power::KeepStopped && step == PowerStep::StopProcess {
        Some("-----> Supervise: stopping "@ + app + " (desired state is stopped)"@)
    } else {
        None
    }
}

pub fn power_opening_line(power: Power, step: PowerStep, app: &str) -> (r: Option<String>)
    ensures
        r.deep_view() == power_opening(power, step, app@),
{
    if power == Power::KeepRunning && step == PowerStep::StartContainer {
        let mut r = String::from_str("-----> Supervise: starting container for ");
        r.append(app);
        return Some(r);
    }
    if power == Power::KeepRunning && step == PowerStep::Launch {
        let mut r = String::from_str("-----> Supervise: starting app service for ");
        r.append(app);
        return Some(r);
    }
    if power == Power::KeepStopped && step == PowerStep::StopProcess {
        let mut r = String::from_str("-----> Supervise: stopping ");
        r.append(app);
        r.append(" (desired state is stopped)");
        return Some(r);
    }
    None
}

/// What is said of a step that was taken; `yes` is its answer where it asks something.
pub open spec fn power_closing(
    power: Power,
    step: PowerStep,
    yes: bool,
    app: Seq<char>,
) -> Option<Seq<char>> {
    if power == Power::Start && step == PowerStep::CheckService && yes {
        Some("       "@ + app + " is already running; skipping launch"@)
    } else {
        None
    }
}

pub fn power_closing_line(power: Power, step: PowerStep, yes: bool, app: &str) -> (r: Option<
    String,
>)
    ensures
        r.deep_view() == power_closing(power, step, yes, app@),
{
    if power == Power::Start && step == PowerStep::CheckService && yes {
        let mut r = String::from_str("       ");
        r.append(app);
        r.append(" is already running; skipping launch");
        return Some(r);
    }
    None
}

// ---------------------------------------------------------------------------
// Setting up a host
// ---------------------------------------------------------------------------

/// What is said before a step is taken.
pub open spec fn bootstrap_opening(step: u8) -> Option<Seq<char>> {
    if step == bootstrap::CHECK_CURL {
        Some("-----> Installing Incus"@)
    } else if step == bootstrap::INIT_INCUS {
        Some("-----> Initializing Incus"@)
    } else if step == bootstrap::ENABLE_SSH {
        Some("-----> Enabling Tailscale SSH"@)
    } else if step == bootstrap::CHECK_OAUTH {
        Some("-----> Tailscale SSH is active"@)
    } else if step == bootstrap::VALIDATE_OAUTH {
        Some("-----> Validating Tailscale OAuth permissions"@)
    } else if step == bootstrap::ADD_USER {
        Some("-----> Creating user psht"@)
    } else if step == bootstrap::CHANGE_SHELL {
        Some("-----> User psht exists, updating shell"@)
    } else if step == bootstrap::JOIN_GROUP {
        Some("-----> Adding psht to incus group"@)
    } else if step == bootstrap::MAKE_REPOS {
        Some("-----> Setting up directories"@)
    } else if step == bootstrap::WRITE_SERVICE {
        Some("-----> Installing host supervision timer"@)
    } else {
        None
    }
}

/// What is said of the search for credentials; `yes` tells whether they are there.
pub open spec fn bootstrap_closing(b: BootstrapView, yes: bool) -> Option<Seq<char>> {
    if b.step != bootstrap::CHECK_OAUTH {
        None
    } else if yes {
        Some("-----> Tailscale OAuth already configured"@)
    } else {
        match b.env_credentials {
            Some((id, secret)) if bootstrap::given(id) && bootstrap::given(secret) => Some(
                "-----> Setting up Tailscale OAuth from environment"@,
            ),
            _ => None,
        }
    }
}

impl Bootstrap {
    /// What is said before the step at hand is taken.
    pub fn opening_line(&self) -> (r: Option<String>)
        ensures
            r.deep_view() == bootstrap_opening(self.step),
    {
        if self.step == bootstrap::CHECK_CURL {
            return Some(String::from_str("-----> Installing Incus"));
        }
        if self.step == bootstrap::INIT_INCUS {
            return Some(String::from_str("-----> Initializing Incus"));
        }
        if self.step == bootstrap::ENABLE_SSH {
            return Some(String::from_str("-----> Enabling Tailscale SSH"));
        }
        if self.step == bootstrap::CHECK_OAUTH {
            return Some(String::from_str("-----> Tailscale SSH is active"));
        }
        if self.step == bootstrap::VALIDATE_OAUTH {
            return Some(String::from_str("-----> Validating Tailscale OAuth permissions"));
        }
        if self.step == bootstrap::ADD_USER {
            return Some(String::from_str("-----> Creating user psht"));
        }
        if self.step == bootstrap::CHANGE_SHELL {
            return Some(String::from_str("-----> User psht exists, updating shell"));
        }
        if self.step == bootstrap::JOIN_GROUP {
            return Some(String::from_str("-----> Adding psht to incus group"));
        }
        if self.step == bootstrap::MAKE_REPOS {
            return Some(String::from_str("-----> Setting up directories"));
        }
        if self.step == bootstrap::WRITE_SERVICE {
            return Some(String::from_str("-----> Installing host supervision timer"));
        }
        None
    }

    /// What is said of the step at hand; `yes` is its answer where it asks something.
    pub fn closing_line(&self, yes: bool) -> (r: Option<String>)
        ensures
            r.deep_view() == bootstrap_closing(self.deep_view(), yes),
    {
        if self.step != bootstrap::CHECK_OAUTH {
            return None;
        }
        if yes {
            return Some(String::from_str("-----> Tailscale OAuth already configured"));
        }
        if let Some((id, secret)) = &self.env_credentials {
            if !trimmed(id.as_str()).is_empty() && !trimmed(secret.as_str()).is_empty() {
                return Some(
                    String::from_str("-----> Setting up Tailscale OAuth from environment"),
                );
            }
        }
        None
    }
}

// ---------------------------------------------------------------------------
// What is said, and what is not
// ---------------------------------------------------------------------------

/// That traffic is rolled back is said exactly where a step of the cutover fails that the
/// deploy cannot do without.
pub proof fn rollbacks_are_announced(
    s: BlueGreen,
    err: String,
    previous: Seq<char>,
    error: Seq<char>,
)
    ensures
        said_of(s, Reply::Failed(err), previous, error) == Some(
            "-----> Cutover failed; rolling back traffic"@,
        ) <==> blue_green::CHECK_CUTOVER_START <= s.step <= blue_green::WRITE_RUNTIME_STATE
            && !is_dispensable(s.step),
{
    reveal_strlit("-----> Cutover failed; rolling back traffic");
    assert("-----> Cutover failed; rolling back traffic"@[0] == '-');
    warnings_are_indented(s, err@);
    if !(blue_green::CHECK_CUTOVER_START <= s.step <= blue_green::WRITE_RUNTIME_STATE)
        || is_dispensable(s.step) {
        closings_are_no_rollbacks(s, previous, error);
        if let Some(said) = failing(s, err@) {
            assert(said[0] == ' ');
        }
    }
}

proof fn warnings_are_indented(s: BlueGreen, err: Seq<char>)
    ensures
        !(blue_green::CHECK_CUTOVER_START <= s.step <= blue_green::WRITE_RUNTIME_STATE)
            || is_dispensable(s.step) ==> (failing(s, err) matches Some(said) ==> said.len() > 0
            && said[0] == ' '),
{
    reveal_strlit("       Warning: failed to cache stack image: ");
    reveal_strlit("       Warning: failed to cache setup image: ");
    reveal_strlit("       Warning: failed to detach storage from current container: ");
    reveal_strlit("       Warning: failed to bring tailscale down on previous container: ");
    reveal_strlit("       Warning: failed to expose tailnet HTTP on :80: ");
    reveal_strlit("       Warning: failed to persist binary hash: ");
    reveal_strlit("       Warning: failed to clear binary hash: ");
    reveal_strlit("       Warning: failed to reattach tailscale state to previous container: ");
    reveal_strlit(
        "       Warning: state-based reconnect failed, falling back to auth-key join: ",
    );
    reveal_strlit("       Warning: failed to reconnect previous container to tailnet: ");
}

proof fn closings_are_no_rollbacks(s: BlueGreen, previous: Seq<char>, error: Seq<char>)
    ensures
        closing(s, false, previous, error) != Some("-----> Cutover failed; rolling back traffic"@),
{
    reveal_strlit("-----> Cutover failed; rolling back traffic");
    reveal_strlit("       Fresh-image retry requested; skipping inactive container reuse");
    reveal_strlit("       Inactive setup hash mismatch; using fresh candidate");
    reveal_strlit("-----> Fresh-image retry requested; skipping cached setup image");
    reveal_strlit("-----> Skipping tailscale setup in candidate");
    reveal_strlit("       Traffic remains on current container until cutover is complete");
    assert("-----> Cutover failed; rolling back traffic"@[7] == 'C');
    if let Some(said) = closing(s, false, previous, error) {
        assert(said[7] != 'C');
    }
}

/// What fails and can be done without is warned of with its error, save what strips a
/// candidate, compares its setup, stops the tailnet's client or clears the cleanup job.
pub proof fn failures_that_are_passed_over_are_warned_of(s: BlueGreen, err: Seq<char>)
    requires
        is_dispensable(s.step),
    ensures
        failing(s, err) is Some <==> {
            ||| s.step == blue_green::PUBLISH_STACK_IMAGE
            ||| s.step == blue_green::PUBLISH_SETUP_IMAGE
            ||| s.step == blue_green::DETACH_ACTIVE_STORAGE
            ||| s.step == blue_green::DOWN_ACTIVE_TAILNET
            ||| s.step == blue_green::EXPOSE_HTTP
            ||| s.step == blue_green::WRITE_BINARY_HASH
            ||| s.step == blue_green::CLEAR_BINARY_HASH
        },
        failing(s, err) matches Some(said) ==> err.is_suffix_of(said),
{
    if let Some(said) = failing(s, err) {
        assert(said.skip(said.len() - err.len()) =~= err);
    }
}

/// The steps of a deploy into the second container that are announced.
pub proof fn announced_steps_of_a_rollout(
    s: BlueGreen,
    candidate: Seq<char>,
    previous: Seq<char>,
)
    ensures
        opening(s, candidate, previous) is Some <==> {
            ||| s.step == blue_green::DETECT_APP
            ||| s.step == blue_green::ENSURE_STORAGE_VOLUME
            ||| s.step == blue_green::ENSURE_TAILSCALE_VOLUME
            ||| s.step == blue_green::WAIT_PREVIOUS_QUIET
            ||| s.step == blue_green::WAIT_ACTIVE_QUIET
            ||| s.step == blue_green::PROBE_CANDIDATE_RUNNING
            ||| s.step == blue_green::REFRESH_TAILSCALE
            ||| s.step == blue_green::CREATE_FROM_SETUP_IMAGE
            ||| s.step == blue_green::CREATE_FROM_STACK_IMAGE
            ||| s.step == blue_green::ENSURE_CREATE_PREREQS
            ||| s.step == blue_green::INSTALL_TAILSCALE
            ||| s.step == blue_green::PUSH_SETUP_SCRIPT
            ||| s.step == blue_green::PUBLISH_STACK_IMAGE
            ||| s.step == blue_green::CHECK_BUILD
            ||| s.step == blue_green::PUBLISH_SETUP_IMAGE
            ||| s.step == blue_green::RUN_INSTALL
            ||| s.step == blue_green::CHECK_BEFORE_CUTOVER
            ||| s.step == blue_green::STOP_ACTIVE_PROCESS
            ||| s.step == blue_green::REMOVE_ACTIVE_PROXY
            ||| s.step == blue_green::DETACH_ACTIVE_STORAGE
            ||| s.step == blue_green::ATTACH_CANDIDATE_STORAGE
            ||| s.step == blue_green::ATTACH_CANDIDATE_PROXY
            ||| s.step == blue_green::LAUNCH_CANDIDATE
            ||| s.step == blue_green::CHECK_READINESS
            ||| s.step == blue_green::DOWN_ACTIVE_TAILNET
            ||| s.step == blue_green::DETACH_ACTIVE_TAILSCALE
            ||| s.step == blue_green::ATTACH_CANDIDATE_TAILSCALE
            ||| s.step == blue_green::ACQUIRE_HOSTNAME
            ||| s.step == blue_green::WAIT_LIVE_LISTENER
            ||| s.step == blue_green::REJOIN_WITH_STATE
        },
        s.step == blue_green::WAIT_PREVIOUS_QUIET ==> previous.is_suffix_of(
            opening(s, candidate, previous)->0,
        ),
{
    if s.step == blue_green::WAIT_PREVIOUS_QUIET {
        let said = opening(s, candidate, previous)->0;
        assert(said.skip(said.len() - previous.len()) =~= previous);
    }
}

/// The steps of a deploy into the one container that are announced.
pub proof fn announced_steps_in_place(s: InPlace, port: u16)
    ensures
        in_place_opening(s, port) is Some <==> {
            ||| s.step == in_place::DETECT_APP
            ||| s.step == in_place::ENSURE_STORAGE_VOLUME
            ||| s.step == in_place::ENSURE_TAILSCALE_VOLUME
            ||| s.step == in_place::CLEAN_CONTAINER
            ||| s.step == in_place::STOP_PROCESS
            ||| s.step == in_place::CREATE_FROM_SETUP_IMAGE
            ||| s.step == in_place::CREATE_FROM_STACK_IMAGE
            ||| s.step == in_place::ENSURE_CREATE_PREREQS
            ||| s.step == in_place::INSTALL_TAILSCALE
            ||| s.step == in_place::PUSH_SETUP_SCRIPT
            ||| s.step == in_place::PUBLISH_STACK_IMAGE
            ||| s.step == in_place::PUBLISH_SETUP_IMAGE
            ||| s.step == in_place::CHECK_TAILSCALE
            ||| s.step == in_place::ATTACH_PROXY
            ||| s.step == in_place::CHECK_CODE_PUSH
            ||| s.step == in_place::RUN_INSTALL
            ||| s.step == in_place::CHECK_APP_START
        },
        s.step == in_place::ATTACH_PROXY ==> decimal(port as nat).is_suffix_of(
            in_place_opening(s, port)->0,
        ),
{
    if s.step == in_place::ATTACH_PROXY {
        let said = in_place_opening(s, port)->0;
        assert(said.skip(said.len() - decimal(port as nat).len()) =~= decimal(port as nat));
    }
}

/// What fails in a deploy into the one container and is warned of, with its error.
pub proof fn failures_in_place_are_warned_of(s: InPlace, err: Seq<char>)
    ensures
        in_place_failing(s, err) is Some <==> {
            ||| s.step == in_place::PUBLISH_STACK_IMAGE
            ||| s.step == in_place::PUBLISH_SETUP_IMAGE
            ||| s.step == in_place::EXPOSE_HTTP
            ||| s.step == in_place::WRITE_BINARY_HASH
            ||| s.step == in_place::CLEAR_BINARY_HASH
        },
        in_place_failing(s, err) matches Some(said) ==> err.is_suffix_of(said),
{
    if let Some(said) = in_place_failing(s, err) {
        assert(said.skip(said.len() - err.len()) =~= err);
    }
}

/// That the tailnet is left out is said only where it is, and that a cached setup is not
/// used only where a fresh one is called for.
pub proof fn omissions_are_said_where_they_are(
    s: BlueGreen,
    t: InPlace,
    yes: bool,
    previous: Seq<char>,
    error: Seq<char>,
)
    ensures
        in_place_closing(t) is Some ==> t.skip_tailscale || t.force_fresh,
        t.force_fresh && t.step == in_place::WAIT_QUIET ==> in_place_closing(t) is Some,
        t.skip_tailscale && (t.step == in_place::CREATE_FROM_SETUP_IMAGE || t.step
            == in_place::CREATE_FROM_STACK_IMAGE || t.step == in_place::CREATE_CONTAINER || t.step
            == in_place::WRITE_SETUP_HASH) ==> in_place_closing(t) is Some,
        s.step == blue_green::READ_CLEANUP_JOB ==> (closing(s, yes, previous, error) is Some
            <==> yes || s.force_fresh),
        s.step == blue_green::PROBE_ACTIVE_SERVING ==> (closing(s, yes, previous, error) is Some
            <==> yes),
        s.step == blue_green::COMPARE_PREVIOUS_SETUP && yes ==> previous.is_suffix_of(
            closing(s, yes, previous, error)->0,
        ),
        s.step == blue_green::PROBE_ACTIVE_SERVING && yes ==> error.is_suffix_of(
            closing(s, yes, previous, error)->0,
        ),
{
    if let Some(said) = closing(s, yes, previous, error) {
        if s.step == blue_green::COMPARE_PREVIOUS_SETUP && yes {
            assert(said.skip(said.len() - previous.len()) =~= previous);
        }
        if s.step == blue_green::PROBE_ACTIVE_SERVING {
            assert(said.skip(said.len() - error.len()) =~= error);
        }
    }
}

/// Of a join nothing is said exactly where it gave the app's own name.
pub proof fn joins_are_spoken_of_unless_exact(
    app: Seq<char>,
    with_state: bool,
    reply: Result<TailscaleJoinAttempt, String>,
)
    ensures
        joining(app, with_state, reply) is None <==> reply is Ok && reply->Ok_0.dns_name is Some
            && exact_hostname(reply->Ok_0.dns_name->0@, app),
{
}

/// Supervision says what it does to an app and nothing of what it finds in order; a start on
/// demand says that there was nothing to do exactly where the service was active.
pub proof fn supervision_says_what_it_does(
    power: Power,
    step: PowerStep,
    yes: bool,
    app: Seq<char>,
)
    ensures
        power_opening(power, step, app) is Some <==> {
            ||| power == Power::KeepRunning && (step == PowerStep::StartContainer || step
                == PowerStep::Launch)
            ||| power == Power::KeepStopped && step == PowerStep::StopProcess
        },
        power_closing(power, step, yes, app) is Some <==> power == Power::Start && step
            == PowerStep::CheckService && yes,
{
}

/// The steps of a bootstrap that are announced; that the credentials come from the
/// environment is said exactly where both of them say something there and none are kept.
pub proof fn announced_steps_of_a_bootstrap(b: BootstrapView, yes: bool)
    ensures
        bootstrap_opening(b.step) is Some <==> {
            ||| b.step == bootstrap::CHECK_CURL
            ||| b.step == bootstrap::INIT_INCUS
            ||| b.step == bootstrap::ENABLE_SSH
            ||| b.step == bootstrap::CHECK_OAUTH
            ||| b.step == bootstrap::VALIDATE_OAUTH
            ||| b.step == bootstrap::ADD_USER
            ||| b.step == bootstrap::CHANGE_SHELL
            ||| b.step == bootstrap::JOIN_GROUP
            ||| b.step == bootstrap::MAKE_REPOS
            ||| b.step == bootstrap::WRITE_SERVICE
        },
        bootstrap_closing(b, yes) is Some <==> b.step == bootstrap::CHECK_OAUTH && (yes
            || b.env_credentials is Some && trim((b.env_credentials->0).0).len() > 0 && trim(
            (b.env_credentials->0).1,
        ).len() > 0),
{
}

} // verus!
