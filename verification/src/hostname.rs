//! The search for a tailnet name that is exactly the app's, and the wait for
//! tailscale to come up.

use vstd::prelude::*;
use crate::blocked::bool_text;
use crate::number::{decimal, decimal_of};
use crate::split::{join, join_with};
use crate::tailnet::{permission_denied, tailscale_api_permission_denied};
use crate::tailscale::{exact_hostname, tailscale_hostname_is_exact};
use crate::text::same;

verus! {

pub const TOTAL_TIMEOUT_SECS: u64 = 120;

pub const RETRY_SLEEP_MS: u64 = 1000;

pub const ONLINE_WAIT_SECS: u64 = 20;

pub const ONLINE_WAIT_POLL_MS: u64 = 500;

/// How many attempts fit into a time, one more than the pauses between them, and two
/// at least.
pub open spec fn attempt_budget(timeout_secs: u64, sleep_ms: u64) -> nat {
    let pause: nat = if sleep_ms == 0 {
        1
    } else {
        sleep_ms as nat
    };
    let attempts: nat = (timeout_secs as nat * 1000) / pause;
    let budget: nat = (if attempts == 0 {
        1
    } else {
        attempts
    }) + 1;
    if budget > u64::MAX {
        u64::MAX as nat
    } else {
        budget
    }
}

pub fn retry_attempt_budget(timeout_secs: u64, sleep_ms: u64) -> (r: u64)
    ensures
        r == attempt_budget(timeout_secs, sleep_ms),
{
    let pause: u128 = if sleep_ms == 0 {
        1
    } else {
        sleep_ms as u128
    };
    let total: u128 = timeout_secs as u128 * 1000;
    let mut attempts: u128 = total / pause;
    assert(attempts <= total) by (nonlinear_arith)
        requires
            attempts == total / pause,
            pause >= 1,
            total >= 0,
    ;
    if attempts == 0 {
        attempts = 1;
    }
    let budget: u128 = attempts + 1;
    if budget > 0xffff_ffff_ffff_ffff {
        u64::MAX
    } else {
        budget as u64
    }
}

/// What joining the tailnet gave: the name, if there is one, and the error of the
/// look for devices in the way.
pub struct TailscaleJoinAttempt {
    pub dns_name: Option<String>,
    pub cleanup_lookup_error: Option<String>,
}

impl TailscaleJoinAttempt {
    pub fn from_dns_name(dns_name: Option<String>) -> (r: TailscaleJoinAttempt)
        ensures
            r.dns_name == dns_name,
            r.cleanup_lookup_error is None,
    {
        TailscaleJoinAttempt { dns_name, cleanup_lookup_error: None }
    }
}

/// What is said about an error of the look for devices in the way.
pub enum LookupWarning {
    Silent,
    /// The right to ask is missing; said once.
    ScopesMissing,
    /// The error, where it is not the one that was said last.
    Unavailable(String),
    /// The error that was said last is still there.
    StillFailing,
}

/// What a search does next.
#[derive(Clone, Copy, PartialEq, Eq, Structural, Debug)]
pub enum SearchStep {
    /// Begin an attempt, where there is time for one.
    Begin,
    /// Join the tailnet with the identity that was kept.
    JoinWithState,
    /// Join the tailnet with a key.
    JoinWithAuthKey,
    /// Wait for tailscale to come up.
    WaitHealthy,
    /// Reset tailscale, and go on though that fails.
    Reset,
    Pause,
    Acquired,
    GaveUp,
}

/// A search under way.
pub struct HostnameSearch {
    pub app: String,
    pub attempt: u64,
    /// The search no longer trusts the identity that was kept.
    pub auth_phase: bool,
    /// The name that was found to be exact, while tailscale comes up.
    pub found: Option<String>,
    pub last_observation: String,
    /// What was last said of an error: nothing, that the right is missing, or an error.
    pub said_scopes_missing: bool,
    pub last_said: Option<String>,
    pub step: SearchStep,
}

/// The mathematical form of a search.
#[verifier::ext_equal]
pub struct SearchView {
    pub app: Seq<char>,
    pub attempt: u64,
    pub auth_phase: bool,
    pub found: Option<Seq<char>>,
    pub last_observation: Seq<char>,
    pub said_scopes_missing: bool,
    pub last_said: Option<Seq<char>>,
    pub step: SearchStep,
}

impl DeepView for HostnameSearch {
    type V = SearchView;

    open spec fn deep_view(&self) -> SearchView {
        SearchView {
            app: self.app@,
            attempt: self.attempt,
            auth_phase: self.auth_phase,
            found: self.found.deep_view(),
            last_observation: self.last_observation@,
            said_scopes_missing: self.said_scopes_missing,
            last_said: self.last_said.deep_view(),
            step: self.step,
        }
    }
}

/// How an attempt starts.
pub enum Attempt {
    JoinWithState,
    JoinWithAuthKey,
    GiveUp(String),
}

/// What follows a join.
pub enum AfterJoin {
    /// The name is not the app's: reset tailscale, pause and try again, as the steps say.
    Retry,
    /// The name is the app's: wait for tailscale to come up.
    WaitHealthy,
    Fail(String),
}

/// What follows the wait.
pub enum AfterWait {
    Acquired(String),
    Retry,
}

pub open spec fn gave_up_message(s: SearchView) -> Seq<char> {
    "failed to acquire exact tailscale hostname '"@ + s.app + "' within "@ + decimal(
        TOTAL_TIMEOUT_SECS as nat,
    ) + "s (attempts: "@ + decimal(s.attempt as nat) + "); last observation: "@ + s.last_observation
}

/// Whether the search is out of time or attempts.
pub open spec fn exhausted(s: SearchView, elapsed_ms: u64) -> bool {
    elapsed_ms >= TOTAL_TIMEOUT_SECS * 1000 || s.attempt >= attempt_budget(
        TOTAL_TIMEOUT_SECS,
        RETRY_SLEEP_MS,
    )
}

/// What was observed of a name.
pub open spec fn observation(name: Option<Seq<char>>, app: Seq<char>) -> Seq<char> {
    match name {
        None => "tailscale DNS name unavailable"@,
        Some(name) => "hostname mismatch: got '"@ + name + "', expected '"@ + app + "'"@,
    }
}

/// Whether a join gave the name that is sought.
pub open spec fn is_exact(name: Option<Seq<char>>, app: Seq<char>) -> bool {
    match name {
        Some(name) => exact_hostname(name, app),
        None => false,
    }
}

/// The search after a join.
pub open spec fn joined(s: SearchView, reply: Result<TailscaleJoinAttempt, String>) -> SearchView {
    match reply {
        Err(err) => SearchView {
            last_observation: (if s.auth_phase {
                "auth-key join failed: "@
            } else {
                "state join failed: "@
            }) + err@,
            auth_phase: true,
            ..s
        },
        Ok(join) => {
            let name = join.dns_name.deep_view();
            let said = said_after(s, join.cleanup_lookup_error.deep_view());
            if is_exact(name, s.app) {
                SearchView { found: name, ..said }
            } else {
                SearchView {
                    last_observation: observation(name, s.app),
                    auth_phase: true,
                    ..said
                }
            }
        },
    }
}

/// What was said of an error of the look for devices in the way. It is looked for only
/// where the kept identity is no longer trusted.
pub open spec fn said_after(s: SearchView, err: Option<Seq<char>>) -> SearchView {
    match err {
        Some(err) if s.auth_phase => if permission_denied(err) {
            SearchView { said_scopes_missing: true, last_said: None, ..s }
        } else {
            SearchView { said_scopes_missing: false, last_said: Some(err), ..s }
        },
        _ => s,
    }
}

pub open spec fn warning_for(s: SearchView, err: Option<Seq<char>>, warning: LookupWarning) -> bool {
    match err {
        Some(err) if s.auth_phase => if permission_denied(err) {
            if s.said_scopes_missing {
                warning is Silent
            } else {
                warning is ScopesMissing
            }
        } else if s.last_said != Some(err) {
            warning matches LookupWarning::Unavailable(text) && text@ == err
        } else {
            warning is StillFailing
        },
        _ => warning is Silent,
    }
}

/// The error that ends a search whose name is not exact: devices in the way could not
/// be looked for, and not for want of the right to.
pub open spec fn fatal_lookup(s: SearchView, join: TailscaleJoinAttempt) -> Option<Seq<char>> {
    let name = join.dns_name.deep_view();
    match join.cleanup_lookup_error.deep_view() {
        Some(err) if s.auth_phase && !permission_denied(err) && !is_exact(name, s.app) => Some(
            "failed to acquire exact tailscale hostname '"@ + s.app
                + "' after auth-key join because ownership cleanup was unavailable: "@ + err
                + "; observed dns: "@ + match name {
                Some(name) => name,
                None => "unavailable"@,
            },
        ),
        _ => None,
    }
}

/// A search for the name of an app, before its first attempt.
pub open spec fn new_search(app: Seq<char>) -> SearchView {
    SearchView {
        app,
        attempt: 0,
        auth_phase: false,
        found: None,
        last_observation: "no hostname observation yet"@,
        said_scopes_missing: false,
        last_said: None,
        step: SearchStep::Begin,
    }
}

/// What happens in the course of a search.
pub enum SearchEvent {
    /// An attempt is due, so long after the search began.
    Due { elapsed_ms: u64 },
    /// A join gave this.
    Joined(Result<TailscaleJoinAttempt, String>),
    /// The wait for tailscale gave this.
    Waited(Result<(), String>),
    /// Tailscale was reset, as far as that was possible.
    Reset,
    Paused,
}

/// Whether an event is what the search waits for.
pub open spec fn is_awaited(s: SearchView, event: SearchEvent) -> bool {
    match event {
        SearchEvent::Due { .. } => s.step == SearchStep::Begin,
        SearchEvent::Joined(_) => s.step == SearchStep::JoinWithState || s.step
            == SearchStep::JoinWithAuthKey,
        SearchEvent::Waited(_) => s.step == SearchStep::WaitHealthy,
        SearchEvent::Reset => s.step == SearchStep::Reset,
        SearchEvent::Paused => s.step == SearchStep::Pause,
    }
}

/// The search after an event.
pub open spec fn after_event(s: SearchView, event: SearchEvent) -> SearchView {
    match event {
        SearchEvent::Due { elapsed_ms } => if exhausted(s, elapsed_ms) {
            SearchView { step: SearchStep::GaveUp, ..s }
        } else {
            SearchView {
                attempt: (s.attempt + 1) as u64,
                step: if s.auth_phase {
                    SearchStep::JoinWithAuthKey
                } else {
                    SearchStep::JoinWithState
                },
                ..s
            }
        },
        SearchEvent::Joined(reply) => SearchView {
            step: match reply {
                Err(_) => SearchStep::Reset,
                Ok(join) => if is_exact(join.dns_name.deep_view(), s.app) {
                    SearchStep::WaitHealthy
                } else if fatal_lookup(s, join) is Some {
                    SearchStep::GaveUp
                } else {
                    SearchStep::Reset
                },
            },
            ..joined(s, reply)
        },
        SearchEvent::Waited(Ok(_)) => SearchView { step: SearchStep::Acquired, ..s },
        SearchEvent::Waited(Err(err)) => SearchView {
            last_observation: "tailscale not healthy yet: "@ + err@,
            auth_phase: true,
            step: SearchStep::Reset,
            ..s
        },
        SearchEvent::Reset => SearchView { step: SearchStep::Pause, ..s },
        SearchEvent::Paused => SearchView { step: SearchStep::Begin, ..s },
    }
}

impl HostnameSearch {
    pub fn new(app: &str) -> (r: HostnameSearch)
        ensures
            r.deep_view() == new_search(app@),
    {
        HostnameSearch {
            app: app.to_owned(),
            attempt: 0,
            auth_phase: false,
            found: None,
            last_observation: String::from_str("no hostname observation yet"),
            said_scopes_missing: false,
            last_said: None,
            step: SearchStep::Begin,
        }
    }

    /// Starts an attempt, `elapsed_ms` after the search began.
    pub fn begin_attempt(&mut self, elapsed_ms: u64) -> (r: Attempt)
        requires
            old(self).step == SearchStep::Begin,
        ensures
            final(self).deep_view() == after_event(
                old(self).deep_view(),
                SearchEvent::Due { elapsed_ms },
            ),
            match r {
                Attempt::GiveUp(message) => final(self).step == SearchStep::GaveUp && message@
                    == gave_up_message(old(self).deep_view()),
                Attempt::JoinWithState => final(self).step == SearchStep::JoinWithState,
                Attempt::JoinWithAuthKey => final(self).step == SearchStep::JoinWithAuthKey,
            },
    {
        let budget: u64 = retry_attempt_budget(TOTAL_TIMEOUT_SECS, RETRY_SLEEP_MS);
        if elapsed_ms >= TOTAL_TIMEOUT_SECS * 1000 || self.attempt >= budget {
            let mut message = String::from_str("failed to acquire exact tailscale hostname '");
            message.append(self.app.as_str());
            message.append("' within ");
            let limit = decimal_of(TOTAL_TIMEOUT_SECS);
            message.append(limit.as_str());
            message.append("s (attempts: ");
            let attempts = decimal_of(self.attempt);
            message.append(attempts.as_str());
            message.append("); last observation: ");
            message.append(self.last_observation.as_str());
            self.step = SearchStep::GaveUp;
            return Attempt::GiveUp(message);
        }
        self.attempt = self.attempt + 1;
        if self.auth_phase {
            self.step = SearchStep::JoinWithAuthKey;
            Attempt::JoinWithAuthKey
        } else {
            self.step = SearchStep::JoinWithState;
            Attempt::JoinWithState
        }
    }

    /// Takes note of what was said of an error of the look for devices in the way.
    fn warn(&mut self, err: &Option<String>) -> (r: LookupWarning)
        ensures
            final(self).deep_view() == said_after(old(self).deep_view(), err.deep_view()),
            warning_for(old(self).deep_view(), err.deep_view(), r),
    {
        if !self.auth_phase {
            return LookupWarning::Silent;
        }
        match err {
            Some(err) => if tailscale_api_permission_denied(err.as_str()) {
                let said = self.said_scopes_missing;
                self.said_scopes_missing = true;
                self.last_said = None;
                if said {
                    LookupWarning::Silent
                } else {
                    LookupWarning::ScopesMissing
                }
            } else {
                let repeated = match &self.last_said {
                    Some(last) => same(last.as_str(), err.as_str()),
                    None => false,
                };
                self.said_scopes_missing = false;
                self.last_said = Some(err.clone());
                if repeated {
                    LookupWarning::StillFailing
                } else {
                    LookupWarning::Unavailable(err.clone())
                }
            },
            None => LookupWarning::Silent,
        }
    }

    /// Takes note of what a join gave.
    pub fn join_replied(&mut self, reply: Result<TailscaleJoinAttempt, String>) -> (r: (
        AfterJoin,
        LookupWarning,
    ))
        requires
            old(self).step == SearchStep::JoinWithState || old(self).step
                == SearchStep::JoinWithAuthKey,
        ensures
            final(self).deep_view() == after_event(
                old(self).deep_view(),
                SearchEvent::Joined(reply),
            ),
            match reply {
                Err(_) => r.0 is Retry && r.1 is Silent,
                Ok(join) => {
                    &&& warning_for(
                        old(self).deep_view(),
                        join.cleanup_lookup_error.deep_view(),
                        r.1,
                    )
                    &&& match r.0 {
                        AfterJoin::WaitHealthy => is_exact(
                            join.dns_name.deep_view(),
                            old(self).app@,
                        ),
                        AfterJoin::Fail(message) => fatal_lookup(old(self).deep_view(), join)
                            == Some(message@),
                        AfterJoin::Retry => !is_exact(join.dns_name.deep_view(), old(self).app@)
                            && fatal_lookup(old(self).deep_view(), join) is None,
                    }
                },
            },
    {
        let join = match reply {
            Ok(join) => join,
            Err(err) => {
                let mut text = if self.auth_phase {
                    String::from_str("auth-key join failed: ")
                } else {
                    String::from_str("state join failed: ")
                };
                text.append(err.as_str());
                self.last_observation = text;
                self.auth_phase = true;
                self.step = SearchStep::Reset;
                return (AfterJoin::Retry, LookupWarning::Silent);
            },
        };
        let used_auth = self.auth_phase;
        let warning = self.warn(&join.cleanup_lookup_error);
        match &join.dns_name {
            Some(name) => {
                if tailscale_hostname_is_exact(name.as_str(), self.app.as_str()) {
                    self.found = Some(name.clone());
                    self.step = SearchStep::WaitHealthy;
                    return (AfterJoin::WaitHealthy, warning);
                }
                let mut text = String::from_str("hostname mismatch: got '");
                text.append(name.as_str());
                text.append("', expected '");
                text.append(self.app.as_str());
                text.append("'");
                self.last_observation = text;
            },
            None => {
                self.last_observation = String::from_str("tailscale DNS name unavailable");
            },
        }
        self.auth_phase = true;
        if used_auth {
            if let Some(err) = &join.cleanup_lookup_error {
                if !tailscale_api_permission_denied(err.as_str()) {
                    let mut message = String::from_str(
                        "failed to acquire exact tailscale hostname '",
                    );
                    message.append(self.app.as_str());
                    message.append(
                        "' after auth-key join because ownership cleanup was unavailable: ",
                    );
                    message.append(err.as_str());
                    message.append("; observed dns: ");
                    match &join.dns_name {
                        Some(name) => message.append(name.as_str()),
                        None => message.append("unavailable"),
                    }
                    self.step = SearchStep::GaveUp;
                    return (AfterJoin::Fail(message), warning);
                }
            }
        }
        self.step = SearchStep::Reset;
        (AfterJoin::Retry, warning)
    }

    /// Takes note of whether tailscale came up with the name that was found.
    pub fn health_replied(&mut self, reply: Result<(), String>) -> (r: AfterWait)
        requires
            old(self).step == SearchStep::WaitHealthy,
            old(self).found is Some,
            exact_hostname(old(self).found->0@, old(self).app@),
        ensures
            final(self).deep_view() == after_event(
                old(self).deep_view(),
                SearchEvent::Waited(reply),
            ),
            match (reply, r) {
                (Ok(_), AfterWait::Acquired(name)) => old(self).found.deep_view() == Some(name@)
                    && exact_hostname(name@, old(self).app@),
                (Err(_), AfterWait::Retry) => true,
                _ => false,
            },
    {
        match reply {
            Ok(_) => {
                let name = match &self.found {
                    Some(name) => name.clone(),
                    None => String::new(),
                };
                self.step = SearchStep::Acquired;
                AfterWait::Acquired(name)
            },
            Err(err) => {
                let mut text = String::from_str("tailscale not healthy yet: ");
                text.append(err.as_str());
                self.last_observation = text;
                self.auth_phase = true;
                self.step = SearchStep::Reset;
                AfterWait::Retry
            },
        }
    }

    /// Takes note that tailscale was reset, as far as that was possible.
    pub fn was_reset(&mut self)
        requires
            old(self).step == SearchStep::Reset,
        ensures
            final(self).deep_view() == after_event(old(self).deep_view(), SearchEvent::Reset),
    {
        self.step = SearchStep::Pause;
    }

    /// Takes note that the search has paused.
    pub fn has_paused(&mut self)
        requires
            old(self).step == SearchStep::Pause,
        ensures
            final(self).deep_view() == after_event(old(self).deep_view(), SearchEvent::Paused),
    {
        self.step = SearchStep::Begin;
    }
}

/// The course of a search, by what happens in it; nothing where something happens that
/// the search does not wait for.
pub open spec fn searched(app: Seq<char>, events: Seq<SearchEvent>) -> Option<SearchView>
    decreases events.len(),
{
    if events.len() == 0 {
        Some(new_search(app))
    } else {
        match searched(app, events.drop_last()) {
            Some(s) if is_awaited(s, events.last()) => Some(after_event(s, events.last())),
            _ => None,
        }
    }
}

/// How many of the events are joins.
pub open spec fn joins(events: Seq<SearchEvent>) -> nat {
    events.filter(|event: SearchEvent| event is Joined).len()
}

/// How many of the events are resets.
pub open spec fn resets(events: Seq<SearchEvent>) -> nat {
    events.filter(|event: SearchEvent| event is Reset).len()
}

/// How many of the events are pauses.
pub open spec fn pauses(events: Seq<SearchEvent>) -> nat {
    events.filter(|event: SearchEvent| event is Paused).len()
}

/// How many joins, resets and pauses a search has behind it at a step: all of its attempts
/// but for what is still to come of the last.
pub open spec fn counts_at(s: SearchView, events: Seq<SearchEvent>) -> bool {
    let over: bool = s.step == SearchStep::Begin || s.step == SearchStep::GaveUp
        && events.last() is Due;
    let joining: bool = s.step == SearchStep::JoinWithState || s.step
        == SearchStep::JoinWithAuthKey;
    &&& joins(events) == if joining {
        s.attempt - 1
    } else {
        s.attempt as int
    }
    &&& resets(events) == if over || s.step == SearchStep::Pause {
        s.attempt as int
    } else {
        s.attempt - 1
    }
    &&& pauses(events) == if over {
        s.attempt as int
    } else {
        s.attempt - 1
    }
}

/// Whether the last join gave the name that was found.
pub open spec fn gave(event: SearchEvent, found: Option<Seq<char>>) -> bool {
    event matches SearchEvent::Joined(reply) && reply is Ok && reply->Ok_0.dns_name.deep_view()
        == found
}

/// The course of a search. The identity that was kept is tried in the first attempt alone;
/// every later join uses a key. Each join that is followed by another is followed by one
/// reset and one pause before that. There are at most 121 joins. A search that succeeds
/// has found the very name of the app in its last join, and tailscale came up with it.
pub proof fn searches_take_their_course(app: Seq<char>, events: Seq<SearchEvent>)
    ensures
        searched(app, events) matches Some(s) ==> {
            &&& s.step == SearchStep::JoinWithState ==> s.attempt == 1
            &&& s.step == SearchStep::JoinWithAuthKey ==> s.attempt > 1
            &&& counts_at(s, events)
            &&& joins(events) <= 121
            &&& s.step == SearchStep::Acquired ==> {
                &&& is_exact(s.found, app)
                &&& events.len() >= 2
                &&& gave(events[events.len() - 2], s.found)
                &&& events.last() matches SearchEvent::Waited(reply) && reply is Ok
            }
        },
{
    searches_stay_on_course(app, events);
}

proof fn searches_stay_on_course(app: Seq<char>, events: Seq<SearchEvent>)
    ensures
        searched(app, events) matches Some(s) ==> {
            &&& s.app == app
            &&& s.attempt <= 121
            &&& counts_at(s, events)
            &&& s.auth_phase || s.attempt <= 1
            &&& s.attempt == 0 ==> !s.auth_phase && (s.step == SearchStep::Begin || s.step
                == SearchStep::GaveUp)
            &&& s.step == SearchStep::Begin && s.attempt > 0 ==> s.auth_phase
            &&& s.step == SearchStep::Reset || s.step == SearchStep::Pause ==> s.auth_phase
            &&& s.step == SearchStep::JoinWithState ==> s.attempt == 1 && !s.auth_phase
            &&& s.step == SearchStep::JoinWithAuthKey ==> s.attempt > 1 && s.auth_phase
            &&& s.step == SearchStep::WaitHealthy ==> is_exact(s.found, app) && events.len() >= 1
                && gave(events.last(), s.found)
            &&& s.step == SearchStep::Acquired ==> {
                &&& is_exact(s.found, app)
                &&& events.len() >= 2
                &&& gave(events[events.len() - 2], s.found)
                &&& events.last() matches SearchEvent::Waited(reply) && reply is Ok
            }
        },
    decreases events.len(),
{
    reveal(Seq::filter);
    if events.len() == 0 {
        assert(events =~= Seq::empty());
    } else {
        let earlier = events.drop_last();
        searches_stay_on_course(app, earlier);
        if let Some(s) = searched(app, earlier) {
            if is_awaited(s, events.last()) {
                assert(attempt_budget(TOTAL_TIMEOUT_SECS, RETRY_SLEEP_MS) == 121) by {
                    assert((120nat * 1000) / 1000 == 120);
                }
                if earlier.len() > 0 {
                    assert(earlier.last() == events[events.len() - 2]);
                }
            }
        }
    }
}

/// The kept identity is tried in the first attempt alone: whatever a join gives, the
/// search has found the name or has left the kept identity, and it never goes back.
pub proof fn kept_identity_is_tried_once(s: SearchView, reply: Result<TailscaleJoinAttempt, String>)
    ensures
        joined(s, reply).auth_phase || (reply is Ok && is_exact(
            reply->Ok_0.dns_name.deep_view(),
            s.app,
        )),
        s.auth_phase ==> joined(s, reply).auth_phase,
{
}

/// A search that goes on has attempts left: there are never more than fit into its
/// time.
pub proof fn searches_are_bounded(s: SearchView, elapsed_ms: u64)
    requires
        !exhausted(s, elapsed_ms),
    ensures
        s.attempt < 121,
        elapsed_ms < 120_000,
{
    assert(attempt_budget(TOTAL_TIMEOUT_SECS, RETRY_SLEEP_MS) == 121) by {
        assert((120nat * 1000) / 1000 == 120);
    }
}

// ---------------------------------------------------------------------------
// The wait for tailscale to come up
// ---------------------------------------------------------------------------

/// What was last seen of tailscale: its state, whether it is online, and what it
/// complains of.
pub struct OnlineWait {
    pub last: Option<(String, bool, Vec<String>)>,
}

/// The error of a wait that is over.
pub open spec fn online_timeout_message(
    last: Option<(Seq<char>, bool, Seq<Seq<char>>)>,
) -> Seq<char> {
    match last {
        Some((state, online, health)) => {
            "timed out waiting for tailscale to become healthy:\nState: "@ + state + "\nOnline: "@
                + bool_text(online) + if health.len() > 0 {
                "\nHealth: "@ + join(health, " | "@)
            } else {
                Seq::empty()
            }
        },
        None => "timed out waiting for tailscale status"@,
    }
}

/// Whether tailscale is up.
pub open spec fn is_up(state: Seq<char>, online: bool) -> bool {
    state == "Running"@ && online
}

impl OnlineWait {
    /// Takes note of what was seen, and tells whether tailscale is up.
    pub fn observe(&mut self, seen: Result<(String, bool, Vec<String>), String>) -> (r: bool)
        ensures
            match seen {
                Ok(s) => final(self).last.deep_view() == Some(s.deep_view()) && r == is_up(
                    s.deep_view().0,
                    s.deep_view().1,
                ),
                Err(err) => !r && final(self).last.deep_view() == Some(
                    ("error: "@ + err@, false, Seq::<Seq<char>>::empty()),
                ),
            },
    {
        match seen {
            Ok((state, online, health)) => {
                let up = same(state.as_str(), "Running") && online;
                self.last = Some((state, online, health));
                up
            },
            Err(err) => {
                let mut text = String::from_str("error: ");
                text.append(err.as_str());
                let health: Vec<String> = Vec::new();
                assert(health.deep_view() =~= Seq::empty());
                self.last = Some((text, false, health));
                false
            },
        }
    }

    /// The error of a wait that is over.
    pub fn timed_out(&self) -> (r: String)
        ensures
            r@ == online_timeout_message(self.last.deep_view()),
    {
        match &self.last {
            Some((state, online, health)) => {
                let mut r = String::from_str(
                    "timed out waiting for tailscale to become healthy:\nState: ",
                );
                r.append(state.as_str());
                r.append("\nOnline: ");
                if *online {
                    r.append("true");
                } else {
                    r.append("false");
                }
                if health.len() > 0 {
                    let mut line = String::from_str("\nHealth: ");
                    let listed = join_with(health, " | ");
                    line.append(listed.as_str());
                    r.append(line.as_str());
                } else {
                    assert(r@ + Seq::<char>::empty() =~= r@);
                }
                r
            },
            None => String::from_str("timed out waiting for tailscale status"),
        }
    }
}

/// An attempt is made while there is time and the number of them is not used up, and then
/// with the identity that was kept, or with a key once that is not trusted any more.
pub proof fn attempts_are_made_while_there_is_time(s: SearchView, elapsed_ms: u64)
    ensures
        ({
            let after = after_event(s, (SearchEvent::Due { elapsed_ms }));
            let over = elapsed_ms >= 120000 || s.attempt >= 121;
            &&& after.step == SearchStep::GaveUp <==> over
            &&& !over ==> after.attempt == s.attempt + 1
            &&& !over ==> after.step == if s.auth_phase {
                SearchStep::JoinWithAuthKey
            } else {
                SearchStep::JoinWithState
            }
            &&& after.app == s.app && after.auth_phase == s.auth_phase
        }),
{
    let pause: nat = RETRY_SLEEP_MS as nat;
    assert((TOTAL_TIMEOUT_SECS as nat * 1000) / pause == 120) by (nonlinear_arith)
        requires
            TOTAL_TIMEOUT_SECS == 120,
            pause == 1000,
    ;
    assert(attempt_budget(TOTAL_TIMEOUT_SECS, RETRY_SLEEP_MS) == 121);
}

/// A join that gives the app's own name is followed by a wait for it to come up. After any
/// other one, and after one that fails, the connection is reset and the identity that was
/// kept is not trusted any more; the search is given up only where the devices in the way
/// could not be looked for after a join with a key, for another reason than a right that is
/// missing.
pub proof fn joins_are_answered(s: SearchView, reply: Result<TailscaleJoinAttempt, String>)
    ensures
        ({
            let after = after_event(s, SearchEvent::Joined(reply));
            let name = reply->Ok_0.dns_name.deep_view();
            let exact = reply is Ok && name is Some && exact_hostname(name->0, s.app);
            let err = reply->Ok_0.cleanup_lookup_error.deep_view();
            let stuck = reply is Ok && !exact && s.auth_phase && err is Some && !permission_denied(
                err->0,
            );
            &&& after.step == SearchStep::WaitHealthy <==> exact
            &&& after.step == SearchStep::GaveUp <==> stuck
            &&& after.step == SearchStep::Reset <==> !exact && !stuck
            &&& exact ==> after.found == name && after.auth_phase == s.auth_phase
            &&& !exact ==> after.auth_phase && after.found == s.found
            &&& after.attempt == s.attempt && after.app == s.app
        }),
{
}

/// The name is had exactly where the wait for it succeeds; where it does not, the
/// connection is reset, and a pause and another attempt follow.
pub proof fn waits_are_answered(s: SearchView, reply: Result<(), String>)
    ensures
        after_event(s, SearchEvent::Waited(reply)).step == if reply is Ok {
            SearchStep::Acquired
        } else {
            SearchStep::Reset
        },
        reply is Err ==> after_event(s, SearchEvent::Waited(reply)).auth_phase,
        after_event(s, SearchEvent::Waited(reply)).found == s.found,
        after_event(s, SearchEvent::Reset) == (SearchView { step: SearchStep::Pause, ..s }),
        after_event(s, SearchEvent::Paused) == (SearchView { step: SearchStep::Begin, ..s }),
{
}

/// A search starts with the identity that was kept, and without an attempt.
pub proof fn searches_start_with_what_was_kept(app: Seq<char>)
    ensures
        new_search(app).step == SearchStep::Begin,
        new_search(app).attempt == 0,
        !new_search(app).auth_phase,
        new_search(app).found is None,
        new_search(app).app == app,
{
}

/// There is one attempt for each pause that fits into the time, and one more; at least two.
pub proof fn attempts_fit_into_the_time(timeout_secs: u64, sleep_ms: u64)
    requires
        sleep_ms > 0,
        timeout_secs * 1000 >= sleep_ms,
    ensures
        ({
            let budget = attempt_budget(timeout_secs, sleep_ms);
            &&& budget < u64::MAX ==> (budget - 1) * sleep_ms <= timeout_secs * 1000 < budget
                * sleep_ms
            &&& budget >= 2
        }),
{
    let n = (timeout_secs * 1000) as int;
    let d = sleep_ms as int;
    vstd::arithmetic::div_mod::lemma_fundamental_div_mod(n, d);
    vstd::arithmetic::div_mod::lemma_mod_bound(n, d);
    assert(n / d >= 1) by (nonlinear_arith)
        requires
            n >= d,
            d > 0,
    ;
    let q = n / d;
    assert(q * d <= n < (q + 1) * d) by (nonlinear_arith)
        requires
            n == d * q + n % d,
            0 <= n % d < d,
    ;
}

/// Of an error in the way of a join with a key it is said once that a right is missing, and
/// of any other error each time it is another; nothing is said before.
pub proof fn warnings_are_not_repeated(s: SearchView, err: Seq<char>, warning: LookupWarning)
    requires
        warning_for(s, Some(err), warning),
    ensures
        !s.auth_phase ==> warning is Silent && said_after(s, Some(err)) == s,
        s.auth_phase && permission_denied(err) ==> said_after(s, Some(err)).said_scopes_missing && (
        warning is Silent <==> s.said_scopes_missing),
        s.auth_phase && !permission_denied(err) ==> said_after(s, Some(err)).last_said == Some(err)
            && (warning is Unavailable <==> s.last_said != Some(err)),
{
}

/// The connection is up exactly where it runs and the device is online.
pub proof fn connections_are_up_when_online(state: Seq<char>, online: bool)
    ensures
        is_up(state, online) <==> online && state == "Running"@,
{
}

} // verus!
