//! The wait for a container that operations of the host keep busy.
//!
//! A wait goes round in cycles. Each begins with a look at the operations, and escalates
//! with the time that has gone by: it waits, cancels what can be canceled, looks again,
//! and at last resets what cannot be canceled. The caller does what [`WaitAction`] says
//! and reports what became of it.

use vstd::prelude::*;
use crate::blocked::{
    after_cancels, after_resets, blocked_message, blocked_operation_error, blocking_ops_json,
    cancel_due, look, note_seen, op_json, phase_name, phase_text, serving,
    serving_containers_are_not_reset, spec_after_cancels, spec_after_resets, spec_look,
    spec_next_reset, targets_of, with_seen, BlockingOperation, BusyOpPolicy, Cancels, Look,
    Onward, OperationView, Resets, ResetsView, WaitPhase, HEARTBEAT_SECS, INITIAL_WAIT_MS,
    RECHECK_WAIT_MS,
};
use crate::json::{field, json_object, json_text, json_text_array, text_array, Json, JsonView};
use crate::number::{decimal, decimal_of};
use crate::split::{join, join_with};
use crate::text::push_text;

verus! {

/// What a wait calls for.
pub enum WaitAction {
    /// Nothing blocks the container.
    Done,
    /// Pause for a moment and look again.
    Pause,
    /// Pause until what was done takes effect, and look again.
    Settle,
    /// Cancel the operation.
    Cancel(String),
    /// Find out which container serves the app, before any is reset.
    FindActive,
    /// Stop the container by force and delete it; the operation keeps it busy.
    Reset { target: String, op_id: String },
    /// Give up.
    Fail(String),
}

/// The mathematical form of this.
pub enum WaitActionView {
    Done,
    Pause,
    Settle,
    Cancel(Seq<char>),
    FindActive,
    Reset { target: Seq<char>, op_id: Seq<char> },
    Fail(Seq<char>),
}

impl DeepView for WaitAction {
    type V = WaitActionView;

    open spec fn deep_view(&self) -> WaitActionView {
        match self {
            WaitAction::Done => WaitActionView::Done,
            WaitAction::Pause => WaitActionView::Pause,
            WaitAction::Settle => WaitActionView::Settle,
            WaitAction::Cancel(id) => WaitActionView::Cancel(id@),
            WaitAction::FindActive => WaitActionView::FindActive,
            WaitAction::Reset { target, op_id } => WaitActionView::Reset {
                target: target@,
                op_id: op_id@,
            },
            WaitAction::Fail(err) => WaitActionView::Fail(err@),
        }
    }
}

/// A wait under way.
pub struct QuietWait {
    pub app: String,
    pub project: String,
    pub policy: BusyOpPolicy,
    pub budget_secs: u64,
    pub cancel_limit: usize,
    pub phase: WaitPhase,
    /// The phase in which the last look found the wait.
    pub looked_in: WaitPhase,
    /// When each operation was first seen.
    pub seen: Vec<(String, u64)>,
    pub cancels: Cancels,
    pub resets: Resets,
    /// What the last look saw, and when.
    pub ops: Vec<BlockingOperation>,
    pub elapsed_ms: u64,
    pub now_ms: u64,
    /// How far the cycle has come, and what it works on.
    pub at_op: usize,
    pub at_target: usize,
    pub current_target: String,
    pub current_op: String,
    /// How many resets there were before this cycle.
    pub forced_before: usize,
    /// When it was last said that the wait goes on.
    pub said_at_ms: u64,
}

/// The mathematical form of a wait.
#[verifier::ext_equal]
pub struct WaitView {
    pub app: Seq<char>,
    pub project: Seq<char>,
    pub policy: BusyOpPolicy,
    pub budget_secs: u64,
    pub cancel_limit: nat,
    pub phase: WaitPhase,
    pub looked_in: WaitPhase,
    pub seen: Seq<(Seq<char>, u64)>,
    pub attempted: Seq<Seq<char>>,
    pub this_cycle: Seq<Seq<char>>,
    pub resets: ResetsView,
    pub ops: Seq<OperationView>,
    pub elapsed_ms: u64,
    pub now_ms: u64,
    pub at_op: int,
    pub at_target: int,
    pub current_target: Seq<char>,
    pub current_op: Seq<char>,
    pub forced_before: int,
    pub said_at_ms: u64,
}

impl DeepView for QuietWait {
    type V = WaitView;

    open spec fn deep_view(&self) -> WaitView {
        WaitView {
            app: self.app@,
            project: self.project@,
            policy: self.policy,
            budget_secs: self.budget_secs,
            cancel_limit: self.cancel_limit as nat,
            phase: self.phase,
            looked_in: self.looked_in,
            seen: self.seen.deep_view(),
            attempted: self.cancels.attempted.deep_view(),
            this_cycle: self.cancels.this_cycle.deep_view(),
            resets: self.resets.deep_view(),
            ops: self.ops.deep_view(),
            elapsed_ms: self.elapsed_ms,
            now_ms: self.now_ms,
            at_op: self.at_op as int,
            at_target: self.at_target as int,
            current_target: self.current_target@,
            current_op: self.current_op@,
            forced_before: self.forced_before as int,
            said_at_ms: self.said_at_ms,
        }
    }
}

impl WaitView {
    /// No operation is canceled twice, and the resets of this cycle come after those of
    /// the cycles before.
    pub open spec fn wf(self) -> bool {
        self.attempted.no_duplicates() && self.forced_before <= self.resets.forced.len()
    }
}

/// The first operation from `from` on that is to be canceled.
pub open spec fn cancel_from(
    ops: Seq<OperationView>,
    from: int,
    attempted: Seq<Seq<char>>,
) -> Option<int>
    decreases ops.len() - from,
{
    if from < 0 || from >= ops.len() {
        None
    } else if cancel_due(ops[from], attempted) {
        Some(from)
    } else {
        cancel_from(ops, from + 1, attempted)
    }
}

proof fn cancel_from_is_first(
    ops: Seq<OperationView>,
    from: int,
    attempted: Seq<Seq<char>>,
    i: int,
)
    requires
        0 <= from,
        from <= i <= ops.len() || (i == from && from >= ops.len()),
        forall|j: int| from <= j < i && j < ops.len() ==> !cancel_due(#[trigger] ops[j], attempted),
        i < ops.len() ==> cancel_due(ops[i], attempted),
    ensures
        cancel_from(ops, from, attempted) == if i < ops.len() {
            Some(i)
        } else {
            None
        },
    decreases i - from,
{
    if from < i && from < ops.len() {
        assert(!cancel_due(ops[from], attempted));
        cancel_from_is_first(ops, from + 1, attempted, i);
    }
}

/// The error of a wait that gives up.
pub open spec fn given_up(w: WaitView) -> Seq<char> {
    blocked_message(
        w.app,
        w.project,
        w.budget_secs,
        w.phase,
        w.ops,
        w.seen,
        w.now_ms,
        w.attempted,
        w.resets,
    )
}

/// The resets of a cycle, from where it stands. `active` serves the app's traffic.
pub open spec fn resetting(w: WaitView, active: Option<Seq<char>>) -> (WaitView, WaitActionView) {
    let (resets, found) = spec_next_reset(w.resets, w.ops, w.app, active, w.at_op, w.at_target);
    match found {
        Some((i, k)) => {
            let target = targets_of(w.ops[i], w.app)[k];
            let op_id = w.ops[i].id;
            (
                WaitView {
                    resets,
                    at_op: i,
                    at_target: k + 1,
                    current_target: target,
                    current_op: op_id,
                    ..w
                },
                WaitActionView::Reset { target, op_id },
            )
        },
        None => {
            let after = WaitView { resets, ..w };
            let forced = (resets.forced.len() - w.forced_before) as nat;
            (
                after,
                if spec_after_resets(forced, w.elapsed_ms, w.budget_secs) == Onward::Report {
                    WaitActionView::Fail(given_up(after))
                } else {
                    WaitActionView::Settle
                },
            )
        },
    }
}

/// The cancellations of a cycle, from where it stands.
pub open spec fn canceling(w: WaitView) -> (WaitView, WaitActionView) {
    let next = if w.this_cycle.len() < w.cancel_limit {
        cancel_from(w.ops, w.at_op, w.attempted)
    } else {
        None
    };
    match next {
        Some(i) => (
            WaitView {
                attempted: w.attempted.push(w.ops[i].id),
                at_op: i + 1,
                current_op: w.ops[i].id,
                ..w
            },
            WaitActionView::Cancel(w.ops[i].id),
        ),
        None => match spec_after_cancels(w.this_cycle.len(), w.elapsed_ms) {
            Onward::Settle => (w, WaitActionView::Settle),
            Onward::Recheck => (
                WaitView { phase: WaitPhase::Rechecking, ..w },
                WaitActionView::Pause,
            ),
            _ => (
                WaitView {
                    phase: WaitPhase::ForceReset,
                    at_op: 0,
                    at_target: 0,
                    forced_before: w.resets.forced.len() as int,
                    ..w
                },
                WaitActionView::FindActive,
            ),
        },
    }
}

/// A cycle after its look.
pub open spec fn looked(
    w: WaitView,
    ops: Seq<OperationView>,
    elapsed_ms: u64,
    now_ms: u64,
) -> (WaitView, WaitActionView) {
    let w = WaitView {
        looked_in: w.phase,
        seen: with_seen(w.seen, ops, now_ms),
        ops,
        elapsed_ms,
        now_ms,
        ..w
    };
    match spec_look(ops.len() > 0, elapsed_ms, w.policy) {
        Look::Quiet => (w, WaitActionView::Done),
        Look::Wait => (WaitView { phase: WaitPhase::Waiting, ..w }, WaitActionView::Pause),
        Look::Report => (w, WaitActionView::Fail(given_up(w))),
        Look::Cancel => canceling(
            WaitView {
                phase: WaitPhase::Canceling,
                this_cycle: Seq::empty(),
                at_op: 0,
                ..w
            },
        ),
    }
}

/// A cycle after a cancellation was tried.
pub open spec fn cancel_tried(w: WaitView, canceled: bool, now_ms: u64) -> (
    WaitView,
    WaitActionView,
) {
    canceling(
        WaitView {
            this_cycle: if canceled {
                w.this_cycle.push(w.current_op)
            } else {
                w.this_cycle
            },
            now_ms,
            ..w
        },
    )
}

/// A cycle after a reset, of which `steps` were taken.
pub open spec fn reset_tried(
    w: WaitView,
    steps: Seq<Seq<char>>,
    now_ms: u64,
    active: Option<Seq<char>>,
) -> (WaitView, WaitActionView) {
    resetting(
        WaitView {
            resets: ResetsView {
                forced: w.resets.forced.push(
                    w.current_target + " (op "@ + w.current_op + "): "@ + join(steps, "; "@),
                ),
                ..w.resets
            },
            now_ms,
            ..w
        },
        active,
    )
}

/// The resets of a cycle leave those of the cycles before alone.
proof fn resets_only_grow(
    r: ResetsView,
    ops: Seq<OperationView>,
    app: Seq<char>,
    active: Option<Seq<char>>,
    i: int,
    k: int,
)
    requires
        0 <= i,
        0 <= k,
    ensures
        spec_next_reset(r, ops, app, active, i, k).0.forced == r.forced,
    decreases ops.len() - i, targets_of(ops[i], app).len() - k,
{
    if i < ops.len() {
        if ops[i].may_cancel || k >= targets_of(ops[i], app).len() {
            resets_only_grow(r, ops, app, active, i + 1, 0);
        } else {
            let o = crate::blocked::opened(r, ops[i], app, k);
            let target = targets_of(ops[i], app)[k];
            if o.attempted.contains(target) {
                resets_only_grow(o, ops, app, active, i, k + 1);
            } else if serving(target, active) {
                let noted = ResetsView {
                    attempted: o.attempted.push(target),
                    skipped: o.skipped.push(crate::blocked::serving_note(ops[i], target)),
                    ..o
                };
                resets_only_grow(noted, ops, app, active, i, k + 1);
            }
        }
    }
}

impl QuietWait {
    /// A wait for the container of an app, before its first look.
    pub fn new(
        app: &str,
        project: &str,
        policy: BusyOpPolicy,
        budget_secs: u64,
        cancel_limit: usize,
    ) -> (r: QuietWait)
        ensures
            r.deep_view() == (WaitView {
                app: app@,
                project: project@,
                policy,
                budget_secs,
                cancel_limit: cancel_limit as nat,
                phase: WaitPhase::Waiting,
                looked_in: WaitPhase::Waiting,
                seen: Seq::empty(),
                attempted: Seq::empty(),
                this_cycle: Seq::empty(),
                resets: ResetsView {
                    attempted: Seq::empty(),
                    forced: Seq::empty(),
                    skipped: Seq::empty(),
                },
                ops: Seq::empty(),
                elapsed_ms: 0,
                now_ms: 0,
                at_op: 0,
                at_target: 0,
                current_target: ""@,
                current_op: ""@,
                forced_before: 0,
                said_at_ms: 0,
            }),
            r.deep_view().wf(),
    {
        let r = QuietWait {
            app: app.to_owned(),
            project: project.to_owned(),
            policy,
            budget_secs,
            cancel_limit,
            phase: WaitPhase::Waiting,
            looked_in: WaitPhase::Waiting,
            seen: Vec::new(),
            cancels: Cancels { attempted: Vec::new(), this_cycle: Vec::new() },
            resets: Resets { attempted: Vec::new(), forced: Vec::new(), skipped: Vec::new() },
            ops: Vec::new(),
            elapsed_ms: 0,
            now_ms: 0,
            at_op: 0,
            at_target: 0,
            current_target: String::from_str(""),
            current_op: String::from_str(""),
            forced_before: 0,
            said_at_ms: 0,
        };
        proof {
            assert(r.seen.deep_view() =~= Seq::empty());
            assert(r.cancels.attempted.deep_view() =~= Seq::empty());
            assert(r.cancels.this_cycle.deep_view() =~= Seq::empty());
            assert(r.resets.attempted.deep_view() =~= Seq::empty());
            assert(r.resets.forced.deep_view() =~= Seq::empty());
            assert(r.resets.skipped.deep_view() =~= Seq::empty());
            assert(r.ops.deep_view() =~= Seq::empty());
        }
        r
    }

    fn give_up(&self) -> (r: String)
        ensures
            r@ == given_up(self.deep_view()),
    {
        blocked_operation_error(
            self.app.as_str(),
            self.project.as_str(),
            self.budget_secs,
            self.phase,
            &self.ops,
            &self.seen,
            self.now_ms,
            &self.cancels.attempted,
            &self.resets,
        )
    }

    fn go_on_resetting(&mut self, active: Option<&str>) -> (r: WaitAction)
        requires
            old(self).deep_view().wf(),
        ensures
            final(self).deep_view().wf(),
            (final(self).deep_view(), r.deep_view()) == resetting(
                old(self).deep_view(),
                active.deep_view(),
            ),
    {
        proof {
            resets_only_grow(
                self.resets.deep_view(),
                self.ops.deep_view(),
                self.app@,
                active.deep_view(),
                self.at_op as int,
                self.at_target as int,
            );
        }
        let found = self.resets.next_reset(
            &self.ops,
            self.app.as_str(),
            active,
            self.at_op,
            self.at_target,
        );
        match found {
            Some((i, k, target)) => {
                let op_id = self.ops[i].id.clone();
                assert(self.ops.deep_view()[i as int].id == op_id@);
                self.at_op = i;
                self.at_target = k + 1;
                self.current_target = target.clone();
                self.current_op = op_id.clone();
                WaitAction::Reset { target, op_id }
            },
            None => {
                let forced: usize = self.resets.forced.len() - self.forced_before;
                match after_resets(forced, self.elapsed_ms, self.budget_secs) {
                    Onward::Report => WaitAction::Fail(self.give_up()),
                    _ => WaitAction::Settle,
                }
            },
        }
    }

    fn go_on_canceling(&mut self) -> (r: WaitAction)
        requires
            old(self).deep_view().wf(),
        ensures
            final(self).deep_view().wf(),
            (final(self).deep_view(), r.deep_view()) == canceling(old(self).deep_view()),
    {
        let ghost w = self.deep_view();
        let next = self.cancels.next_cancel(&self.ops, self.at_op, self.cancel_limit);
        match next {
            Some(i) => {
                let op_id = self.ops[i].id.clone();
                proof {
                    assert(self.ops.deep_view()[i as int].id == op_id@);
                    cancel_from_is_first(w.ops, w.at_op, w.attempted, i as int);
                }
                let total: usize = self.ops.len();
                assert(i < total);
                self.at_op = i + 1;
                self.current_op = op_id.clone();
                WaitAction::Cancel(op_id)
            },
            None => {
                proof {
                    if w.this_cycle.len() < w.cancel_limit {
                        let end = if w.at_op < w.ops.len() {
                            w.ops.len() as int
                        } else {
                            w.at_op
                        };
                        cancel_from_is_first(w.ops, w.at_op, w.attempted, end);
                    }
                }
                match after_cancels(self.cancels.this_cycle.len(), self.elapsed_ms) {
                    Onward::Settle => WaitAction::Settle,
                    Onward::Recheck => {
                        self.phase = WaitPhase::Rechecking;
                        WaitAction::Pause
                    },
                    _ => {
                        self.phase = WaitPhase::ForceReset;
                        self.at_op = 0;
                        self.at_target = 0;
                        self.forced_before = self.resets.forced.len();
                        WaitAction::FindActive
                    },
                }
            },
        }
    }

    /// A look at the operations, so long after the wait began.
    pub fn observe(&mut self, ops: Vec<BlockingOperation>, elapsed_ms: u64, now_ms: u64) -> (r:
        WaitAction)
        requires
            old(self).deep_view().wf(),
        ensures
            final(self).deep_view().wf(),
            (final(self).deep_view(), r.deep_view()) == looked(
                old(self).deep_view(),
                ops.deep_view(),
                elapsed_ms,
                now_ms,
            ),
    {
        self.looked_in = self.phase;
        note_seen(&mut self.seen, &ops, now_ms);
        self.ops = ops;
        self.elapsed_ms = elapsed_ms;
        self.now_ms = now_ms;
        match look(!self.ops.is_empty(), elapsed_ms, self.policy) {
            Look::Quiet => WaitAction::Done,
            Look::Wait => {
                self.phase = WaitPhase::Waiting;
                WaitAction::Pause
            },
            Look::Report => WaitAction::Fail(self.give_up()),
            Look::Cancel => {
                self.phase = WaitPhase::Canceling;
                self.cancels.this_cycle = Vec::new();
                assert(self.cancels.this_cycle.deep_view() =~= Seq::empty());
                self.at_op = 0;
                self.go_on_canceling()
            },
        }
    }

    /// A cancellation was tried.
    pub fn cancel_replied(&mut self, canceled: bool, now_ms: u64) -> (r: WaitAction)
        requires
            old(self).deep_view().wf(),
        ensures
            final(self).deep_view().wf(),
            (final(self).deep_view(), r.deep_view()) == cancel_tried(
                old(self).deep_view(),
                canceled,
                now_ms,
            ),
    {
        self.now_ms = now_ms;
        if canceled {
            self.cancels.canceled(self.current_op.as_str());
        }
        self.go_on_canceling()
    }

    /// It is known which container serves the app, if one does.
    pub fn active_found(&mut self, active: Option<&str>) -> (r: WaitAction)
        requires
            old(self).deep_view().wf(),
        ensures
            final(self).deep_view().wf(),
            (final(self).deep_view(), r.deep_view()) == resetting(
                old(self).deep_view(),
                active.deep_view(),
            ),
    {
        self.go_on_resetting(active)
    }

    /// A container was reset, as far as that was possible.
    pub fn reset_replied(&mut self, steps: &Vec<String>, now_ms: u64, active: Option<&str>) -> (r:
        WaitAction)
        requires
            old(self).deep_view().wf(),
        ensures
            final(self).deep_view().wf(),
            (final(self).deep_view(), r.deep_view()) == reset_tried(
                old(self).deep_view(),
                steps.deep_view(),
                now_ms,
                active.deep_view(),
            ),
    {
        self.now_ms = now_ms;
        self.resets.reset_done(self.current_target.as_str(), self.current_op.as_str(), steps);
        self.go_on_resetting(active)
    }
}

// ---------------------------------------------------------------------------
// Laws
// ---------------------------------------------------------------------------

/// A wait escalates in order: it cancels nothing before the first pause is over, nor
/// twice, and comes to resets neither before the second pause is over nor in a cycle that
/// canceled something; one that only reports does neither.
pub proof fn waits_escalate_in_order(
    w: WaitView,
    ops: Seq<OperationView>,
    elapsed_ms: u64,
    now_ms: u64,
)
    ensures
        ({
            let (after, action) = looked(w, ops, elapsed_ms, now_ms);
            &&& action is Cancel ==> elapsed_ms >= INITIAL_WAIT_MS && w.policy
                != BusyOpPolicy::Diagnose
            &&& action is FindActive ==> elapsed_ms >= INITIAL_WAIT_MS + RECHECK_WAIT_MS
                && w.policy != BusyOpPolicy::Diagnose
            &&& !(action is Reset)
            &&& action is Done <==> ops.len() == 0
        }),
        ({
            let (after, action) = canceling(w);
            &&& action is FindActive ==> w.this_cycle.len() == 0
            &&& !(action is Reset)
            &&& action matches WaitActionView::Cancel(id) ==> cancel_from(
                w.ops,
                w.at_op,
                w.attempted,
            ) matches Some(i) && w.ops[i].id == id
        }),
{
}

/// What serves the traffic of the app is never reset, nor is a container whose operation
/// can be canceled or that was tried before.
pub proof fn resets_spare_the_serving_container(w: WaitView, active: Option<Seq<char>>)
    requires
        0 <= w.at_op,
        0 <= w.at_target,
    ensures
        resetting(w, active).1 matches WaitActionView::Reset { target, op_id } ==> {
            &&& !serving(target, active)
            &&& !w.resets.attempted.contains(target)
        },
{
    serving_containers_are_not_reset(
        w.resets,
        w.ops,
        w.app,
        active,
        w.at_op,
        w.at_target,
    );
}

/// A wait whose budget is spent gives up once there is nothing left to cancel or reset.
pub proof fn waits_keep_to_their_budget(
    w: WaitView,
    ops: Seq<OperationView>,
    elapsed_ms: u64,
    now_ms: u64,
    active: Option<Seq<char>>,
)
    requires
        ops.len() > 0,
        w.policy != BusyOpPolicy::Diagnose,
        elapsed_ms >= INITIAL_WAIT_MS + RECHECK_WAIT_MS,
        elapsed_ms >= w.budget_secs * 1000,
        cancel_from(ops, 0, w.attempted) is None,
        spec_next_reset(w.resets, ops, w.app, active, 0, 0).1 is None,
    ensures
        looked(w, ops, elapsed_ms, now_ms).1 is FindActive,
        resetting(looked(w, ops, elapsed_ms, now_ms).0, active).1 is Fail,
{
    resets_only_grow(w.resets, ops, w.app, active, 0, 0);
}

// ---------------------------------------------------------------------------
// What is put on record
// ---------------------------------------------------------------------------

pub open spec fn policy_name(policy: BusyOpPolicy) -> Seq<char> {
    match policy {
        BusyOpPolicy::Auto => "auto"@,
        BusyOpPolicy::Diagnose => "diagnose"@,
        BusyOpPolicy::Force => "force"@,
    }
}

fn policy_text(policy: BusyOpPolicy) -> (r: &'static str)
    ensures
        r@ == policy_name(policy),
{
    match policy {
        BusyOpPolicy::Auto => "auto",
        BusyOpPolicy::Diagnose => "diagnose",
        BusyOpPolicy::Force => "force",
    }
}

/// What is put on record of a look that found the container blocked: the phase is that in
/// which the look was made.
pub open spec fn blocked_detail_of(w: WaitView) -> JsonView {
    JsonView::Object(
        seq![
            (
                "blocking_ops"@,
                JsonView::Array(
                    w.ops.map_values(|op: OperationView| op_json(op, w.seen, w.now_ms)),
                ),
            ),
            ("phase"@, JsonView::Text(phase_name(w.looked_in))),
            ("policy"@, JsonView::Text(policy_name(w.policy))),
        ],
    )
}

/// What is put on record of the operations that were canceled in a cycle, or of the
/// containers that were reset.
pub open spec fn takeover_detail_of(
    policy: BusyOpPolicy,
    key: Seq<char>,
    list: Seq<Seq<char>>,
) -> JsonView {
    JsonView::Object(
        seq![(key, text_array(list)), ("policy"@, JsonView::Text(policy_name(policy)))],
    )
}

/// The ids of operations.
pub open spec fn ids_of(ops: Seq<OperationView>) -> Seq<Seq<char>> {
    ops.map_values(|op: OperationView| op.id)
}

/// Whether it is time to say again that the wait goes on.
pub open spec fn says_again(w: WaitView) -> bool {
    w.elapsed_ms >= w.said_at_ms + HEARTBEAT_SECS * 1000
}

/// What is said of a wait that goes on.
pub open spec fn waiting_line(w: WaitView) -> Seq<char> {
    "       Blocked ("@ + phase_name(w.looked_in) + ", "@ + decimal((w.elapsed_ms / 1000) as nat)
        + "s/"@ + decimal(w.budget_secs as nat) + "s): "@ + join(ids_of(w.ops), ", "@)
}

impl QuietWait {
    /// What is to be said after a look, where it is time to say something again.
    pub fn heartbeat(&mut self) -> (r: Option<String>)
        ensures
            r.deep_view() == if says_again(old(self).deep_view()) {
                Some(waiting_line(old(self).deep_view()))
            } else {
                None
            },
            final(self).deep_view() == if says_again(old(self).deep_view()) {
                (WaitView { said_at_ms: old(self).elapsed_ms, ..old(self).deep_view() })
            } else {
                old(self).deep_view()
            },
    {
        if self.elapsed_ms < self.said_at_ms || self.elapsed_ms - self.said_at_ms < HEARTBEAT_SECS
            * 1000 {
            return None;
        }
        let mut ids: Vec<String> = Vec::new();
        let ghost all = ids_of(self.ops.deep_view());
        let mut i: usize = 0;
        assert(ids.deep_view() =~= all.take(0));
        while i < self.ops.len()
            invariant
                i <= self.ops@.len(),
                *self == *old(self),
                all == ids_of(self.ops.deep_view()),
                ids.deep_view() == all.take(i as int),
            decreases self.ops.len() - i,
        {
            assert(all[i as int] == self.ops@[i as int].id@);
            push_text(&mut ids, self.ops[i].id.clone());
            i = i + 1;
            assert(all.take(i as int) =~= all.take(i - 1).push(all[i - 1]));
        }
        assert(all.take(i as int) =~= all);
        let mut line = String::from_str("       Blocked (");
        line.append(phase_text(self.looked_in));
        line.append(", ");
        let elapsed = decimal_of(self.elapsed_ms / 1000);
        line.append(elapsed.as_str());
        line.append("s/");
        let budget = decimal_of(self.budget_secs);
        line.append(budget.as_str());
        line.append("s): ");
        let ids = join_with(&ids, ", ");
        line.append(ids.as_str());
        self.said_at_ms = self.elapsed_ms;
        Some(line)
    }

    pub fn blocked_detail(&self) -> (r: Json)
        ensures
            r.deep_view() == blocked_detail_of(self.deep_view()),
    {
        let ops = blocking_ops_json(&self.ops, &self.seen, self.now_ms);
        let ghost ops_view = ops.deep_view();
        let members = vec![
            field("blocking_ops", ops),
            field("phase", json_text(phase_text(self.looked_in))),
            field("policy", json_text(policy_text(self.policy))),
        ];
        assert(members.deep_view() =~= seq![
            ("blocking_ops"@, ops_view),
            ("phase"@, JsonView::Text(phase_name(self.looked_in))),
            ("policy"@, JsonView::Text(policy_name(self.policy))),
        ]);
        json_object(members)
    }

    pub fn takeover_detail(&self, key: &str, list: &Vec<String>) -> (r: Json)
        ensures
            r.deep_view() == takeover_detail_of(self.policy, key@, list.deep_view()),
    {
        let members = vec![
            field(key, json_text_array(list)),
            field("policy", json_text(policy_text(self.policy))),
        ];
        assert(members.deep_view() =~= seq![
            (key@, text_array(list.deep_view())),
            ("policy"@, JsonView::Text(policy_name(self.policy))),
        ]);
        json_object(members)
    }
}

/// What is canceled next is the first operation, from where the cycle stands, that can be
/// canceled and was not before; nothing is where there is none.
pub proof fn cancels_go_through_the_operations_in_order(
    ops: Seq<OperationView>,
    from: int,
    attempted: Seq<Seq<char>>,
)
    requires
        0 <= from,
    ensures
        match cancel_from(ops, from, attempted) {
            Some(i) => {
                &&& from <= i < ops.len()
                &&& ops[i].may_cancel && !attempted.contains(ops[i].id)
                &&& forall|j: int|
                    from <= j < i ==> !(#[trigger] ops[j]).may_cancel || attempted.contains(
                        ops[j].id,
                    )
            },
            None => forall|j: int|
                from <= j < ops.len() ==> !(#[trigger] ops[j]).may_cancel || attempted.contains(
                    ops[j].id,
                ),
        },
    decreases ops.len() - from,
{
    if from < ops.len() && !cancel_due(ops[from], attempted) {
        cancels_go_through_the_operations_in_order(ops, from + 1, attempted);
    }
}

/// A wait that is only to diagnose does nothing to any operation: it looks on for three
/// seconds, and then reports.
pub proof fn diagnosing_waits_touch_nothing(
    w: WaitView,
    ops: Seq<OperationView>,
    elapsed_ms: u64,
    now_ms: u64,
)
    requires
        w.policy == BusyOpPolicy::Diagnose,
    ensures
        ({
            let (after, action) = looked(w, ops, elapsed_ms, now_ms);
            &&& action is Done <==> ops.len() == 0
            &&& action is Pause <==> ops.len() > 0 && elapsed_ms < 3000
            &&& action is Fail <==> ops.len() > 0 && elapsed_ms >= 3000
            &&& after.attempted == w.attempted
            &&& after.resets == w.resets
        }),
{
}

/// No operation is canceled twice, and no more of them in one cycle than the limit; what
/// was canceled is remembered, and what could not be does not count for the cycle.
pub proof fn cancels_keep_to_their_limit(w: WaitView, canceled: bool, now_ms: u64)
    requires
        0 <= w.at_op,
    ensures
        ({
            let (after, action) = cancel_tried(w, canceled, now_ms);
            let done = if canceled {
                w.this_cycle.len() + 1
            } else {
                w.this_cycle.len()
            };
            &&& action is Cancel ==> {
                &&& done < w.cancel_limit
                &&& !w.attempted.contains(action->Cancel_0)
                &&& after.attempted == w.attempted.push(action->Cancel_0)
            }
            &&& !(action is Cancel) ==> after.attempted == w.attempted
            &&& after.this_cycle.len() == done
            &&& action is Settle ==> done > 0
            &&& after.resets == w.resets
        }),
{
    cancels_go_through_the_operations_in_order(w.ops, w.at_op, w.attempted);
}

/// The wait says that it goes on when five seconds have passed since it last did.
pub proof fn waits_say_so_every_five_seconds(w: WaitView)
    ensures
        says_again(w) <==> w.elapsed_ms >= w.said_at_ms + 5000,
{
}

/// Containers are reset only once nothing was canceled in the cycle and six seconds have
/// passed; before that the wait goes on.
pub proof fn resets_come_after_cancels(w: WaitView)
    requires
        0 <= w.at_op,
    ensures
        ({
            let (after, action) = canceling(w);
            let next = w.this_cycle.len() < w.cancel_limit && cancel_from(
                w.ops,
                w.at_op,
                w.attempted,
            ) is Some;
            &&& action is Cancel <==> next
            &&& action is Settle <==> !next && w.this_cycle.len() > 0
            &&& action is Pause <==> !next && w.this_cycle.len() == 0 && w.elapsed_ms < 6000
            &&& action is FindActive <==> !next && w.this_cycle.len() == 0 && w.elapsed_ms >= 6000
            &&& action is FindActive ==> after.phase == WaitPhase::ForceReset && after.at_op == 0
                && after.at_target == 0 && after.forced_before == w.resets.forced.len()
            &&& action is Pause ==> after.phase == WaitPhase::Rechecking
        }),
{
}

/// A wait gives up exactly where nothing is left to reset, nothing was reset in the cycle
/// and its time is over; where something was reset it gets time to take effect.
pub proof fn waits_give_up_when_nothing_is_left(w: WaitView, active: Option<Seq<char>>)
    requires
        0 <= w.at_op,
        0 <= w.at_target,
        w.forced_before <= w.resets.forced.len(),
    ensures
        ({
            let (after, action) = resetting(w, active);
            let left = spec_next_reset(w.resets, w.ops, w.app, active, w.at_op, w.at_target).1;
            &&& action is Reset <==> left is Some
            &&& action is Fail <==> left is None && w.resets.forced.len() == w.forced_before
                && w.elapsed_ms >= w.budget_secs * 1000
            &&& action is Settle <==> left is None && (w.resets.forced.len() > w.forced_before
                || w.elapsed_ms < w.budget_secs * 1000)
            &&& action matches WaitActionView::Reset { target, op_id } ==> {
                let (i, k) = left->0;
                &&& op_id == w.ops[i].id
                &&& target == targets_of(w.ops[i], w.app)[k]
                &&& !w.ops[i].may_cancel
                &&& after.at_op == i && after.at_target == k + 1
            }
        }),
{
    resets_only_grow(w.resets, w.ops, w.app, active, w.at_op, w.at_target);
    serving_containers_are_not_reset(w.resets, w.ops, w.app, active, w.at_op, w.at_target);
}

} // verus!
