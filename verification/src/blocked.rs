//! Waiting for the operations that block a container, and the steps that are taken
//! where they do not come to an end: cancel them, look again, and reset what they
//! work on, unless it serves traffic.

use vstd::prelude::*;
use crate::app_name::{
    app_ref_from_instance_name, app_ref_of, instance_name_from_app_ref, instance_of,
};
use crate::json::{
    field, json_bool, json_integer, json_object, json_text, json_text_array, json_view, text_array,
    Json, JsonView,
};
use crate::number::{decimal, decimal_of, signed_decimal};
use crate::order::{sort_texts, sorted};
use crate::split::{join, join_with};
use crate::text::{contains_text, copy_texts, lowered, outcome, push_text, same, to_ascii_lowercase};

verus! {

pub const INITIAL_WAIT_MS: u64 = 3000;

pub const RECHECK_WAIT_MS: u64 = 3000;

pub const WAIT_SLEEP_MS: u64 = 500;

pub const HEARTBEAT_SECS: u64 = 5;

/// What to do about operations that block a container.
#[derive(Clone, Copy, PartialEq, Eq, Structural, Debug)]
pub enum BusyOpPolicy {
    Auto,
    Diagnose,
    Force,
}

pub open spec fn policy_of(raw: Option<Seq<char>>) -> BusyOpPolicy {
    match raw {
        Some(value) => if lowered(value) == "diagnose"@ {
            BusyOpPolicy::Diagnose
        } else if lowered(value) == "force"@ {
            BusyOpPolicy::Force
        } else {
            BusyOpPolicy::Auto
        },
        None => BusyOpPolicy::Auto,
    }
}

pub fn busy_op_policy_from_raw(raw: Option<&str>) -> (r: BusyOpPolicy)
    ensures
        r == policy_of(raw.deep_view()),
{
    match raw {
        Some(value) => {
            let value = to_ascii_lowercase(value);
            if same(value.as_str(), "diagnose") {
                BusyOpPolicy::Diagnose
            } else if same(value.as_str(), "force") {
                BusyOpPolicy::Force
            } else {
                BusyOpPolicy::Auto
            }
        },
        None => BusyOpPolicy::Auto,
    }
}

/// An operation that is under way on a container.
pub struct BlockingOperation {
    pub id: String,
    pub status: String,
    pub status_code: i64,
    pub class: String,
    pub description: String,
    pub may_cancel: bool,
    pub resources: Vec<String>,
    /// The containers that the operation works on, as far as they are known.
    pub instance_names: Vec<String>,
}

/// The mathematical form of an operation.
#[verifier::ext_equal]
pub struct OperationView {
    pub id: Seq<char>,
    pub status: Seq<char>,
    pub status_code: i64,
    pub class: Seq<char>,
    pub description: Seq<char>,
    pub may_cancel: bool,
    pub resources: Seq<Seq<char>>,
    pub instance_names: Seq<Seq<char>>,
}

impl DeepView for BlockingOperation {
    type V = OperationView;

    open spec fn deep_view(&self) -> OperationView {
        OperationView {
            id: self.id@,
            status: self.status@,
            status_code: self.status_code,
            class: self.class@,
            description: self.description@,
            may_cancel: self.may_cancel,
            resources: self.resources.deep_view(),
            instance_names: self.instance_names.deep_view(),
        }
    }
}

// ---------------------------------------------------------------------------
// How long an operation has been seen
// ---------------------------------------------------------------------------

/// When an operation was first seen, in milliseconds.
pub open spec fn first_seen(seen: Seq<(Seq<char>, u64)>, id: Seq<char>) -> Option<u64>
    decreases seen.len(),
{
    if seen.len() == 0 {
        None
    } else {
        match first_seen(seen.drop_last(), id) {
            Some(at) => Some(at),
            None => if seen.last().0 == id {
                Some(seen.last().1)
            } else {
                None
            },
        }
    }
}

/// For how many whole seconds an operation has been seen.
pub open spec fn age_secs(seen: Seq<(Seq<char>, u64)>, id: Seq<char>, now_ms: u64) -> nat {
    match first_seen(seen, id) {
        Some(at) => if at <= now_ms {
            ((now_ms - at) / 1000) as nat
        } else {
            0
        },
        None => 0,
    }
}

fn seen_since(seen: &Vec<(String, u64)>, id: &str) -> (r: Option<u64>)
    ensures
        r == first_seen(seen.deep_view(), id@),
{
    let ghost views = seen.deep_view();
    let mut i: usize = 0;
    assert(views.take(0) =~= Seq::empty());
    while i < seen.len()
        invariant
            i <= seen@.len(),
            views == seen.deep_view(),
            first_seen(views.take(i as int), id@) is None,
        decreases seen.len() - i,
    {
        proof {
            assert(views.take(i + 1).drop_last() =~= views.take(i as int));
            assert(views.take(i + 1).last() == views[i as int]);
            assert(views[i as int] == (seen@[i as int].0@, seen@[i as int].1));
        }
        if same(seen[i].0.as_str(), id) {
            proof {
                seen_stays(views, id@, i + 1);
            }
            return Some(seen[i].1);
        }
        i = i + 1;
    }
    assert(views.take(i as int) =~= views);
    None
}

/// What was seen first stays first.
proof fn seen_stays(seen: Seq<(Seq<char>, u64)>, id: Seq<char>, k: int)
    requires
        0 <= k <= seen.len(),
        first_seen(seen.take(k), id) is Some,
    ensures
        first_seen(seen, id) == first_seen(seen.take(k), id),
    decreases seen.len() - k,
{
    if k < seen.len() {
        assert(seen.take(k + 1).drop_last() =~= seen.take(k));
        seen_stays(seen, id, k + 1);
    } else {
        assert(seen.take(k) =~= seen);
    }
}

pub fn blocking_op_age_secs(seen: &Vec<(String, u64)>, op_id: &str, now_ms: u64) -> (r: u64)
    ensures
        r == age_secs(seen.deep_view(), op_id@, now_ms),
        r <= u64::MAX / 1000,
{
    match seen_since(seen, op_id) {
        Some(at) => if at <= now_ms {
            (now_ms - at) / 1000
        } else {
            0
        },
        None => 0,
    }
}

/// The record with the operations added that were not in it, as seen now.
pub open spec fn with_seen(
    seen: Seq<(Seq<char>, u64)>,
    ops: Seq<OperationView>,
    now_ms: u64,
) -> Seq<(Seq<char>, u64)>
    decreases ops.len(),
{
    if ops.len() == 0 {
        seen
    } else {
        let before = with_seen(seen, ops.drop_last(), now_ms);
        if first_seen(before, ops.last().id) is Some {
            before
        } else {
            before.push((ops.last().id, now_ms))
        }
    }
}

pub fn note_seen(seen: &mut Vec<(String, u64)>, ops: &Vec<BlockingOperation>, now_ms: u64)
    ensures
        final(seen).deep_view() == with_seen(old(seen).deep_view(), ops.deep_view(), now_ms),
{
    let ghost start = seen.deep_view();
    let ghost all = ops.deep_view();
    let mut i: usize = 0;
    assert(all.take(0) =~= Seq::empty());
    while i < ops.len()
        invariant
            i <= ops@.len(),
            all == ops.deep_view(),
            seen.deep_view() == with_seen(start, all.take(i as int), now_ms),
        decreases ops.len() - i,
    {
        let ghost before = seen.deep_view();
        proof {
            assert(all.take(i + 1).drop_last() =~= all.take(i as int));
            assert(all.take(i + 1).last() == all[i as int]);
        }
        if seen_since(seen, ops[i].id.as_str()).is_none() {
            let id = ops[i].id.clone();
            seen.push((id, now_ms));
            assert(seen.deep_view() =~= before.push((id@, now_ms)));
        }
        i = i + 1;
    }
    assert(all.take(i as int) =~= all);
}

// ---------------------------------------------------------------------------
// Messages
// ---------------------------------------------------------------------------

/// One operation in words.
pub open spec fn op_summary(op: OperationView, seen: Seq<(Seq<char>, u64)>, now_ms: u64) -> Seq<
    char,
> {
    op.id + "(class="@ + op.class + ",age="@ + decimal(age_secs(seen, op.id, now_ms))
        + "s,cancelable="@ + bool_text(op.may_cancel) + ",targets="@ + (
    if op.instance_names.len() == 0 {
        "[]"@
    } else {
        join(op.instance_names, "|"@)
    }) + ")"@
}

pub open spec fn bool_text(b: bool) -> Seq<char> {
    if b {
        "true"@
    } else {
        "false"@
    }
}

pub open spec fn ops_summary(
    ops: Seq<OperationView>,
    seen: Seq<(Seq<char>, u64)>,
    now_ms: u64,
) -> Seq<char> {
    join(ops.map_values(|op: OperationView| op_summary(op, seen, now_ms)), ", "@)
}

fn summary_of_op(op: &BlockingOperation, seen: &Vec<(String, u64)>, now_ms: u64) -> (r: String)
    ensures
        r@ == op_summary(op.deep_view(), seen.deep_view(), now_ms),
{
    let mut r = op.id.clone();
    r.append("(class=");
    r.append(op.class.as_str());
    r.append(",age=");
    let age = decimal_of(blocking_op_age_secs(seen, op.id.as_str(), now_ms));
    r.append(age.as_str());
    r.append("s,cancelable=");
    if op.may_cancel {
        r.append("true");
    } else {
        r.append("false");
    }
    r.append(",targets=");
    if op.instance_names.is_empty() {
        r.append("[]");
    } else {
        let names = join_with(&op.instance_names, "|");
        r.append(names.as_str());
    }
    r.append(")");
    r
}

pub fn blocking_ops_summary(
    ops: &Vec<BlockingOperation>,
    seen: &Vec<(String, u64)>,
    now_ms: u64,
) -> (r: String)
    ensures
        r@ == ops_summary(ops.deep_view(), seen.deep_view(), now_ms),
{
    let mut parts: Vec<String> = Vec::new();
    let ghost views = ops.deep_view().map_values(
        |op: OperationView| op_summary(op, seen.deep_view(), now_ms),
    );
    let mut i: usize = 0;
    assert(parts.deep_view() =~= views.take(0));
    while i < ops.len()
        invariant
            i <= ops@.len(),
            views == ops.deep_view().map_values(
                |op: OperationView| op_summary(op, seen.deep_view(), now_ms),
            ),
            parts.deep_view() == views.take(i as int),
        decreases ops.len() - i,
    {
        push_text(&mut parts, summary_of_op(&ops[i], seen, now_ms));
        i = i + 1;
        assert(views.take(i as int) =~= views.take(i - 1).push(views[i - 1]));
    }
    assert(views.take(i as int) =~= views);
    join_with(&parts, ", ")
}

/// One operation as it is kept in the record of a deploy.
pub open spec fn op_json(op: OperationView, seen: Seq<(Seq<char>, u64)>, now_ms: u64) -> JsonView {
    JsonView::Object(
        seq![
            ("id"@, JsonView::Text(op.id)),
            ("status"@, JsonView::Text(op.status)),
            ("status_code"@, JsonView::Number(signed_decimal(op.status_code as int))),
            ("class"@, JsonView::Text(op.class)),
            ("description"@, JsonView::Text(op.description)),
            ("may_cancel"@, JsonView::Bool(op.may_cancel)),
            ("age_secs"@, JsonView::Number(signed_decimal(age_secs(seen, op.id, now_ms) as int))),
            ("resources"@, text_array(op.resources)),
            ("instance_names"@, text_array(op.instance_names)),
        ],
    )
}

fn json_of_op(op: &BlockingOperation, seen: &Vec<(String, u64)>, now_ms: u64) -> (r: Json)
    ensures
        r.deep_view() == op_json(op.deep_view(), seen.deep_view(), now_ms),
{
    let age: u64 = blocking_op_age_secs(seen, op.id.as_str(), now_ms);
    let members = vec![
        field("id", json_text(op.id.as_str())),
        field("status", json_text(op.status.as_str())),
        field("status_code", json_integer(op.status_code)),
        field("class", json_text(op.class.as_str())),
        field("description", json_text(op.description.as_str())),
        field("may_cancel", json_bool(op.may_cancel)),
        field("age_secs", json_integer(age as i64)),
        field("resources", json_text_array(&op.resources)),
        field("instance_names", json_text_array(&op.instance_names)),
    ];
    assert(members.deep_view() =~= op_json(
        op.deep_view(),
        seen.deep_view(),
        now_ms,
    )->Object_0);
    json_object(members)
}

/// The operations as they are kept in the record of a deploy.
pub fn blocking_ops_json(
    ops: &Vec<BlockingOperation>,
    seen: &Vec<(String, u64)>,
    now_ms: u64,
) -> (r: Json)
    ensures
        r.deep_view() == JsonView::Array(
            ops.deep_view().map_values(
                |op: OperationView| op_json(op, seen.deep_view(), now_ms),
            ),
        ),
{
    let mut items: Vec<Json> = Vec::new();
    let mut i: usize = 0;
    while i < ops.len()
        invariant
            i <= ops@.len(),
            items@.len() == i,
            forall|j: int|
                0 <= j < i ==> json_view(#[trigger] items@[j]) == op_json(
                    ops.deep_view()[j],
                    seen.deep_view(),
                    now_ms,
                ),
        decreases ops.len() - i,
    {
        items.push(json_of_op(&ops[i], seen, now_ms));
        i = i + 1;
    }
    let r = Json::Array(items);
    assert(r.deep_view()->Array_0 =~= ops.deep_view().map_values(
        |op: OperationView| op_json(op, seen.deep_view(), now_ms),
    ));
    r
}

/// The containers that an operation works on; where none is known, the one waited for.
pub open spec fn targets_of(op: OperationView, fallback: Seq<char>) -> Seq<Seq<char>> {
    if op.instance_names.len() > 0 {
        op.instance_names
    } else {
        seq![instance_of(fallback)]
    }
}

pub fn blocking_op_targets(op: &BlockingOperation, fallback_app_ref: &str) -> (r: Vec<String>)
    ensures
        r.deep_view() == targets_of(op.deep_view(), fallback_app_ref@),
{
    if op.instance_names.len() > 0 {
        copy_texts(&op.instance_names)
    } else {
        let mut r: Vec<String> = Vec::new();
        push_text(&mut r, instance_name_from_app_ref(fallback_app_ref));
        assert(r.deep_view() =~= seq![instance_of(fallback_app_ref@)]);
        r
    }
}

/// Whether a container serves the traffic of an app whose active container is given.
pub open spec fn serving(target: Seq<char>, active: Option<Seq<char>>) -> bool {
    match active {
        Some(active) => active == target || instance_of(active) == target || app_ref_of(target)
            == Some(active),
        None => false,
    }
}

pub fn target_is_currently_serving(target: &str, active_app_ref: Option<&str>) -> (r: bool)
    ensures
        r == serving(target@, active_app_ref.deep_view()),
{
    match active_app_ref {
        Some(active) => {
            if same(active, target) {
                return true;
            }
            let instance = instance_name_from_app_ref(active);
            if same(instance.as_str(), target) {
                return true;
            }
            match app_ref_from_instance_name(target) {
                Some(target_ref) => same(target_ref.as_str(), active),
                None => false,
            }
        },
        None => false,
    }
}

// ---------------------------------------------------------------------------
// The escalation
// ---------------------------------------------------------------------------

/// Where a wait stands.
#[derive(Clone, Copy, PartialEq, Eq, Structural, Debug)]
pub enum WaitPhase {
    Waiting,
    Canceling,
    Rechecking,
    ForceReset,
}

pub open spec fn phase_name(phase: WaitPhase) -> Seq<char> {
    match phase {
        WaitPhase::Waiting => "waiting"@,
        WaitPhase::Canceling => "canceling"@,
        WaitPhase::Rechecking => "rechecking"@,
        WaitPhase::ForceReset => "force-reset"@,
    }
}

pub fn phase_text(phase: WaitPhase) -> (r: &'static str)
    ensures
        r@ == phase_name(phase),
{
    match phase {
        WaitPhase::Waiting => "waiting",
        WaitPhase::Canceling => "canceling",
        WaitPhase::Rechecking => "rechecking",
        WaitPhase::ForceReset => "force-reset",
    }
}

/// What a look at the operations calls for.
#[derive(Clone, Copy, PartialEq, Eq, Structural, Debug)]
pub enum Look {
    /// Nothing blocks the container.
    Quiet,
    /// Wait a moment and look again.
    Wait,
    /// Report what blocks the container and give up.
    Report,
    /// Cancel what can be canceled.
    Cancel,
}

pub open spec fn spec_look(blocked: bool, elapsed_ms: u64, policy: BusyOpPolicy) -> Look {
    if !blocked {
        Look::Quiet
    } else if elapsed_ms < INITIAL_WAIT_MS {
        Look::Wait
    } else if policy == BusyOpPolicy::Diagnose {
        Look::Report
    } else {
        Look::Cancel
    }
}

pub fn look(blocked: bool, elapsed_ms: u64, policy: BusyOpPolicy) -> (r: Look)
    ensures
        r == spec_look(blocked, elapsed_ms, policy),
{
    if !blocked {
        Look::Quiet
    } else if elapsed_ms < INITIAL_WAIT_MS {
        Look::Wait
    } else if policy == BusyOpPolicy::Diagnose {
        Look::Report
    } else {
        Look::Cancel
    }
}

/// What follows the cancellations of one cycle, or its resets.
#[derive(Clone, Copy, PartialEq, Eq, Structural, Debug)]
pub enum Onward {
    /// Something was done: wait for it to take effect.
    Settle,
    /// Wait a moment and look again.
    Recheck,
    /// Reset what cannot be canceled.
    Reset,
    /// Report what blocks the container and give up.
    Report,
}

pub open spec fn spec_after_cancels(canceled: nat, elapsed_ms: u64) -> Onward {
    if canceled > 0 {
        Onward::Settle
    } else if elapsed_ms < INITIAL_WAIT_MS + RECHECK_WAIT_MS {
        Onward::Recheck
    } else {
        Onward::Reset
    }
}

pub fn after_cancels(canceled: usize, elapsed_ms: u64) -> (r: Onward)
    ensures
        r == spec_after_cancels(canceled as nat, elapsed_ms),
{
    if canceled > 0 {
        Onward::Settle
    } else if elapsed_ms < INITIAL_WAIT_MS + RECHECK_WAIT_MS {
        Onward::Recheck
    } else {
        Onward::Reset
    }
}

pub open spec fn spec_after_resets(forced: nat, elapsed_ms: u64, budget_secs: u64) -> Onward {
    if forced > 0 || elapsed_ms < budget_secs * 1000 {
        Onward::Settle
    } else {
        Onward::Report
    }
}

pub fn after_resets(forced: usize, elapsed_ms: u64, budget_secs: u64) -> (r: Onward)
    ensures
        r == spec_after_resets(forced as nat, elapsed_ms, budget_secs),
{
    if forced > 0 || elapsed_ms / 1000 < budget_secs {
        Onward::Settle
    } else {
        Onward::Report
    }
}

/// Whether a canceled operation may be tried.
pub open spec fn cancel_due(op: OperationView, attempted: Seq<Seq<char>>) -> bool {
    op.may_cancel && !attempted.contains(op.id)
}

/// The cancellations of a wait: the operations that it was tried on, and those that
/// were canceled in this cycle.
pub struct Cancels {
    pub attempted: Vec<String>,
    pub this_cycle: Vec<String>,
}

impl Cancels {
    /// The next operation, from index `from` on, that is to be canceled. At most
    /// `limit` are canceled in one cycle, and each is tried once in a wait.
    pub fn next_cancel(
        &mut self,
        ops: &Vec<BlockingOperation>,
        from: usize,
        limit: usize,
    ) -> (r: Option<usize>)
        requires
            old(self).attempted.deep_view().no_duplicates(),
        ensures
            final(self).attempted.deep_view().no_duplicates(),
            final(self).this_cycle == old(self).this_cycle,
            match r {
                Some(i) => {
                    &&& from <= i < ops@.len()
                    &&& old(self).this_cycle@.len() < limit
                    &&& cancel_due(ops.deep_view()[i as int], old(self).attempted.deep_view())
                    &&& forall|j: int|
                        from <= j < i ==> !cancel_due(
                            #[trigger] ops.deep_view()[j],
                            old(self).attempted.deep_view(),
                        )
                    &&& final(self).attempted.deep_view() == old(self).attempted.deep_view().push(
                        ops.deep_view()[i as int].id,
                    )
                },
                None => {
                    &&& *final(self) == *old(self)
                    &&& old(self).this_cycle@.len() >= limit || forall|j: int|
                        from <= j < ops@.len() ==> !cancel_due(
                            #[trigger] ops.deep_view()[j],
                            old(self).attempted.deep_view(),
                        )
                },
            },
    {
        if self.this_cycle.len() >= limit {
            return None;
        }
        let mut i: usize = from;
        while i < ops.len()
            invariant
                *self == *old(self),
                from <= i,
                self.this_cycle@.len() < limit,
                self.attempted.deep_view().no_duplicates(),
                forall|j: int|
                    from <= j < i && j < ops@.len() ==> !cancel_due(
                        #[trigger] ops.deep_view()[j],
                        self.attempted.deep_view(),
                    ),
            decreases ops.len() - i,
        {
            assert(ops.deep_view()[i as int].id == ops@[i as int].id@);
            if ops[i].may_cancel && !contains_text(&self.attempted, ops[i].id.as_str()) {
                push_text(&mut self.attempted, ops[i].id.clone());
                return Some(i);
            }
            i = i + 1;
        }
        None
    }

    /// Takes note that an operation was canceled.
    pub fn canceled(&mut self, id: &str)
        ensures
            final(self).attempted == old(self).attempted,
            final(self).this_cycle.deep_view() == old(self).this_cycle.deep_view().push(id@),
    {
        push_text(&mut self.this_cycle, id.to_owned());
    }
}

/// What a wait has tried to reset, and what it has to say about it.
pub struct Resets {
    pub attempted: Vec<String>,
    pub forced: Vec<String>,
    pub skipped: Vec<String>,
}

/// The mathematical form of the resets of a wait.
#[verifier::ext_equal]
pub struct ResetsView {
    pub attempted: Seq<Seq<char>>,
    pub forced: Seq<Seq<char>>,
    pub skipped: Seq<Seq<char>>,
}

impl DeepView for Resets {
    type V = ResetsView;

    open spec fn deep_view(&self) -> ResetsView {
        ResetsView {
            attempted: self.attempted.deep_view(),
            forced: self.forced.deep_view(),
            skipped: self.skipped.deep_view(),
        }
    }
}

pub open spec fn fallback_note(op: OperationView, app: Seq<char>) -> Seq<char> {
    "op "@ + op.id + " had no parsed target; using fallback target "@ + instance_of(app)
}

pub open spec fn serving_note(op: OperationView, target: Seq<char>) -> Seq<char> {
    "skipped reset for serving target "@ + target + " (op "@ + op.id + ")"@
}

/// What is noted when the targets of an operation are first looked at.
pub open spec fn opened(r: ResetsView, op: OperationView, app: Seq<char>, k: int) -> ResetsView {
    if k == 0 && op.instance_names.len() == 0 {
        ResetsView { skipped: r.skipped.push(fallback_note(op, app)), ..r }
    } else {
        r
    }
}

/// The next container to reset, by the index of its operation and of the target, from
/// operation `i` and target `k` on. Operations that can be canceled are left alone, a
/// container is tried once, and one that serves traffic is not reset.
pub open spec fn spec_next_reset(
    r: ResetsView,
    ops: Seq<OperationView>,
    app: Seq<char>,
    active: Option<Seq<char>>,
    i: int,
    k: int,
) -> (ResetsView, Option<(int, int)>)
    decreases ops.len() - i, targets_of(ops[i], app).len() - k,
{
    if i < 0 || i >= ops.len() {
        (r, None)
    } else if ops[i].may_cancel || k >= targets_of(ops[i], app).len() {
        spec_next_reset(r, ops, app, active, i + 1, 0)
    } else {
        let o = opened(r, ops[i], app, k);
        let target = targets_of(ops[i], app)[k];
        if o.attempted.contains(target) {
            spec_next_reset(o, ops, app, active, i, k + 1)
        } else if serving(target, active) {
            spec_next_reset(
                ResetsView {
                    attempted: o.attempted.push(target),
                    skipped: o.skipped.push(serving_note(ops[i], target)),
                    ..o
                },
                ops,
                app,
                active,
                i,
                k + 1,
            )
        } else {
            (ResetsView { attempted: o.attempted.push(target), ..o }, Some((i, k)))
        }
    }
}

/// What is chosen for a reset cannot be canceled, was not tried before, and does not
/// serve traffic.
pub proof fn serving_containers_are_not_reset(
    r: ResetsView,
    ops: Seq<OperationView>,
    app: Seq<char>,
    active: Option<Seq<char>>,
    i: int,
    k: int,
)
    requires
        0 <= i,
        0 <= k,
    ensures
        match spec_next_reset(r, ops, app, active, i, k) {
            (after, Some((a, b))) => {
                &&& i <= a < ops.len()
                &&& 0 <= b < targets_of(ops[a], app).len()
                &&& !ops[a].may_cancel
                &&& !serving(targets_of(ops[a], app)[b], active)
                &&& !r.attempted.contains(targets_of(ops[a], app)[b])
                &&& after.attempted.contains(targets_of(ops[a], app)[b])
            },
            _ => true,
        },
    decreases ops.len() - i, targets_of(ops[i], app).len() - k,
{
    if i >= ops.len() {
    } else if ops[i].may_cancel || k >= targets_of(ops[i], app).len() {
        serving_containers_are_not_reset(r, ops, app, active, i + 1, 0);
    } else {
        let o = opened(r, ops[i], app, k);
        let target = targets_of(ops[i], app)[k];
        if o.attempted.contains(target) {
            serving_containers_are_not_reset(o, ops, app, active, i, k + 1);
        } else if serving(target, active) {
            let noted = ResetsView {
                attempted: o.attempted.push(target),
                skipped: o.skipped.push(serving_note(ops[i], target)),
                ..o
            };
            serving_containers_are_not_reset(noted, ops, app, active, i, k + 1);
            assert forall|t: Seq<char>| r.attempted.contains(t) implies noted.attempted.contains(
                t,
            ) by {
                let m = r.attempted.index_of(t);
                assert(noted.attempted[m] == t);
            }
        } else {
            let after = o.attempted.push(target);
            assert(after[after.len() - 1] == target);
        }
    }
}

impl Resets {
    /// The next container to reset.
    pub fn next_reset(
        &mut self,
        ops: &Vec<BlockingOperation>,
        app: &str,
        active_app_ref: Option<&str>,
        from_op: usize,
        from_target: usize,
    ) -> (r: Option<(usize, usize, String)>)
        ensures
            ({
                let (after, found) = spec_next_reset(
                    old(self).deep_view(),
                    ops.deep_view(),
                    app@,
                    active_app_ref.deep_view(),
                    from_op as int,
                    from_target as int,
                );
                &&& final(self).deep_view() == after
                &&& match r {
                    Some((i, k, target)) => found == Some((i as int, k as int)) && i < ops@.len()
                        && k < usize::MAX && target@ == targets_of(
                        ops.deep_view()[i as int],
                        app@,
                    )[k as int],
                    None => found is None,
                }
            }),
    {
        let ghost all = ops.deep_view();
        let ghost active = active_app_ref.deep_view();
        let ghost start = spec_next_reset(
            self.deep_view(),
            all,
            app@,
            active,
            from_op as int,
            from_target as int,
        );
        let mut i: usize = from_op;
        let mut k: usize = from_target;
        while i < ops.len()
            invariant
                all == ops.deep_view(),
                active == active_app_ref.deep_view(),
                start == spec_next_reset(
                    old(self).deep_view(),
                    all,
                    app@,
                    active,
                    from_op as int,
                    from_target as int,
                ),
                start == spec_next_reset(self.deep_view(), all, app@, active, i as int, k as int),
            decreases ops.len() - i,
        {
            assert(all[i as int] == ops@[i as int].deep_view());
            if ops[i].may_cancel {
                i = i + 1;
                k = 0;
                continue;
            }
            let targets = blocking_op_targets(&ops[i], app);
            let ghost op = all[i as int];
            while k < targets.len()
                invariant
                    i < ops@.len(),
                    all == ops.deep_view(),
                    op == all[i as int],
                    op == ops@[i as int].deep_view(),
                    !op.may_cancel,
                    active == active_app_ref.deep_view(),
                    targets.deep_view() == targets_of(op, app@),
                    start == spec_next_reset(
                        old(self).deep_view(),
                        all,
                        app@,
                        active,
                        from_op as int,
                        from_target as int,
                    ),
                    start == spec_next_reset(
                        self.deep_view(),
                        all,
                        app@,
                        active,
                        i as int,
                        k as int,
                    ),
                decreases targets.len() - k,
            {
                let ghost before = self.deep_view();
                if k == 0 && ops[i].instance_names.is_empty() {
                    let mut note = String::from_str("op ");
                    note.append(ops[i].id.as_str());
                    note.append(" had no parsed target; using fallback target ");
                    let fallback = instance_name_from_app_ref(app);
                    note.append(fallback.as_str());
                    push_text(&mut self.skipped, note);
                    assert(op.instance_names.len() == 0);
                }
                assert(self.deep_view() =~= opened(before, op, app@, k as int));
                let ghost o = self.deep_view();
                assert(targets.deep_view()[k as int] == targets@[k as int]@);
                if contains_text(&self.attempted, targets[k].as_str()) {
                    k = k + 1;
                    continue;
                }
                push_text(&mut self.attempted, targets[k].clone());
                if target_is_currently_serving(targets[k].as_str(), active_app_ref) {
                    let mut note = String::from_str("skipped reset for serving target ");
                    note.append(targets[k].as_str());
                    note.append(" (op ");
                    note.append(ops[i].id.as_str());
                    note.append(")");
                    push_text(&mut self.skipped, note);
                    k = k + 1;
                    continue;
                }
                assert(self.deep_view() =~= ResetsView {
                    attempted: o.attempted.push(targets@[k as int]@),
                    ..o
                });
                return Some((i, k, targets[k].clone()));
            }
            i = i + 1;
            k = 0;
        }
        None
    }

    /// Takes note of what was done to reset a container.
    pub fn reset_done(&mut self, target: &str, op_id: &str, steps: &Vec<String>)
        ensures
            final(self).deep_view() == (ResetsView {
                forced: old(self).deep_view().forced.push(
                    target@ + " (op "@ + op_id@ + "): "@ + join(steps.deep_view(), "; "@),
                ),
                ..old(self).deep_view()
            }),
    {
        let mut note = target.to_owned();
        note.append(" (op ");
        note.append(op_id);
        note.append("): ");
        let done = join_with(steps, "; ");
        note.append(done.as_str());
        push_text(&mut self.forced, note);
    }
}

/// What is noted of a container that was stopped by force and deleted.
pub open spec fn reset_notes(
    present: bool,
    stopped: Result<(), Seq<char>>,
    deleted: Result<(), Seq<char>>,
) -> Seq<Seq<char>> {
    if present {
        seq![
            match stopped {
                Ok(_) => "force-stop ok"@,
                Err(err) => "force-stop failed: "@ + err,
            },
            match deleted {
                Ok(_) => "delete ok"@,
                Err(err) => "delete failed: "@ + err,
            },
        ]
    } else {
        seq!["target already absent"@]
    }
}

pub fn reset_steps(present: bool, stopped: &Result<(), String>, deleted: &Result<(), String>) -> (r:
    Vec<String>)
    ensures
        r.deep_view() == reset_notes(present, outcome(*stopped), outcome(*deleted)),
{
    let mut r: Vec<String> = Vec::new();
    if !present {
        push_text(&mut r, String::from_str("target already absent"));
        assert(r.deep_view() =~= seq!["target already absent"@]);
        return r;
    }
    match stopped {
        Ok(_) => push_text(&mut r, String::from_str("force-stop ok")),
        Err(err) => {
            let mut note = String::from_str("force-stop failed: ");
            note.append(err.as_str());
            push_text(&mut r, note);
        },
    }
    match deleted {
        Ok(_) => push_text(&mut r, String::from_str("delete ok")),
        Err(err) => {
            let mut note = String::from_str("delete failed: ");
            note.append(err.as_str());
            push_text(&mut r, note);
        },
    }
    assert(r.deep_view() =~= reset_notes(present, outcome(*stopped), outcome(*deleted)));
    r
}

/// The lines that say which operations to look at.
pub open spec fn inspect_lines(ops: Seq<OperationView>, project: Seq<char>) -> Seq<Seq<char>> {
    ops.map_values(
        |op: OperationView|
            "inspect op "@ + op.id + ": incus --project "@ + project + " operation show "@ + op.id,
    )
}

/// The error of a wait that gave up.
pub open spec fn blocked_message(
    app: Seq<char>,
    project: Seq<char>,
    budget_secs: u64,
    phase: WaitPhase,
    ops: Seq<OperationView>,
    seen: Seq<(Seq<char>, u64)>,
    now_ms: u64,
    canceled: Seq<Seq<char>>,
    resets: ResetsView,
) -> Seq<char> {
    let head = "container '"@ + app + "' remained blocked after "@ + decimal(budget_secs as nat)
        + "s (phase="@ + phase_name(phase) + "); unresolved operations: "@ + ops_summary(
        ops,
        seen,
        now_ms,
    );
    let cancels = if canceled.len() > 0 {
        "automatic actions: attempted operation cancellation for "@ + decimal(canceled.len())
            + " op(s): "@ + join(sorted(canceled), ", "@)
    } else {
        "automatic actions: no cancelable operations were found"@
    };
    let forced = if resets.forced.len() == 0 {
        "automatic actions: no forced target-instance resets were performed"@
    } else {
        "automatic actions: forced target-instance resets: "@ + join(resets.forced, " | "@)
    };
    let skipped: Seq<Seq<char>> = if resets.skipped.len() == 0 {
        Seq::empty()
    } else {
        seq!["automatic actions: skipped actions: "@ + join(resets.skipped, " | "@)]
    };
    join(
        seq![head, cancels, forced] + skipped + seq![
            "inspect: incus --project "@ + project + " operation list"@,
        ] + inspect_lines(ops, project),
        "\n"@,
    )
}

pub fn blocked_operation_error(
    app: &str,
    project: &str,
    budget_secs: u64,
    phase: WaitPhase,
    ops: &Vec<BlockingOperation>,
    seen: &Vec<(String, u64)>,
    now_ms: u64,
    canceled: &Vec<String>,
    resets: &Resets,
) -> (r: String)
    ensures
        r@ == blocked_message(
            app@,
            project@,
            budget_secs,
            phase,
            ops.deep_view(),
            seen.deep_view(),
            now_ms,
            canceled.deep_view(),
            resets.deep_view(),
        ),
{
    let mut lines: Vec<String> = Vec::new();
    let mut head = String::from_str("container '");
    head.append(app);
    head.append("' remained blocked after ");
    let budget = decimal_of(budget_secs);
    head.append(budget.as_str());
    head.append("s (phase=");
    head.append(phase_text(phase));
    head.append("); unresolved operations: ");
    let summary = blocking_ops_summary(ops, seen, now_ms);
    head.append(summary.as_str());
    push_text(&mut lines, head);
    if canceled.len() > 0 {
        let mut line = String::from_str(
            "automatic actions: attempted operation cancellation for ",
        );
        let count = decimal_of(canceled.len() as u64);
        line.append(count.as_str());
        line.append(" op(s): ");
        let ordered = sort_texts(canceled);
        let listed = join_with(&ordered, ", ");
        line.append(listed.as_str());
        push_text(&mut lines, line);
    } else {
        push_text(
            &mut lines,
            String::from_str("automatic actions: no cancelable operations were found"),
        );
    }
    if resets.forced.is_empty() {
        push_text(
            &mut lines,
            String::from_str("automatic actions: no forced target-instance resets were performed"),
        );
    } else {
        let mut line = String::from_str("automatic actions: forced target-instance resets: ");
        let listed = join_with(&resets.forced, " | ");
        line.append(listed.as_str());
        push_text(&mut lines, line);
    }
    let ghost three = lines.deep_view();
    if !resets.skipped.is_empty() {
        let mut line = String::from_str("automatic actions: skipped actions: ");
        let listed = join_with(&resets.skipped, " | ");
        line.append(listed.as_str());
        push_text(&mut lines, line);
    }
    let mut list = String::from_str("inspect: incus --project ");
    list.append(project);
    list.append(" operation list");
    push_text(&mut lines, list);
    let ghost fixed = lines.deep_view();
    let ghost tail = inspect_lines(ops.deep_view(), project@);
    let mut i: usize = 0;
    assert(fixed + tail.take(0) =~= fixed);
    while i < ops.len()
        invariant
            i <= ops@.len(),
            tail == inspect_lines(ops.deep_view(), project@),
            lines.deep_view() == fixed + tail.take(i as int),
        decreases ops.len() - i,
    {
        let mut line = String::from_str("inspect op ");
        line.append(ops[i].id.as_str());
        line.append(": incus --project ");
        line.append(project);
        line.append(" operation show ");
        line.append(ops[i].id.as_str());
        push_text(&mut lines, line);
        i = i + 1;
        assert(tail.take(i as int) =~= tail.take(i - 1).push(tail[i - 1]));
        assert((fixed + tail.take(i - 1)).push(tail[i - 1]) =~= fixed + tail.take(i as int));
    }
    assert(tail.take(i as int) =~= tail);
    proof {
        let skipped: Seq<Seq<char>> = if resets.skipped@.len() == 0 {
            Seq::empty()
        } else {
            seq!["automatic actions: skipped actions: "@ + join(
                resets.skipped.deep_view(),
                " | "@,
            )]
        };
        assert(three =~= seq![three[0], three[1], three[2]]);
        assert(fixed =~= three + skipped + seq![
            "inspect: incus --project "@ + project@ + " operation list"@,
        ]);
    }
    join_with(&lines, "\n")
}

/// A container is quiet exactly where nothing blocks it. What blocks it gets three seconds;
/// then it is reported where it is only to be diagnosed, and canceled else.
pub proof fn looks_go_by_what_blocks_and_how_long(
    blocked: bool,
    elapsed_ms: u64,
    policy: BusyOpPolicy,
)
    ensures
        spec_look(blocked, elapsed_ms, policy) == Look::Quiet <==> !blocked,
        spec_look(blocked, elapsed_ms, policy) == Look::Wait <==> blocked && elapsed_ms < 3000,
        spec_look(blocked, elapsed_ms, policy) == Look::Report <==> blocked && elapsed_ms >= 3000
            && policy == BusyOpPolicy::Diagnose,
        spec_look(blocked, elapsed_ms, policy) == Look::Cancel <==> blocked && elapsed_ms >= 3000
            && policy != BusyOpPolicy::Diagnose,
{
}

/// Once something was canceled or reset it gets time to take effect. Where nothing could be
/// canceled, containers are reset after six seconds; where nothing could be reset either,
/// the wait is given up when its time is over, and not before.
pub proof fn waits_go_on_while_something_is_done(
    done: nat,
    elapsed_ms: u64,
    budget_secs: u64,
)
    ensures
        spec_after_cancels(done, elapsed_ms) == Onward::Settle <==> done > 0,
        spec_after_cancels(done, elapsed_ms) == Onward::Recheck <==> done == 0 && elapsed_ms
            < 6000,
        spec_after_cancels(done, elapsed_ms) == Onward::Reset <==> done == 0 && elapsed_ms >= 6000,
        spec_after_resets(done, elapsed_ms, budget_secs) == Onward::Report <==> done == 0
            && elapsed_ms >= budget_secs * 1000,
        spec_after_resets(done, elapsed_ms, budget_secs) == Onward::Settle <==> done > 0
            || elapsed_ms < budget_secs * 1000,
{
}

proof fn later_sights_do_not_count(seen: Seq<(Seq<char>, u64)>, at: (Seq<char>, u64), id: Seq<char>)
    ensures
        first_seen(seen.push(at), id) == match first_seen(seen, id) {
            Some(first) => Some(first),
            None => if at.0 == id {
                Some(at.1)
            } else {
                None
            },
        },
{
    assert(seen.push(at).drop_last() =~= seen);
}

/// How old an operation is counts from when it was first seen: seeing it again changes
/// nothing, and one that is new counts from now.
pub proof fn operations_age_from_when_they_were_first_seen(
    seen: Seq<(Seq<char>, u64)>,
    ops: Seq<OperationView>,
    now_ms: u64,
    id: Seq<char>,
)
    ensures
        first_seen(with_seen(seen, ops, now_ms), id) == match first_seen(seen, id) {
            Some(at) => Some(at),
            None => if exists|i: int| 0 <= i < ops.len() && (#[trigger] ops[i]).id == id {
                Some(now_ms)
            } else {
                None
            },
        },
    decreases ops.len(),
{
    if ops.len() > 0 {
        let head = ops.drop_last();
        let last = ops.len() - 1;
        operations_age_from_when_they_were_first_seen(seen, head, now_ms, id);
        operations_age_from_when_they_were_first_seen(seen, head, now_ms, ops.last().id);
        later_sights_do_not_count(with_seen(seen, head, now_ms), (ops.last().id, now_ms), id);
        assert(ops[last] == ops.last());
        assert forall|i: int| 0 <= i < head.len() implies #[trigger] head[i] == ops[i] by {}
        if exists|i: int| 0 <= i < ops.len() && (#[trigger] ops[i]).id == id {
            let i = choose|i: int| 0 <= i < ops.len() && (#[trigger] ops[i]).id == id;
            if i < last {
                assert(head[i].id == id);
            }
        }
    }
}

/// An operation is canceled where it can be, once.
pub proof fn operations_are_canceled_once(op: OperationView, attempted: Seq<Seq<char>>)
    ensures
        cancel_due(op, attempted) <==> op.may_cancel && !attempted.contains(op.id),
        !cancel_due(op, attempted.push(op.id)),
{
    assert(attempted.push(op.id).last() == op.id);
}

/// A container that an operation works on is the app's own where the operation names none.
pub proof fn operations_work_on_what_they_name(op: OperationView, app: Seq<char>)
    ensures
        targets_of(op, app).len() > 0,
        op.instance_names.len() > 0 ==> targets_of(op, app) == op.instance_names,
        op.instance_names.len() == 0 ==> targets_of(op, app) == seq![instance_of(app)],
{
}

/// Only what is called by name does other than to diagnose first and then cancel and reset;
/// the case of the name does not matter.
pub proof fn policies_are_called_by_name(raw: Option<Seq<char>>)
    ensures
        policy_of(raw) == BusyOpPolicy::Diagnose <==> raw is Some && lowered(raw->0)
            == "diagnose"@,
        policy_of(raw) == BusyOpPolicy::Force <==> raw is Some && lowered(raw->0) == "force"@,
{
    reveal_strlit("diagnose");
    reveal_strlit("force");
    assert("diagnose"@.len() != "force"@.len());
}

/// What is noted of a reset is what came of both its parts, or that there was nothing to
/// reset.
pub proof fn resets_are_noted(
    present: bool,
    stopped: Result<(), Seq<char>>,
    deleted: Result<(), Seq<char>>,
)
    ensures
        reset_notes(present, stopped, deleted).len() == if present {
            2int
        } else {
            1
        },
        present && stopped is Err ==> stopped->Err_0.is_suffix_of(
            reset_notes(present, stopped, deleted)[0],
        ),
        present && deleted is Err ==> deleted->Err_0.is_suffix_of(
            reset_notes(present, stopped, deleted)[1],
        ),
        present && stopped is Ok ==> reset_notes(present, stopped, deleted)[0]
            == "force-stop ok"@,
        present && deleted is Ok ==> reset_notes(present, stopped, deleted)[1] == "delete ok"@,
{
    let notes = reset_notes(present, stopped, deleted);
    if present {
        if let Err(err) = stopped {
            assert(notes[0].skip(notes[0].len() - err.len()) =~= err);
        }
        if let Err(err) = deleted {
            assert(notes[1].skip(notes[1].len() - err.len()) =~= err);
        }
    }
}

/// Whether a target needs no reset: the operation can be canceled, the target was reset or
/// passed over before, or it serves.
pub open spec fn needs_no_reset(
    r: ResetsView,
    op: OperationView,
    app: Seq<char>,
    active: Option<Seq<char>>,
    k: int,
) -> bool {
    op.may_cancel || r.attempted.contains(targets_of(op, app)[k]) || serving(
        targets_of(op, app)[k],
        active,
    )
}

/// No target is passed over that needs a reset: all that come before the one that is found,
/// and all there are where none is, need none.
pub proof fn all_that_blocks_is_reset(
    r: ResetsView,
    ops: Seq<OperationView>,
    app: Seq<char>,
    active: Option<Seq<char>>,
    i: int,
    k: int,
    a: int,
    b: int,
)
    requires
        0 <= i,
        0 <= k,
        i <= a < ops.len(),
        0 <= b < targets_of(ops[a], app).len(),
        a == i ==> k <= b,
    ensures
        match spec_next_reset(r, ops, app, active, i, k).1 {
            Some((x, y)) => a < x || a == x && b < y ==> needs_no_reset(r, ops[a], app, active, b),
            None => needs_no_reset(r, ops[a], app, active, b),
        },
    decreases ops.len() - i, targets_of(ops[i], app).len() - k,
{
    if ops[i].may_cancel || k >= targets_of(ops[i], app).len() {
        if a > i {
            all_that_blocks_is_reset(r, ops, app, active, i + 1, 0, a, b);
        }
    } else {
        let o = opened(r, ops[i], app, k);
        let target = targets_of(ops[i], app)[k];
        if o.attempted.contains(target) {
            if a > i || b > k {
                all_that_blocks_is_reset(o, ops, app, active, i, k + 1, a, b);
            }
        } else if serving(target, active) {
            let noted = ResetsView {
                attempted: o.attempted.push(target),
                skipped: o.skipped.push(serving_note(ops[i], target)),
                ..o
            };
            if a > i || b > k {
                all_that_blocks_is_reset(noted, ops, app, active, i, k + 1, a, b);
                let other = targets_of(ops[a], app)[b];
                if noted.attempted.contains(other) && other != target {
                    let m = choose|m: int|
                        0 <= m < noted.attempted.len() && noted.attempted[m] == other;
                    assert(o.attempted[m] == other);
                }
            }
        }
    }
}

} // verus!
