//! What a deploy leaves on record from its beginning to its end.

use vstd::prelude::*;
use crate::app_state::{desired_name, AppSpecRow, DesiredState, SpecRowView};
use crate::git::{active_revision, deployed_revision, GitDeployState};
use crate::json::{
    field, json_integer, json_object, json_text, json_text_array, render_json, rendered_json,
    text_array, Json, JsonView,
};
use crate::number::{decimal, decimal_of, signed_decimal, signed_decimal_of, wrapped, wrapped_i64};
use crate::text::{eq_ignore_ascii_case, lowered, outcome};

verus! {

/// What is on record of an app's state.
pub struct AppStatusRow {
    pub app_id: String,
    pub observed_generation: i64,
    pub phase: String,
    pub active_instance: Option<String>,
    pub candidate_instance: Option<String>,
    pub previous_instance: Option<String>,
    pub active_revision: Option<String>,
    pub candidate_revision: Option<String>,
    pub health_json: String,
    pub last_error_json: Option<String>,
    pub recovery_actions_json: String,
}

/// The mathematical form of this.
#[verifier::ext_equal]
pub struct StatusView {
    pub app_id: Seq<char>,
    pub observed_generation: i64,
    pub phase: Seq<char>,
    pub active_instance: Option<Seq<char>>,
    pub candidate_instance: Option<Seq<char>>,
    pub previous_instance: Option<Seq<char>>,
    pub active_revision: Option<Seq<char>>,
    pub candidate_revision: Option<Seq<char>>,
    pub health_json: Seq<char>,
    pub last_error_json: Option<Seq<char>>,
    pub recovery_actions_json: Seq<char>,
}

impl DeepView for AppStatusRow {
    type V = StatusView;

    open spec fn deep_view(&self) -> StatusView {
        StatusView {
            app_id: self.app_id@,
            observed_generation: self.observed_generation,
            phase: self.phase@,
            active_instance: self.active_instance.deep_view(),
            candidate_instance: self.candidate_instance.deep_view(),
            previous_instance: self.previous_instance.deep_view(),
            active_revision: self.active_revision.deep_view(),
            candidate_revision: self.candidate_revision.deep_view(),
            health_json: self.health_json@,
            last_error_json: self.last_error_json.deep_view(),
            recovery_actions_json: self.recovery_actions_json@,
        }
    }
}

/// A deploy that is under way: which one, and for what.
pub struct ReconcileIntentContext {
    pub intent_id: String,
    pub generation: i64,
    pub plan_hash: String,
    pub source_summary: String,
}

/// The mathematical form of this.
#[verifier::ext_equal]
pub struct ContextView {
    pub intent_id: Seq<char>,
    pub generation: i64,
    pub plan_hash: Seq<char>,
    pub source_summary: Seq<char>,
}

impl DeepView for ReconcileIntentContext {
    type V = ContextView;

    open spec fn deep_view(&self) -> ContextView {
        ContextView {
            intent_id: self.intent_id@,
            generation: self.generation,
            plan_hash: self.plan_hash@,
            source_summary: self.source_summary@,
        }
    }
}

/// A deploy that was asked for.
pub struct DeployIntentRow {
    pub intent_id: String,
    pub app_id: String,
    pub generation: i64,
    pub kind: String,
    pub payload_json: String,
}

/// The mathematical form of this.
#[verifier::ext_equal]
pub struct IntentView {
    pub intent_id: Seq<char>,
    pub app_id: Seq<char>,
    pub generation: i64,
    pub kind: Seq<char>,
    pub payload_json: Seq<char>,
}

impl DeepView for DeployIntentRow {
    type V = IntentView;

    open spec fn deep_view(&self) -> IntentView {
        IntentView {
            intent_id: self.intent_id@,
            app_id: self.app_id@,
            generation: self.generation,
            kind: self.kind@,
            payload_json: self.payload_json@,
        }
    }
}

/// How far a deploy came.
pub struct CheckpointRow {
    pub app_id: String,
    pub generation: i64,
    pub plan_hash: String,
    pub op_index: i64,
    pub op_name: String,
    pub last_result_json: Option<String>,
}

/// The mathematical form of this.
#[verifier::ext_equal]
pub struct CheckpointView {
    pub app_id: Seq<char>,
    pub generation: i64,
    pub plan_hash: Seq<char>,
    pub op_index: i64,
    pub op_name: Seq<char>,
    pub last_result_json: Option<Seq<char>>,
}

impl DeepView for CheckpointRow {
    type V = CheckpointView;

    open spec fn deep_view(&self) -> CheckpointView {
        CheckpointView {
            app_id: self.app_id@,
            generation: self.generation,
            plan_hash: self.plan_hash@,
            op_index: self.op_index,
            op_name: self.op_name@,
            last_result_json: self.last_result_json.deep_view(),
        }
    }
}

pub open spec fn reconciling_health() -> Seq<char> {
    "{\"healthy\":false,\"reason\":\"reconciling\"}"@
}

/// How far a deploy came, as put on record.
pub open spec fn checkpoint_of(
    app: Seq<char>,
    ctx: ContextView,
    op_index: i64,
    op_name: Seq<char>,
    last_result_json: Option<Seq<char>>,
) -> CheckpointView {
    CheckpointView {
        app_id: app,
        generation: ctx.generation,
        plan_hash: ctx.plan_hash,
        op_index,
        op_name,
        last_result_json,
    }
}

pub fn reconcile_checkpoint(
    app: &str,
    ctx: &ReconcileIntentContext,
    op_index: i64,
    op_name: &str,
    last_result_json: Option<String>,
) -> (r: CheckpointRow)
    ensures
        r.deep_view() == checkpoint_of(
            app@,
            ctx.deep_view(),
            op_index,
            op_name@,
            last_result_json.deep_view(),
        ),
{
    CheckpointRow {
        app_id: app.to_owned(),
        generation: ctx.generation,
        plan_hash: ctx.plan_hash.clone(),
        op_index,
        op_name: op_name.to_owned(),
        last_result_json,
    }
}

/// What a deploy puts on record as it begins.
pub struct Beginning {
    pub spec_row: AppSpecRow,
    pub intent: DeployIntentRow,
    pub checkpoint: CheckpointRow,
    pub status: AppStatusRow,
    pub ctx: ReconcileIntentContext,
}

/// The mathematical form of this.
#[verifier::ext_equal]
pub struct BeginningView {
    pub spec_row: SpecRowView,
    pub intent: IntentView,
    pub checkpoint: CheckpointView,
    pub status: StatusView,
    pub ctx: ContextView,
}

impl DeepView for Beginning {
    type V = BeginningView;

    open spec fn deep_view(&self) -> BeginningView {
        BeginningView {
            spec_row: self.spec_row.deep_view(),
            intent: self.intent.deep_view(),
            checkpoint: self.checkpoint.deep_view(),
            status: self.status.deep_view(),
            ctx: self.ctx.deep_view(),
        }
    }
}

/// The deploy of a generation of an app.
pub open spec fn context_of(
    app: Seq<char>,
    kind: Seq<char>,
    payload: Seq<char>,
    generation: i64,
    now: u64,
    process_id: u32,
) -> ContextView {
    ContextView {
        intent_id: decimal(now as nat) + "-"@ + decimal(process_id as nat) + "-"@
            + signed_decimal(generation as int),
        generation,
        plan_hash: app + ":"@ + kind + ":"@ + signed_decimal(generation as int),
        source_summary: payload,
    }
}

/// What a deploy puts on record as it begins.
pub open spec fn beginning_of(
    app: Seq<char>,
    kind: Seq<char>,
    source_kind: Seq<char>,
    payload: Seq<char>,
    ctx: ContextView,
    containers: (Option<Seq<char>>, Option<Seq<char>>),
    candidate: Option<Seq<char>>,
    revision: Option<Seq<char>>,
) -> BeginningView {
    BeginningView {
        spec_row: SpecRowView {
            app_id: app,
            generation: ctx.generation,
            desired_state: desired_name(DesiredState::Running),
            source_kind,
            source_payload_json: payload,
            runtime_payload_json: "{}"@,
        },
        intent: IntentView {
            intent_id: ctx.intent_id,
            app_id: app,
            generation: ctx.generation,
            kind,
            payload_json: payload,
        },
        checkpoint: checkpoint_of(app, ctx, 0, "intent-accepted"@, Some("{\"ok\":true}"@)),
        status: StatusView {
            app_id: app,
            observed_generation: ctx.generation,
            phase: "Reconciling"@,
            active_instance: containers.0,
            candidate_instance: candidate,
            previous_instance: containers.1,
            active_revision: revision,
            candidate_revision: None,
            health_json: reconciling_health(),
            last_error_json: None,
            recovery_actions_json: "[]"@,
        },
        ctx,
    }
}

/// What a deploy puts on record as it begins. `containers` names the active container and
/// the one before it, `candidate` the one that the last deploy was about to put into
/// service.
pub fn begin_reconcile_intent(
    app: &str,
    kind: &str,
    source_kind: &str,
    source_payload_json: &str,
    generation: i64,
    now: u64,
    process_id: u32,
    containers: (Option<String>, Option<String>),
    candidate: Option<String>,
    git_state: Option<&GitDeployState>,
) -> (r: Beginning)
    ensures
        r.deep_view() == beginning_of(
            app@,
            kind@,
            source_kind@,
            source_payload_json@,
            context_of(app@, kind@, source_payload_json@, generation, now, process_id),
            containers.deep_view(),
            candidate.deep_view(),
            deployed_revision(git_state.deep_view()),
        ),
{
    let number = signed_decimal_of(generation);
    let mut intent_id = decimal_of(now);
    intent_id.append("-");
    let pid = decimal_of(process_id as u64);
    intent_id.append(pid.as_str());
    intent_id.append("-");
    intent_id.append(number.as_str());
    let mut plan_hash = app.to_owned();
    plan_hash.append(":");
    plan_hash.append(kind);
    plan_hash.append(":");
    plan_hash.append(number.as_str());
    let ctx = ReconcileIntentContext {
        intent_id,
        generation,
        plan_hash,
        source_summary: source_payload_json.to_owned(),
    };
    let (active_instance, previous_instance) = containers;
    Beginning {
        spec_row: AppSpecRow {
            app_id: app.to_owned(),
            generation,
            desired_state: crate::app_state::desired_state_name(DesiredState::Running).to_owned(),
            source_kind: source_kind.to_owned(),
            source_payload_json: source_payload_json.to_owned(),
            runtime_payload_json: String::from_str("{}"),
        },
        intent: DeployIntentRow {
            intent_id: ctx.intent_id.clone(),
            app_id: app.to_owned(),
            generation,
            kind: kind.to_owned(),
            payload_json: source_payload_json.to_owned(),
        },
        checkpoint: reconcile_checkpoint(
            app,
            &ctx,
            0,
            "intent-accepted",
            Some(String::from_str("{\"ok\":true}")),
        ),
        status: AppStatusRow {
            app_id: app.to_owned(),
            observed_generation: generation,
            phase: String::from_str("Reconciling"),
            active_instance,
            candidate_instance: candidate,
            previous_instance,
            active_revision: active_revision(git_state),
            candidate_revision: None,
            health_json: String::from_str("{\"healthy\":false,\"reason\":\"reconciling\"}"),
            last_error_json: None,
            recovery_actions_json: String::from_str("[]"),
        },
        ctx,
    }
}

/// What a deploy puts on record as it ends.
pub struct Ending {
    pub status: AppStatusRow,
    /// Where it came to, if it failed; else that is forgotten.
    pub checkpoint: Option<CheckpointRow>,
    /// How it ended, in a word and in a sentence.
    pub result: String,
    pub summary: String,
}

/// The mathematical form of this.
#[verifier::ext_equal]
pub struct EndingView {
    pub status: StatusView,
    pub checkpoint: Option<CheckpointView>,
    pub result: Seq<char>,
    pub summary: Seq<char>,
}

impl DeepView for Ending {
    type V = EndingView;

    open spec fn deep_view(&self) -> EndingView {
        EndingView {
            status: self.status.deep_view(),
            checkpoint: self.checkpoint.deep_view(),
            result: self.result@,
            summary: self.summary@,
        }
    }
}

/// An error as an object.
pub open spec fn error_object(err: Seq<char>) -> JsonView {
    JsonView::Object(seq![("error"@, JsonView::Text(err))])
}

fn error_json(err: &str) -> (r: Json)
    ensures
        r.deep_view() == error_object(err@),
{
    let members = vec![field("error", json_text(err))];
    assert(members.deep_view() =~= seq![("error"@, JsonView::Text(err@))]);
    json_object(members)
}

/// The error of a deploy of a generation, as an object.
pub open spec fn failed_object(err: Seq<char>, generation: i64) -> JsonView {
    JsonView::Object(
        seq![
            ("error"@, JsonView::Text(err)),
            ("generation"@, JsonView::Number(signed_decimal(generation as int))),
        ],
    )
}

fn failed_json(err: &str, generation: i64) -> (r: Json)
    ensures
        r.deep_view() == failed_object(err@, generation),
{
    let members = vec![
        field("error", json_text(err)),
        field("generation", json_integer(generation)),
    ];
    assert(members.deep_view() =~= seq![
        ("error"@, JsonView::Text(err@)),
        ("generation"@, JsonView::Number(signed_decimal(generation as int))),
    ]);
    json_object(members)
}

/// What can be done about a deploy that failed.
pub open spec fn recovery_actions() -> JsonView {
    text_array(seq!["inspect deploy logs"@, "run `psht health`"@, "retry deploy"@])
}

fn recovery_json() -> (r: Json)
    ensures
        r.deep_view() == recovery_actions(),
{
    let actions = vec![
        String::from_str("inspect deploy logs"),
        String::from_str("run `psht health`"),
        String::from_str("retry deploy"),
    ];
    assert(actions.deep_view() =~= seq![
        "inspect deploy logs"@,
        "run `psht health`"@,
        "retry deploy"@,
    ]);
    json_text_array(&actions)
}

/// What a deploy puts on record as it ends.
pub open spec fn ending_of(
    app: Seq<char>,
    ctx: ContextView,
    result: Result<(), Seq<char>>,
    revision: Option<Seq<char>>,
    containers: (Option<Seq<char>>, Option<Seq<char>>),
) -> EndingView {
    let status = StatusView {
        app_id: app,
        observed_generation: ctx.generation,
        phase: "Idle"@,
        active_instance: containers.0,
        candidate_instance: None,
        previous_instance: containers.1,
        active_revision: revision,
        candidate_revision: None,
        health_json: "{\"healthy\":true}"@,
        last_error_json: None,
        recovery_actions_json: "[]"@,
    };
    match result {
        Ok(_) => EndingView {
            status,
            checkpoint: None,
            result: "success"@,
            summary: "deploy succeeded ("@ + ctx.source_summary + ")"@,
        },
        Err(err) => EndingView {
            status: StatusView {
                phase: "Degraded"@,
                health_json: "{\"healthy\":false}"@,
                last_error_json: Some(rendered_json(failed_object(err, ctx.generation))),
                recovery_actions_json: rendered_json(recovery_actions()),
                ..status
            },
            checkpoint: Some(
                checkpoint_of(app, ctx, 999, "failed"@, Some(rendered_json(error_object(err)))),
            ),
            result: "failed"@,
            summary: err,
        },
    }
}

pub fn complete_reconcile_intent(
    app: &str,
    ctx: &ReconcileIntentContext,
    result: &Result<(), String>,
    revision: Option<String>,
    containers: (Option<String>, Option<String>),
) -> (r: Ending)
    ensures
        r.deep_view() == ending_of(
            app@,
            ctx.deep_view(),
            outcome(*result),
            revision.deep_view(),
            containers.deep_view(),
        ),
{
    let (active_instance, previous_instance) = containers;
    let mut status = AppStatusRow {
        app_id: app.to_owned(),
        observed_generation: ctx.generation,
        phase: String::from_str("Idle"),
        active_instance,
        candidate_instance: None,
        previous_instance,
        active_revision: revision,
        candidate_revision: None,
        health_json: String::from_str("{\"healthy\":true}"),
        last_error_json: None,
        recovery_actions_json: String::from_str("[]"),
    };
    match result {
        Ok(_) => {
            let mut summary = String::from_str("deploy succeeded (");
            summary.append(ctx.source_summary.as_str());
            summary.append(")");
            Ending { status, checkpoint: None, result: String::from_str("success"), summary }
        },
        Err(err) => {
            status.phase = String::from_str("Degraded");
            status.health_json = String::from_str("{\"healthy\":false}");
            status.last_error_json = Some(render_json(&failed_json(err.as_str(), ctx.generation)));
            status.recovery_actions_json = render_json(&recovery_json());
            let checkpoint = reconcile_checkpoint(
                app,
                ctx,
                999,
                "failed",
                Some(render_json(&error_json(err.as_str()))),
            );
            Ending {
                status,
                checkpoint: Some(checkpoint),
                result: String::from_str("failed"),
                summary: err.clone(),
            }
        },
    }
}

/// A deploy ends in the generation that it began in: its records name it throughout, and
/// those of its end say that the app is well only where it succeeded.
pub proof fn deploys_end_in_their_generation(
    app: Seq<char>,
    kind: Seq<char>,
    source_kind: Seq<char>,
    payload: Seq<char>,
    generation: i64,
    now: u64,
    process_id: u32,
    result: Result<(), Seq<char>>,
    revision: Option<Seq<char>>,
    containers: (Option<Seq<char>>, Option<Seq<char>>),
    candidate: Option<Seq<char>>,
)
    ensures
        ({
            let ctx = context_of(app, kind, payload, generation, now, process_id);
            let first = beginning_of(
                app,
                kind,
                source_kind,
                payload,
                ctx,
                containers,
                candidate,
                revision,
            );
            let last = ending_of(app, first.ctx, result, revision, containers);
            &&& first.spec_row.generation == generation
            &&& first.intent.generation == generation
            &&& first.checkpoint.generation == generation
            &&& first.status.observed_generation == generation
            &&& last.status.observed_generation == generation
            &&& last.checkpoint is Some ==> last.checkpoint->0.generation == generation
            &&& last.checkpoint is Some <==> result is Err
            &&& last.status.last_error_json is Some <==> result is Err
            &&& (last.status.health_json == "{\"healthy\":true}"@) <==> result is Ok
        }),
{
    reveal_strlit("{\"healthy\":true}");
    reveal_strlit("{\"healthy\":false}");
    assert("{\"healthy\":true}"@.len() != "{\"healthy\":false}"@.len());
}

// ---------------------------------------------------------------------------
// Leases
// ---------------------------------------------------------------------------

/// The lease under which a process deploys an app.
pub struct ActiveReconcileLease {
    pub owner: String,
    pub epoch: i64,
    pub intent_id: String,
    pub generation: i64,
}

/// The mathematical form of this.
#[verifier::ext_equal]
pub struct LeaseView {
    pub owner: Seq<char>,
    pub epoch: i64,
    pub intent_id: Seq<char>,
    pub generation: i64,
}

impl DeepView for ActiveReconcileLease {
    type V = LeaseView;

    open spec fn deep_view(&self) -> LeaseView {
        LeaseView {
            owner: self.owner@,
            epoch: self.epoch,
            intent_id: self.intent_id@,
            generation: self.generation,
        }
    }
}

/// Who holds the lease of a deploy.
pub fn lease_owner(hostname: &str, process_id: u32, ctx: &ReconcileIntentContext) -> (r: String)
    ensures
        r@ == hostname@ + ":"@ + decimal(process_id as nat) + ":"@ + ctx.intent_id@,
{
    let mut r = hostname.to_owned();
    r.append(":");
    let pid = decimal_of(process_id as u64);
    r.append(pid.as_str());
    r.append(":");
    r.append(ctx.intent_id.as_str());
    r
}

/// How long a lease lasts, in milliseconds, as the store takes it.
pub fn lease_ttl_ms(ttl_secs: u64) -> (r: i64)
    requires
        ttl_secs * 1000 <= u64::MAX,
    ensures
        r == wrapped((ttl_secs * 1000) as u64),
{
    wrapped_i64(ttl_secs * 1000)
}

/// Whether a lease is to be renewed.
pub fn heartbeat_due(
    lease: Option<&ActiveReconcileLease>,
    elapsed_secs: u64,
    heartbeat_secs: u64,
) -> (r: bool)
    ensures
        r == (lease is Some && elapsed_secs >= heartbeat_secs),
{
    lease.is_some() && elapsed_secs >= heartbeat_secs
}

/// A step of a deploy, as put on record.
pub struct ReconcileAttemptRow {
    pub app_id: String,
    pub intent_id: String,
    pub generation: i64,
    pub step_name: String,
    pub started_at_ms: i64,
    pub finished_at_ms: Option<i64>,
    pub result: String,
    pub detail_json: String,
}

/// The mathematical form of this.
#[verifier::ext_equal]
pub struct AttemptView {
    pub app_id: Seq<char>,
    pub intent_id: Seq<char>,
    pub generation: i64,
    pub step_name: Seq<char>,
    pub started_at_ms: i64,
    pub finished_at_ms: Option<i64>,
    pub result: Seq<char>,
    pub detail_json: Seq<char>,
}

impl DeepView for ReconcileAttemptRow {
    type V = AttemptView;

    open spec fn deep_view(&self) -> AttemptView {
        AttemptView {
            app_id: self.app_id@,
            intent_id: self.intent_id@,
            generation: self.generation,
            step_name: self.step_name@,
            started_at_ms: self.started_at_ms,
            finished_at_ms: self.finished_at_ms,
            result: self.result@,
            detail_json: self.detail_json@,
        }
    }
}

/// A step to put on record, where the process holds a lease.
pub fn append_reconcile_attempt_record(
    app: &str,
    lease: Option<&ActiveReconcileLease>,
    step_name: &str,
    result: &str,
    detail: &Json,
    now_ms: i64,
) -> (r: Option<ReconcileAttemptRow>)
    ensures
        r.deep_view() == match lease {
            Some(lease) => Some(
                AttemptView {
                    app_id: app@,
                    intent_id: lease.intent_id@,
                    generation: lease.generation,
                    step_name: step_name@,
                    started_at_ms: now_ms,
                    finished_at_ms: Some(now_ms),
                    result: result@,
                    detail_json: rendered_json(detail.deep_view()),
                },
            ),
            None => None,
        },
{
    match lease {
        Some(lease) => Some(
            ReconcileAttemptRow {
                app_id: app.to_owned(),
                intent_id: lease.intent_id.clone(),
                generation: lease.generation,
                step_name: step_name.to_owned(),
                started_at_ms: now_ms,
                finished_at_ms: Some(now_ms),
                result: result.to_owned(),
                detail_json: render_json(detail),
            },
        ),
        None => None,
    }
}

/// The state of an app in a phase of its deploy.
pub open spec fn phase_status(
    app: Seq<char>,
    generation: i64,
    phase: Seq<char>,
    last_error: Option<Seq<char>>,
    containers: (Option<Seq<char>>, Option<Seq<char>>),
    revision: Option<Seq<char>>,
) -> StatusView {
    StatusView {
        app_id: app,
        observed_generation: generation,
        phase,
        active_instance: containers.0,
        candidate_instance: None,
        previous_instance: containers.1,
        active_revision: revision,
        candidate_revision: None,
        health_json: if lowered(phase) == lowered("blocked"@) {
            "{\"healthy\":false,\"reason\":\"blocked\"}"@
        } else {
            reconciling_health()
        },
        last_error_json: match last_error {
            Some(err) => Some(rendered_json(error_object(err))),
            None => None,
        },
        recovery_actions_json: "[]"@,
    }
}

/// The state of an app in a phase of its deploy, where the process holds a lease.
pub fn update_reconcile_phase_from_lease(
    app: &str,
    lease: Option<&ActiveReconcileLease>,
    phase: &str,
    last_error: Option<&str>,
    containers: (Option<String>, Option<String>),
    git_state: Option<&GitDeployState>,
) -> (r: Option<AppStatusRow>)
    ensures
        r.deep_view() == match lease {
            Some(lease) => Some(
                phase_status(
                    app@,
                    lease.generation,
                    phase@,
                    last_error.deep_view(),
                    containers.deep_view(),
                    deployed_revision(git_state.deep_view()),
                ),
            ),
            None => None,
        },
{
    let lease = match lease {
        Some(lease) => lease,
        None => {
            return None;
        },
    };
    let (active_instance, previous_instance) = containers;
    let health_json = if eq_ignore_ascii_case(phase, "blocked") {
        String::from_str("{\"healthy\":false,\"reason\":\"blocked\"}")
    } else {
        String::from_str("{\"healthy\":false,\"reason\":\"reconciling\"}")
    };
    let last_error_json = match last_error {
        Some(err) => Some(render_json(&error_json(err))),
        None => None,
    };
    Some(
        AppStatusRow {
            app_id: app.to_owned(),
            observed_generation: lease.generation,
            phase: phase.to_owned(),
            active_instance,
            candidate_instance: None,
            previous_instance,
            active_revision: active_revision(git_state),
            candidate_revision: None,
            health_json,
            last_error_json,
            recovery_actions_json: String::from_str("[]"),
        },
    )
}

/// A deploy that begins is on record as under way, from where the app stands, with the
/// candidate it is to go to; it is meant to run from then on.
pub proof fn deploys_begin_on_record(
    app: Seq<char>,
    kind: Seq<char>,
    source_kind: Seq<char>,
    payload: Seq<char>,
    ctx: ContextView,
    containers: (Option<Seq<char>>, Option<Seq<char>>),
    candidate: Option<Seq<char>>,
    revision: Option<Seq<char>>,
)
    ensures
        ({
            let first = beginning_of(
                app,
                kind,
                source_kind,
                payload,
                ctx,
                containers,
                candidate,
                revision,
            );
            &&& first.status.phase == "Reconciling"@
            &&& first.status.active_instance == containers.0
            &&& first.status.previous_instance == containers.1
            &&& first.status.candidate_instance == candidate
            &&& first.status.active_revision == revision
            &&& first.status.last_error_json is None
            &&& first.spec_row.desired_state == desired_name(DesiredState::Running)
            &&& first.spec_row.app_id == app && first.intent.app_id == app
            &&& first.checkpoint.app_id == app && first.status.app_id == app
            &&& first.intent.kind == kind && first.spec_row.source_kind == source_kind
            &&& first.intent.payload_json == payload
            &&& first.intent.intent_id == ctx.intent_id
            &&& first.checkpoint.plan_hash == ctx.plan_hash
        }),
{
}

/// A deploy that ends leaves the app idle where it succeeded and degraded where it failed,
/// with what is to be done then; no candidate is left in either case, and the error is
/// what is told of it.
pub proof fn deploys_end_on_record(
    app: Seq<char>,
    ctx: ContextView,
    result: Result<(), Seq<char>>,
    revision: Option<Seq<char>>,
    containers: (Option<Seq<char>>, Option<Seq<char>>),
)
    ensures
        ({
            let last = ending_of(app, ctx, result, revision, containers);
            &&& last.status.app_id == app
            &&& last.status.phase == if result is Ok {
                "Idle"@
            } else {
                "Degraded"@
            }
            &&& last.status.active_instance == containers.0
            &&& last.status.previous_instance == containers.1
            &&& last.status.candidate_instance is None
            &&& last.status.active_revision == revision
            &&& last.result == if result is Ok {
                "success"@
            } else {
                "failed"@
            }
            &&& result is Err ==> last.summary == result->Err_0
            &&& result is Err ==> last.checkpoint->0.op_name == "failed"@
        }),
{
}

/// What is told of the health of an app under way is that it is blocked exactly where its
/// phase says so, and an error is told exactly where there is one.
pub proof fn phases_are_on_record(
    app: Seq<char>,
    generation: i64,
    phase: Seq<char>,
    last_error: Option<Seq<char>>,
    containers: (Option<Seq<char>>, Option<Seq<char>>),
    revision: Option<Seq<char>>,
)
    ensures
        ({
            let status = phase_status(app, generation, phase, last_error, containers, revision);
            &&& status.phase == phase
            &&& status.observed_generation == generation
            &&& status.active_instance == containers.0
            &&& status.previous_instance == containers.1
            &&& status.last_error_json is Some <==> last_error is Some
            &&& lowered(phase) == lowered("blocked"@) ==> status.health_json
                == "{\"healthy\":false,\"reason\":\"blocked\"}"@
            &&& lowered(phase) != lowered("blocked"@) ==> status.health_json
                == "{\"healthy\":false,\"reason\":\"reconciling\"}"@
        }),
{
}

} // verus!
