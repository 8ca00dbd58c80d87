use psht::blocked::{
    after_cancels, after_resets, blocked_operation_error, blocking_op_age_secs,
    blocking_op_targets, blocking_ops_json, blocking_ops_summary, look, note_seen, phase_text,
    reset_steps, target_is_currently_serving, BlockingOperation, BusyOpPolicy, Cancels, Look,
    Onward, Resets, WaitPhase,
};
use psht::blue_green as bg;
use psht::blue_green::{BlueGreen, Reply, Rollout, Signal};
use psht::bootstrap::{Bootstrap, CHECK_OAUTH};
use psht::deploy::{
    after_deploy, after_deploy_attempt, after_push_attempt, already_deployed, back_off,
    begin_attempt, deploy_failure_footer, deploy_in_progress_error, deploy_revision, forced_step,
    git_source_payload, git_status_after, holder_action, holder_survived_error, kill_step, new_retries,
    push_decision, push_source_payload, say_again, takeover_refused_error, when_locked,
    AfterAttempt, AfterDeploy, Forced, HolderAction, KillStep, PushDecision, Watch, WhenLocked,
};
use psht::failure::{
    check_deploy_interrupt, deploy_interrupt_state_for_signal, deploy_interrupted_error,
    deploy_request_id, deploy_result_was_interrupted, is_cached_setup_failure,
    is_deploy_interrupted_error, is_fresh_setup_failure, mark_cached_setup_failure,
    mark_fresh_setup_failure, strip_internal_deploy_error_markers, DeployInterruptState,
    InterruptCheck,
};
use psht::git::{
    active_revision, checkout_comparison, checkout_ref_target, clone_args, copy_target,
    git_deploy_status_as_str, git_deploy_status_from_str, project_of_user, verify_checkout,
    Comparison, GitCheckoutTarget, GitDeployState, GitDeployStatus, PendingGitDeployRequest,
};
use psht::hostname::TailscaleJoinAttempt;
use psht::in_place as ip;
use psht::intent::{append_reconcile_attempt_record, ActiveReconcileLease};
use psht::json::Json;
use psht::lock::{
    deploy_lock_text, lock_file_is_stale, lock_step, parse_deploy_lock_metadata,
    DeployLockMetadata, LockStep, LockTry,
};
use psht::power::{Power, PowerStep};
use psht::progress::{
    in_place_closing_line, in_place_opening_line, join_line, not_healthy_line, power_closing_line,
    power_opening_line,
};
use psht::quiet_wait::{QuietWait, WaitAction};

fn texts(list: &[&str]) -> Vec<String> {
    list.iter().map(|text| text.to_string()).collect()
}

// A value as it is put on record.
fn written(value: &Json) -> String {
    let lease = ActiveReconcileLease {
        owner: "box".to_string(),
        epoch: 1,
        intent_id: "i".to_string(),
        generation: 1,
    };
    append_reconcile_attempt_record("web", Some(&lease), "step", "ok", value, 0)
        .unwrap()
        .detail_json
}

fn target(ref_name: &str, sha: &str) -> GitCheckoutTarget {
    GitCheckoutTarget {
        ref_name: ref_name.to_string(),
        sha: sha.to_string(),
    }
}

fn state(sha: &str, status: GitDeployStatus) -> GitDeployState {
    GitDeployState {
        ref_name: "refs/heads/main".to_string(),
        sha: sha.to_string(),
        status,
    }
}

fn operation(id: &str, may_cancel: bool, instances: &[&str]) -> BlockingOperation {
    BlockingOperation {
        id: id.to_string(),
        status: "Running".to_string(),
        status_code: 103,
        class: "task".to_string(),
        description: "Starting instance".to_string(),
        may_cancel,
        resources: texts(&["/1.0/instances/psht-web"]),
        instance_names: texts(instances),
    }
}

// A deploy beside the active container, with the given replies and `Done` for the rest.
fn rollout(rollout: &mut Rollout, replies: &[(u8, Reply)]) -> Vec<u8> {
    let mut steps = Vec::new();
    while rollout.state.step != bg::SUCCEEDED && rollout.state.step < bg::FAILED {
        let step = rollout.state.step;
        assert!(!steps.contains(&step));
        steps.push(step);
        let reply = match replies.iter().find(|entry| entry.0 == step) {
            Some((_, Reply::Yes)) => Reply::Yes,
            Some((_, Reply::Failed(err))) => Reply::Failed(err.clone()),
            Some((_, Reply::Detected { binary, packages, install })) => Reply::Detected {
                binary: *binary,
                packages: *packages,
                install: *install,
            },
            _ => Reply::Done,
        };
        rollout.advance(reply);
    }
    steps
}

fn failed(err: &str) -> Reply {
    Reply::Failed(err.to_string())
}

#[test]
fn a_candidate_is_built_from_scratch_and_takes_over() {
    let mut deploy = Rollout::new("web", "web-deploy-7", false, false);
    let found = Reply::Detected {
        binary: false,
        packages: true,
        install: true,
    };
    let steps = rollout(
        &mut deploy,
        &[
            (bg::PROBE_PROJECT, Reply::Yes),
            (bg::RESOLVE_ACTIVE, Reply::Yes),
            (bg::DETECT_APP, found),
            (bg::PROBE_ACTIVE_TAILSCALE, Reply::Yes),
        ],
    );
    assert_eq!(deploy.verdict(), Ok(()));
    for step in [
        bg::ENSURE_PROFILE,
        bg::CREATE_CANDIDATE,
        bg::RUN_SETUP_SCRIPT,
        bg::PUBLISH_STACK_IMAGE,
        bg::INSTALL_PACKAGES,
        bg::PUBLISH_SETUP_IMAGE,
        bg::RUN_INSTALL,
        bg::DETACH_ACTIVE_TAILSCALE,
        bg::ACQUIRE_HOSTNAME,
        bg::CLEAR_BINARY_HASH,
    ] {
        assert!(steps.contains(&step));
    }
    for step in [
        bg::HASH_BINARY,
        bg::WAIT_PREVIOUS_QUIET,
        bg::RESET_CANDIDATE,
        bg::CREATE_FROM_SETUP_IMAGE,
        bg::CREATE_FROM_STACK_IMAGE,
        bg::START_CANDIDATE,
        bg::WRITE_BINARY_HASH,
        bg::CLEAN_BUILD,
    ] {
        assert!(!steps.contains(&step));
    }
    assert!(deploy.state.candidate_listening);
}

#[test]
fn traffic_moves_only_after_the_candidate_is_built() {
    let mut deploy = Rollout::new("web", "web-deploy-7", true, false);
    let steps = rollout(&mut deploy, &[(bg::RESOLVE_ACTIVE, Reply::Yes)]);
    let at = |step: u8| steps.iter().position(|s| *s == step);
    assert!(at(bg::RUN_POSTINSTALL) < at(bg::REMOVE_ACTIVE_PROXY));
    assert!(at(bg::REMOVE_ACTIVE_PROXY) < at(bg::DETACH_ACTIVE_STORAGE));
    assert!(at(bg::DETACH_ACTIVE_STORAGE) < at(bg::ATTACH_CANDIDATE_STORAGE));
    assert!(at(bg::ATTACH_CANDIDATE_STORAGE) < at(bg::ATTACH_CANDIDATE_PROXY));
    assert!(at(bg::ATTACH_CANDIDATE_PROXY) < at(bg::WAIT_CANDIDATE_LISTENER));
    assert!(at(bg::WAIT_CANDIDATE_LISTENER) < at(bg::WRITE_RUNTIME_STATE));
    assert_eq!(at(bg::ACQUIRE_HOSTNAME), None);
    assert_eq!(at(bg::INSTALL_TAILSCALE), None);
    assert_eq!(deploy.verdict(), Ok(()));
}

#[test]
fn apps_are_launched_after_their_checks_and_hooks() {
    let install = || Reply::Detected {
        binary: false,
        packages: false,
        install: true,
    };
    let mut deploy = Rollout::new("web", "web-build-7", true, false);
    let steps = rollout(
        &mut deploy,
        &[(bg::RESOLVE_ACTIVE, Reply::Yes), (bg::DETECT_APP, install())],
    );
    let at = |step: u8| steps.iter().position(|s| *s == step).unwrap();
    assert!(at(bg::CHECK_REQUIRED_ENV) < at(bg::RUN_PREINSTALL));
    assert!(at(bg::RUN_PREINSTALL) < at(bg::RUN_INSTALL));
    assert!(at(bg::RUN_INSTALL) < at(bg::RUN_POSTINSTALL));
    assert!(at(bg::RUN_POSTINSTALL) < at(bg::LAUNCH_CANDIDATE));
    let mut unset = Rollout::new("web", "web-build-7", true, false);
    let steps = rollout(
        &mut unset,
        &[
            (bg::RESOLVE_ACTIVE, Reply::Yes),
            (bg::DETECT_APP, install()),
            (bg::CHECK_REQUIRED_ENV, failed("missing required env vars: TOKEN")),
        ],
    );
    assert!(!steps.contains(&bg::LAUNCH_CANDIDATE));
    assert_eq!(unset.verdict(), Err("missing required env vars: TOKEN".to_string()));
    let (s, steps) = in_place(true, false, &[(ip::RUN_PREINSTALL, Signal::Failed)]);
    assert_eq!(s.step, ip::FAILED);
    assert!(!steps.contains(&ip::LAUNCH));
}

#[test]
fn a_failed_cutover_is_undone() {
    let mut deploy = Rollout::new("web", "web-deploy-7", true, false);
    let steps = rollout(
        &mut deploy,
        &[
            (bg::RESOLVE_ACTIVE, Reply::Yes),
            (bg::WAIT_CANDIDATE_LISTENER, failed("no listener")),
            (bg::READ_ACTIVE_START_COMMAND, Reply::Yes),
        ],
    );
    let undone = [
        bg::UNDO_CANDIDATE_PROXY,
        bg::UNDO_CANDIDATE_STORAGE,
        bg::RESTORE_ACTIVE_STORAGE,
        bg::RESTORE_ACTIVE_PROXY,
        bg::READ_ACTIVE_START_COMMAND,
        bg::RELAUNCH_ACTIVE,
        bg::RESTORE_ROUTE,
        bg::CLEAN_FAILED_CANDIDATE,
    ];
    let from = steps.len() - undone.len();
    assert_eq!(&steps[from..], &undone);
    assert_eq!(
        deploy.verdict(),
        Err(
            "deploy cutover failed and rollback was applied: no listener; rollback issues: none"
                .to_string()
        )
    );
}

#[test]
fn what_a_rollback_cannot_undo_is_named() {
    let mut deploy = Rollout::new("web", "web-deploy-7", true, false);
    rollout(
        &mut deploy,
        &[
            (bg::RESOLVE_ACTIVE, Reply::Yes),
            (bg::ADD_ROUTE, failed("caddy is down")),
            (bg::UNDO_CANDIDATE_PROXY, failed("busy")),
            (bg::RESTORE_ACTIVE_PROXY, failed("taken")),
            (bg::RESTORE_ROUTE, failed("still down")),
            (bg::CLEAN_FAILED_CANDIDATE, failed("stuck")),
        ],
    );
    assert_eq!(
        deploy.verdict().unwrap_err(),
        "deploy cutover failed and rollback was applied: caddy is down; rollback issues: \
         failed to detach candidate proxy device: busy, \
         failed to restore previous proxy device: taken, \
         failed to clean failed candidate 'web-deploy-7': stuck"
    );
}

#[test]
fn failed_builds_are_cleaned_away_and_marked() {
    let install = Reply::Detected {
        binary: false,
        packages: false,
        install: true,
    };
    let mut cached = Rollout::new("web", "web-deploy-7", true, false);
    let steps = rollout(
        &mut cached,
        &[
            (bg::RESOLVE_ACTIVE, Reply::Yes),
            (bg::DETECT_APP, install),
            (bg::PROBE_SETUP_IMAGE, Reply::Yes),
            (bg::RUN_INSTALL, failed("npm broke")),
            (bg::CLEAN_BUILD, failed("stuck")),
        ],
    );
    assert_eq!(steps.last(), Some(&bg::CLEAN_BUILD));
    let err = cached.verdict().unwrap_err();
    assert!(is_cached_setup_failure(&err));
    assert_eq!(
        strip_internal_deploy_error_markers(&err),
        "npm broke; candidate cleanup failed: stuck"
    );

    let mut fresh = Rollout::new("web", "web-deploy-7", true, true);
    rollout(
        &mut fresh,
        &[
            (bg::RESOLVE_ACTIVE, Reply::Yes),
            (bg::RUN_PREINSTALL, failed("hook broke")),
        ],
    );
    assert_eq!(
        fresh.verdict().unwrap_err(),
        "__psht_fresh_setup_failure__:hook broke"
    );

    let mut plain = Rollout::new("web", "web-deploy-7", true, false);
    rollout(
        &mut plain,
        &[
            (bg::RESOLVE_ACTIVE, Reply::Yes),
            (bg::CREATE_CANDIDATE, failed("no image")),
        ],
    );
    assert_eq!(plain.verdict(), Err("no image".to_string()));
}

#[test]
fn an_inactive_container_is_reused_where_its_setup_fits() {
    let mut deploy = Rollout::new("web", "web-deploy-7", true, false);
    deploy.previous = Some("web-deploy-5".to_string());
    let steps = rollout(
        &mut deploy,
        &[
            (bg::RESOLVE_ACTIVE, Reply::Yes),
            (bg::READ_PREVIOUS, Reply::Yes),
            (bg::COMPARE_PREVIOUS_SETUP, Reply::Yes),
        ],
    );
    assert_eq!(deploy.candidate, "web-deploy-5");
    assert!(steps.contains(&bg::START_CANDIDATE));
    assert!(!steps.contains(&bg::CREATE_CANDIDATE));
    assert!(!steps.contains(&bg::PROBE_CANDIDATE));
    assert_eq!(deploy.verdict(), Ok(()));

    let mut pending = Rollout::new("web", "web-deploy-7", true, false);
    pending.previous = Some("web-deploy-5".to_string());
    let steps = rollout(
        &mut pending,
        &[
            (bg::RESOLVE_ACTIVE, Reply::Yes),
            (bg::READ_PREVIOUS, Reply::Yes),
            (bg::READ_CLEANUP_JOB, Reply::Yes),
        ],
    );
    assert!(!steps.contains(&bg::COMPARE_PREVIOUS_SETUP));
    assert_eq!(pending.candidate, "web-deploy-7");
}

#[test]
fn a_busy_active_container_stops_a_deploy_unless_it_serves() {
    let mut serving = Rollout::new("web", "web-deploy-7", true, false);
    let steps = rollout(
        &mut serving,
        &[
            (bg::RESOLVE_ACTIVE, Reply::Yes),
            (bg::WAIT_ACTIVE_QUIET, failed("busy")),
            (bg::PROBE_ACTIVE_SERVING, Reply::Yes),
        ],
    );
    assert!(steps.contains(&bg::PROBE_ACTIVE_SERVING));
    assert_eq!(serving.verdict(), Ok(()));

    let mut idle = Rollout::new("web", "web-deploy-7", true, false);
    rollout(
        &mut idle,
        &[
            (bg::RESOLVE_ACTIVE, Reply::Yes),
            (bg::WAIT_ACTIVE_QUIET, failed("busy")),
        ],
    );
    assert_eq!(idle.verdict(), Err("busy".to_string()));
}

#[test]
fn deploys_without_an_active_container_are_refused() {
    let mut missing = Rollout::new("web", "web-deploy-7", true, false);
    rollout(&mut missing, &[]);
    assert_eq!(
        missing.verdict(),
        Err("app 'web' not found for blue/green deploy".to_string())
    );
    let mut stuck = Rollout::new("web", "web-deploy-7", true, false);
    rollout(
        &mut stuck,
        &[
            (bg::RESOLVE_ACTIVE, Reply::Yes),
            (bg::PROBE_CANDIDATE, Reply::Yes),
            (bg::RESET_CANDIDATE, failed("in use")),
        ],
    );
    assert_eq!(
        stuck.verdict(),
        Err("failed to reset existing candidate 'web-deploy-7' before rebuild: in use".to_string())
    );
    let mut late = Rollout::new("web", "web-deploy-7", true, false);
    rollout(
        &mut late,
        &[
            (bg::RESOLVE_ACTIVE, Reply::Yes),
            (bg::RECONCILE_AFTER_CUTOVER, failed("stuck")),
        ],
    );
    assert_eq!(
        late.verdict(),
        Err("post-cutover family reconciliation failed: stuck".to_string())
    );
}

#[test]
fn every_step_leads_on_whatever_becomes_of_it() {
    let signals = [
        Signal::Done,
        Signal::Yes,
        Signal::No,
        Signal::Failed,
        Signal::Detected {
            binary: true,
            packages: true,
            install: true,
        },
    ];
    for (skip, fresh) in [(false, false), (true, true)] {
        for turn in 0..signals.len() {
            let mut s: BlueGreen = bg::start(skip, fresh);
            assert!(bg::from_scratch(s));
            let mut steps = 0;
            while s.step != bg::SUCCEEDED && s.step < bg::FAILED {
                let signal = match s.step {
                    bg::RESOLVE_ACTIVE => Signal::Yes,
                    step => signals[(turn + step as usize) % signals.len()],
                };
                let after = bg::next(s, signal);
                assert!(after.step > s.step);
                assert!(after.step == bg::SUCCEEDED || bg::due(after, after.step) || after.step >= bg::FAILED);
                s = after;
                steps += 1;
            }
            assert!(steps <= 99);
            assert_eq!(bg::next(s, Signal::Done).step, s.step);
        }
    }
    assert!(bg::lenient(bg::EXPOSE_HTTP));
    assert!(!bg::lenient(bg::ADD_ROUTE));
    assert_eq!(bg::signal(&failed("x")), Signal::Failed);
    assert_eq!(bg::stopped(BlueGreen { step: bg::READ_ENV, ..bg::start(true, true) }).step, bg::FAILED);
    assert_eq!(bg::first_due(bg::start(true, false), bg::ENSURE_PROFILE), bg::INIT_STACKS);
    let recorded = bg::record(
        BlueGreen { step: bg::PROBE_PROJECT, ..bg::start(true, false) },
        Signal::Yes,
    );
    assert!(recorded.project_exists);
}

fn in_place(skip: bool, fresh: bool, replies: &[(u8, Signal)]) -> (ip::InPlace, Vec<u8>) {
    let mut s = ip::start(skip, fresh);
    let mut steps = Vec::new();
    while s.step < ip::SUCCEEDED {
        steps.push(s.step);
        let signal = match replies.iter().find(|entry| entry.0 == s.step) {
            Some((_, signal)) => *signal,
            None => Signal::Done,
        };
        let after = ip::next(s, signal);
        assert!(after.step > s.step);
        s = after;
    }
    (s, steps)
}

#[test]
fn a_first_deploy_makes_the_container() {
    let (s, steps) = in_place(false, false, &[(ip::ACQUIRE_HOSTNAME, Signal::Yes)]);
    assert_eq!(s.step, ip::SUCCEEDED);
    assert!(s.storage_attached && s.launched && s.proxy_attached);
    assert!(steps.contains(&ip::CREATE_CONTAINER));
    assert!(steps.contains(&ip::RUN_SETUP_SCRIPT));
    assert!(steps.contains(&ip::EXPOSE_HTTP));
    assert!(!steps.contains(&ip::CLEAN_CONTAINER));
    assert!(!steps.contains(&ip::READ_DNS_NAME_AGAIN));
}

#[test]
fn a_container_whose_setup_fits_is_kept() {
    let fits = [
        (ip::PROBE_CONTAINER, Signal::Yes),
        (ip::COMPARE_SETUP, Signal::Yes),
    ];
    let (s, steps) = in_place(true, false, &fits);
    assert_eq!(s.step, ip::SUCCEEDED);
    assert!(!ip::needs_setup(s));
    assert!(steps.contains(&ip::STOP_PROCESS));
    assert!(!steps.contains(&ip::CREATE_CONTAINER));
    assert!(!steps.contains(&ip::CLEAN_CONTAINER));

    let (_, steps) = in_place(true, false, &[(ip::PROBE_CONTAINER, Signal::Yes)]);
    assert!(steps.contains(&ip::CLEAN_CONTAINER));
    assert!(steps.contains(&ip::CREATE_CONTAINER));
}

#[test]
fn a_step_that_must_not_fail_ends_the_deploy() {
    let (s, steps) = in_place(true, false, &[(ip::LAUNCH, Signal::Failed)]);
    assert_eq!(s.step, ip::FAILED);
    assert_eq!(steps.last(), Some(&ip::LAUNCH));
    assert!(!ip::lenient(ip::LAUNCH));
    assert!(ip::due(ip::start(true, false), ip::DETECT_APP));
    assert!(!ip::due(ip::start(true, false), ip::ACQUIRE_HOSTNAME));
    assert_eq!(ip::first_due(ip::start(true, false), ip::ENSURE_PROFILE), ip::INIT_STACKS);
    let probed = ip::InPlace { step: ip::PROBE_PROJECT, ..ip::start(true, false) };
    assert!(ip::record(probed, Signal::Yes).project_exists);
}

#[test]
fn pauses_between_attempts_double_up_to_fifteen_seconds() {
    let mut retries = new_retries();
    let mut pauses = Vec::new();
    for _ in 0..6 {
        retries = begin_attempt(retries);
        let (after, secs) = back_off(retries);
        pauses.push(secs);
        retries = after;
    }
    assert_eq!(pauses, vec![1, 2, 4, 8, 15, 15]);
    assert_eq!(retries.attempt, 6);
}

#[test]
fn a_cached_setup_that_fails_is_tried_afresh_once() {
    let retries = begin_attempt(new_retries());
    let (after, next) = after_deploy_attempt(retries, Err(mark_cached_setup_failure("npm")));
    assert!(matches!(next, AfterAttempt::RetryNow));
    assert!(after.fresh);
    let (again, next) = after_deploy_attempt(after, Err(mark_fresh_setup_failure("npm")));
    assert!(matches!(next, AfterAttempt::RetryAfter(1)));
    assert!(again.fresh);
    assert_eq!(again.sleep_secs, 2);
    let (later, next) = after_deploy_attempt(after, Err("network".to_string()));
    assert!(matches!(next, AfterAttempt::RetryAfter(1)));
    assert_eq!(later.sleep_secs, 2);
    let (_, next) = after_deploy_attempt(retries, Ok(()));
    assert!(matches!(next, AfterAttempt::Over(Ok(()))));
    let (_, next) = after_deploy_attempt(retries, Err(mark_fresh_setup_failure("npm")));
    assert!(matches!(next, AfterAttempt::RetryAfter(1)));
}

#[test]
fn interrupted_deploys_are_not_tried_again() {
    let interrupt = DeployInterruptState {
        request_id: "9-1".to_string(),
        requested_at: 9,
        target_sha: "abc".to_string(),
    };
    let err = deploy_interrupted_error("cutover start", &interrupt);
    assert_eq!(err, "deploy interrupted (phase: cutover start, request: 9-1, requested_at: 9)");
    assert!(is_deploy_interrupted_error(&err));
    let (_, next) = after_deploy_attempt(begin_attempt(new_retries()), Err(err.clone()));
    assert!(matches!(next, AfterAttempt::Over(Err(said)) if said == err));
    let (_, next) = after_push_attempt(begin_attempt(new_retries()), Err(err.clone()));
    assert!(matches!(next, AfterAttempt::Over(Err(said)) if said == err));
    let (_, next) = after_push_attempt(begin_attempt(new_retries()), Err("tar".to_string()));
    assert!(matches!(next, AfterAttempt::RetryAfter(1)));
    assert!(deploy_result_was_interrupted(&Err(err.clone())));
    assert!(!deploy_result_was_interrupted(&Ok(())));
    assert_eq!(git_status_after(&Err(err)), GitDeployStatus::Interrupted);
    assert_eq!(git_status_after(&Err("x".to_string())), GitDeployStatus::Failed);
    assert_eq!(git_status_after(&Ok(())), GitDeployStatus::Success);
}

#[test]
fn interruptions_come_from_records_signals_and_lost_leases() {
    assert_eq!(check_deploy_interrupt("before checkout", &InterruptCheck::Clear), Ok(()));
    assert_eq!(
        check_deploy_interrupt("before checkout", &InterruptCheck::LeaseLost("gone".to_string())),
        Err("reconcile lease check failed during before checkout: gone".to_string())
    );
    let signalled = deploy_interrupt_state_for_signal(42, 100, &None);
    assert_eq!(signalled.request_id, "signal-42-100");
    assert_eq!(signalled.target_sha, "unknown");
    assert_eq!(
        check_deploy_interrupt("after checkout", &InterruptCheck::Signalled(signalled)),
        Err("deploy interrupted (phase: after checkout, request: signal-42-100, requested_at: 100)"
            .to_string())
    );
    let on_record = deploy_interrupt_state_for_signal(42, 100, &Some("abc".to_string()));
    assert_eq!(on_record.target_sha, "abc");
    assert!(check_deploy_interrupt("x", &InterruptCheck::OnRecord(on_record)).is_err());
    assert_eq!(deploy_request_id(1700000000, 77), "1700000000-77");
}

#[test]
fn marks_come_off_the_errors_that_bear_them() {
    let cached = mark_cached_setup_failure("boom");
    let fresh = mark_fresh_setup_failure("boom");
    assert!(is_cached_setup_failure(&cached) && !is_fresh_setup_failure(&cached));
    assert!(is_fresh_setup_failure(&fresh) && !is_cached_setup_failure(&fresh));
    assert_eq!(strip_internal_deploy_error_markers(&cached), "boom");
    assert_eq!(strip_internal_deploy_error_markers(&fresh), "boom");
    assert_eq!(strip_internal_deploy_error_markers("boom"), "boom");
    assert_eq!(
        deploy_failure_footer("web", 3, &fresh, 4),
        "-----> Deploy attempt 3 failed for web\n       Cause: boom\n       \
         Auto-recovery: retrying in 4s (use `psht logs web` or `psht health` to inspect)"
    );
}

#[test]
fn sources_of_a_deploy_are_put_on_record() {
    assert_eq!(
        git_source_payload(&Some("refs/heads/main".to_string()), &None, true),
        "{\"force\":true,\"mode\":\"git\",\"ref\":\"refs/heads/main\",\"sha\":null}"
    );
    assert_eq!(push_source_payload(false), "{\"force\":false,\"mode\":\"push\"}");
}

#[test]
fn waiting_requests_are_taken_up_after_a_deploy() {
    let current = target("refs/heads/main", "abc");
    let newer = PendingGitDeployRequest::from_target(&target("refs/heads/main", "def"), false, None, 5);
    assert_eq!(newer.target().sha, "def");
    assert_eq!(
        after_deploy(Some(&current), false, Some(&newer)),
        AfterDeploy::TakeUp { clear_interrupt: false }
    );
    assert_eq!(
        after_deploy(Some(&current), true, Some(&newer)),
        AfterDeploy::TakeUp { clear_interrupt: true }
    );
    let same = PendingGitDeployRequest::from_target(&current, false, None, 5);
    assert!(matches!(after_deploy(Some(&current), false, Some(&same)), AfterDeploy::Over { .. }));
    assert!(matches!(after_deploy(Some(&current), false, None), AfterDeploy::Over { .. }));
    let forced = PendingGitDeployRequest::from_target(&current, true, None, 5);
    assert!(matches!(after_deploy(Some(&current), false, Some(&forced)), AfterDeploy::TakeUp { .. }));
}

#[test]
fn a_locked_app_is_waited_for_queued_or_refused() {
    assert_eq!(when_locked(true, true), WhenLocked::InterruptAndWait);
    assert_eq!(when_locked(true, false), WhenLocked::Queue);
    assert_eq!(when_locked(false, true), WhenLocked::Refuse);
    assert!(deploy_in_progress_error("web").contains("web"));
    let wanted = target("refs/heads/main", "abc");
    let success = state("abc", GitDeployStatus::Success);
    assert!(already_deployed(Some(&wanted), false, Some(&success)));
    assert!(!already_deployed(Some(&wanted), true, Some(&success)));
    assert!(!already_deployed(None, false, Some(&success)));
    assert!(!already_deployed(Some(&wanted), false, None));
}

#[test]
fn revisions_and_binaries_decide_what_is_deployed() {
    let success = state("old", GitDeployStatus::Success);
    let pending = state("old", GitDeployStatus::Pending);
    let full = "0123456789abcdef0123456789abcdef01234567";
    assert_eq!(
        deploy_revision(Some("refs/heads/main"), Some(full), Some(&success)),
        Some(full.to_string())
    );
    assert_eq!(deploy_revision(None, None, Some(&success)), Some("old".to_string()));
    assert_eq!(deploy_revision(None, None, Some(&pending)), None);
    assert_eq!(active_revision(Some(&success)), Some("old".to_string()));
    assert_eq!(active_revision(Some(&pending)), None);
    assert_eq!(push_decision(Some("h"), true, Some("h"), false), PushDecision::Skip);
    assert_eq!(push_decision(Some("h"), true, Some("h"), true), PushDecision::Force);
    assert_eq!(push_decision(Some("h"), false, Some("h"), false), PushDecision::Deploy);
    assert_eq!(push_decision(Some("h"), true, Some("g"), false), PushDecision::Deploy);
    assert_eq!(push_decision(None, true, None, false), PushDecision::Deploy);
}

fn watch(lock_active: bool, ours: bool, elapsed_secs: u64) -> Watch {
    let wanted = target("refs/heads/main", "abc");
    let id = "9-1".to_string();
    Watch {
        lock_active,
        pending: if ours {
            Some(PendingGitDeployRequest::from_target(&wanted, true, Some(id.clone()), 9))
        } else {
            None
        },
        state: None,
        interrupt: Some(DeployInterruptState {
            request_id: id,
            requested_at: 9,
            target_sha: "abc".to_string(),
        }),
        elapsed_secs,
        lock_refused: false,
    }
}

#[test]
fn a_forced_deploy_gives_the_holder_its_time() {
    let wanted = target("refs/heads/main", "abc");
    let waits = |w: &Watch| match forced_step(w, &wanted, "9-1") {
        Forced::Wait(line) => line,
        _ => String::new(),
    };
    let asked = "interrupt requested; waiting for active deploy to stop";
    assert_eq!(waits(&watch(true, true, 0)), asked);
    assert_eq!(
        waits(&watch(true, true, 15)),
        format!("{asked} (it may be in a long-running command)")
    );
    assert!(matches!(forced_step(&watch(true, true, 30), &wanted, "9-1"), Forced::StopHolder));
    assert_eq!(
        waits(&watch(true, false, 30)),
        "forced pending picked up; waiting for deploy completion"
    );
    assert!(matches!(
        forced_step(&watch(false, true, 1), &wanted, "9-1"),
        Forced::TakeLock { take_request: true }
    ));
    let refused = Watch { lock_refused: true, ..watch(false, true, 1) };
    assert_eq!(waits(&refused), "interrupt requested; waiting for forced deploy to start");
    let done = Watch {
        state: Some(state("abc", GitDeployStatus::Success)),
        ..watch(false, false, 3)
    };
    assert!(matches!(forced_step(&done, &wanted, "9-1"), Forced::Complete));
    let lost = Watch {
        state: Some(state("abc", GitDeployStatus::Failed)),
        interrupt: None,
        ..watch(false, false, 3)
    };
    assert!(matches!(
        forced_step(&lost, &wanted, "9-1"),
        Forced::Fail(err)
            if err == "forced deploy did not complete successfully for refs/heads/main (abc)"
    ));
    let superseded = watch(true, true, 3);
    assert!(matches!(
        forced_step(&superseded, &wanted, "8-8"),
        Forced::Wait(line)
            if line == "forced request superseded by newer pending request 9-1; waiting for latest"
    ));
    let idle = Watch {
        state: Some(state("abc", GitDeployStatus::Pending)),
        interrupt: None,
        ..watch(false, false, 3)
    };
    assert_eq!(waits(&idle), "last deploy status for target is pending");
    let unknown = Watch { interrupt: None, ..watch(false, false, 3) };
    assert_eq!(waits(&unknown), "waiting for deploy scheduler state");
}

#[test]
fn holders_of_a_lock_are_stopped_or_forgotten() {
    let held = DeployLockMetadata { pid: Some(7), created: Some(1), updated: Some(2) };
    assert_eq!(holder_action(Some(held), true), HolderAction::Kill(7));
    assert_eq!(holder_action(Some(held), false), HolderAction::ClearLock);
    assert_eq!(holder_action(None, false), HolderAction::ClearLock);
    assert_eq!(holder_survived_error(7), "lock holder pid 7 did not exit after SIGKILL");
    assert!(matches!(kill_step(7, 8, true), KillStep::Gone));
    assert!(matches!(kill_step(7, 7, false), KillStep::Check));
    assert!(matches!(
        kill_step(7, 8, false),
        KillStep::Survived(err) if err == holder_survived_error(7)
    ));
    assert_eq!(
        takeover_refused_error("/l/web.lock"),
        "failed to acquire deploy lock after forced takeover at /l/web.lock; a concurrent deploy may still be running"
    );
    assert_eq!(say_again("a", "a", 4, 5), None);
    assert_eq!(say_again("a", "b", 4, 5), Some(9));
    assert_eq!(say_again("a", "a", 5, 5), Some(10));
}

#[test]
fn lock_files_say_who_holds_them() {
    let held = DeployLockMetadata { pid: Some(7), created: Some(10), updated: Some(12) };
    let text = deploy_lock_text(held, 99, 50);
    assert_eq!(text, "pid=7\ncreated=10\nupdated=12\n");
    assert_eq!(parse_deploy_lock_metadata(&text), held);
    let blank = DeployLockMetadata { pid: None, created: None, updated: None };
    assert_eq!(deploy_lock_text(blank, 99, 50), "pid=99\ncreated=50\nupdated=50\n");
    assert!(!lock_file_is_stale(21_600));
    assert!(lock_file_is_stale(21_601));
    assert_eq!(lock_step(false, LockTry::Created), LockStep::Acquired);
    assert_eq!(lock_step(false, LockTry::Held { age_secs: 5 }), LockStep::Busy);
    assert_eq!(lock_step(false, LockTry::Held { age_secs: 90_000 }), LockStep::RemoveAndRetry);
    assert_eq!(lock_step(true, LockTry::Held { age_secs: 90_000 }), LockStep::RemoveAndGiveUp);
}

#[test]
fn checkouts_are_held_against_what_was_pushed() {
    let wanted = target("refs/heads/main", "abc");
    assert_eq!(copy_target(&wanted), wanted);
    assert_eq!(checkout_ref_target("refs/heads/main"), "origin/main");
    assert_eq!(checkout_ref_target("refs/tags/v1"), "refs/tags/v1");
    assert_eq!(clone_args(None), texts(&["clone", "--depth", "1"]));
    assert_eq!(clone_args(Some(&wanted)), texts(&["clone", "--no-checkout"]));
    assert_eq!(checkout_comparison("commit"), Comparison::Head);
    assert_eq!(checkout_comparison("tag"), Comparison::Ref);
    assert_eq!(checkout_comparison("tree"), Comparison::Nothing);
    assert_eq!(verify_checkout(&wanted, Comparison::Head, "abc"), Ok(()));
    assert_eq!(
        verify_checkout(&wanted, Comparison::Head, "def"),
        Err("checked out commit def does not match pushed commit abc".to_string())
    );
    assert_eq!(
        verify_checkout(&wanted, Comparison::Ref, "def"),
        Err("checked out ref refs/heads/main resolved to def, expected abc".to_string())
    );
    assert_eq!(verify_checkout(&wanted, Comparison::Nothing, ""), Ok(()));
    assert_eq!(project_of_user("1001\n"), "user-1001");
    for status in [
        GitDeployStatus::Pending,
        GitDeployStatus::Success,
        GitDeployStatus::Failed,
        GitDeployStatus::Interrupted,
    ] {
        assert_eq!(git_deploy_status_from_str(git_deploy_status_as_str(status)), Ok(status));
    }
    assert!(git_deploy_status_from_str("done").is_err());
}

#[test]
fn operations_in_the_way_are_described() {
    let ops = vec![operation("op1", true, &["psht-web", "psht-api"]), operation("op2", false, &[])];
    let mut seen: Vec<(String, u64)> = Vec::new();
    note_seen(&mut seen, &ops, 1_000);
    note_seen(&mut seen, &ops, 9_000);
    assert_eq!(seen, vec![("op1".to_string(), 1_000), ("op2".to_string(), 1_000)]);
    assert_eq!(blocking_op_age_secs(&seen, "op1", 4_999), 3);
    assert_eq!(blocking_op_age_secs(&seen, "op9", 4_999), 0);
    assert_eq!(
        blocking_ops_summary(&ops, &seen, 4_000),
        "op1(class=task,age=3s,cancelable=true,targets=psht-web|psht-api), \
         op2(class=task,age=3s,cancelable=false,targets=[])"
    );
    assert_eq!(
        written(&blocking_ops_json(&vec![operation("op1", true, &["psht-web"])], &seen, 4_000)),
        "[{\"age_secs\":3,\"class\":\"task\",\"description\":\"Starting instance\",\"id\":\"op1\",\
         \"instance_names\":[\"psht-web\"],\"may_cancel\":true,\
         \"resources\":[\"/1.0/instances/psht-web\"],\"status\":\"Running\",\"status_code\":103}]"
    );
    assert_eq!(blocking_op_targets(&ops[0], "web"), texts(&["psht-web", "psht-api"]));
    assert_eq!(blocking_op_targets(&ops[1], "web"), texts(&["psht-web"]));
    assert!(target_is_currently_serving("psht-web", Some("web")));
    assert!(target_is_currently_serving("web", Some("web")));
    assert!(!target_is_currently_serving("psht-api", Some("web")));
    assert!(!target_is_currently_serving("psht-web", None));
    assert_eq!(phase_text(WaitPhase::ForceReset), "force-reset");
    assert_eq!(phase_text(WaitPhase::Waiting), "waiting");
    assert_eq!(reset_steps(false, &Ok(()), &Ok(())), texts(&["target already absent"]));
    assert_eq!(
        reset_steps(true, &Err("hung".to_string()), &Ok(())),
        texts(&["force-stop failed: hung", "delete ok"])
    );
}

#[test]
fn waits_escalate_by_time_and_policy() {
    assert_eq!(look(false, 0, BusyOpPolicy::Auto), Look::Quiet);
    assert_eq!(look(true, 2_999, BusyOpPolicy::Force), Look::Wait);
    assert_eq!(look(true, 3_000, BusyOpPolicy::Diagnose), Look::Report);
    assert_eq!(look(true, 3_000, BusyOpPolicy::Auto), Look::Cancel);
    assert_eq!(after_cancels(1, 3_000), Onward::Settle);
    assert_eq!(after_cancels(0, 5_999), Onward::Recheck);
    assert_eq!(after_cancels(0, 6_000), Onward::Reset);
    assert_eq!(after_resets(1, 90_000, 60), Onward::Settle);
    assert_eq!(after_resets(0, 60_000, 60), Onward::Report);
    let mut cancels = Cancels { attempted: Vec::new(), this_cycle: Vec::new() };
    let ops = vec![operation("op1", false, &[]), operation("op2", true, &[])];
    assert_eq!(cancels.next_cancel(&ops, 0, 5), Some(1));
    cancels.canceled("op2");
    assert_eq!(cancels.next_cancel(&ops, 0, 5), None);
    assert_eq!(cancels.this_cycle, texts(&["op2"]));
    let mut resets = Resets { attempted: Vec::new(), forced: Vec::new(), skipped: Vec::new() };
    let reset = resets.next_reset(&ops, "api", Some("web"), 0, 0);
    assert!(matches!(reset, Some((0, _, name)) if name == "psht-api"));
    assert_eq!(
        resets.skipped,
        texts(&["op op1 had no parsed target; using fallback target psht-api"])
    );
    resets.reset_done("psht-api", "op1", &texts(&["force-stop ok", "delete ok"]));
    assert_eq!(resets.forced, texts(&["psht-api (op op1): force-stop ok; delete ok"]));
}

#[test]
fn what_stays_blocked_is_reported_in_full() {
    let seen = vec![("op1".to_string(), 0)];
    let resets = Resets {
        attempted: Vec::new(),
        forced: Vec::new(),
        skipped: texts(&["skipped reset for serving target psht-web (op op1)"]),
    };
    assert_eq!(
        blocked_operation_error(
            "web",
            "user-1001",
            60,
            WaitPhase::ForceReset,
            &vec![operation("op1", false, &["psht-web"])],
            &seen,
            61_000,
            &texts(&["op0"]),
            &resets,
        ),
        "container 'web' remained blocked after 60s (phase=force-reset); unresolved operations: \
         op1(class=task,age=61s,cancelable=false,targets=psht-web)\n\
         automatic actions: attempted operation cancellation for 1 op(s): op0\n\
         automatic actions: no forced target-instance resets were performed\n\
         automatic actions: skipped actions: skipped reset for serving target psht-web (op op1)\n\
         inspect: incus --project user-1001 operation list\n\
         inspect op op1: incus --project user-1001 operation show op1"
    );
}

#[test]
fn a_wait_cancels_resets_and_gives_up_in_order() {
    let mut wait = QuietWait::new("web", "user-1001", BusyOpPolicy::Auto, 60, 5);
    let ops = || vec![operation("op1", true, &["psht-web"]), operation("op2", false, &["psht-web-deploy-5"])];
    assert!(matches!(wait.observe(ops(), 0, 0), WaitAction::Pause));
    assert_eq!(wait.heartbeat(), None);
    assert!(matches!(
        wait.observe(ops(), 3_000, 3_000),
        WaitAction::Cancel(id) if id == "op1"
    ));
    assert_eq!(wait.blocked_detail().get_text("phase"), Some("waiting"));
    assert!(matches!(wait.cancel_replied(true, 3_000), WaitAction::Settle));
    assert_eq!(
        written(&wait.takeover_detail("canceled_ops", &wait.cancels.this_cycle)),
        "{\"canceled_ops\":[\"op1\"],\"policy\":\"auto\"}"
    );
    assert!(matches!(wait.observe(ops(), 5_000, 5_000), WaitAction::Pause));
    assert_eq!(wait.blocked_detail().get_text("phase"), Some("canceling"));
    assert_eq!(
        wait.heartbeat().as_deref(),
        Some("       Blocked (canceling, 5s/60s): op1, op2")
    );
    assert_eq!(wait.heartbeat(), None);
    assert!(matches!(wait.observe(ops(), 6_000, 6_000), WaitAction::FindActive));
    assert_eq!(wait.blocked_detail().get_text("phase"), Some("rechecking"));
    match wait.active_found(Some("web")) {
        WaitAction::Reset { target, .. } => assert_eq!(target, "psht-web-deploy-5"),
        _ => panic!("the container behind the operation is to be reset"),
    }
    let steps = texts(&["force-stop ok", "delete ok"]);
    assert!(matches!(wait.reset_replied(&steps, 6_000, Some("web")), WaitAction::Settle));
    assert!(matches!(wait.observe(ops(), 59_000, 59_000), WaitAction::FindActive));
    assert!(matches!(wait.active_found(Some("web")), WaitAction::Settle));
    assert!(matches!(wait.observe(ops(), 60_000, 60_000), WaitAction::FindActive));
    assert!(matches!(
        wait.active_found(Some("web")),
        WaitAction::Fail(err) if err.contains("remained blocked after 60s (phase=force-reset)")
    ));
    assert!(matches!(wait.observe(Vec::new(), 61_000, 61_000), WaitAction::Done));
}

#[test]
fn a_wait_never_resets_what_serves() {
    let mut wait = QuietWait::new("web", "user-1001", BusyOpPolicy::Force, 1, 5);
    let ops = vec![operation("op1", false, &["psht-web"])];
    assert!(matches!(wait.observe(ops, 7_000, 7_000), WaitAction::FindActive));
    assert!(matches!(
        wait.active_found(Some("web")),
        WaitAction::Fail(err) if err.contains("skipped reset for serving target psht-web (op op1)")
    ));
    let mut report = QuietWait::new("web", "user-1001", BusyOpPolicy::Diagnose, 60, 5);
    let ops = vec![operation("op1", true, &["psht-web"])];
    assert!(matches!(report.observe(ops, 3_000, 3_000), WaitAction::Fail(_)));
}

#[test]
fn deploys_say_what_they_do() {
    let mut deploy = Rollout::new("web", "web-build-7", true, true);
    deploy.previous = Some("web-build-5".to_string());
    let mut at = |step: u8| {
        deploy.state.step = step;
        deploy.opening_line()
    };
    assert_eq!(at(bg::READ_ENV), None);
    assert_eq!(
        at(bg::WAIT_ACTIVE_QUIET).as_deref(),
        Some(
            "-----> Preparing candidate container\n       Candidate: web-build-7\n       \
             Traffic remains on current container"
        )
    );
    assert_eq!(
        at(bg::WAIT_PREVIOUS_QUIET).as_deref(),
        Some("-----> Evaluating reusable inactive container\n       Inactive: web-build-5")
    );
    deploy.state.step = bg::CREATE_CANDIDATE;
    assert_eq!(
        deploy.closing_line(&Reply::Done).as_deref(),
        Some("-----> Skipping tailscale setup in candidate")
    );
    deploy.state.step = bg::REMOVE_CANDIDATE_TAILSCALE;
    assert_eq!(
        deploy.closing_line(&failed("busy")).as_deref(),
        Some("-----> Skipping tailscale setup in candidate")
    );
    deploy.state.step = bg::COMPARE_PREVIOUS_SETUP;
    assert_eq!(
        deploy.closing_line(&failed("busy")).as_deref(),
        Some("       Inactive setup hash mismatch; using fresh candidate")
    );
    deploy.state.step = bg::CREATE_CANDIDATE;
    assert_eq!(deploy.closing_line(&failed("no image")), None);
    deploy.state.step = bg::PUBLISH_STACK_IMAGE;
    assert_eq!(
        deploy.closing_line(&failed("full")).as_deref(),
        Some("       Warning: failed to cache stack image: full")
    );
    deploy.state.step = bg::ADD_ROUTE;
    assert_eq!(
        deploy.closing_line(&failed("down")).as_deref(),
        Some("-----> Cutover failed; rolling back traffic")
    );
    assert_eq!(deploy.rollback_line(), None);
    deploy.issues = texts(&["a", "b"]);
    assert_eq!(
        deploy.rollback_line().as_deref(),
        Some("       Warning: rollback completed with issues: a | b")
    );
    let s = |step: u8| ip::InPlace { step, ..ip::start(true, true) };
    assert_eq!(
        in_place_opening_line(s(ip::ATTACH_PROXY), 4000).as_deref(),
        Some("-----> Setting up port forwarding on :4000")
    );
    assert_eq!(
        in_place_opening_line(s(ip::CLEAN_CONTAINER), 4000).as_deref(),
        Some("-----> Fresh-image retry requested; rebuilding container")
    );
    assert_eq!(
        in_place_closing_line(s(ip::WRITE_SETUP_HASH), &Reply::Done).as_deref(),
        Some("-----> Skipping tailnet connection")
    );
    assert_eq!(
        in_place_closing_line(s(ip::EXPOSE_HTTP), &failed("x")).as_deref(),
        Some("       Warning: failed to expose tailnet HTTP on :80: x")
    );
}

#[test]
fn other_courses_say_what_they_do() {
    let none = Ok(TailscaleJoinAttempt::from_dns_name(None));
    assert_eq!(
        join_line("web", false, &none).as_deref(),
        Some("       Tailscale DNS name unavailable yet; retrying")
    );
    let other = Ok(TailscaleJoinAttempt::from_dns_name(Some("web-1.ts.net".to_string())));
    assert_eq!(
        join_line("web", true, &other).as_deref(),
        Some(
            "       Hostname mismatch: got 'web-1.ts.net', expected label 'web'. Retrying...\n       \
             State-based tailscale hostname was not exact; switching to auth-key recovery"
        )
    );
    let exact = Ok(TailscaleJoinAttempt::from_dns_name(Some("web.ts.net".to_string())));
    assert_eq!(join_line("web", true, &exact), None);
    assert_eq!(
        join_line("web", false, &Err("x".to_string())).as_deref(),
        Some("       Auth-key tailscale join failed: x")
    );
    assert_eq!(not_healthy_line(false, "x"), "       Tailscale not healthy yet: x");
    assert_eq!(
        power_opening_line(Power::KeepStopped, PowerStep::StopProcess, "web").as_deref(),
        Some("-----> Supervise: stopping web (desired state is stopped)")
    );
    assert_eq!(power_opening_line(Power::Stop, PowerStep::StopProcess, "web"), None);
    assert_eq!(
        power_closing_line(Power::Start, PowerStep::CheckService, true, "web").as_deref(),
        Some("       web is already running; skipping launch")
    );
    let given = Some(("id".to_string(), "secret".to_string()));
    let mut setup = Bootstrap::new("/b", "/opt", false, given);
    assert_eq!(setup.opening_line(), None);
    setup.step = CHECK_OAUTH;
    assert_eq!(setup.opening_line().as_deref(), Some("-----> Tailscale SSH is active"));
    assert_eq!(
        setup.closing_line(true).as_deref(),
        Some("-----> Tailscale OAuth already configured")
    );
    assert_eq!(
        setup.closing_line(false).as_deref(),
        Some("-----> Setting up Tailscale OAuth from environment")
    );
}
