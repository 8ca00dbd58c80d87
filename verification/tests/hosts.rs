use psht::app_state::{
    app_runtime_state_from_row, control_plane_snapshot, desired_state, desired_state_name,
    normalized_desired_state, read_app_runtime_state, resolve_active_app_ref, set_desired_state,
    transient_runtime_state_references_existing_instance, write_app_runtime_state,
    write_app_runtime_state_in_project, AppRuntimeState, AppRuntimeStateRow, AppSpecRow,
    DesiredState,
};
use psht::bootstrap as boot;
use psht::bootstrap::{steps_confirmed, Bootstrap, HostAction, HostReply};
use psht::cleanup::{
    begin_cleanup_previous, cleanup_pending_detail, clear_previous_runtime_reference_if_missing,
    end_cleanup_previous, family_reconciled, family_to_prune, prune_target,
    record_cleanup_job_failure, removal_step, ProxyRecovery, Removal,
};
use psht::env_command::vars_may_be_kept;
use psht::doctor::{doctor, doctor_line, DoctorFacts, DoctorLine, TailscaleFacts};
use psht::health::{
    after_history, app_log_failed_error, app_log_line, app_log_lines,
    app_targets_from_runtime_state, check_app_health, health_line, health_outcome, health_verdict,
    missing_report, ps_line, AfterHistory, AppFacts, ContainerInfo, HealthSummary,
};
use psht::host::{
    blocked_op_budget_secs, command_failed_error, command_succeeds_with_timeout,
    command_timed_out_error, env_u64, increment_build_number, os_release_codename,
    psht_user_home_dir, reconcile_lease_heartbeat_secs, reconcile_lease_ttl_secs, require_root,
    run_cmd, run_cmd_capture, run_cmd_capture_with_timeout, takeover_max_cancel_per_cycle,
    takeover_retry_ms, timed_out, timeout_args,
};
use psht::intent::{
    append_reconcile_attempt_record, begin_reconcile_intent, complete_reconcile_intent,
    heartbeat_due, lease_owner, lease_ttl_ms, reconcile_checkpoint,
    update_reconcile_phase_from_lease, ActiveReconcileLease,
};
use psht::json::json_text;
use psht::power::{
    begin_destroy, begin_on_demand, begin_supervised, first_power_step, next_power_step,
    ready_to_launch, require_running, supervise_choice, supervise_failure, supervise_verdict,
    Destruction, DestroyStep, Power, PowerStep,
};
use psht::provide::{
    after_build, ensure_binary_version, is_up_to_date, not_provided_error, prepare_server_binary,
    provided, psht_user_shell_path, source_built, staged_binary_name, AfterBuild, ReleaseFailure,
    ReleaseSearch, ServerBinary, UpgradePlan, UpgradeReply, UpgradeStep,
};
use psht::runtime;
use psht::rows::{
    cleanup_job_from_row, deploy_interrupt_from_row, git_deploy_state_from_row,
    pending_git_request_from_row, read_cleanup_job, sqlite_i64_to_u32, sqlite_i64_to_u64,
    sqlite_u64_to_i64, write_cleanup_job, CleanupJobRow, CleanupJobState, DeployInterruptRow,
    GitDeployStateRow, PendingGitRequestRow,
};
use psht::setup::post_receive_hook;
use psht::stats::{deploy_attempt, stats_settings};
use psht::storage::{
    create_network_args, default_network_name, default_storage_pool, network_created, volume_args,
    NetworkChoice, PoolChoice,
};
use psht::table::Table;
use psht::tailnet::check_tailscale_oauth_permissions;

fn texts(list: &[&str]) -> Vec<String> {
    list.iter().map(|text| text.to_string()).collect()
}

fn opt(text: &str) -> Option<String> {
    Some(text.to_string())
}

fn here() -> Result<String, String> {
    Ok("user-1001".to_string())
}

fn on_record(app: &str, active: &str, previous: Option<&str>) -> Table<AppRuntimeStateRow> {
    let mut states: Table<AppRuntimeStateRow> = Table::new();
    write_app_runtime_state(&mut states, app, active, previous, &here(), 100).unwrap();
    states
}

fn job(app: &str, previous: &str) -> CleanupJobState {
    CleanupJobState {
        app: app.to_string(),
        active_instance_at_schedule: format!("psht-{app}"),
        scheduled_previous_instance: previous.to_string(),
        attempts: 2,
        last_error: None,
        scheduled_at: 50,
        updated_at: 60,
    }
}

#[test]
fn runtime_states_are_kept_and_read_back() {
    let mut states = on_record("web", "web-build-2", Some("web"));
    let state = read_app_runtime_state(&states, "web").unwrap().unwrap();
    assert_eq!(state.active_instance, "psht-web-build-2");
    assert_eq!(state.previous_instance, opt("psht-web"));
    assert_eq!(state.runtime_project, opt("user-1001"));
    assert_eq!(state.updated_at, 100);
    assert_eq!(read_app_runtime_state(&states, "api"), Ok(None));
    let late = write_app_runtime_state_in_project(&mut states, "web", "web", None, "p", u64::MAX);
    assert_eq!(
        late,
        Err("value for updated_at in app 'web' exceeds sqlite integer range".to_string())
    );
    let row = AppRuntimeStateRow {
        active_instance: "psht-web".to_string(),
        previous_instance: None,
        runtime_project: None,
        updated_at: -1,
    };
    assert_eq!(
        app_runtime_state_from_row("web", &row),
        Err(
            "invalid sqlite value for updated_at in app 'web': expected non-negative integer"
                .to_string()
        )
    );
}

#[test]
fn the_container_that_is_found_is_found_again() {
    let mut states = on_record("web", "web-build-2", Some("web"));
    let live = texts(&["web-build-2"]);
    let first = resolve_active_app_ref(&mut states, "web", &live, &here(), 200);
    assert_eq!(first, Ok(opt("web-build-2")));
    assert_eq!(resolve_active_app_ref(&mut states, "web", &live, &here(), 300), first);
    let gone = texts(&["web"]);
    let fallback = resolve_active_app_ref(&mut states, "web", &gone, &here(), 400);
    assert_eq!(fallback, Ok(opt("web")));
    assert_eq!(resolve_active_app_ref(&mut states, "web", &gone, &here(), 500), fallback);
    let shot = control_plane_snapshot(&mut states, "web", &gone, &here(), 600, opt("abc"));
    assert_eq!(shot.active_instance, opt("psht-web"));
    assert_eq!(shot.active_revision, opt("abc"));
    let left = AppRuntimeState {
        active_instance: "psht-web-build-2".to_string(),
        previous_instance: opt("psht-web"),
        runtime_project: None,
        updated_at: 1,
    };
    assert!(transient_runtime_state_references_existing_instance(&left, &texts(&["web"])));
    assert!(!transient_runtime_state_references_existing_instance(&left, &texts(&["api"])));
}

#[test]
fn the_host_records_without_a_project() {
    let mut states: Table<AppRuntimeStateRow> = Table::new();
    runtime::write_app_runtime_state(&mut states, "web", "web-build-2", Some("web"), 100);
    let state = read_app_runtime_state(&states, "web").unwrap().unwrap();
    assert_eq!(state.active_instance, "psht-web-build-2");
    assert_eq!(state.runtime_project, None);
    assert_eq!(state.updated_at, 100);
    let live = texts(&["web"]);
    let found = runtime::resolve_active_app_ref(&mut states, "web", &live, 200);
    assert_eq!(found, Ok(opt("web")));
    assert_eq!(runtime::resolve_active_app_ref(&mut states, "web", &live, 300), found);
    assert_eq!(
        runtime::runtime_state_snapshot(&mut states, "web", &live, 400),
        (opt("psht-web"), None)
    );
    assert_eq!(
        runtime::resolve_existing_active_app_ref(&mut states, "api", &live, 500),
        Err("app 'api' not found".to_string())
    );
    let late = runtime::resolve_active_app_ref(&mut states, "api", &texts(&["api"]), u64::MAX);
    assert_eq!(late, Ok(opt("api")));
    assert!(read_app_runtime_state(&states, "api").is_err());
    let kept = read_app_runtime_state(&on_record("web", "web-build-2", Some("web")), "web").unwrap();
    let both = texts(&["web", "web-build-2"]);
    assert_eq!(runtime::previous_app_ref(&kept, "web-build-2", &both), opt("web"));
    assert_eq!(runtime::previous_app_ref(&kept, "web", &both), None);
    assert_eq!(runtime::previous_app_ref(&kept, "web-build-2", &texts(&[])), None);
    assert_eq!(runtime::previous_app_ref(&None, "web", &both), None);
}

#[test]
fn what_an_app_is_meant_to_be_reads_back() {
    let mut specs: Table<AppSpecRow> = Table::new();
    assert_eq!(desired_state(&specs, "web"), DesiredState::Running);
    set_desired_state(&mut specs, "web", DesiredState::Stopped);
    assert_eq!(desired_state(&specs, "web"), DesiredState::Stopped);
    assert_eq!(desired_state(&specs, "api"), DesiredState::Running);
    for state in [DesiredState::Running, DesiredState::Stopped] {
        assert_eq!(normalized_desired_state(desired_state_name(state)), state);
    }
}

#[test]
fn stored_numbers_are_checked() {
    assert_eq!(sqlite_i64_to_u64(5, "web", "n"), Ok(5));
    assert!(sqlite_i64_to_u64(-5, "web", "n").is_err());
    assert_eq!(sqlite_i64_to_u32(5, "web", "n"), Ok(5));
    assert_eq!(
        sqlite_i64_to_u32(1 << 32, "web", "attempts"),
        Err("invalid sqlite value for attempts in app 'web': expected u32-compatible integer"
            .to_string())
    );
    assert_eq!(sqlite_u64_to_i64(i64::MAX as u64, "web", "n"), Ok(i64::MAX));
    assert!(sqlite_u64_to_i64(1 << 63, "web", "n").is_err());
    let pending = PendingGitRequestRow {
        ref_name: "refs/heads/main".to_string(),
        sha: "abc".to_string(),
        force: true,
        request_id: None,
        interrupt_requested_at: Some(-1),
    };
    assert!(pending_git_request_from_row("web", &pending).is_err());
    let good = PendingGitRequestRow {
        interrupt_requested_at: Some(9),
        ..pending
    };
    let request = pending_git_request_from_row("web", &good).unwrap();
    assert_eq!(request.interrupt_requested_at, Some(9));
    let state = GitDeployStateRow {
        ref_name: "refs/heads/main".to_string(),
        sha: "abc".to_string(),
        status: "sideways".to_string(),
    };
    assert!(git_deploy_state_from_row(&state).is_err());
    let interrupt = DeployInterruptRow {
        request_id: "9-1".to_string(),
        requested_at: -9,
        target_sha: "abc".to_string(),
    };
    assert!(deploy_interrupt_from_row("web", &interrupt).is_err());
    let cleanup = CleanupJobRow {
        app_id: "web".to_string(),
        active_instance_at_schedule: "psht-web".to_string(),
        scheduled_previous_instance: "psht-web-build-1".to_string(),
        attempts: -1,
        last_error: None,
        scheduled_at: 1,
        updated_at: 1,
    };
    assert!(cleanup_job_from_row(&cleanup).is_err());
}

#[test]
fn containers_that_are_to_go_are_deleted_or_given_up() {
    assert!(matches!(removal_step("web", 0, false), Removal::Gone));
    assert!(matches!(removal_step("web", 19, true), Removal::Delete));
    assert!(matches!(
        removal_step("web", 20, true),
        Removal::GiveUp(err)
            if err == "failed to delete container 'web' after waiting for background operations"
    ));
    let names = texts(&["psht-web", "psht-web-build-1", "psht-web-build-2", "psht-api", "other"]);
    assert_eq!(
        family_to_prune("web", &names, &texts(&["psht-web-build-2"])),
        texts(&["psht-web", "psht-web-build-1"])
    );
    assert_eq!(prune_target("psht-web-build-1"), Ok("web-build-1".to_string()));
    assert_eq!(
        prune_target("psht-"),
        Err("invalid app family instance name 'psht-'".to_string())
    );
    assert_eq!(family_reconciled("web", &texts(&[])), Ok(()));
    assert_eq!(
        family_reconciled("web", &texts(&["a: x", "b: y"])),
        Err("failed to reconcile app family instances for 'web': a: x | b: y".to_string())
    );
}

#[test]
fn ports_are_taken_from_the_same_app_alone() {
    let recovery = ProxyRecovery::new("web-build-2", "user-1001", 4000, "in use");
    let owners = texts(&["psht-web", "psht-api", "psht-web-build-2", "psht-web-build-1"]);
    let (kin, strangers) = recovery.owners(&owners).unwrap();
    assert_eq!(kin, texts(&["psht-web", "psht-web-build-1"]));
    assert_eq!(strangers, texts(&["psht-api"]));
    assert_eq!(
        recovery.owners(&texts(&[])),
        Err(
            "failed to attach proxy device to psht-web-build-2 on :4000: in use; \
             no proxy owners discovered in project user-1001"
                .to_string()
        )
    );
    assert_eq!(ProxyRecovery::remove_error("psht-web", "busy"), "psht-web: busy");
    assert_eq!(
        recovery.recovered_line(&kin, &strangers),
        opt("       Recovered proxy :4000 for psht-web-build-2 (removed: psht-web, psht-web-build-1; non-family owners: psht-api)")
    );
    assert_eq!(recovery.recovered_line(&texts(&[]), &texts(&[])), None);
    assert_eq!(
        recovery.not_attached_error("still", &texts(&[]), &strangers, &texts(&["e"]), None),
        "failed to attach proxy device to psht-web-build-2 on :4000 after same-app cleanup: still; \
         initial error: in use; removed owners: none; non-family owners: psht-api; remove errors: e"
    );
}

#[test]
fn cleanups_are_done_once_and_tried_until_then() {
    let mut jobs: Table<CleanupJobRow> = Table::new();
    write_cleanup_job(&mut jobs, "web", &job("web", "psht-web-build-1")).unwrap();
    let mut states = on_record("web", "web-build-2", Some("web-build-1"));
    let live = texts(&["web-build-2", "web-build-1"]);
    let waiting =
        begin_cleanup_previous(&mut jobs, &mut states, "web", false, &live, &here(), 200);
    assert!(matches!(waiting, Ok(None)));
    let plan = begin_cleanup_previous(&mut jobs, &mut states, "web", true, &live, &here(), 200)
        .unwrap()
        .unwrap();
    assert_eq!(plan.previous_app, "web-build-1");
    let stuck = Err("busy".to_string());
    let failed =
        end_cleanup_previous(&mut jobs, &mut states, "web", &plan, &stuck, &live, 300);
    let message = "failed to clean previous instance 'web-build-1': busy".to_string();
    assert_eq!(failed, Err(message.clone()));
    let kept = read_cleanup_job(&jobs, "web").unwrap().unwrap();
    assert_eq!(kept.attempts, 3);
    assert_eq!(kept.last_error, Some(message));
    let after = texts(&["web-build-2"]);
    let done =
        end_cleanup_previous(&mut jobs, &mut states, "web", &plan, &Ok(()), &after, 400);
    assert_eq!(done, Ok(()));
    assert_eq!(read_cleanup_job(&jobs, "web"), Ok(None));
    let state = read_app_runtime_state(&states, "web").unwrap().unwrap();
    assert_eq!(state.previous_instance, None);
}

#[test]
fn serving_containers_stay() {
    let mut jobs: Table<CleanupJobRow> = Table::new();
    write_cleanup_job(&mut jobs, "web", &job("web", "psht-web-build-2")).unwrap();
    let mut states = on_record("web", "web-build-2", None);
    let live = texts(&["web-build-2"]);
    let plan = begin_cleanup_previous(&mut jobs, &mut states, "web", true, &live, &here(), 200);
    assert!(matches!(plan, Ok(None)));
    assert_eq!(read_cleanup_job(&jobs, "web"), Ok(None));

    let mismatched = CleanupJobRow {
        app_id: "api".to_string(),
        active_instance_at_schedule: "psht-web".to_string(),
        scheduled_previous_instance: "psht-web-build-1".to_string(),
        attempts: 0,
        last_error: None,
        scheduled_at: 1,
        updated_at: 1,
    };
    jobs.put("web", mismatched);
    let refused = begin_cleanup_previous(&mut jobs, &mut states, "web", true, &live, &here(), 200);
    assert_eq!(
        refused.err(),
        opt("cleanup job app mismatch: expected 'web', found 'api'")
    );
    write_cleanup_job(&mut jobs, "web", &job("web", "psht-")).unwrap();
    let refused = begin_cleanup_previous(&mut jobs, &mut states, "web", true, &live, &here(), 200);
    assert_eq!(
        refused.err(),
        opt("cleanup job has invalid scheduled previous instance")
    );
    let said = record_cleanup_job_failure(&mut jobs, "web", &job("web", "p"), "x".to_string(), 9);
    assert_eq!(said, "x");
    assert_eq!(
        cleanup_pending_detail(Some(&job("web", "p"))),
        opt("cleanup pending (attempts: 2)")
    );
    assert_eq!(cleanup_pending_detail(None), None);
    let mut states = on_record("web", "web-build-2", Some("web-build-1"));
    let cleared =
        clear_previous_runtime_reference_if_missing(&mut states, "web", &live, 500);
    assert_eq!(cleared, Ok(()));
    let state = read_app_runtime_state(&states, "web").unwrap().unwrap();
    assert_eq!(state.previous_instance, None);
}

fn power_run(power: Power, answer: bool) -> Vec<PowerStep> {
    let mut step = first_power_step(power);
    let mut steps = Vec::new();
    while step != PowerStep::Done {
        steps.push(step);
        step = next_power_step(power, step, answer);
    }
    steps
}

#[test]
fn power_runs_take_their_steps() {
    assert_eq!(
        power_run(Power::Stop, true),
        vec![PowerStep::StopProcess, PowerStep::StopContainer]
    );
    assert_eq!(
        power_run(Power::Start, false),
        vec![
            PowerStep::CheckRunning,
            PowerStep::StartContainer,
            PowerStep::CheckService,
            PowerStep::Launch
        ]
    );
    assert_eq!(
        power_run(Power::Start, true),
        vec![PowerStep::CheckRunning, PowerStep::CheckService]
    );
    assert_eq!(
        power_run(Power::Restart, true),
        vec![
            PowerStep::CheckRunning,
            PowerStep::StopContainer,
            PowerStep::StartContainer,
            PowerStep::Launch
        ]
    );
    assert_eq!(power_run(Power::KeepRunning, true).last(), Some(&PowerStep::Prune));
    let stopped = power_run(Power::KeepStopped, true);
    assert!(!stopped.contains(&PowerStep::StartContainer));
    assert!(!stopped.contains(&PowerStep::Launch));
}

#[test]
fn demands_are_put_on_record_where_they_can_be_met() {
    let mut states = on_record("web", "web", None);
    let mut specs: Table<AppSpecRow> = Table::new();
    let live = texts(&["web"]);
    let active =
        begin_on_demand(Power::Stop, &mut states, &mut specs, "web", &live, 200);
    assert_eq!(active, Ok("web".to_string()));
    assert_eq!(desired_state(&specs, "web"), DesiredState::Stopped);
    let again =
        begin_on_demand(Power::Restart, &mut states, &mut specs, "web", &live, 300);
    assert_eq!(again, Ok("web".to_string()));
    assert_eq!(desired_state(&specs, "web"), DesiredState::Running);
    let none = texts(&[]);
    let missing =
        begin_on_demand(Power::Stop, &mut states, &mut specs, "api", &none, 400);
    assert_eq!(missing, Err("app 'api' not found".to_string()));
    assert_eq!(desired_state(&specs, "api"), DesiredState::Running);
    assert!(begin_on_demand(Power::Stop, &mut states, &mut specs, "A!", &live, 4).is_err());
    assert_eq!(require_running("web", true), Ok(()));
    assert_eq!(require_running("web", false), Err("app 'web' is not running".to_string()));
}

#[test]
fn supervision_follows_what_apps_are_meant_to_be() {
    assert_eq!(supervise_choice(&Ok(true), DesiredState::Running), None);
    assert_eq!(supervise_choice(&Ok(false), DesiredState::Running), Some(Power::KeepRunning));
    assert_eq!(supervise_choice(&Ok(false), DesiredState::Stopped), Some(Power::KeepStopped));
    assert_eq!(supervise_failure("web", "x"), "web: x");
    assert_eq!(supervise_verdict(&texts(&[])), Ok(()));
    assert_eq!(
        supervise_verdict(&texts(&["web: x", "api: y"])),
        Err("supervise failures: web: x; api: y".to_string())
    );
    let mut states = on_record("web", "web-build-2", Some("web"));
    let live = texts(&["web-build-2"]);
    let up = begin_supervised(Power::KeepRunning, &mut states, "web", &live, 200);
    assert_eq!(up, Ok(opt("web-build-2")));
    let plan = begin_destroy(&mut states, "web", &texts(&["web-build-2", "web"]), 300).unwrap();
    assert_eq!(plan.active_app, "web-build-2");
    assert_eq!(plan.previous_app, opt("web"));
}

#[test]
fn apps_are_destroyed_step_by_step() {
    let plan = |previous: Option<&str>| Destruction {
        active_app: "web".to_string(),
        previous_app: previous.map(|name| name.to_string()),
    };
    let steps = |plan: &Destruction| {
        let mut step = DestroyStep::RemoveRoute;
        let mut steps = Vec::new();
        while step != DestroyStep::Done {
            steps.push(step);
            let (next, said) = plan.next(step, &Ok(())).unwrap();
            assert_eq!(said, None);
            step = next;
        }
        steps
    };
    assert_eq!(steps(&plan(None)).len(), 10);
    let all = steps(&plan(Some("web-build-1")));
    assert_eq!(all.len(), 12);
    let at = |step: DestroyStep| all.iter().position(|s| *s == step);
    assert!(at(DestroyStep::DeleteActive) < at(DestroyStep::DeletePrevious));
    assert!(at(DestroyStep::DeletePrevious) < at(DestroyStep::DeleteStorage));
    let err: Result<(), String> = Err("x".to_string());
    for step in [
        DestroyStep::RemoveRoute,
        DestroyStep::StopActive,
        DestroyStep::DeleteActive,
        DestroyStep::DeleteStorage,
    ] {
        assert_eq!(plan(None).next(step, &err), Err("x".to_string()));
    }
    assert_eq!(
        plan(None).next(DestroyStep::ForgetState, &err),
        Ok((
            DestroyStep::Done,
            opt("       Warning: failed to clear app runtime state: x")
        ))
    );
    assert_eq!(
        plan(Some("p")).next(DestroyStep::StopPrevious, &err),
        Ok((DestroyStep::DeletePrevious, None))
    );
}

#[test]
fn running_apps_keep_what_they_require() {
    let mut vars: Table<String> = Table::new();
    vars.put("A", "1".to_string());
    let required = texts(&["A", "B"]);
    assert_eq!(vars_may_be_kept(false, &required, &vars), Ok(()));
    assert_eq!(
        vars_may_be_kept(true, &required, &vars),
        Err("missing required env vars: B. Set them with `psht env NAME=value`.".to_string())
    );
    vars.put("B", "2".to_string());
    assert_eq!(vars_may_be_kept(true, &required, &vars), Ok(()));
}

#[test]
fn apps_are_launched_only_with_all_they_need() {
    let mut vars: Table<String> = Table::new();
    vars.put("TOKEN", "t".to_string());
    let start = Ok("./web".to_string());
    assert_eq!(
        ready_to_launch(&Ok(vars), &Ok(texts(&["TOKEN"])), &start),
        Ok("./web".to_string())
    );
    assert_eq!(
        ready_to_launch(&Ok(Table::new()), &Ok(texts(&["TOKEN"])), &start),
        Err("missing required env vars: TOKEN. Set them with `psht env NAME=value`.".to_string())
    );
    let broken = Err("unreadable".to_string());
    assert_eq!(
        ready_to_launch(&broken, &Ok(texts(&[])), &start),
        Err("unreadable".to_string())
    );
}

#[test]
fn programs_are_provided_in_the_version_asked_for() {
    assert!(matches!(after_build(&Ok(true)), AfterBuild::Inspect));
    assert!(matches!(after_build(&Ok(false)), AfterBuild::Download(None)));
    assert!(matches!(
        after_build(&Err("no cargo".to_string())),
        AfterBuild::Download(Some(err)) if err == "no cargo"
    ));
    assert_eq!(provided("1.2.3", "built", Some("1.2.3")), Ok(()));
    assert_eq!(
        provided("1.2.3", "installed", None),
        Err("failed to provide psht 1.2.3: installed version was unknown".to_string())
    );
    assert_eq!(
        not_provided_error(&opt("b"), "d"),
        "failed to provide psht (build failed: b; release download failed: d)"
    );
    assert_eq!(not_provided_error(&None, "d"), "failed to provide psht: d");
    assert_eq!(source_built("/src", true, "", "/src/target/release/psht", true), Ok(()));
    assert!(source_built("/src", false, " broke ", "/b", false)
        .unwrap_err()
        .starts_with("cargo build failed in /src"));
    assert_eq!(
        source_built("/src", true, "", "/b", false),
        Err("cargo build succeeded but /b was not created".to_string())
    );
    assert_eq!(prepare_server_binary("/opt/psht-server", true), ServerBinary::Current);
    assert_eq!(
        prepare_server_binary("/root/psht-server", false),
        ServerBinary::Fallback { copy: true }
    );
    assert_eq!(
        prepare_server_binary("/usr/local/bin/psht-server", false),
        ServerBinary::Fallback { copy: false }
    );
    assert_eq!(
        prepare_server_binary("/usr/local//bin/psht-server", false),
        ServerBinary::Fallback { copy: false }
    );
    assert_eq!(
        ensure_binary_version("/b", "1.2.3", "installed psht", Some("1.2.2")),
        Err("installed psht version mismatch at /b: expected 1.2.3, got 1.2.2".to_string())
    );
    assert_eq!(staged_binary_name("psht", 7, "99"), ".psht.psht-staged-7-99");
    let passwd = "psht:x:1001:1001::/home/psht:/usr/local/bin/psht-server\n";
    assert_eq!(psht_user_shell_path(Some(passwd)), opt("/usr/local/bin/psht-server"));
    assert_eq!(psht_user_shell_path(Some("psht:x")), None);
    assert!(is_up_to_date("1.2.3", "1.2.3", &vec![opt("1.2.3")]));
    assert!(!is_up_to_date("1.2.3", "1.2.3", &vec![opt("1.2.3"), None]));
    assert!(!is_up_to_date("1.2.4", "1.2.3", &vec![opt("1.2.4")]));
}

#[test]
fn releases_are_tried_one_after_the_other() {
    let mut search = ReleaseSearch::new("1.2.3", texts(&["1.2.3", "1.2.2"]), "https://f", "linux");
    let first = "https://f/releases/download/v1.2.3/psht-1.2.3-linux.tar.gz";
    assert_eq!(search.url(), Ok(first.to_string()));
    assert_eq!(search.used_line(), None);
    search.failed(&ReleaseFailure::Download("404".to_string()));
    assert!(search.url().unwrap().contains("/v1.2.2/"));
    assert_eq!(
        search.used_line(),
        opt("-----> psht 1.2.3 not published; using released psht 1.2.2")
    );
    search.failed(&ReleaseFailure::NoBinary);
    assert_eq!(
        search.url(),
        Err(format!(
            "release download attempts failed: 1.2.3: {first}: 404; 1.2.2: release tarball did not contain psht"
        ))
    );
    let mut broken = ReleaseSearch::new("1.2.3", texts(&["1.2.3"]), "https://f", "linux");
    broken.failed(&ReleaseFailure::Unpack("bad tar".to_string()));
    assert_eq!(
        broken.url(),
        Err("release download attempts failed: 1.2.3: bad tar".to_string())
    );
}

fn upgrade_reply(version: &str) -> UpgradeReply {
    UpgradeReply {
        result: Ok(()),
        found: true,
        version: opt(version),
    }
}

#[test]
fn upgrades_install_what_tells_the_version() {
    let plan = UpgradePlan::new(
        "1.2.3",
        "https://f",
        "linux",
        "/t/psht-server",
        "/t/psht",
        texts(&["/a", "/b"]),
        "/home/psht/bin/psht",
    );
    assert_eq!(
        plan.server_url,
        "https://f/releases/download/v1.2.3/psht-server-1.2.3-linux.tar.gz"
    );
    let good = upgrade_reply("1.2.3");
    let mut step = UpgradeStep::DownloadServer;
    let mut steps = Vec::new();
    while step != UpgradeStep::Finished {
        steps.push(step);
        step = plan.next(step, &good).unwrap();
    }
    assert_eq!(steps.len(), 17);
    assert!(steps.contains(&UpgradeStep::ConfirmServer(1)));
    let old = upgrade_reply("1.2.2");
    assert_eq!(
        plan.next(UpgradeStep::InspectServer, &old),
        Err(
            "downloaded psht-server version mismatch at /t/psht-server: expected 1.2.3, got 1.2.2"
                .to_string()
        )
    );
    assert_eq!(
        plan.next(UpgradeStep::ConfirmServer(1), &old),
        Err("installed psht-server version mismatch at /b: expected 1.2.3, got 1.2.2".to_string())
    );
    let absent = UpgradeReply {
        result: Err("x".to_string()),
        found: false,
        version: None,
    };
    assert_eq!(
        plan.next(UpgradeStep::FindCli, &absent),
        Err("release tarball missing psht binary".to_string())
    );
    assert!(plan
        .next(UpgradeStep::DownloadCli, &absent)
        .unwrap_err()
        .starts_with("download failed: "));
}

fn sound_host() -> DoctorFacts {
    let shell = "/usr/local/bin/psht-server";
    DoctorFacts {
        expected_version: "1.2.3".to_string(),
        shell: opt(shell),
        shell_is_file: true,
        shell_version: opt("1.2.3"),
        cli_executable: true,
        user_exists: true,
        passwd: Some(format!("psht:x:1001:1001::/home/psht:{shell}\n")),
        shells: Some(format!("/bin/sh\n{shell}\n")),
        groups: opt("psht incus"),
        incus_installed: true,
        incus_responsive: true,
        tailscale: None,
        repos_exist: true,
        builds_exist: true,
        stacks_exist: true,
        stack_files: Some(texts(&["node.sh"])),
    }
}

#[test]
fn a_sound_host_passes_all_checks() {
    let (lines, result) = doctor(&sound_host());
    assert_eq!(result, Ok(()));
    let shown: Vec<String> = lines.iter().map(doctor_line).collect();
    assert_eq!(shown[0], "Installation:");
    assert_eq!(shown[1], "  [ok] psht user shell path exists");
    assert_eq!(shown.last(), Some(&"All checks passed.".to_string()));
    assert!(!shown.contains(&"Tailscale:".to_string()));
}

#[test]
fn what_is_wrong_with_a_host_is_said() {
    let facts = DoctorFacts {
        groups: opt("psht"),
        tailscale: Some(TailscaleFacts {
            installed: true,
            connected: true,
            ssh_enabled: true,
            oauth: Some(check_tailscale_oauth_permissions(
                Ok(()),
                Ok(()),
                Err("http 403".to_string()),
            )),
        }),
        stack_files: Some(texts(&["readme.txt", ".sh"])),
        ..sound_host()
    };
    let (lines, result) = doctor(&facts);
    assert_eq!(result, Err("doctor checks failed".to_string()));
    let shown: Vec<String> = lines.iter().map(doctor_line).collect();
    assert!(shown.contains(&"  [FAIL] psht user in incus group".to_string()));
    assert!(shown.contains(&"  [ok] tailscale device api read permission".to_string()));
    assert!(shown.contains(&"  [FAIL] tailscale device api write permission".to_string()));
    assert!(shown.contains(&"  [FAIL] stacks populated".to_string()));
    assert_eq!(shown.last(), Some(&"Some checks failed.".to_string()));
    let no_oauth = DoctorFacts {
        shell: None,
        tailscale: Some(TailscaleFacts {
            installed: true,
            connected: true,
            ssh_enabled: true,
            oauth: None,
        }),
        ..sound_host()
    };
    let (lines, _) = doctor(&no_oauth);
    assert!(lines.iter().any(|line| matches!(
        line,
        DoctorLine::Check { label, ok: false } if label == "psht user shell configured"
    )));
    assert!(lines.iter().any(|line| matches!(
        line,
        DoctorLine::Text(text) if text == "         reason: tailscale OAuth config is missing"
    )));
}

fn host_reply(yes: bool, text: &str) -> HostReply {
    HostReply {
        result: Ok(()),
        yes,
        text: text.to_string(),
        second: "secret".to_string(),
    }
}

fn reply_at(step: u8, yes: bool) -> HostReply {
    if step == boot::READ_CODENAME {
        host_reply(yes, "VERSION_CODENAME=noble\n")
    } else if step == boot::READ_ARCH {
        host_reply(yes, "amd64")
    } else if step == boot::READ_UID {
        host_reply(yes, "1001\n")
    } else {
        host_reply(yes, "id")
    }
}

fn bootstrap_run(mut bootstrap: Bootstrap, yes: bool) -> Vec<u8> {
    let mut steps = Vec::new();
    while bootstrap.step < boot::FINISHED {
        let step = bootstrap.step;
        steps.push(step);
        let answer = yes || step == boot::WAIT_FOR_INCUS;
        assert_eq!(bootstrap.advance(&reply_at(step, answer)), Ok(()));
    }
    assert_eq!(bootstrap.project, "user-1001");
    steps
}

#[test]
fn hosts_are_set_up_step_by_step() {
    let fresh = Bootstrap::new("/usr/local/bin/psht-server", "/opt/psht", true, None);
    assert_eq!(fresh.psht_cli, "/opt/psht/psht");
    assert!(matches!(fresh.action(), HostAction::HasCommand(name) if name == "incus"));
    let steps = bootstrap_run(fresh, false);
    assert!(steps.contains(&boot::INSTALL_INCUS));
    assert!(steps.contains(&boot::ADD_USER));
    assert!(steps.contains(&boot::CREATE_PROJECT));
    for step in boot::MAKE_REPOS..boot::MAKE_BUILDS {
        assert!(steps.contains(&step));
    }
    for step in boot::CHECK_TAILSCALE..boot::LIST_SHELL {
        assert!(!steps.contains(&step));
    }
    let again = Bootstrap::new("/usr/local/bin/psht-server", "/opt/psht", false, None);
    let steps = bootstrap_run(again, true);
    assert!(!steps.contains(&boot::INSTALL_INCUS));
    assert!(steps.contains(&boot::CHANGE_SHELL));
    let at = |step: u8| steps.iter().position(|s| *s == step);
    assert!(at(boot::VALIDATE_OAUTH) < at(boot::CHECK_USER));
}

#[test]
fn pushes_to_a_host_that_is_set_up_start_deploys() {
    let at = |step: u8| Bootstrap {
        step,
        ..Bootstrap::new("/opt/my psht/psht-server", "/opt", true, None)
    };
    let hook = "#!/bin/sh\nunset GIT_DIR\napp=$(basename \"$PWD\" .git)\n\
                while read -r old new ref; do\n  case \"$new\" in\n    \
                *[!0]*) '/opt/my psht/psht-server' deploy \"$app\" --ref \"$ref\" --sha \"$new\" \
                </dev/null ;;\n  esac\ndone\n";
    assert_eq!(post_receive_hook("/opt/my psht/psht-server"), hook);
    assert!(matches!(
        at(boot::WRITE_HOOK).action(),
        HostAction::Write(path, text) if path == "/home/psht/hooks/post-receive" && text == hook
    ));
    assert!(matches!(
        at(boot::MODE_HOOK).action(),
        HostAction::Run(words)
            if words == texts(&["chmod", "755", "/home/psht/hooks/post-receive"])
    ));
    assert!(matches!(
        at(boot::NAME_HOOKS).action(),
        HostAction::AddLine(path, line)
            if path == "/home/psht/.gitconfig" && line == "[core] hooksPath = /home/psht/hooks"
    ));
    assert!(matches!(
        at(boot::OWN_HOOKS).action(),
        HostAction::Run(words)
            if words == texts(&[
                "chown",
                "-R",
                "psht:psht",
                "/home/psht/hooks",
                "/home/psht/.gitconfig"
            ])
    ));
}

#[test]
fn setting_up_stops_where_something_is_missing() {
    let at = |step: u8| Bootstrap {
        step,
        ..Bootstrap::new("/b", "/opt", false, None)
    };
    let no = host_reply(false, "");
    assert_eq!(
        at(boot::CHECK_TAILSCALE).advance(&no),
        Err("Tailscale is not installed. Install it first: https://tailscale.com/download/linux"
            .to_string())
    );
    assert_eq!(
        at(boot::CHECK_CONNECTED).advance(&no),
        Err("Tailscale is not connected. Run: sudo tailscale up --ssh".to_string())
    );
    assert_eq!(
        at(boot::ASK_STEPS).advance(&no),
        Err("Complete the steps above and re-run: sudo psht-server bootstrap".to_string())
    );
    assert_eq!(
        at(boot::READ_CODENAME).advance(&no),
        Err("VERSION_CODENAME missing in /etc/os-release".to_string())
    );
    let failed = HostReply {
        result: Err("no network".to_string()),
        ..host_reply(true, "")
    };
    assert_eq!(at(boot::UPDATE_FOR_INCUS).advance(&failed), Err("no network".to_string()));
    let mut waiting = at(boot::WAIT_FOR_INCUS);
    for _ in 0..29 {
        assert_eq!(waiting.advance(&no), Ok(()));
        assert_eq!(waiting.step, boot::WAIT_FOR_INCUS);
    }
    assert_eq!(
        waiting.advance(&no),
        Err("incus did not become ready after 30 seconds".to_string())
    );
    let given = Some(("id".to_string(), "secret".to_string()));
    let mut from_env = Bootstrap {
        step: boot::CHECK_OAUTH,
        ..Bootstrap::new("/b", "/opt", false, given)
    };
    assert_eq!(from_env.advance(&no), Ok(()));
    assert_eq!(from_env.step, boot::WRITE_OAUTH);
    assert!(steps_confirmed("y"));
    assert!(!steps_confirmed("n"));
}

fn facts() -> AppFacts {
    let mut vars: Table<String> = Table::new();
    vars.put("TOKEN", "t".to_string());
    AppFacts {
        process: Ok(true),
        start_command: Ok("./web\n".to_string()),
        required_env: Ok(texts(&["TOKEN"])),
        vars: Ok(vars),
        listening: Ok(true),
        cleanup: None,
    }
}

#[test]
fn apps_are_well_only_where_all_is() {
    let report = check_app_health("web", "web-build-2", "Running", &facts());
    assert!(report.healthy);
    assert_eq!(report.details[0], "active instance: psht-web-build-2");
    assert_eq!(report.details[1], "container running");
    assert_eq!(report.details[3], "start command: ./web");
    assert_eq!(report.details[4], "required env present (TOKEN)");
    let stopped = check_app_health("web", "web", "Stopped", &facts());
    assert!(!stopped.healthy);
    assert_eq!(
        stopped.details,
        texts(&["active instance: psht-web", "container status is Stopped"])
    );
    let down = AppFacts {
        process: Ok(false),
        vars: Ok(Table::new()),
        ..facts()
    };
    let report = check_app_health("web", "web", "RUNNING", &down);
    assert!(!report.healthy);
    assert!(report.details.contains(&"app process not running".to_string()));
    assert!(!report.details.iter().any(|line| line.starts_with("tcp")));
    let deaf = AppFacts {
        listening: Ok(false),
        required_env: Ok(texts(&[])),
        ..facts()
    };
    let report = check_app_health("web", "web", "Running", &deaf);
    assert!(!report.healthy);
    assert!(report.details.contains(&"required env: none".to_string()));
    let missing = missing_report("web");
    assert!(!missing.healthy);
    assert_eq!(missing.details, texts(&["active container missing"]));
    assert_eq!(health_verdict(&texts(&[])), Ok(()));
    assert_eq!(
        health_verdict(&texts(&["web", "api"])),
        Err("2 app(s) unhealthy: web, api".to_string())
    );
}

#[test]
fn health_checks_are_summed_up() {
    let reports = vec![
        missing_report("api"),
        check_app_health("web", "web", "Running", &facts()),
        missing_report("zoo"),
    ];
    let (summary, result) = health_outcome(&reports);
    assert_eq!(
        summary,
        HealthSummary {
            app_count: 3,
            unhealthy_count: 2
        }
    );
    assert_eq!(result, Err("2 app(s) unhealthy: api, zoo".to_string()));
    let (summary, result) = health_outcome(&Vec::new());
    assert_eq!((summary.app_count, summary.unhealthy_count), (0, 0));
    assert_eq!(result, Ok(()));
}

#[test]
fn statistics_are_reported_where_all_is_set() {
    let all = Some("x");
    let settings = stats_settings(Some(" https://i "), all, all, all, None, None, None).unwrap();
    assert_eq!(settings.url, "https://i");
    assert_eq!(settings.deploy_measurement(), "psht_stats");
    assert_eq!(settings.health_measurement(), "psht_stats_health");
    assert_eq!(settings.timeout_secs, 2);
    assert!(!settings.debug);
    let named = stats_settings(all, all, all, all, Some("m"), Some("9"), Some("1")).unwrap();
    assert_eq!(named.health_measurement(), "m_health");
    assert_eq!((named.timeout_secs, named.debug), (9, true));
    assert_eq!(stats_settings(all, all, all, Some(" "), None, None, None), None);
    assert_eq!(stats_settings(None, all, all, all, None, None, None), None);
    let good = deploy_attempt("web", "push", 7, 2, true, &Ok(()));
    assert!(good.success && good.force && good.error.is_none());
    let bad = deploy_attempt("web", "deploy", 7, 2, false, &Err("x".to_string()));
    assert_eq!((bad.success, bad.attempt, bad.error), (false, 2, opt("x")));
}

#[test]
fn every_app_of_the_host_is_listed() {
    let mut states = on_record("web", "web-build-2", Some("web"));
    write_app_runtime_state(&mut states, "gone", "gone", None, &here(), 1).unwrap();
    let container = |name: &str, status: &str| ContainerInfo {
        name: name.to_string(),
        status: status.to_string(),
    };
    let containers = vec![
        container("psht-web-build-2", "Running"),
        container("psht-api", "Stopped"),
        container("other", "Running"),
    ];
    let live = texts(&["web-build-2", "api"]);
    let targets =
        app_targets_from_runtime_state(&mut states, &containers, &live, 200).unwrap();
    let web = targets.get("web").unwrap();
    assert_eq!((web.active_app.as_deref(), web.status.as_str()), (Some("web-build-2"), "Running"));
    let api = targets.get("api").unwrap();
    assert_eq!((api.active_app.as_deref(), api.status.as_str()), (Some("api"), "Stopped"));
    let gone = targets.get("gone").unwrap();
    assert_eq!((gone.active_app.as_deref(), gone.status.as_str()), (None, "Missing"));
    assert!(!targets.has("other"));
    assert_eq!(ps_line("web", "Running"), format!("{:<20} {:<10}", "web", "Running"));
    assert_eq!(
        health_line("web", "ok", "fine"),
        format!("{:<20} {:<10} {}", "web", "ok", "fine")
    );
}

#[test]
fn logs_are_shown_followed_or_refused() {
    assert!(matches!(
        after_history("web", false, None, false),
        AfterHistory::Unknown(err) if err == "app 'web' not found"
    ));
    assert!(matches!(after_history("web", true, None, false), AfterHistory::Done));
    assert!(matches!(
        after_history("web", true, opt("web-build-2"), true),
        AfterHistory::Follow(app) if app == "web-build-2"
    ));
    assert!(matches!(after_history("web", false, opt("web"), false), AfterHistory::Show(_)));
    assert_eq!(app_log_lines("a\nb\n"), texts(&["a", "b"]));
    assert_eq!(app_log_line("12:00", "hi"), "12:00 [app] hi");
    assert_eq!(
        app_log_failed_error("web", "x"),
        "failed to read app log from 'web': x"
    );
}

#[test]
fn commands_are_judged_by_their_outcome() {
    let args = texts(&["storage", "list"]);
    assert_eq!(
        command_failed_error("incus", &args, " boom \n"),
        "command failed: incus storage list: boom"
    );
    assert_eq!(command_failed_error("incus", &args, " \n"), "command failed: incus storage list");
    assert_eq!(run_cmd("incus", &args, true), Ok(()));
    assert_eq!(
        run_cmd("incus", &args, false),
        Err("command failed: incus storage list".to_string())
    );
    assert_eq!(run_cmd_capture("incus", &args, true, " x \n", ""), Ok("x".to_string()));
    assert!(run_cmd_capture("incus", &args, false, "x", "e").is_err());
    assert_eq!(
        timeout_args("incus", &args, 20),
        texts(&["--kill-after=2s", "20s", "incus", "storage", "list"])
    );
    assert!(timed_out(Some(124)) && timed_out(Some(137)));
    assert!(!timed_out(Some(1)) && !timed_out(None));
    let slow = "command timed out after 20s: incus storage list";
    assert_eq!(command_timed_out_error("incus", &args, 20), slow);
    assert_eq!(
        run_cmd_capture_with_timeout("incus", &args, 20, true, true, "x", ""),
        Err(slow.to_string())
    );
    assert_eq!(
        run_cmd_capture_with_timeout("incus", &args, 20, false, true, "x\n", ""),
        Ok("x".to_string())
    );
    assert_eq!(command_succeeds_with_timeout("incus", &args, 20, false, false), Ok(false));
    assert!(command_succeeds_with_timeout("incus", &args, 20, true, false).is_err());
}

#[test]
fn settings_of_the_host_have_defaults_and_bounds() {
    assert_eq!(require_root("0", "bootstrap"), Ok(()));
    assert_eq!(
        require_root("1000", "upgrade"),
        Err("Run this command as root: sudo psht-server upgrade".to_string())
    );
    assert_eq!(env_u64(Some("12"), 5), 12);
    assert_eq!(env_u64(Some("x"), 5), 5);
    assert_eq!(env_u64(None, 5), 5);
    assert_eq!(reconcile_lease_ttl_secs(None), 30);
    assert_eq!(reconcile_lease_ttl_secs(Some("1")), 5);
    assert_eq!(reconcile_lease_heartbeat_secs(Some("0")), 1);
    assert_eq!(takeover_retry_ms(Some("5")), 100);
    assert_eq!(takeover_max_cancel_per_cycle(None), 20);
    assert_eq!(blocked_op_budget_secs(None), 15);
    assert_eq!(os_release_codename("VERSION_CODENAME=noble"), Ok("noble".to_string()));
    assert!(os_release_codename("NAME=x").is_err());
    let passwd = "psht:x:1001:1001::/srv/psht:/bin/sh";
    assert_eq!(psht_user_home_dir(Some(passwd)), "/srv/psht");
    assert_eq!(psht_user_home_dir(None), "/home/psht");
}

#[test]
fn build_numbers_count_up() {
    let (first, text) = increment_build_number(None);
    assert_eq!((first, text.as_str()), (1, "1\n"));
    let (second, _) = increment_build_number(Some(&text));
    assert_eq!(second, 2);
    let (last, _) = increment_build_number(Some("18446744073709551615\n"));
    assert_eq!(last, u64::MAX);
}

#[test]
fn pools_and_networks_are_chosen() {
    let none: Result<Option<String>, String> = Ok(None);
    let some: Result<Option<String>, String> = Ok(opt("tank"));
    let failed: Result<Option<String>, String> = Err("x".to_string());
    assert!(matches!(default_storage_pool(Some(" fast \n"), &failed), Ok(PoolChoice::Use(p)) if p == "fast"));
    assert!(matches!(default_storage_pool(None, &some), Ok(PoolChoice::Use(p)) if p == "tank"));
    assert!(matches!(default_storage_pool(Some(" "), &none), Ok(PoolChoice::Create)));
    assert!(matches!(default_storage_pool(None, &failed), Err(err) if err == "x"));
    assert_eq!(
        volume_args("show", "tank", "psht-storage-web"),
        texts(&["storage", "volume", "show", "tank", "psht-storage-web"])
    );
    assert!(matches!(default_network_name(true, true, &none), Ok(NetworkChoice::Use(n)) if n == "incusbr0"));
    assert!(matches!(default_network_name(false, true, &none), Ok(NetworkChoice::Use(n)) if n == "default"));
    assert!(matches!(default_network_name(false, false, &some), Ok(NetworkChoice::Use(n)) if n == "tank"));
    assert!(matches!(default_network_name(false, false, &none), Ok(NetworkChoice::Create)));
    assert_eq!(
        create_network_args(),
        texts(&["network", "create", "incusbr0", "ipv4.address=auto", "ipv6.address=none"])
    );
    assert_eq!(network_created(&Ok(()), false), Ok("incusbr0".to_string()));
    assert_eq!(network_created(&Err("x".to_string()), true), Ok("incusbr0".to_string()));
    assert_eq!(
        network_created(&Err("x".to_string()), false),
        Err("failed to create fallback incus network incusbr0: x".to_string())
    );
}

#[test]
fn deploys_are_on_record_in_one_generation() {
    let first = begin_reconcile_intent(
        "web",
        "deploy",
        "git",
        "{}",
        7,
        1_000,
        42,
        (opt("psht-web"), None),
        opt("psht-web-build-1"),
        None,
    );
    assert_eq!(first.ctx.intent_id, "1000-42-7");
    assert_eq!(first.ctx.plan_hash, "web:deploy:7");
    assert_eq!(first.intent.generation, 7);
    assert_eq!(first.spec_row.desired_state, desired_state_name(DesiredState::Running));
    assert_eq!(first.status.phase, "Reconciling");
    assert_eq!(first.status.candidate_instance, opt("psht-web-build-1"));
    assert_eq!(first.checkpoint.op_name, "intent-accepted");
    let step = reconcile_checkpoint("web", &first.ctx, 1, "deploy-start", None);
    assert_eq!((step.generation, step.op_index), (7, 1));
    let well =
        complete_reconcile_intent("web", &first.ctx, &Ok(()), opt("abc"), (opt("psht-web"), None));
    assert_eq!(well.status.phase, "Idle");
    assert_eq!(well.status.observed_generation, 7);
    assert_eq!(well.summary, "deploy succeeded ({})");
    assert!(well.checkpoint.is_none());
    let ill = complete_reconcile_intent("web", &first.ctx, &Err("x".to_string()), None, (None, None));
    assert_eq!(ill.status.phase, "Degraded");
    assert_eq!(ill.status.health_json, "{\"healthy\":false}");
    assert_eq!(ill.status.last_error_json, opt("{\"error\":\"x\",\"generation\":7}"));
    assert_eq!(
        ill.status.recovery_actions_json,
        "[\"inspect deploy logs\",\"run `psht health`\",\"retry deploy\"]"
    );
    assert_eq!(ill.checkpoint.unwrap().last_result_json, opt("{\"error\":\"x\"}"));
    assert_eq!((ill.result.as_str(), ill.summary.as_str()), ("failed", "x"));
    assert_eq!(lease_owner("box", 42, &first.ctx), "box:42:1000-42-7");
}

#[test]
fn leases_are_kept_and_steps_put_on_record() {
    let lease = ActiveReconcileLease {
        owner: "box:42:i".to_string(),
        epoch: 3,
        intent_id: "i".to_string(),
        generation: 7,
    };
    assert_eq!(lease_ttl_ms(30), 30_000);
    assert!(heartbeat_due(Some(&lease), 5, 5));
    assert!(!heartbeat_due(Some(&lease), 4, 5));
    assert!(!heartbeat_due(None, 90, 5));
    let row =
        append_reconcile_attempt_record("web", Some(&lease), "wait", "blocked", &json_text("d"), 99)
            .unwrap();
    assert_eq!((row.generation, row.intent_id.as_str()), (7, "i"));
    assert_eq!(row.detail_json, "\"d\"");
    assert!(append_reconcile_attempt_record("web", None, "w", "b", &json_text("d"), 9).is_none());
    let blocked =
        update_reconcile_phase_from_lease("web", Some(&lease), "Blocked", Some("op"), (None, None), None)
            .unwrap();
    assert_eq!(blocked.health_json, "{\"healthy\":false,\"reason\":\"blocked\"}");
    assert_eq!(blocked.last_error_json, opt("{\"error\":\"op\"}"));
    assert!(update_reconcile_phase_from_lease("web", None, "Blocked", None, (None, None), None).is_none());
}
