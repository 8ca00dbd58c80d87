use psht::blocked::{busy_op_policy_from_raw, BusyOpPolicy};
use psht::deploy::{pending_force_request_is_ours, should_process_pending_request};
use psht::env::{
    app_runner_script_content, ensure_required_env_present, env_file_text, parse_env_assignment,
    read_env_vars, ssh_login_env_content, write_ssh_login_env_cmd, SSH_LOGIN_ENV_PATH,
};
use psht::env_command::{env_command, env_unset};
use psht::failure::{
    deploy_interrupted_error, is_deploy_interrupted_error, DeployInterruptState,
};
use psht::fingerprint::{
    apt_packages_fingerprint, binary_of_start_command, binary_payload_hash, setup_hash, stack_hash,
};
use psht::git::{
    git_target_already_succeeded_with_state, parse_git_checkout_target, GitCheckoutTarget,
    GitDeployState, GitDeployStatus, PendingGitDeployRequest,
};
use psht::health::{
    check_app_health, ps_container_state, ps_status_from_parts, should_delegate_health_to_psht,
    AppFacts, PsContainerState,
};
use psht::host::{
    binary_hash_text, ensure_line_in_file, increment_build_number, parse_version_codename,
    read_binary_hash, read_build_number,
};
use psht::lock::{
    deploy_lock_text, lock_step, parse_deploy_lock_metadata, refresh_deploy_lock_heartbeat,
    DeployLockMetadata, LockStep, LockTry,
};
use psht::paths::{
    binary_hash_path_in, builds_dir, deploy_lock_path_in, env_path_in, path_is_world_executable,
    repos_dir, resolve_stack_in, stacks_dir,
};
use psht::profile::{
    app_storage_volume_name, app_tailscale_volume_name, profile_has_nic, profile_has_root_disk,
};
use psht::provide::binary_matches_version;
use psht::release::{
    binary_version, parse_latest_release_version_url, parse_version_components, version_is_newer,
    DEFAULT_FORGE_URL,
};
use psht::rows::{
    clear_cleanup_job, clear_deploy_interrupt, clear_git_deploy_state, read_cleanup_job,
    read_deploy_interrupt, read_git_deploy_state, read_pending_git_request,
    request_deploy_interrupt, take_pending_git_request, write_cleanup_job, write_git_deploy_state,
    write_pending_git_request, CleanupJobRow, CleanupJobState, DeployInterruptRow,
    GitDeployStateRow, PendingGitRequestRow,
};
use psht::scripts::{
    app_process_probe_cmd, app_service_unit_content, app_workdir_command, apt_install_command,
    hook_command, should_tolerate_cutover_stop_failure, stop_app_process_cmd_with_limits,
    stop_port_listeners_cmd_with_limits, write_start_command_cmd, APP_PROCESS_LOG_PATH,
    APP_PROCESS_PID_PATH, APP_SERVICE_RUNNER_PATH, START_COMMAND_PATH,
};
use psht::setup::{
    cli_update_manifest_json, init_stacks, oauth_config_text, setup_script,
    supervise_service_unit_content, supervise_timer_unit_content, update_script,
    CliUpdateManifest,
};
use psht::shell::shell_quote;
use psht::table::Table;

fn texts(list: &[&str]) -> Vec<String> {
    list.iter().map(|text| text.to_string()).collect()
}

fn vars(list: &[(&str, &str)]) -> Table<String> {
    let mut vars: Table<String> = Table::new();
    for (name, value) in list {
        vars.put(name, value.to_string());
    }
    vars
}

#[test]
fn default_forge_url_points_to_github() {
    assert_eq!(DEFAULT_FORGE_URL, "https://github.com/nakajima/psht");
}

#[test]
fn binary_version_parses_cli_output() {
    let version = binary_version("psht 9.9.9\n");
    assert_eq!(version.as_deref(), Some("9.9.9"));
    assert!(binary_matches_version(version.as_deref(), "9.9.9"));
    assert!(!binary_matches_version(version.as_deref(), "0.0.1"));
}

#[test]
fn builds_dir_under_home() {
    let dir = builds_dir("/home/psht");
    assert!(dir.ends_with("builds"));
}

#[test]
fn repos_dir_under_home() {
    let dir = repos_dir("/home/psht");
    assert!(dir.ends_with("repos"));
}

#[test]
fn stacks_dir_under_home() {
    let dir = stacks_dir("/home/psht");
    assert!(dir.ends_with("stacks"));
}

#[test]
fn stack_hash_is_deterministic() {
    let script = b"#!/bin/sh\necho hello".to_vec();
    let hash1 = stack_hash(&script);
    let hash2 = stack_hash(&script);
    assert_eq!(hash1, hash2);
}

#[test]
fn stack_hash_changes_with_content() {
    let hash1 = stack_hash(&b"#!/bin/sh\necho hello".to_vec());
    let hash2 = stack_hash(&b"#!/bin/sh\necho world".to_vec());
    assert_ne!(hash1, hash2);
}

#[test]
fn stack_hash_is_hex_string() {
    let hash = stack_hash(&b"#!/bin/sh\necho hello".to_vec());
    assert_eq!(hash.len(), 16);
    assert!(hash.chars().all(|c| c.is_ascii_hexdigit()));
}

#[test]
fn apt_packages_fingerprint_is_order_insensitive() {
    let a = vec!["git".to_string(), "curl".to_string()];
    let b = vec!["curl".to_string(), "git".to_string()];
    assert_eq!(apt_packages_fingerprint(&a), apt_packages_fingerprint(&b));
}

#[test]
fn apt_packages_fingerprint_ignores_blanks_and_duplicates() {
    let packages = vec![
        " curl ".to_string(),
        "".to_string(),
        "curl".to_string(),
        "git".to_string(),
        "   ".to_string(),
    ];
    let canonical = vec!["curl".to_string(), "git".to_string()];
    assert_eq!(
        apt_packages_fingerprint(&packages),
        apt_packages_fingerprint(&canonical)
    );
}

#[test]
fn apt_packages_fingerprint_none_when_empty() {
    let packages = vec!["".to_string(), "  ".to_string()];
    assert!(apt_packages_fingerprint(&packages).is_none());
}

#[test]
fn setup_hash_includes_apt_fingerprint_when_present() {
    assert_eq!(
        setup_hash("deadbeef", Some("cafebabe")),
        "deadbeef:cafebabe"
    );
    assert_eq!(setup_hash("deadbeef", None), "deadbeef");
}

#[test]
fn binary_hash_cache_round_trip() {
    assert_eq!(binary_hash_path_in("/x", "myapp"), "/x/myapp.hash");
    let text = binary_hash_text("deadbeef");
    assert_eq!(read_binary_hash(Some(&text)).as_deref(), Some("deadbeef"));
    assert_eq!(read_binary_hash(Some(" \n")), None);
    assert_eq!(read_binary_hash(None), None);
}

#[test]
fn binary_payload_hash_changes_with_binary_content() {
    assert_eq!(
        binary_of_start_command("./app\n").unwrap().as_deref(),
        Some("app")
    );
    let hash1 = binary_payload_hash("./app\n", &b"first".to_vec());
    let hash2 = binary_payload_hash("./app\n", &b"second".to_vec());
    assert_ne!(hash1, hash2);
}

#[test]
fn binary_payload_hash_changes_with_start_command() {
    let bits = b"same-bits".to_vec();
    let hash1 = binary_payload_hash("./app\n", &bits);
    let hash2 = binary_payload_hash("./app --debug\n", &bits);
    assert_ne!(hash1, hash2);
}

#[test]
fn only_local_binaries_are_hashed() {
    assert_eq!(binary_of_start_command("/usr/bin/app").unwrap(), None);
    assert_eq!(binary_of_start_command("../app").unwrap(), None);
    assert_eq!(binary_of_start_command("./").unwrap(), None);
    assert_eq!(
        binary_of_start_command(" \n").unwrap_err(),
        ".psht-start-command is empty"
    );
}

#[test]
fn read_build_number_defaults_to_zero() {
    assert_eq!(read_build_number(None), 0);
}

#[test]
fn read_build_number_invalid_defaults_to_zero() {
    assert_eq!(read_build_number(Some("nope\n")), 0);
}

#[test]
fn increment_build_number_is_monotonic() {
    let (n1, text) = increment_build_number(None);
    let (n2, text) = increment_build_number(Some(&text));
    let (n3, text) = increment_build_number(Some(&text));
    assert_eq!((n1, n2, n3), (1, 2, 3));
    assert_eq!(text, "3\n");
    let (last, _) = increment_build_number(Some("18446744073709551615"));
    assert_eq!(last, u64::MAX);
}

fn target() -> GitCheckoutTarget {
    GitCheckoutTarget {
        ref_name: "refs/heads/main".to_string(),
        sha: "deadbeef".to_string(),
    }
}

#[test]
fn git_deploy_state_round_trip() {
    let mut states: Table<GitDeployStateRow> = Table::new();
    let app = "deploy-state";
    write_git_deploy_state(&mut states, app, &target(), GitDeployStatus::Success);
    let state = GitDeployState {
        ref_name: "refs/heads/main".to_string(),
        sha: "deadbeef".to_string(),
        status: GitDeployStatus::Success,
    };
    let loaded = read_git_deploy_state(&states, app).unwrap().unwrap();
    assert_eq!(loaded, state);
    clear_git_deploy_state(&mut states, app);
    assert!(read_git_deploy_state(&states, app).unwrap().is_none());
}

#[test]
fn pending_git_target_round_trip() {
    let mut requests: Table<PendingGitRequestRow> = Table::new();
    let app = "pending-request";
    let request = PendingGitDeployRequest::from_target(&target(), false, None, 1);
    write_pending_git_request(&mut requests, app, &request).unwrap();
    let loaded = read_pending_git_request(&requests, app)
        .unwrap()
        .unwrap()
        .target();
    assert_eq!(loaded, target());
    let taken = take_pending_git_request(&mut requests, app)
        .unwrap()
        .unwrap()
        .target();
    assert_eq!(taken, target());
    assert!(take_pending_git_request(&mut requests, app)
        .unwrap()
        .is_none());
}

#[test]
fn pending_git_request_round_trip_preserves_force_metadata() {
    let mut requests: Table<PendingGitRequestRow> = Table::new();
    let app = "pending-force";
    let request = PendingGitDeployRequest {
        ref_name: "refs/heads/main".to_string(),
        sha: "deadbeef".to_string(),
        force: true,
        request_id: Some("req-123".to_string()),
        interrupt_requested_at: Some(123),
    };

    write_pending_git_request(&mut requests, app, &request).unwrap();
    let loaded = read_pending_git_request(&requests, app).unwrap().unwrap();
    assert_eq!(loaded, request);
}

#[test]
fn deploy_interrupt_state_round_trip() {
    let mut interrupts: Table<DeployInterruptRow> = Table::new();
    let app = "interrupt";
    let state = DeployInterruptState {
        request_id: "req-123".to_string(),
        requested_at: 123,
        target_sha: "deadbeef".to_string(),
    };
    request_deploy_interrupt(&mut interrupts, app, &state).unwrap();
    let loaded = read_deploy_interrupt(&interrupts, app).unwrap().unwrap();
    assert_eq!(loaded, state);
    clear_deploy_interrupt(&mut interrupts, app);
    assert!(read_deploy_interrupt(&interrupts, app).unwrap().is_none());
}

#[test]
fn cleanup_job_state_round_trip() {
    let mut jobs: Table<CleanupJobRow> = Table::new();
    let app = "cleanup-job".to_string();
    let state = CleanupJobState {
        app: app.clone(),
        active_instance_at_schedule: "psht-myapp-build-100".to_string(),
        scheduled_previous_instance: "psht-myapp-build-99".to_string(),
        attempts: 2,
        last_error: Some("busy".to_string()),
        scheduled_at: 100,
        updated_at: 101,
    };
    write_cleanup_job(&mut jobs, &app, &state).unwrap();
    let loaded = read_cleanup_job(&jobs, &app).unwrap().unwrap();
    assert_eq!(loaded, state);
    clear_cleanup_job(&mut jobs, &app);
    assert!(read_cleanup_job(&jobs, &app).unwrap().is_none());
}

#[test]
fn parse_deploy_lock_metadata_parses_fields() {
    let parsed = parse_deploy_lock_metadata("pid=123\ncreated=10\nupdated=12\n");
    assert_eq!(parsed.pid, Some(123));
    assert_eq!(parsed.created, Some(10));
    assert_eq!(parsed.updated, Some(12));
}

#[test]
fn parse_deploy_lock_metadata_ignores_invalid_values() {
    let parsed = parse_deploy_lock_metadata("pid=nope\ncreated=\nupdated=abc\n");
    assert_eq!(parsed.pid, None);
    assert_eq!(parsed.created, None);
    assert_eq!(parsed.updated, None);
}

#[test]
fn refresh_deploy_lock_heartbeat_updates_updated_timestamp() {
    assert_eq!(deploy_lock_path_in("/x", "myapp"), "/x/myapp.lock");
    let metadata = DeployLockMetadata {
        pid: Some(42),
        created: Some(100),
        updated: Some(100),
    };
    let text = deploy_lock_text(metadata, 42, 150);
    let refreshed =
        refresh_deploy_lock_heartbeat(parse_deploy_lock_metadata(&text), 42, 200).unwrap();
    let loaded = parse_deploy_lock_metadata(&deploy_lock_text(refreshed, 42, 200));

    assert_eq!(loaded.pid, Some(42));
    assert_eq!(loaded.created, Some(100));
    assert!(loaded.updated.unwrap_or(0) >= 100);
    assert_eq!(loaded.updated, Some(200));
    assert!(refresh_deploy_lock_heartbeat(metadata, 43, 200).is_none());
}

#[test]
fn deploy_lock_is_exclusive_until_guard_drops() {
    assert_eq!(lock_step(false, LockTry::Created), LockStep::Acquired);
    assert_eq!(
        lock_step(false, LockTry::Held { age_secs: 1 }),
        LockStep::Busy
    );
    assert_eq!(lock_step(false, LockTry::Created), LockStep::Acquired);
}

#[test]
fn git_target_already_succeeded_checks_success_and_sha() {
    let target = target();
    let success_same_sha = GitDeployState {
        ref_name: "refs/heads/main".to_string(),
        sha: "deadbeef".to_string(),
        status: GitDeployStatus::Success,
    };
    let failed_same_sha = GitDeployState {
        ref_name: "refs/heads/main".to_string(),
        sha: "deadbeef".to_string(),
        status: GitDeployStatus::Failed,
    };
    let success_other_sha = GitDeployState {
        ref_name: "refs/heads/main".to_string(),
        sha: "beadfeed".to_string(),
        status: GitDeployStatus::Success,
    };

    assert!(git_target_already_succeeded_with_state(
        Some(&success_same_sha),
        &target
    ));
    assert!(!git_target_already_succeeded_with_state(
        Some(&failed_same_sha),
        &target
    ));
    assert!(!git_target_already_succeeded_with_state(
        Some(&success_other_sha),
        &target
    ));
    assert!(!git_target_already_succeeded_with_state(None, &target));
}

#[test]
fn should_process_pending_request_honors_force_for_same_sha() {
    let active = target();
    let non_forced = PendingGitDeployRequest {
        ref_name: "refs/heads/main".to_string(),
        sha: "deadbeef".to_string(),
        force: false,
        request_id: None,
        interrupt_requested_at: None,
    };
    let forced = PendingGitDeployRequest {
        ref_name: "refs/heads/main".to_string(),
        sha: "deadbeef".to_string(),
        force: true,
        request_id: Some("req-123".to_string()),
        interrupt_requested_at: Some(123),
    };
    assert!(!should_process_pending_request(Some(&active), &non_forced));
    assert!(should_process_pending_request(Some(&active), &forced));
}

#[test]
fn pending_force_request_is_ours_supports_legacy_force_without_request_id() {
    let pending = PendingGitDeployRequest {
        ref_name: "refs/heads/main".to_string(),
        sha: "deadbeef".to_string(),
        force: true,
        request_id: None,
        interrupt_requested_at: None,
    };
    assert!(pending_force_request_is_ours(
        Some(&pending),
        "req-123",
        "deadbeef"
    ));
    assert!(!pending_force_request_is_ours(
        Some(&pending),
        "req-123",
        "cafebabe"
    ));
}

#[test]
fn deploy_interrupted_error_prefix_is_detected() {
    let state = DeployInterruptState {
        request_id: "req-123".to_string(),
        requested_at: 123,
        target_sha: "deadbeef".to_string(),
    };
    let msg = deploy_interrupted_error("cutover start", &state);
    assert!(is_deploy_interrupted_error(&msg));
    assert!(!is_deploy_interrupted_error("some other error"));
}

#[test]
fn resolve_stack_uses_custom_when_present() {
    let (name, path) = resolve_stack_in("myapp", true, "bun", "/x/stacks");
    assert_eq!(name, "myapp");
    assert_eq!(path, "/x/stacks/myapp.sh");
}

#[test]
fn resolve_stack_falls_back_to_builtin() {
    let (name, path) = resolve_stack_in("myapp", false, "bun", "/x/stacks");
    assert_eq!(name, "bun");
    assert_eq!(path, "/x/stacks/bun.sh");
}

#[test]
fn init_stacks_writes_all_scripts() {
    let stacks = vec![
        ("binary".to_string(), "#!/bin/sh\n".to_string()),
        ("bun".to_string(), "#!/bin/sh\necho bun\n".to_string()),
    ];
    let files = init_stacks("/home/psht/stacks", &stacks);
    assert_eq!(
        files,
        vec![
            (
                "/home/psht/stacks/binary.sh".to_string(),
                "#!/bin/sh\n".to_string()
            ),
            (
                "/home/psht/stacks/bun.sh".to_string(),
                "#!/bin/sh\necho bun\n".to_string()
            ),
        ]
    );
}

#[test]
fn parse_version_codename_from_os_release() {
    let os_release = "NAME=Ubuntu\nVERSION_CODENAME=noble\n";
    assert_eq!(
        parse_version_codename(os_release),
        Some("noble".to_string())
    );
}

#[test]
fn parse_version_codename_handles_quotes() {
    let os_release = "NAME=Ubuntu\nVERSION_CODENAME=\"jammy\"\n";
    assert_eq!(
        parse_version_codename(os_release),
        Some("jammy".to_string())
    );
}

#[test]
fn profile_has_root_disk_detects_root_device() {
    let profile = r#"name: default
devices:
  eth0:
    type: nic
    nictype: bridged
  root:
    path: /
    pool: default
    type: disk
"#;
    assert!(profile_has_root_disk(profile));
}

#[test]
fn profile_has_root_disk_detects_non_root_named_device() {
    let profile = r#"name: default
devices:
  data:
    path: /data
    pool: default
    type: disk
  disk0:
    path: /
    pool: default
    type: disk
"#;
    assert!(profile_has_root_disk(profile));
}

#[test]
fn profile_has_root_disk_returns_false_without_root_path_disk() {
    let profile = r#"name: default
devices:
  root:
    path: /
    pool: default
    type: nic
  disk0:
    path: /data
    pool: default
    type: disk
"#;
    assert!(!profile_has_root_disk(profile));
}

#[test]
fn profile_has_nic_detects_nic_device() {
    let profile = r#"name: default
devices:
  eth0:
    type: nic
    network: incusbr0
  root:
    path: /
    pool: default
    type: disk
"#;
    assert!(profile_has_nic(profile));
}

#[test]
fn profile_has_nic_returns_false_without_nic() {
    let profile = r#"name: default
devices:
  root:
    path: /
    pool: default
    type: disk
"#;
    assert!(!profile_has_nic(profile));
}

#[test]
fn app_storage_volume_name_formats_correctly() {
    assert_eq!(app_storage_volume_name("myapp"), "psht-storage-myapp");
    assert_eq!(app_storage_volume_name("my-app"), "psht-storage-my-app");
}

#[test]
fn app_tailscale_volume_name_formats_correctly() {
    assert_eq!(app_tailscale_volume_name("myapp"), "psht-tailscale-myapp");
    assert_eq!(app_tailscale_volume_name("my-app"), "psht-tailscale-my-app");
}

#[test]
fn ensure_line_in_file_appends_once() {
    let mut contents = "/bin/sh\n".to_string();
    for _ in 0..2 {
        if let Some(more) = ensure_line_in_file(&contents, "/opt/psht/bin/psht-server") {
            contents.push_str(&more);
        }
    }
    let count = contents
        .lines()
        .filter(|line| *line == "/opt/psht/bin/psht-server")
        .count();
    assert_eq!(count, 1, "line should only be written once");
    assert_eq!(
        ensure_line_in_file("/bin/sh", "/x").as_deref(),
        Some("\n/x\n")
    );
}

#[test]
fn path_is_world_executable_checks_parent_directories() {
    assert!(path_is_world_executable(&vec![(true, 0o755)], 0o755));
    assert!(!path_is_world_executable(&vec![(true, 0o700)], 0o755));
    assert!(!path_is_world_executable(&vec![(true, 0o755)], 0o744));
    assert!(!path_is_world_executable(&vec![(false, 0o755)], 0o755));
}

#[test]
fn write_oauth_config_writes_expected_contents() {
    let contents = oauth_config_text("cid", "secret").unwrap();
    assert!(contents.contains("TS_OAUTH_CLIENT_ID=cid"));
    assert!(contents.contains("TS_OAUTH_CLIENT_SECRET=secret"));
    assert_eq!(
        oauth_config_text("", "secret").unwrap_err(),
        "OAuth client ID and secret are required"
    );
}

#[test]
fn parse_latest_release_version_url_parses_tag_url() {
    let url = "https://example.com/org/repo/releases/tag/v1.2.3";
    assert_eq!(
        parse_latest_release_version_url(url).as_deref(),
        Some("1.2.3")
    );
}

#[test]
fn parse_latest_release_version_url_rejects_latest_path() {
    let url = "https://example.com/org/repo/releases/latest";
    assert!(parse_latest_release_version_url(url).is_none());
}

#[test]
fn parse_version_components_handles_prefix_and_suffixes() {
    assert_eq!(parse_version_components("v1.2.3"), Some(vec![1, 2, 3]));
    assert_eq!(
        parse_version_components("1.2.3-beta.1+build.7"),
        Some(vec![1, 2, 3])
    );
}

#[test]
fn parse_version_components_rejects_invalid() {
    assert!(parse_version_components("").is_none());
    assert!(parse_version_components("latest").is_none());
    assert!(parse_version_components("1..3").is_none());
}

#[test]
fn version_is_newer_compares_numeric_segments() {
    assert!(version_is_newer("0.2.29", "0.2.28"));
    assert!(version_is_newer("1.0.0", "0.99.99"));
    assert!(!version_is_newer("0.2.28", "0.2.28"));
    assert!(!version_is_newer("0.2.27", "0.2.28"));
}

#[test]
fn busy_op_policy_from_raw_parses_supported_values() {
    assert_eq!(
        busy_op_policy_from_raw(Some("diagnose")),
        BusyOpPolicy::Diagnose
    );
    assert_eq!(busy_op_policy_from_raw(Some("force")), BusyOpPolicy::Force);
    assert_eq!(busy_op_policy_from_raw(Some("AUTO")), BusyOpPolicy::Auto);
    assert_eq!(busy_op_policy_from_raw(None), BusyOpPolicy::Auto);
}

fn cli_update_manifest() -> CliUpdateManifest {
    CliUpdateManifest {
        version: "0.1.0".to_string(),
        forge_url: "https://github.com/nakajima/psht".to_string(),
    }
}

#[test]
fn update_script_contains_json_manifest_for_rust_native_cli() {
    let manifest = cli_update_manifest();
    let script = update_script("psht", &manifest);
    let json = cli_update_manifest_json(&manifest);
    assert!(script.contains(&json));
    assert!(script.contains("PSHT_BIN=$(command -v psht)"));
}

#[test]
fn setup_script_bootstraps_cli_then_runs_setup() {
    let manifest = cli_update_manifest();
    let script = setup_script("psht", &manifest);
    let json = cli_update_manifest_json(&manifest);
    assert!(script.contains(&json));
    assert!(script.contains("\"$PSHT_BIN\" setup"));
    assert!(script.contains("host = \"psht\""));
}

#[test]
fn scripts_name_the_forge() {
    let manifest = CliUpdateManifest {
        version: "0.1.0".to_string(),
        forge_url: "https://forge.example/psht".to_string(),
    };
    let line = "\nFORGE_URL=\"${PSHT_FORGE_URL:-https://forge.example/psht}\"\n";
    assert!(setup_script("box", &manifest).contains(line));
    assert!(update_script("box", &manifest).contains(line));
}

#[test]
fn manifests_are_json() {
    let manifest = CliUpdateManifest {
        version: "0.1.0".to_string(),
        forge_url: "https://x/\"y\"\n".to_string(),
    };
    let json = cli_update_manifest_json(&manifest);
    assert_eq!(
        json,
        "{\"version\":\"0.1.0\",\"forge_url\":\"https://x/\\\"y\\\"\\n\"}"
    );
    let value: serde_json::Value = serde_json::from_str(&json).unwrap();
    assert_eq!(value["forge_url"], "https://x/\"y\"\n");
}

#[test]
fn parse_git_checkout_target_requires_ref_and_sha_pair() {
    let err = parse_git_checkout_target(Some("refs/heads/main"), None).unwrap_err();
    assert!(err.contains("both --ref and --sha"));
    let err = parse_git_checkout_target(None, Some("deadbeef")).unwrap_err();
    assert!(err.contains("both --ref and --sha"));
}

#[test]
fn parse_git_checkout_target_rejects_empty_fields() {
    let err = parse_git_checkout_target(Some(" "), Some("deadbeef")).unwrap_err();
    assert!(err.contains("deploy ref is empty"));
    let err = parse_git_checkout_target(Some("refs/heads/main"), Some(" ")).unwrap_err();
    assert!(err.contains("deploy sha is empty"));
}

fn refusal<T>(result: Result<T, String>) -> String {
    match result {
        Ok(_) => panic!("should be refused"),
        Err(err) => err,
    }
}

#[test]
fn command_entrypoints_reject_invalid_app_name() {
    for err in [
        refusal(env_command("bad/name", Ok(Table::new()), &Vec::new())),
        refusal(env_unset("bad/name", Ok(Table::new()), &texts(&["A"]))),
    ] {
        assert!(err.contains("invalid app name"), "unexpected error: {err}");
    }
}

#[test]
fn health_delegation_triggers_only_for_root_without_recursion() {
    assert!(should_delegate_health_to_psht("0", false, true));
    assert!(!should_delegate_health_to_psht("0", true, true));
    assert!(!should_delegate_health_to_psht("1001", false, true));
    assert!(!should_delegate_health_to_psht("0", false, false));
}

#[test]
fn ps_container_state_interprets_runtime_status_strings() {
    assert_eq!(ps_container_state("Running"), PsContainerState::Running);
    assert_eq!(ps_container_state("running"), PsContainerState::Running);
    assert_eq!(ps_container_state("Missing"), PsContainerState::Missing);
    assert_eq!(ps_container_state("missing"), PsContainerState::Missing);
    assert_eq!(ps_container_state("Stopped"), PsContainerState::Stopped);
    assert_eq!(ps_container_state("Frozen"), PsContainerState::Stopped);
}

#[test]
fn ps_status_from_parts_requires_live_app_process_for_running() {
    assert_eq!(
        ps_status_from_parts(PsContainerState::Running, Some(true)),
        "Running"
    );
    assert_eq!(
        ps_status_from_parts(PsContainerState::Running, Some(false)),
        "Down"
    );
    assert_eq!(
        ps_status_from_parts(PsContainerState::Running, None),
        "Down"
    );
    assert_eq!(
        ps_status_from_parts(PsContainerState::Stopped, None),
        "Stopped"
    );
    assert_eq!(
        ps_status_from_parts(PsContainerState::Missing, None),
        "Missing"
    );
}

#[test]
fn stopped_container_is_unhealthy() {
    let facts = AppFacts {
        process: Ok(true),
        start_command: Ok("./run".to_string()),
        required_env: Ok(Vec::new()),
        vars: Ok(Table::new()),
        listening: Ok(true),
        cleanup: None,
    };
    let report = check_app_health("hyperlinked", "hyperlinked", "Stopped", &facts);
    assert!(!report.healthy);
    assert_eq!(report.app, "hyperlinked");
    assert!(report
        .details
        .iter()
        .any(|detail| detail.contains("container status is Stopped")));
}

#[test]
fn app_runner_script_contains_exports_and_exec() {
    let vars = vars(&[("HELLO", "world")]);
    let script = app_runner_script_content(3737, "bun run index.ts", &vars).unwrap();
    assert!(script.starts_with("#!/bin/sh"));
    assert!(script.contains("cd /app"));
    assert!(script.contains("export PORT=3737"));
    assert!(script.contains("export HELLO='world'"));
    assert!(script.contains("exec sh -c 'bun run index.ts'"));
}

#[test]
fn app_service_unit_references_runner_and_log_paths() {
    let unit = app_service_unit_content();
    assert!(unit.contains(APP_SERVICE_RUNNER_PATH));
    assert!(unit.contains(APP_PROCESS_LOG_PATH));
    assert!(unit.contains("Restart=always"));
}

#[test]
fn app_process_probe_checks_pid_liveness() {
    let cmd = app_process_probe_cmd();
    assert!(cmd.contains(APP_PROCESS_PID_PATH));
    assert!(cmd.contains("kill -0"));
    assert!(cmd.contains("stat -c %Y"));
    assert!(cmd.contains("/proc/uptime"));
    assert!(cmd.contains("date +%s"));
    assert!(cmd.contains("echo alive"));
}

#[test]
fn stop_app_process_cmd_targets_process_group_and_waits() {
    let cmd = stop_app_process_cmd_with_limits(40, 10, "0.2");
    assert!(cmd.contains("kill -TERM -- \"-$pid\""));
    assert!(cmd.contains("kill -KILL -- \"-$pid\""));
    assert!(cmd.contains("while kill -0 \"$pid\" 2>/dev/null; do"));
    assert!(cmd.contains("if [ \"$i\" -ge 40 ]"));
    assert!(cmd.contains("if [ \"$j\" -ge 10 ]"));
    assert!(cmd.contains("rm -f /var/psht/app.pid"));
}

#[test]
fn stop_port_listeners_cmd_uses_ss_and_process_group_signals() {
    let cmd = stop_port_listeners_cmd_with_limits(3430, 40, 10, "0.2");
    assert!(cmd.contains("command -v ss"));
    assert!(cmd.contains("sport = :3430"));
    assert!(cmd.contains("sed -n 's/.*pid=\\([0-9][0-9]*\\).*/\\1/p'"));
    assert!(cmd.contains("kill -TERM -- \"-$pid\""));
    assert!(cmd.contains("kill -KILL -- \"-$pid\""));
    assert!(cmd.contains("listener process(es) on port 3430 did not exit"));
}

#[test]
fn cutover_stop_tolerates_container_not_running_before_stop() {
    assert!(should_tolerate_cutover_stop_failure(false, None));
}

#[test]
fn cutover_stop_tolerates_container_stopped_after_failed_stop_command() {
    assert!(should_tolerate_cutover_stop_failure(true, Some(false)));
}

#[test]
fn cutover_stop_does_not_tolerate_when_container_still_running_after_failure() {
    assert!(!should_tolerate_cutover_stop_failure(true, Some(true)));
}

#[test]
fn cutover_stop_does_not_tolerate_when_running_state_after_failure_is_unknown() {
    assert!(!should_tolerate_cutover_stop_failure(true, None));
}

#[test]
fn parse_env_assignment_accepts_empty_value() {
    let (name, value) = parse_env_assignment("A=").unwrap();
    assert_eq!(name, "A");
    assert_eq!(value, "");
}

#[test]
fn parse_env_assignment_rejects_invalid_name() {
    let err = parse_env_assignment("1BAD=value").unwrap_err();
    assert!(err.contains("invalid env name"));
}

#[test]
fn env_vars_round_trip() {
    let path = env_path_in("/x", "myapp");
    assert_eq!(path, "/x/myapp.toml");
    let vars = vars(&[("A", "1"), ("B", "2")]);
    let text = env_file_text(&vars, &path).unwrap();
    assert_eq!(text, "A = \"1\"\nB = \"2\"\n");
    let loaded = read_env_vars(Some(&text), &path).unwrap();
    assert_eq!(loaded.rows, vars.rows);
}

#[test]
fn required_env_check_reports_missing() {
    let required = vec!["DATABASE_URL".to_string(), "JWT_SECRET".to_string()];
    let vars = vars(&[("DATABASE_URL", "postgres://x")]);
    let err = ensure_required_env_present(&required, &vars).unwrap_err();
    assert!(err.contains("JWT_SECRET"));
}

#[test]
fn shell_quote_escapes_single_quotes() {
    assert_eq!(shell_quote("echo 'hi'"), "'echo '\"'\"'hi'\"'\"''");
}

#[test]
fn write_start_command_cmd_rejects_empty() {
    let err = write_start_command_cmd(" \n ").unwrap_err();
    assert!(err.contains("empty"));
}

#[test]
fn write_start_command_cmd_targets_metadata_path() {
    let cmd = write_start_command_cmd("./app --flag").unwrap();
    assert!(cmd.contains(START_COMMAND_PATH));
    assert!(cmd.contains("printf '%s\\n'"));
}

#[test]
fn write_ssh_login_env_cmd_writes_profile_exports() {
    let vars = vars(&[("A", "1"), ("B", "two words")]);
    let cmd = write_ssh_login_env_cmd(&vars).unwrap();
    assert!(cmd.contains(SSH_LOGIN_ENV_PATH));
    assert!(cmd.contains("mkdir -p /etc/profile.d"));
    assert!(cmd.contains("chmod 644"));
}

#[test]
fn write_ssh_login_env_cmd_rejects_invalid_name() {
    let vars = vars(&[("1BAD", "value")]);
    let err = ssh_login_env_content(&vars).unwrap_err();
    assert!(err.contains("invalid env name"));
}

#[test]
fn write_ssh_login_env_cmd_handles_empty_vars() {
    let vars = vars(&[]);
    let content = ssh_login_env_content(&vars).unwrap();
    assert!(content.contains("Generated by psht"));
    assert!(!content.contains("export "));
}

#[test]
fn ssh_login_env_content_writes_quoted_exports() {
    let vars = vars(&[("A", "1"), ("B", "two words")]);
    let content = ssh_login_env_content(&vars).unwrap();
    assert!(content.contains("export A='1'"));
    assert!(content.contains("export B='two words'"));
}

#[test]
fn supervise_service_unit_sets_execstart_and_home() {
    let unit = supervise_service_unit_content("/opt/psht/bin/psht-server", "/home/psht");
    assert!(unit.contains("ExecStart=/opt/psht/bin/psht-server supervise"));
    assert!(unit.contains("Environment=HOME=/home/psht"));
    assert!(unit.contains("User=psht"));
}

#[test]
fn supervise_timer_unit_uses_expected_interval() {
    let unit = supervise_timer_unit_content(30);
    assert!(unit.contains("OnBootSec=30s"));
    assert!(unit.contains("OnUnitActiveSec=30s"));
    assert!(unit.contains("Persistent=true"));
}

#[test]
fn run_hook_skips_missing_or_blank_commands() {
    assert!(hook_command(None).is_none());
    assert!(hook_command(Some(" \n\t ")).is_none());
}

#[test]
fn app_workdir_command_wraps_nonempty_command() {
    let cmd = app_workdir_command("cargo build --release").unwrap();
    assert_eq!(cmd, "cd /app && cargo build --release");
}

#[test]
fn app_workdir_command_skips_blank_command() {
    assert!(app_workdir_command(" \n\t ").is_none());
}

#[test]
fn apt_install_command_skips_empty_packages() {
    assert!(apt_install_command(&Vec::new()).is_none());
    assert!(apt_install_command(&vec!["  ".to_string()]).is_none());
}

#[test]
fn apt_install_command_builds_noninteractive_install() {
    let cmd = apt_install_command(&vec!["curl".to_string(), "libssl-dev".to_string()]).unwrap();
    assert!(cmd.contains("DEBIAN_FRONTEND=noninteractive"));
    assert!(cmd.contains("apt-get update -qq"));
    assert!(cmd.contains("apt-get install -y -qq"));
    assert!(cmd.contains("'curl'"));
    assert!(cmd.contains("'libssl-dev'"));
}
