use std::collections::hash_map::DefaultHasher;
use std::hash::{Hash, Hasher};

use psht::cli::{args_of_action, env_args, env_unset_args, AppAction};
use psht::deploy::{push_decision, PushDecision};
use psht::env::{
    apply_assignments, env_file_text, env_listing, env_vars_from_rows, is_valid_env_name,
    parse_env_name, parse_env_names, parse_required_env_metadata, read_env_vars, start_exports,
    text_fits, unset_names, values_fit, write_app_runner_cmd, write_required_env_cmd,
};
use psht::fingerprint::{apt_packages_fingerprint, binary_payload_hash, setup_hash, stack_hash};
use psht::host::{binary_hash_text, read_binary_hash};
use psht::hostname::OnlineWait;
use psht::json::{field, json_array, json_bool, json_object, json_text, Json};
use psht::profile::{
    add_nic_args, add_root_disk_args, first_managed_network_name, first_network_in, first_pool_in,
    first_storage_pool_name, profile_needs, project_uses_profiles,
};
use psht::project::{config_of_toml, copy_project, normalize_opt, ProjectConfig};
use psht::release::{
    cached_latest_version, cli_release_url, configured_forge_url, is_https_url, is_semverish,
    latest_release_args, latest_release_version, parse_release_url_identity, path_from_url,
    release_version_candidates, sanitize_app_name, server_release_target, server_release_url,
    stale_latest_version, strip_arch_suffix, strip_archive_suffix, strip_version_suffix,
    upgrade_warning, url_or, version_is_newer, UpgradeCheckState,
};
use psht::scripts::{
    apt_failed_error, hook_failed_error, install_command_with_logging, install_failed_error,
    launch_failed_error, launch_step, listener_probe_cmd, listener_step, listener_timeout_error, log_excerpt,
    log_tail_cmd, probe_says, process_exited_error, read_start_command, read_start_command_cmd,
    seed_tailscale_state_cmd, service_probe_cmd, setup_matches, stop_app_commands,
    stop_app_process_cmd, stop_port_listeners_cmd, stop_service_cmd, write_app_service_unit_cmd,
    write_setup_hash_cmd, LaunchStep, ListenerStep,
};
use psht::setup::incus_apt_source;
use psht::table::Table;
use psht::tailnet::{
    check_tailscale_oauth_permissions, format_tailscale_oauth_permission_failure,
    has_matching_fields, plan_owned_tailscale_conflicts, resolve_tailscale_device_id,
    tailnet_device_label, tracking, untracked_error, DeviceAction, OwnedDevice, TailnetDevice,
    Tracking,
};
use psht::tailscale::{
    dns_name_in_status, health_in_status, snapshot_in_status, ssh_enabled_in_status,
    summary_of_status, tailscale_dns_label, tailscale_self_health_from_json,
    value_as_nonempty_string, TailscaleSelfSnapshot,
};
use psht::tomltree::Toml;
use psht::update::manifest_of_script;

fn texts(list: &[&str]) -> Vec<String> {
    list.iter().map(|text| text.to_string()).collect()
}

fn opt(text: &str) -> Option<String> {
    Some(text.to_string())
}

fn device(id: &str, label: Option<&str>, dns: Option<&str>, tags: &[&str]) -> TailnetDevice {
    TailnetDevice {
        id: id.to_string(),
        hostname_label: label.map(|text| text.to_string()),
        dns_name: dns.map(|text| text.to_string()),
        tags: texts(tags),
    }
}

fn snapshot(id: Option<&str>, dns: Option<&str>) -> TailscaleSelfSnapshot {
    TailscaleSelfSnapshot {
        device_id: id.map(|text| text.to_string()),
        hostname_label: None,
        dns_name: dns.map(|text| text.to_string()),
        backend_state: "Running".to_string(),
        online: true,
        health: Vec::new(),
        ips: Vec::new(),
    }
}

#[test]
fn fingerprints_are_those_of_the_hasher_of_std() {
    let script = b"#!/bin/sh\necho hi\n".to_vec();
    let mut hasher = DefaultHasher::new();
    script.hash(&mut hasher);
    assert_eq!(stack_hash(&script), format!("{:016x}", hasher.finish()));
    let mut hasher = DefaultHasher::new();
    "curl\nlibpq".hash(&mut hasher);
    let packages = apt_packages_fingerprint(&texts(&["libpq", " curl ", "libpq", ""]));
    assert_eq!(packages, Some(format!("{:016x}", hasher.finish())));
    let mut hasher = DefaultHasher::new();
    "./web".hash(&mut hasher);
    vec![1u8, 2, 3].hash(&mut hasher);
    assert_eq!(
        binary_payload_hash("./web\n", &vec![1, 2, 3]),
        format!("{:016x}", hasher.finish())
    );
    let hash = binary_payload_hash("./web", &vec![1, 2, 3]);
    let kept = read_binary_hash(Some(&binary_hash_text(&hash)));
    assert_eq!(
        push_decision(Some(&hash), true, kept.as_deref(), false),
        PushDecision::Skip
    );
    assert_eq!(setup_hash("s", Some("a")), "s:a");
    assert_eq!(setup_hash("s", None), "s");
}

#[test]
fn variables_are_set_unset_and_listed() {
    assert!(is_valid_env_name("_A1"));
    for name in ["", "1A", "A-B", "É"] {
        assert!(!is_valid_env_name(name));
    }
    assert_eq!(parse_env_name(" TOKEN "), Ok("TOKEN".to_string()));
    assert_eq!(parse_env_name("1A"), Err("invalid env name '1A'".to_string()));
    assert_eq!(parse_env_names(&texts(&["A", "B"])), Ok(texts(&["A", "B"])));
    assert!(parse_env_names(&texts(&["A", "!"])).is_err());
    let mut vars: Table<String> = Table::new();
    assert_eq!(apply_assignments(&mut vars, &texts(&["B=2", "A=x=y", "B=3"])), Ok(()));
    assert_eq!(env_listing(&vars), texts(&["A=x=y", "B=3"]));
    assert!(apply_assignments(&mut vars, &texts(&["C"])).is_err());
    unset_names(&mut vars, &texts(&["A", "Z"]));
    assert_eq!(env_listing(&vars), texts(&["B=3"]));
}

#[test]
fn variables_survive_their_file() {
    let mut vars: Table<String> = Table::new();
    vars.put("PLAIN", "value".to_string());
    vars.put("HARD", "quote \" back \\ line\nnext 'x' \u{7f} é".to_string());
    assert!(values_fit(&vars));
    let text = env_file_text(&vars, "web.toml").unwrap();
    let read = read_env_vars(Some(&text), "web.toml").unwrap();
    assert_eq!(read.rows, vars.rows);
    assert_eq!(read_env_vars(None, "web.toml").unwrap().rows, Vec::new());
    assert!(matches!(read_env_vars(Some("A = 1"), "web.toml"), Err(err) if err.contains("web.toml")));
    let bad = read_env_vars(Some("\"A-B\" = \"x\""), "web.toml");
    assert!(matches!(bad, Err(err) if err == "invalid env name 'A-B' in web.toml"));
    let rows = vec![("A".to_string(), "1".to_string())];
    assert_eq!(env_vars_from_rows(Ok(rows), "p").unwrap().rows.len(), 1);
    assert!(env_vars_from_rows(Err("x".to_string()), "p").is_err());
    assert!(text_fits(&"'".repeat(255)));
    assert!(!text_fits(&"\"".repeat(256)));
}

#[test]
fn what_an_app_requires_is_written_and_read() {
    assert_eq!(parse_required_env_metadata("A\n B \n\nA\n"), Ok(texts(&["A", "B"])));
    assert_eq!(
        parse_required_env_metadata("A\n1B\n"),
        Err("invalid required env name '1B'".to_string())
    );
    assert_eq!(
        write_required_env_cmd(&texts(&["A", "B"])),
        Ok("mkdir -p /etc && printf '%s' 'A\nB\n' > /etc/psht-required-env".to_string())
    );
    let mut vars: Table<String> = Table::new();
    vars.put("TOKEN", "a b".to_string());
    assert_eq!(
        start_exports(4000, &vars),
        Ok("export PORT=4000\nexport TOKEN='a b'".to_string())
    );
    let runner = write_app_runner_cmd(4000, "./web", &vars).unwrap();
    assert!(runner.starts_with("mkdir -p /usr/local/bin && printf '%s' "));
    assert!(runner.ends_with(" && chmod 755 /usr/local/bin/psht-app-runner"));
}

#[test]
fn commands_of_the_workstation_become_words() {
    assert_eq!(args_of_action(AppAction::FollowLogs, "web"), texts(&["logs", "-f", "web"]));
    assert_eq!(
        args_of_action(AppAction::DestroyKeepingStorage, "web"),
        texts(&["destroy", "--keep-storage", "web"])
    );
    assert_eq!(
        args_of_action(AppAction::TailscaleUp, "web"),
        texts(&["tailscale", "up", "web"])
    );
    assert_eq!(env_args("web", &texts(&["A=1"])), Ok(texts(&["env", "web", "A=1"])));
    assert!(env_args("web", &texts(&["A"])).is_err());
    assert_eq!(env_unset_args("web", &texts(&["A"])), Ok(texts(&["env-unset", "web", "A"])));
    assert!(env_unset_args("web", &texts(&["1A"])).is_err());
}

#[test]
fn settings_are_read_and_tidied() {
    let entries = vec![
        ("host".to_string(), Toml::Text("box".to_string())),
        (
            "projects".to_string(),
            Toml::Table(vec![("/a".to_string(), Toml::Text("other".to_string()))]),
        ),
    ];
    let config = config_of_toml(&entries);
    assert_eq!(config.host, opt("box"));
    assert_eq!(config.projects.get("/a"), Some(&"other".to_string()));
    let wrong = config_of_toml(&vec![("host".to_string(), Toml::Integer(3))]);
    assert_eq!(wrong.host, None);
    assert_eq!(normalize_opt(Some("  x ")), opt("x"));
    assert_eq!(normalize_opt(Some("  ")), None);
    let project = ProjectConfig {
        app: opt("web"),
        apt_packages: Some(texts(&["curl"])),
        ..ProjectConfig::default()
    };
    assert_eq!(copy_project(&project), project);
}

#[test]
fn releases_have_their_places() {
    assert_eq!(path_from_url("https://h/a/b?x=1#y"), "https://h/a/b");
    assert_eq!(url_or(Some(" https://forge/ "), "d"), "https://forge");
    assert_eq!(url_or(Some(" "), "d"), "d");
    assert_eq!(configured_forge_url(None), "https://github.com/nakajima/psht");
    assert_eq!(
        latest_release_args("https://f", "2", "3"),
        texts(&[
            "-fsSL",
            "--connect-timeout",
            "2",
            "--max-time",
            "3",
            "-o",
            "/dev/null",
            "-w",
            "%{url_effective}",
            "https://f/releases/latest"
        ])
    );
    assert_eq!(
        latest_release_version("https://f/releases/tag/v1.2.3"),
        Ok("1.2.3".to_string())
    );
    assert_eq!(
        latest_release_version("https://f/releases/latest"),
        Err("failed to parse latest release version from URL: https://f/releases/latest".to_string())
    );
    assert_eq!(
        cli_release_url("https://f", "1.2.3", "x"),
        "https://f/releases/download/v1.2.3/psht-1.2.3-x.tar.gz"
    );
    assert_eq!(
        server_release_url("https://f", "1.2.3", "x"),
        "https://f/releases/download/v1.2.3/psht-server-1.2.3-x.tar.gz"
    );
    assert_eq!(server_release_target("x86_64"), Ok("x86_64-unknown-linux-gnu".to_string()));
    assert_eq!(
        server_release_target("mips"),
        Err("unsupported architecture: mips".to_string())
    );
    assert_eq!(release_version_candidates("1.0.0", Some("1.1.0")), texts(&["1.0.0", "1.1.0"]));
    assert_eq!(release_version_candidates("1.0.0", Some("1.0.0")), texts(&["1.0.0"]));
}

#[test]
fn newer_releases_are_announced() {
    assert_eq!(
        upgrade_warning(Some("1.1.0"), "1.0.9"),
        opt("       Warning: psht-server 1.0.9 is behind latest 1.1.0; run `sudo psht-server upgrade`")
    );
    assert_eq!(upgrade_warning(Some("1.0.9"), "1.0.9"), None);
    assert_eq!(upgrade_warning(None, "1.0.9"), None);
    assert!(version_is_newer("1.10.0", "1.9.9"));
    assert!(!version_is_newer("1.9.9", "1.10.0"));
    assert!(!version_is_newer("1.9.9", "1.9.9"));
    let state = UpgradeCheckState {
        checked_at: 1_000,
        latest: " 1.1.0 ".to_string(),
    };
    assert_eq!(cached_latest_version(Some(&state), 22_600), opt("1.1.0"));
    assert_eq!(cached_latest_version(Some(&state), 22_601), None);
    assert_eq!(cached_latest_version(None, 5), None);
    assert_eq!(stale_latest_version(Some(&state)), opt("1.1.0"));
    assert_eq!(stale_latest_version(None), None);
}

#[test]
fn names_are_taken_from_the_assets_of_releases() {
    assert_eq!(strip_archive_suffix("web-1.0.tar.gz"), "web-1.0");
    assert_eq!(strip_archive_suffix("web.tgz"), "web");
    assert_eq!(strip_archive_suffix("web"), "web");
    assert_eq!(strip_arch_suffix("web-linux-amd64"), "web");
    assert!(is_semverish("v1.2.3"));
    assert!(is_semverish("1.x+2"));
    assert!(!is_semverish("12"));
    assert!(!is_semverish("1.2_3"));
    assert_eq!(strip_version_suffix("web-v1.2.3"), "web");
    assert_eq!(strip_version_suffix("web-server"), "web-server");
    assert!(is_https_url("https://h/x.zip"));
    assert!(!is_https_url("http://h/x.zip"));
    assert_eq!(sanitize_app_name("My App!"), "My-App");
    assert_eq!(sanitize_app_name(&sanitize_app_name("My App!")), "My-App");
    let identity =
        parse_release_url_identity("https://github.com/o/r/releases/download/v1/web-v1.tar.gz")
            .unwrap();
    assert_eq!((identity.owner.as_str(), identity.repo.as_str()), ("o", "r"));
    assert!(parse_release_url_identity("https://github.com/o/r").is_none());
}

#[test]
fn installers_of_old_name_their_release() {
    let script = "#!/bin/sh\nVERSION=\"1.2.3\"\nFORGE_URL=\"${PSHT_FORGE_URL:-https://f/}\"\n";
    let manifest = manifest_of_script(script).unwrap();
    assert_eq!((manifest.version.as_str(), manifest.forge_url.as_str()), ("1.2.3", "https://f"));
    assert_eq!(
        manifest_of_script("hello"),
        Err("server update manifest was not valid JSON".to_string())
    );
}

#[test]
fn profiles_pools_and_networks_are_read() {
    assert!(project_uses_profiles("true\n"));
    assert!(!project_uses_profiles("false"));
    let needs = profile_needs("name: default\ndevices: {}\n");
    assert!(needs.root_disk && needs.nic);
    let full = "devices:\n  root:\n    path: /\n    type: disk\n  eth0:\n    type: nic\n";
    let needs = profile_needs(full);
    assert!(!needs.root_disk && !needs.nic);
    assert_eq!(
        add_root_disk_args("p", "tank"),
        texts(&[
            "--project", "p", "profile", "device", "add", "default", "root", "disk", "path=/",
            "pool=tank"
        ])
    );
    assert_eq!(
        add_nic_args("p", "br0"),
        texts(&[
            "--project", "p", "profile", "device", "add", "default", "psht-net0", "nic",
            "network=br0"
        ])
    );
    assert_eq!(first_storage_pool_name("[{\"name\":\"tank\"}]"), Ok(opt("tank")));
    assert_eq!(first_storage_pool_name("[]"), Ok(None));
    assert_eq!(
        first_storage_pool_name("{}"),
        Err("unexpected incus storage list response".to_string())
    );
    assert!(first_storage_pool_name("[")
        .unwrap_err()
        .starts_with("failed to parse incus storage list: "));
    let networks = "[{\"name\":\"lo\",\"managed\":true},{\"name\":\"eth0\",\"managed\":false},\
                    {\"name\":\"br1\",\"managed\":true,\"type\":\"bridge\"}]";
    assert_eq!(first_managed_network_name(networks), Ok(opt("br1")));
    assert!(first_managed_network_name("oops").is_err());
    let list = json_array(vec![json_object(vec![
        field("name", json_text("br9")),
        field("managed", json_bool(true)),
    ])]);
    assert_eq!(first_pool_in(&list), Ok(opt("br9")));
    assert_eq!(first_network_in(&list), Ok(opt("br9")));
    assert!(first_network_in(&Json::Null).is_err());
}

#[test]
fn commands_for_containers_are_spelled_out() {
    assert!(stop_app_process_cmd().contains("/var/psht/app.pid"));
    assert!(stop_port_listeners_cmd(4000).contains("sport = :4000"));
    assert!(stop_service_cmd().contains("psht-app.service"));
    assert_eq!(
        stop_app_commands(4000),
        vec![stop_service_cmd(), stop_app_process_cmd(), stop_port_listeners_cmd(4000)]
    );
    assert!(write_app_service_unit_cmd().ends_with("chmod 644 /etc/systemd/system/psht-app.service"));
    assert!(service_probe_cmd().contains("psht-app.service"));
    assert_eq!(
        listener_probe_cmd(4000),
        "if ss -ltn \"sport = :4000\" 2>/dev/null | grep -q LISTEN; then echo ready; fi; true"
    );
    assert!(probe_says(" ready\n", "ready"));
    assert!(!probe_says("not ready", "ready"));
    assert_eq!(
        log_tail_cmd("/l", 40),
        "if [ -f /l ]; then tail -n 40 /l 2>/dev/null || true; fi"
    );
    assert_eq!(log_excerpt(" a\n"), opt("a"));
    assert_eq!(log_excerpt("\n"), None);
    assert_eq!(
        read_start_command_cmd(),
        "cat /etc/psht-start-command 2>/dev/null || true"
    );
    assert_eq!(read_start_command("web", "./web\n"), Ok("./web".to_string()));
    assert_eq!(
        read_start_command("web", " \n"),
        Err("missing start command metadata at /etc/psht-start-command; redeploy app 'web'"
            .to_string())
    );
    assert!(install_command_with_logging("npm ci").contains("npm ci"));
    assert!(seed_tailscale_state_cmd().starts_with("mkdir -p /var/lib/psht-tailscale-state && "));
    assert_eq!(write_setup_hash_cmd("h"), "echo -n 'h' > /etc/psht-setup-hash");
    assert!(setup_matches("h\n", "h"));
    assert!(!setup_matches("", "h"));
    assert!(incus_apt_source("noble", "amd64").contains("Suites: noble\n"));
}

#[test]
fn failures_in_containers_are_explained() {
    let log = opt("line 1\nline 2");
    assert_eq!(
        launch_failed_error("web", "./web", &log),
        "app process failed to stay up after launch (start command: ./web); check logs with: \
         psht logs web\nLast app log lines:\nline 1\nline 2"
    );
    assert_eq!(
        process_exited_error("candidate readiness", 4000, &None, &None),
        "candidate readiness failed before TCP :4000 became ready because app process exited"
    );
    assert!(process_exited_error("x", 1, &opt("./web"), &log).contains("\nStart command: ./web"));
    assert_eq!(
        listener_timeout_error("x", 4000, 60),
        "x timed out after 60s waiting for TCP :4000"
    );
    assert_eq!(hook_failed_error("preinstall", "e"), "preinstall hook failed: e");
    assert_eq!(apt_failed_error("e"), "apt package install failed: e");
    assert_eq!(install_failed_error("install", "e", &None), "install failed: e");
    assert_eq!(launch_step(25, true), LaunchStep::Up);
    assert_eq!(launch_step(24, false), LaunchStep::Check);
    assert_eq!(launch_step(25, false), LaunchStep::Failed);
    assert_eq!(listener_step(true, 99, false, 60), ListenerStep::Ready);
    assert_eq!(listener_step(false, 2, false, 60), ListenerStep::Wait);
    assert_eq!(listener_step(false, 3, false, 60), ListenerStep::CheckProcess);
    assert_eq!(listener_step(false, 3, true, 60), ListenerStep::Wait);
    assert_eq!(listener_step(false, 60, true, 60), ListenerStep::TimedOut);
}

#[test]
fn devices_of_an_app_are_told_apart() {
    let named = device("d1", None, Some("web.tail.ts.net."), &["tag:psht"]);
    assert_eq!(tailnet_device_label(&named), opt("web"));
    assert_eq!(tailnet_device_label(&device("d2", Some(" api "), None, &[])), opt("api"));
    assert_eq!(tailnet_device_label(&device("d3", None, None, &[])), None);
    assert_eq!(tailscale_dns_label("web.tail.ts.net."), Some("web"));
    assert!(has_matching_fields(&snapshot(None, Some("web.tail.ts.net"))));
    assert!(!has_matching_fields(&snapshot(None, None)));
    assert!(matches!(tracking(&snapshot(Some("d1"), None)), Tracking::Skip));
    assert!(matches!(
        tracking(&snapshot(Some("d1"), Some("web.ts.net"))),
        Tracking::Known(id) if id == "d1"
    ));
    let unknown = snapshot(None, Some("WEB.tail.ts.net."));
    assert!(matches!(tracking(&unknown), Tracking::LookUp));
    let devices = vec![named, device("d2", Some("api"), None, &[])];
    assert_eq!(resolve_tailscale_device_id(&unknown, &devices), Ok(opt("d1")));
    assert!(untracked_error("web", &unknown).contains("tailscale self device id unavailable for web"));
}

#[test]
fn only_our_devices_in_the_way_are_deleted() {
    let owned = |id: &str| OwnedDevice {
        device_id: id.to_string(),
        hostname_label: None,
    };
    let devices = vec![
        device("d1", Some("web"), None, &["tag:psht"]),
        device("d2", Some("web-1"), None, &["tag:psht"]),
        device("d3", Some("web-2"), None, &[]),
        device("d4", Some("api"), None, &["tag:psht"]),
    ];
    let rows = vec![owned("d1"), owned("d2"), owned("d3"), owned("d4"), owned("d9")];
    let actions = plan_owned_tailscale_conflicts("web", &rows, &devices, Some("d1")).unwrap();
    assert!(matches!(
        actions.as_slice(),
        [
            DeviceAction::Keep,
            DeviceAction::Delete,
            DeviceAction::Keep,
            DeviceAction::Keep,
            DeviceAction::Retire
        ]
    ));
    let refused = plan_owned_tailscale_conflicts("web", &vec![owned("d2")], &devices, Some("d2"));
    assert!(matches!(
        refused,
        Err(err) if err.starts_with("exact hostname 'web' is held by untracked tailscale device(s): ")
    ));
}

#[test]
fn permissions_for_the_tailnet_are_checked() {
    let good = check_tailscale_oauth_permissions(Ok(()), Ok(()), Ok(true));
    assert!(good.all_ok());
    let no_token = check_tailscale_oauth_permissions(Err("x".to_string()), Ok(()), Ok(true));
    assert!(!no_token.all_ok());
    assert_eq!(no_token.token_error, opt("failed to acquire tailnet OAuth token: x"));
    let no_write = check_tailscale_oauth_permissions(Ok(()), Ok(()), Ok(false));
    assert_eq!(
        no_write.devices_write_error,
        opt("tailnet OAuth actor does not have permission to delete devices")
    );
    let said = format_tailscale_oauth_permission_failure(&no_write);
    assert!(said.contains("\n       Devices write: tailnet OAuth actor"));
    assert!(said.ends_with("Configure at: https://login.tailscale.com/admin/settings/oauth"));
}

fn status() -> Json {
    json_object(vec![
        field("BackendState", json_text("Running")),
        field("Health", json_array(vec![json_text("slow")])),
        field(
            "Self",
            json_object(vec![
                field("DNSName", json_text("web.tail.ts.net.")),
                field("HostName", json_text("web")),
                field("ID", json_text("d1")),
                field("Online", json_bool(true)),
                field("TailscaleIPs", json_array(vec![json_text("100.1.1.1")])),
            ]),
        ),
    ])
}

#[test]
fn the_status_of_tailscale_is_read() {
    assert_eq!(dns_name_in_status(&status()), opt("web.tail.ts.net"));
    let seen = snapshot_in_status(&status()).unwrap();
    assert_eq!(seen.device_id, opt("d1"));
    assert_eq!(seen.ips, texts(&["100.1.1.1"]));
    assert_eq!(health_in_status(&status()), ("Running".to_string(), true, texts(&["slow"])));
    let summary = summary_of_status("web", &status()).unwrap();
    assert!(summary.contains("State: Running\n"));
    assert!(!ssh_enabled_in_status(&status()));
    assert!(summary_of_status("web", &Json::Null).is_err());
    assert_eq!(value_as_nonempty_string(&json_text(" x ")), opt("x"));
    assert_eq!(value_as_nonempty_string(&json_text(" ")), None);
    assert_eq!(
        tailscale_self_health_from_json(
            "{\"BackendState\":\"NeedsLogin\",\"Self\":{\"Online\":false}}"
        ),
        Ok(("NeedsLogin".to_string(), false, texts(&[])))
    );
    assert!(tailscale_self_health_from_json("{")
        .unwrap_err()
        .starts_with("failed to parse tailscale status: "));
}

#[test]
fn waits_for_the_tailnet_say_what_they_saw() {
    let mut wait = OnlineWait { last: None };
    assert_eq!(wait.timed_out(), "timed out waiting for tailscale status");
    assert!(!wait.observe(Err("no socket".to_string())));
    assert!(!wait.observe(Ok(("Starting".to_string(), false, texts(&["a", "b"])))));
    assert_eq!(
        wait.timed_out(),
        "timed out waiting for tailscale to become healthy:\nState: Starting\nOnline: false\nHealth: a | b"
    );
    assert!(wait.observe(Ok(("Running".to_string(), true, texts(&[])))));
}
