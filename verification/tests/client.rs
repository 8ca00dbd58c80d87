use psht::cli::{
    git_output, is_git_worktree, plan_command, prompt_answer, prompt_confirmed, prompt_text,
    setup_default, setup_name, AppAction, ClientAction, ClientCommand,
};
use psht::env::parse_env_assignment;
use psht::paths::{config_path_at, safe_join_relative};
use psht::project::{
    after_push, app_name, binary_among, binary_missing_error, binary_named, binary_start_command,
    bootstrap_settings, cli_release_settings, configured_project_app, current_git_ref,
    deploy_hooks_config, deploy_ssh_args, ensure_no_release_conflicts, git_remote,
    has_release_settings, load_config_from, looks_like_path, normalize_opt_vec, parse_push_updated,
    plan_app_or_binary, plan_project_deploy, plan_release, project_config_path,
    project_config_template, push_ssh_args, reconcile_release_url_override, remember_project,
    remote_action, resolve_command_app, resolve_host_from, resolve_host_with_hint,
    start_command_line, AfterPush, Config, DeployMethod, ProjectConfig, ProjectDeploy,
    RemoteAction,
};
use psht::release::{
    cli_binary_version, derive_app_name_from_url, detect_archive_format, detect_release_target,
    is_same_project_release_url, normalize_deploy_target, sanitize_app_name, ArchiveFormat,
};
use psht::table::Table;
use psht::tomltree::file_with_text;
use psht::update::{
    parse_update_manifest_stdout, plan_update, staged_name, ServerUpdateManifest, StepReply,
    UpdatePlan, UpdateStep,
};

fn config(host: Option<&str>, projects: &[(&str, &str)]) -> Config {
    let mut table: Table<String> = Table::new();
    for (cwd, host) in projects {
        table.put(cwd, host.to_string());
    }
    Config {
        host: host.map(|host| host.to_string()),
        projects: table,
    }
}

fn refusal<T>(result: Result<T, String>) -> String {
    match result {
        Ok(_) => panic!("should be refused"),
        Err(err) => err,
    }
}

#[test]
fn psht_load_config_missing_file_returns_default() {
    let config = load_config_from(None);
    assert!(config.host.is_none());
    assert!(config.projects.rows.is_empty());
}

#[test]
fn psht_load_config_parses_host() {
    let config = load_config_from(Some("host = \"myserver\"\n"));
    assert_eq!(config.host.as_deref(), Some("myserver"));
}

#[test]
fn load_config_parses_projects() {
    let config = load_config_from(Some(
        "host = \"default\"\n\n[projects]\n\"/home/user/myapp\" = \"other-host\"\n",
    ));
    assert_eq!(
        config.projects.get("/home/user/myapp").map(|s| s.as_str()),
        Some("other-host")
    );
}

#[test]
fn settings_that_are_none_count_as_missing() {
    for text in [
        "host = 3\n",
        "host = \"a\"\nprojects = 1\n",
        "host = \"a\"\n[projects]\n\"/x\" = 2\n",
        "host = ",
    ] {
        let config = load_config_from(Some(text));
        assert!(config.host.is_none());
        assert!(config.projects.rows.is_empty());
    }
}

#[test]
fn psht_resolve_host_from_projects() {
    let config = config(Some("default"), &[("/home/user/myapp", "project-host")]);
    let host = resolve_host_from(&config, "/home/user/myapp").unwrap();
    assert_eq!(host, "project-host");
}

#[test]
fn psht_resolve_host_falls_back_to_default() {
    let config = config(Some("default-host"), &[]);
    let host = resolve_host_from(&config, "/some/other/dir").unwrap();
    assert_eq!(host, "default-host");
}

#[test]
fn psht_resolve_host_errors_when_no_host() {
    let config = config(None, &[]);
    let result = resolve_host_from(&config, "/some/dir");
    assert!(result.is_err());
}

#[test]
fn resolve_host_from_projects() {
    let config = config(Some("default"), &[("/home/user/myapp", "project-host")]);
    let hint = "Run: ssh psht@<host> setup | sh";
    let host = resolve_host_with_hint(&config, "/home/user/myapp", hint).unwrap();
    assert_eq!(host, "project-host");
}

#[test]
fn resolve_host_falls_back_to_default() {
    let config = config(Some("default-host"), &[]);
    let hint = "Run: ssh psht@<host> setup | sh";
    let host = resolve_host_with_hint(&config, "/some/other/dir", hint).unwrap();
    assert_eq!(host, "default-host");
}

#[test]
fn app_name_explicit() {
    let name = app_name(Some("myapp"), "/whatever");
    assert_eq!(name, "myapp");
}

#[test]
fn app_name_from_cwd() {
    let name = app_name(None, "/home/user/cool-project");
    assert_eq!(name, "cool-project");
}

#[test]
fn config_path_at_uses_home() {
    let path = config_path_at("/home/user");
    assert_eq!(path, "/home/user/.psht/config.toml");
}

#[test]
fn resolve_host_errors_when_no_host() {
    let config = config(None, &[]);
    let hint = "Run: ssh psht@<host> setup | sh";
    assert_eq!(
        resolve_host_with_hint(&config, "/some/dir", hint).unwrap_err(),
        "no host configured. Run: ssh psht@<host> setup | sh"
    );
}

#[test]
fn detect_release_target_supported_in_tests() {
    for (os, arch) in [
        ("linux", "x86_64"),
        ("linux", "aarch64"),
        ("macos", "x86_64"),
        ("macos", "aarch64"),
    ] {
        assert!(detect_release_target(os, arch).is_ok());
    }
    assert_eq!(
        detect_release_target("windows", "x86_64").unwrap_err(),
        "unsupported platform: windows/x86_64"
    );
}

#[test]
fn psht_app_name_explicit() {
    let name = app_name(Some("myapp"), "/whatever");
    assert_eq!(name, "myapp");
}

#[test]
fn psht_app_name_from_cwd() {
    let name = app_name(None, "/home/user/cool-project");
    assert_eq!(name, "cool-project");
}

#[test]
fn the_root_gives_no_name() {
    assert_eq!(app_name(None, "/"), "app");
    assert_eq!(app_name(None, "/home/user/cool-project/"), "cool-project");
}

#[test]
fn psht_config_path_at_uses_home() {
    let path = config_path_at("/home/user");
    assert_eq!(path, "/home/user/.psht/config.toml");
}

#[test]
fn project_config_path_uses_cwd() {
    let path = project_config_path("/home/user/app");
    assert_eq!(path, "/home/user/app/psht.toml");
}

#[test]
fn resolve_command_app_uses_project_config_when_present() {
    let cfg = ProjectConfig {
        app: Some("demo".to_string()),
        ..ProjectConfig::default()
    };
    let app = resolve_command_app(&configured_project_app(Some(&cfg)), None).unwrap();
    assert_eq!(app, "demo");
}

#[test]
fn resolve_command_app_errors_without_explicit_or_project_app() {
    let err = resolve_command_app(&configured_project_app(None), None).unwrap_err();
    assert!(err.contains("Run `psht setup`"));
}

#[test]
fn resolve_command_app_takes_no_other_app() {
    let configured = Some("demo".to_string());
    assert_eq!(
        resolve_command_app(&configured, Some("demo")).unwrap(),
        "demo"
    );
    assert_eq!(
        resolve_command_app(&configured, Some("other")).unwrap_err(),
        "app 'other' does not match `psht.toml` app 'demo'"
    );
    assert!(resolve_command_app(&None, Some("bad/name"))
        .unwrap_err()
        .contains("invalid app name"));
    assert_eq!(resolve_command_app(&None, Some("other")).unwrap(), "other");
}

#[test]
fn deploy_release_positional_https_url_maps_to_url() {
    let (app, url) =
        normalize_deploy_target(Some("https://example.com/app.tar.gz".to_string()), None)
            .expect("target normalization should succeed");
    assert!(app.is_none());
    assert_eq!(url.as_deref(), Some("https://example.com/app.tar.gz"));
}

#[test]
fn deploy_release_positional_https_url_conflicts_with_url_flag() {
    let err = normalize_deploy_target(
        Some("https://example.com/a.tar.gz".to_string()),
        Some("https://example.com/b.tar.gz".to_string()),
    )
    .unwrap_err();
    assert!(err.contains("both positionally and with --url"));
}

#[test]
fn looks_like_path_distinguishes_paths_from_app_names() {
    assert!(looks_like_path("path/to/bin"));
    assert!(looks_like_path("./bin"));
    assert!(looks_like_path("../bin"));
    assert!(!looks_like_path("myapp"));
}

#[test]
fn stage_binary_dir_writes_start_command_marker() {
    let start = binary_start_command("/tmp/x/mybin").unwrap();
    let marker = start_command_line(&start).unwrap();
    assert_eq!(marker.trim(), "./mybin");
    assert_eq!(
        binary_start_command("/").unwrap_err(),
        "invalid binary path: /"
    );
}

#[test]
fn stage_binary_dir_with_start_writes_custom_marker() {
    let marker = start_command_line("./mybin --debug").unwrap();
    assert_eq!(marker.trim(), "./mybin --debug");
    let hooks = deploy_hooks_config(
        Some("echo pre"),
        Some("echo post"),
        Some(&vec!["curl".to_string(), "git".to_string()]),
        Some(&vec!["DATABASE_URL".to_string()]),
    )
    .unwrap();
    assert_eq!(hooks.preinstall.as_deref(), Some("echo pre"));
    assert_eq!(hooks.postinstall.as_deref(), Some("echo post"));
    assert_eq!(
        hooks.apt_packages,
        Some(vec!["curl".to_string(), "git".to_string()])
    );
    assert_eq!(hooks.required_env, Some(vec!["DATABASE_URL".to_string()]));
    assert!(deploy_hooks_config(Some(" "), None, Some(&vec!["".to_string()]), None).is_none());
}

#[test]
fn stage_binary_dir_with_start_rejects_empty() {
    let err = start_command_line("  ").unwrap_err();
    assert!(err.contains("start command is empty"));
}

#[test]
fn lists_of_settings_hold_each_text_once() {
    let values = vec![
        " b ".to_string(),
        "a".to_string(),
        "b".to_string(),
        " ".to_string(),
    ];
    assert_eq!(
        normalize_opt_vec(Some(&values)),
        Some(vec!["b".to_string(), "a".to_string()])
    );
    assert_eq!(normalize_opt_vec(None), None);
}

#[test]
fn deploy_with_path_errors_when_binary_missing() {
    let err = refusal(plan_app_or_binary(
        "/work",
        Some("bin/missing"),
        Some("myapp"),
        false,
        false,
    ));
    assert!(err.contains("binary not found"));
    assert_eq!(err, "binary not found: /work/bin/missing");
}

#[test]
fn deploy_with_explicit_app_rejects_psht_toml_mismatch() {
    let err = refusal(plan_app_or_binary(
        "/work",
        Some("other"),
        Some("myapp"),
        false,
        false,
    ));
    assert!(err.contains("does not match"));
}

#[test]
fn deploys_go_by_git_or_tar_or_binary() {
    assert!(matches!(
        plan_app_or_binary("/w", None, Some(" demo "), false, true),
        Ok(DeployMethod::Git(app)) if app == "demo"
    ));
    assert!(matches!(
        plan_app_or_binary("/w", Some("demo"), Some("demo"), false, true),
        Ok(DeployMethod::Tar(app)) if app == "demo"
    ));
    assert!(matches!(
        plan_app_or_binary("/w", Some("./bin"), Some("demo"), true, true),
        Ok(DeployMethod::Binary { path, app }) if path == "/w/./bin" && app == "demo"
    ));
    assert!(refusal(plan_app_or_binary("/w", None, None, false, true)).contains("psht setup"));
}

#[test]
fn is_git_worktree_detects_repo_and_non_repo() {
    assert!(is_git_worktree(true, "true\n"));
    assert!(!is_git_worktree(true, "false\n"));
    assert!(!is_git_worktree(false, "true\n"));
}

#[test]
fn ensure_psht_git_remote_adds_and_updates_remote() {
    let expected = git_remote("host-a", "demo");
    assert_eq!(expected, "psht@host-a:demo");
    assert_eq!(remote_action(None, &expected), RemoteAction::Add);
    assert_eq!(
        remote_action(Some("psht@host-a:demo\n"), &expected),
        RemoteAction::Keep
    );
    assert_eq!(
        remote_action(Some("psht@host-a:demo\n"), &git_remote("host-b", "demo")),
        RemoteAction::SetUrl
    );
}

#[test]
fn parse_push_updated_reports_up_to_date() {
    let out = "= refs/heads/main:refs/heads/main [up to date]\nDone\n";
    assert_eq!(parse_push_updated(out), Some(false));
}

#[test]
fn parse_push_updated_reports_changed_refs() {
    let out = "  refs/heads/main:refs/heads/main abc..def\nDone\n";
    assert_eq!(parse_push_updated(out), Some(true));
    let out = "* refs/heads/main:refs/heads/main [new branch]\nDone\n";
    assert_eq!(parse_push_updated(out), Some(true));
}

#[test]
fn parse_push_updated_ignores_non_ref_lines() {
    let out = "To psht:app\nDone\n";
    assert_eq!(parse_push_updated(out), None);
}

#[test]
fn what_follows_a_push_depends_on_what_it_changed() {
    assert_eq!(after_push(Some(true), true), AfterPush::Done);
    assert_eq!(after_push(Some(false), true), AfterPush::Force);
    assert_eq!(after_push(Some(false), false), AfterPush::Verify);
    assert_eq!(after_push(None, false), AfterPush::Unclear);
    assert_eq!(
        current_git_ref(Some("refs/heads/main\n"), "abc"),
        "refs/heads/main"
    );
    assert_eq!(current_git_ref(Some("\n"), "abc"), "abc");
}

#[test]
fn deploy_ssh_args_without_force() {
    let args = deploy_ssh_args("myapp", "refs/heads/main", "deadbeef", false);
    assert_eq!(
        args,
        vec![
            "deploy".to_string(),
            "myapp".to_string(),
            "--ref".to_string(),
            "refs/heads/main".to_string(),
            "--sha".to_string(),
            "deadbeef".to_string(),
        ]
    );
}

#[test]
fn deploy_ssh_args_with_force() {
    let args = deploy_ssh_args("myapp", "refs/heads/main", "deadbeef", true);
    assert_eq!(
        args,
        vec![
            "deploy".to_string(),
            "myapp".to_string(),
            "--ref".to_string(),
            "refs/heads/main".to_string(),
            "--sha".to_string(),
            "deadbeef".to_string(),
            "--force".to_string(),
        ]
    );
}

#[test]
fn push_ssh_args_put_force_before_the_app() {
    assert_eq!(
        push_ssh_args("myapp", true),
        vec![
            "push".to_string(),
            "--force".to_string(),
            "myapp".to_string()
        ]
    );
    assert_eq!(
        push_ssh_args("myapp", false),
        vec!["push".to_string(), "myapp".to_string()]
    );
}

#[test]
fn detect_archive_format_accepts_tar_and_zip() {
    assert!(matches!(
        detect_archive_format("https://x/y/app.tar.gz").unwrap(),
        ArchiveFormat::TarGz
    ));
    assert!(matches!(
        detect_archive_format("https://x/y/app.tgz?dl=1").unwrap(),
        ArchiveFormat::TarGz
    ));
    assert!(matches!(
        detect_archive_format("https://x/y/app.zip").unwrap(),
        ArchiveFormat::Zip
    ));
}

#[test]
fn detect_archive_format_rejects_other_extensions() {
    let err = detect_archive_format("https://x/y/app.bin").unwrap_err();
    assert!(err.contains("unsupported archive format"));
}

#[test]
fn derive_app_name_from_url_strips_archive_suffix() {
    let name = derive_app_name_from_url("https://example.com/releases/my-app.tar.gz").unwrap();
    assert_eq!(name, "my-app");
}

#[test]
fn derive_app_name_from_url_sanitizes() {
    let name = derive_app_name_from_url("https://example.com/releases/My App (linux).zip").unwrap();
    assert_eq!(name, "My-App-linux");
}

#[test]
fn derive_app_name_from_url_strips_version_and_target_triple() {
    let name = derive_app_name_from_url(
        "https://example.com/releases/download/v0.0.3/hyperlinked-0.0.3-x86_64-unknown-linux-gnu.tar.gz",
    )
    .unwrap();
    assert_eq!(name, "hyperlinked");
}

#[test]
fn derive_app_name_from_url_strips_version_and_go_style_target() {
    let name = derive_app_name_from_url(
        "https://example.com/releases/download/v1.2.3/my-app-v1.2.3-linux-amd64.tar.gz",
    )
    .unwrap();
    assert_eq!(name, "my-app");
}

#[test]
fn derived_names_can_be_missing() {
    assert_eq!(
        derive_app_name_from_url("https://example.com/releases/").unwrap_err(),
        "could not derive app name from URL; set `app` in psht.toml"
    );
    assert_eq!(
        derive_app_name_from_url("https://example.com/releases/---.zip").unwrap_err(),
        "derived app name is empty; set `app` in psht.toml"
    );
    assert_eq!(sanitize_app_name(".."), "");
    assert_eq!(sanitize_app_name("my-app"), "my-app");
}

fn release(url: &str, start: &str) -> ProjectConfig {
    ProjectConfig {
        url: Some(url.to_string()),
        start: Some(start.to_string()),
        ..ProjectConfig::default()
    }
}

#[test]
fn ensure_no_release_conflicts_detects_non_url_mismatch() {
    let file = ProjectConfig {
        url: Some("https://a".to_string()),
        start: Some("./app".to_string()),
        app: Some("myapp".to_string()),
        bin: None,
        preinstall: None,
        postinstall: None,
        apt_packages: None,
        required_env: None,
    };
    let cli = ProjectConfig {
        url: Some("https://b".to_string()),
        start: Some("./other".to_string()),
        app: None,
        bin: None,
        preinstall: None,
        postinstall: None,
        apt_packages: None,
        required_env: None,
    };
    let err = ensure_no_release_conflicts(&file, &cli).unwrap_err();
    assert!(err.contains("start"));
    assert_eq!(
        err,
        "conflicting settings between psht.toml and CLI for keys: start"
    );
}

#[test]
fn is_same_project_release_url_accepts_version_bump() {
    let old_url = "https://github.com/org/repo/releases/download/v0.0.3/hyperlinked-0.0.3-x86_64-unknown-linux-gnu.tar.gz";
    let new_url = "https://github.com/org/repo/releases/download/v0.0.4/hyperlinked-0.0.4-x86_64-unknown-linux-gnu.tar.gz";
    assert!(is_same_project_release_url(old_url, new_url));
}

#[test]
fn is_same_project_release_url_rejects_repo_change() {
    let old_url = "https://github.com/org/repo/releases/download/v0.0.3/hyperlinked-0.0.3-x86_64-unknown-linux-gnu.tar.gz";
    let new_url = "https://github.com/org/other/releases/download/v0.0.4/hyperlinked-0.0.4-x86_64-unknown-linux-gnu.tar.gz";
    assert!(!is_same_project_release_url(old_url, new_url));
}

#[test]
fn is_same_project_release_url_rejects_asset_name_change() {
    let old_url = "https://github.com/org/repo/releases/download/v0.0.3/hyperlinked-0.0.3-x86_64-unknown-linux-gnu.tar.gz";
    let new_url = "https://github.com/org/repo/releases/download/v0.0.4/another-app-0.0.4-x86_64-unknown-linux-gnu.tar.gz";
    assert!(!is_same_project_release_url(old_url, new_url));
}

#[test]
fn is_same_project_release_url_rejects_non_release_download_shape() {
    let old_url = "https://github.com/org/repo/releases/download/v0.0.3/hyperlinked-0.0.3-x86_64-unknown-linux-gnu.tar.gz";
    let new_url = "https://github.com/org/repo/releases/tag/v0.0.4";
    assert!(!is_same_project_release_url(old_url, new_url));
}

#[test]
fn has_release_settings_ignores_hook_only_config() {
    let cfg = ProjectConfig {
        preinstall: Some("echo pre".to_string()),
        postinstall: Some("echo post".to_string()),
        apt_packages: Some(vec!["curl".to_string()]),
        ..ProjectConfig::default()
    };
    assert!(!has_release_settings(&cfg));
}

#[test]
fn an_address_may_only_go_to_another_release_of_the_project() {
    let old_url = "https://github.com/org/repo/releases/download/v1/app-1.0.0.tar.gz";
    let new_url = "https://github.com/org/repo/releases/download/v2/app-2.0.0.tar.gz";
    let file = release(old_url, "./app");
    let cli = cli_release_settings(Some(new_url), None, None, None);
    let (merged, changed) = reconcile_release_url_override(&file, &cli).unwrap();
    assert_eq!(merged.url.as_deref(), Some(new_url));
    assert!(changed);
    let same = cli_release_settings(Some(old_url), None, None, None);
    let (merged, changed) = reconcile_release_url_override(&file, &same).unwrap();
    assert_eq!(merged, file);
    assert!(!changed);
    let other = cli_release_settings(Some("https://example.com/app.zip"), None, None, None);
    assert!(refusal(reconcile_release_url_override(&file, &other)).contains("same-project"));
}

#[test]
fn a_project_deploys_as_its_settings_say() {
    let old_url = "https://github.com/org/repo/releases/download/v1/app-1.0.0.tar.gz";
    let new_url = "https://github.com/org/repo/releases/download/v2/app-2.0.0.tar.gz";
    let file = release(old_url, "./app");
    let nothing = cli_release_settings(None, Some("  "), None, None);
    assert!(matches!(
        plan_project_deploy(Some(&file), &nothing, false),
        (None, Ok(ProjectDeploy::Release(cfg))) if cfg == file
    ));
    let (_, refused) = plan_project_deploy(Some(&file), &nothing, true);
    assert!(refusal(refused).contains("positional deploy target"));
    let bump = cli_release_settings(Some(new_url), Some("./other"), None, None);
    let (kept, refused) = plan_project_deploy(Some(&file), &bump, false);
    assert_eq!(kept.unwrap().url.as_deref(), Some(new_url));
    assert!(refusal(refused).contains("for keys: start"));
    let bare = ProjectConfig::default();
    let (_, refused) = plan_project_deploy(Some(&bare), &bump, false);
    assert!(refusal(refused).contains("exists without release settings"));
    assert!(matches!(
        plan_project_deploy(Some(&bare), &nothing, false),
        (None, Ok(ProjectDeploy::AppOrBinary))
    ));
    assert!(matches!(
        plan_project_deploy(None, &bump, false),
        (None, Ok(ProjectDeploy::Bootstrap))
    ));
    assert!(matches!(
        plan_project_deploy(None, &nothing, true),
        (None, Ok(ProjectDeploy::AppOrBinary))
    ));
    let (_, refused) = plan_project_deploy(None, &nothing, false);
    assert!(refusal(refused).contains("Run `psht setup`"));
}

#[test]
fn a_release_needs_an_address_and_a_start_command() {
    let cfg = release(" https://x/y/my-app-1.2.3.tar.gz ", " ./my-app ");
    let plan = plan_release(&cfg).ok().unwrap();
    assert_eq!(plan.url, "https://x/y/my-app-1.2.3.tar.gz");
    assert_eq!(plan.start, "./my-app");
    assert_eq!(plan.app, "my-app");
    assert_eq!(
        refusal(plan_release(&ProjectConfig::default())),
        "psht.toml: missing `url`"
    );
    assert_eq!(
        refusal(plan_release(&release("https://x/y.zip", " "))),
        "psht.toml: missing `start`"
    );
    let written = bootstrap_settings(
        "https://x/y/app.zip",
        "./app",
        &cli_release_settings(None, None, Some("named"), Some("bin/app")),
    )
    .unwrap();
    assert_eq!(written.app.as_deref(), Some("named"));
    assert_eq!(written.bin.as_deref(), Some("bin/app"));
    assert_eq!(written.url.as_deref(), Some("https://x/y/app.zip"));
}

#[test]
fn resolve_binary_from_archive_prefers_single_executable() {
    let files = vec![("/x/readme".to_string(), false), ("/x/app".to_string(), true)];
    assert_eq!(binary_among(&files).unwrap(), "/x/app");
}

#[test]
fn resolve_binary_from_archive_falls_back_to_single_file() {
    let files = vec![("/x/app".to_string(), false)];
    assert_eq!(binary_among(&files).unwrap(), "/x/app");
}

#[test]
fn resolve_binary_from_archive_errors_on_many_executables() {
    let files = vec![("/x/a".to_string(), true), ("/x/b".to_string(), true)];
    let err = binary_among(&files).unwrap_err();
    assert!(err.contains("multiple executable"));
    let files = vec![("/x/a".to_string(), false), ("/x/b".to_string(), false)];
    assert!(binary_among(&files)
        .unwrap_err()
        .contains("no executable found"));
    assert_eq!(
        binary_among(&Vec::new()).unwrap_err(),
        "archive did not contain files"
    );
}

#[test]
fn resolve_binary_from_archive_uses_bin_override() {
    assert_eq!(binary_named("/x", " dist/app ").unwrap(), "/x/dist/app");
    assert_eq!(
        binary_named("/x", " ").unwrap_err(),
        "`bin` cannot be empty"
    );
    assert_eq!(
        binary_missing_error(" dist/app "),
        "`bin` target not found in archive: dist/app"
    );
}

#[test]
fn safe_join_relative_rejects_parent() {
    let err = safe_join_relative("/tmp/x", "../bad").unwrap_err();
    assert!(err.contains("parent-directory"));
    assert!(safe_join_relative("/tmp/x", "/bad")
        .unwrap_err()
        .contains("relative path"));
}

#[test]
fn psht_setup_writes_project_to_config() {
    let mut config = load_config_from(Some("host = \"myhost\"\n"));
    assert!(remember_project(&mut config, "/work/myproject", "myhost"));
    assert_eq!(
        config.projects.get("/work/myproject").map(|s| s.as_str()),
        Some("myhost")
    );
}

#[test]
fn setup_writes_psht_toml_template() {
    let psht = project_config_template("myproject");
    assert!(psht.contains("app = \"myproject\""));
    assert!(psht.contains("# url ="));
    assert!(psht.contains("# required_env ="));
}

#[test]
fn setup_keeps_the_other_settings_of_a_project() {
    let text = file_with_text(
        "app = \"old\"\nstart = \"./run\"\n",
        "app",
        "new",
        "/w/psht.toml",
    )
    .unwrap()
    .unwrap();
    assert_eq!(text, "app = \"new\"\nstart = \"./run\"\n");
    let text = file_with_text("start = \"./run\"\n", "app", "new", "/w/psht.toml")
        .unwrap()
        .unwrap();
    assert!(text.contains("app = \"new\""));
    assert!(text.contains("start = \"./run\""));
    assert!(file_with_text("app = ", "app", "new", "/w/psht.toml")
        .unwrap_err()
        .starts_with("failed to parse /w/psht.toml: "));
}

#[test]
fn psht_setup_skips_existing_project() {
    let mut config = load_config_from(Some(
        "host = \"myhost\"\n\n[projects]\n\"/work/myproject\" = \"myhost\"\n",
    ));
    assert!(!remember_project(&mut config, "/work/myproject", "other"));
    assert_eq!(
        config.projects.get("/work/myproject").map(|s| s.as_str()),
        Some("myhost")
    );
}

fn manifest_from_json(line: &str) -> Option<ServerUpdateManifest> {
    let value: serde_json::Value = serde_json::from_str(line).ok()?;
    let version = value.get("version")?.as_str()?.to_string();
    let forge_url = match value.get("forge_url") {
        Some(url) => url.as_str()?.to_string(),
        None => String::new(),
    };
    Some(ServerUpdateManifest { version, forge_url })
}

#[test]
fn parse_update_manifest_stdout_reads_embedded_json_line() {
    let stdout = r#"#!/bin/sh
set -e
cat >/dev/null <<'__PSHT_UPDATE_MANIFEST__'
{"version":"0.2.47","forge_url":"https://github.com/nakajima/psht"}
__PSHT_UPDATE_MANIFEST__
"#;

    let manifest = parse_update_manifest_stdout(stdout, manifest_from_json).unwrap();
    assert_eq!(manifest.version, "0.2.47");
    assert_eq!(manifest.forge_url, "https://github.com/nakajima/psht");
}

#[test]
fn parse_update_manifest_stdout_reads_legacy_script_assignments() {
    let stdout = r#"#!/bin/sh
VERSION="0.2.13"
FORGE_URL="${PSHT_FORGE_URL:-https://example.com/org/repo}"
"#;

    let manifest = parse_update_manifest_stdout(stdout, manifest_from_json).unwrap();
    assert_eq!(manifest.version, "0.2.13");
    assert_eq!(manifest.forge_url, "https://example.com/org/repo");
}

#[test]
fn parse_update_manifest_stdout_errors_without_manifest() {
    let err =
        parse_update_manifest_stdout("#!/bin/sh\necho hi\n", manifest_from_json).unwrap_err();
    assert!(err.contains("not valid JSON"));
}

#[test]
fn the_last_manifest_counts() {
    let stdout = "{\"version\":\"1\"}\n{\"version\":\"2\"}\n\nDone\n";
    let manifest = parse_update_manifest_stdout(stdout, manifest_from_json).unwrap();
    assert_eq!(manifest.version, "2");
    assert_eq!(manifest.forge_url, "");
}

fn update_plan() -> UpdatePlan {
    let manifest = ServerUpdateManifest {
        version: " 1.2.3 ".to_string(),
        forge_url: "https://forge.example/psht/".to_string(),
    };
    plan_update(&manifest, None, Some("https://source.example/"), "linux", "x86_64")
        .ok()
        .unwrap()
}

fn told(version: &str) -> StepReply {
    StepReply {
        succeeded: true,
        found: true,
        version: Some(version.to_string()),
    }
}

#[test]
fn updates_download_the_release_and_install_it() {
    let plan = update_plan();
    assert_eq!(plan.version, "1.2.3");
    assert_eq!(
        plan.asset_url,
        "https://forge.example/psht/releases/download/v1.2.3/psht-1.2.3-x86_64-unknown-linux-gnu.tar.gz"
    );
    assert_eq!(plan.source_url, "https://source.example");
    let mut step = UpdateStep::InspectInstalled;
    let mut steps = Vec::new();
    while !matches!(step, UpdateStep::Finished { .. }) {
        steps.push(step);
        let version = if steps.len() == 1 { "1.0.0" } else { "1.2.3" };
        step = plan.next("/usr/bin/psht", step, &told(version)).unwrap();
    }
    assert_eq!(step, UpdateStep::Finished { before: false });
    assert_eq!(
        steps,
        vec![
            UpdateStep::InspectInstalled,
            UpdateStep::Download,
            UpdateStep::Unpack,
            UpdateStep::InspectCandidate { built: false },
            UpdateStep::Install { built: false },
            UpdateStep::Confirm,
        ]
    );
    assert_eq!(
        plan.next("/usr/bin/psht", UpdateStep::InspectInstalled, &told("1.2.3")),
        Ok(UpdateStep::Finished { before: true })
    );
}

#[test]
fn updates_fall_back_to_the_source() {
    let plan = update_plan();
    let failed = StepReply {
        succeeded: false,
        found: false,
        version: None,
    };
    assert_eq!(
        plan.next("/p", UpdateStep::Download, &failed),
        Ok(UpdateStep::Build)
    );
    assert_eq!(
        plan.build_args("/tmp/root"),
        vec![
            "install",
            "--git",
            "https://source.example",
            "--tag",
            "v1.2.3",
            "--root",
            "/tmp/root",
            "--bin",
            "psht"
        ]
    );
    assert_eq!(
        plan.next("/p", UpdateStep::Build, &failed).unwrap_err(),
        "cargo install failed while building psht from source"
    );
    assert_eq!(
        plan.next("/p", UpdateStep::FindBuilt, &failed).unwrap_err(),
        "cargo install completed but psht binary was not found"
    );
    assert!(plan
        .next("/p", UpdateStep::Unpack, &failed)
        .unwrap_err()
        .starts_with("downloaded archive missing executable psht binary: https://forge.example"));
    assert_eq!(
        plan.next("/p", UpdateStep::InspectCandidate { built: true }, &failed)
            .unwrap_err(),
        "downloaded psht unknown, expected 1.2.3"
    );
    assert_eq!(
        plan.next("/p", UpdateStep::Confirm, &told("1.0.0")).unwrap_err(),
        "installed psht 1.0.0, expected 1.2.3 at /p"
    );
    assert_eq!(staged_name("/usr/bin/psht").unwrap(), "psht.new");
    assert_eq!(
        staged_name("/").unwrap_err(),
        "invalid install path: /"
    );
    assert_eq!(cli_binary_version("psht 1.2.3 (cli)\n").as_deref(), Some("1.2.3"));
}

#[test]
fn updates_need_a_version() {
    let manifest = ServerUpdateManifest {
        version: " ".to_string(),
        forge_url: String::new(),
    };
    assert_eq!(
        refusal(plan_update(&manifest, None, None, "linux", "x86_64")),
        "update manifest missing version"
    );
    let manifest = ServerUpdateManifest {
        version: "1.0.0".to_string(),
        forge_url: " ".to_string(),
    };
    assert!(plan_update(&manifest, Some("https://f/"), None, "linux", "x86_64")
        .ok()
        .unwrap()
        .asset_url
        .starts_with("https://f/releases/download/v1.0.0/"));
}

fn ssh_words(command: &ClientCommand, configured: Option<&str>) -> Result<Vec<String>, String> {
    let config = config(Some("box"), &[]);
    let configured = Ok(configured.map(|app| app.to_string()));
    match plan_command(&config, "/work", &configured, command) {
        Ok(ClientAction::Ssh { host, args }) => {
            assert_eq!(host, "box");
            Ok(args)
        }
        Ok(_) => panic!("expected a command for the host"),
        Err(err) => Err(err),
    }
}

#[test]
fn commands_are_sent_to_the_host() {
    assert_eq!(ssh_words(&ClientCommand::Ps, None).unwrap(), vec!["ps"]);
    let of = |action: AppAction, app: Option<&str>| ClientCommand::App {
        action,
        app: app.map(|app| app.to_string()),
    };
    assert_eq!(
        ssh_words(&of(AppAction::FollowLogs, None), Some("demo")).unwrap(),
        vec!["logs", "-f", "demo"]
    );
    assert_eq!(
        ssh_words(&of(AppAction::DestroyKeepingStorage, Some("demo")), None).unwrap(),
        vec!["destroy", "--keep-storage", "demo"]
    );
    assert_eq!(
        ssh_words(&of(AppAction::TailscaleUp, Some("demo")), None).unwrap(),
        vec!["tailscale", "up", "demo"]
    );
    assert!(ssh_words(&of(AppAction::Stop, None), None)
        .unwrap_err()
        .contains("psht setup"));
    let set = ClientCommand::Env(vec!["A=1".to_string(), "B=two".to_string()]);
    assert_eq!(
        ssh_words(&set, Some("demo")).unwrap(),
        vec!["env", "demo", "A=1", "B=two"]
    );
    let bad = ClientCommand::Env(vec!["A=1".to_string(), "1B=two".to_string()]);
    assert_eq!(
        ssh_words(&bad, Some("demo")).unwrap_err(),
        "invalid env name '1B'"
    );
    let unset = ClientCommand::EnvUnset(vec!["A".to_string()]);
    assert_eq!(
        ssh_words(&unset, Some("demo")).unwrap(),
        vec!["env-unset", "demo", "A"]
    );
    assert_eq!(
        ssh_words(&ClientCommand::EnvUnset(Vec::new()), Some("demo")).unwrap_err(),
        "env:unset requires at least one NAME"
    );
    assert!(parse_env_assignment("novalue").is_err());
}

#[test]
fn some_commands_are_done_on_the_workstation() {
    let config = config(Some("box"), &[]);
    let none: Result<Option<String>, String> = Ok(None);
    assert!(matches!(
        plan_command(&config, "/w", &none, &ClientCommand::IsCli),
        Ok(ClientAction::Nothing)
    ));
    assert!(matches!(
        plan_command(&config, "/w", &none, &ClientCommand::Setup),
        Ok(ClientAction::Setup(host)) if host == "box"
    ));
    assert!(matches!(
        plan_command(&config, "/w", &none, &ClientCommand::Update),
        Ok(ClientAction::Update(host)) if host == "box"
    ));
    let deploy = ClientCommand::Deploy {
        app: Some("HTTPS://x/y.zip".to_string()),
        url: None,
    };
    assert!(matches!(
        plan_command(&config, "/w", &none, &deploy),
        Ok(ClientAction::Deploy { app: None, url: Some(url), .. }) if url == "HTTPS://x/y.zip"
    ));
    let unread: Result<Option<String>, String> = Err("failed to parse".to_string());
    let stop = ClientCommand::App {
        action: AppAction::Stop,
        app: Some("demo".to_string()),
    };
    assert_eq!(
        refusal(plan_command(&config, "/w", &unread, &stop)),
        "failed to parse"
    );
}

#[test]
fn answers_fall_back_to_defaults() {
    assert_eq!(prompt_text("App name", Some("demo")), "App name [demo]: ");
    assert_eq!(prompt_text("Release URL", None), "Release URL: ");
    assert_eq!(prompt_answer(" x \n", Some("d")).as_deref(), Some("x"));
    assert_eq!(prompt_answer("\n", Some("d")).as_deref(), Some("d"));
    assert_eq!(prompt_answer("\n", None), None);
    assert!(prompt_confirmed(" YES\n"));
    assert!(prompt_confirmed("y"));
    assert!(!prompt_confirmed("\n"));
    assert_eq!(setup_default(&None, "/home/me/demo"), "demo");
    assert_eq!(setup_default(&Some("x".to_string()), "/home/me/demo"), "x");
    assert!(setup_name("bad name").is_err());
    assert_eq!(setup_name("good").unwrap(), "good");
}

#[test]
fn failures_of_git_are_told() {
    let args = vec!["rev-parse".to_string(), "HEAD".to_string()];
    assert_eq!(git_output(&args, true, " abc \n", "").unwrap(), "abc");
    assert_eq!(
        git_output(&args, false, "", " \n").unwrap_err(),
        "git rev-parse HEAD failed"
    );
    assert_eq!(
        git_output(&args, false, "", "no repo\n").unwrap_err(),
        "git rev-parse HEAD failed: no repo"
    );
}

#[test]
fn projects_stay_with_the_host_they_were_deployed_to() {
    let mut config = config(Some("default"), &[("/b", "other")]);
    assert!(remember_project(&mut config, "/a", "first"));
    assert!(!remember_project(&mut config, "/a", "second"));
    config.host = Some("moved".to_string());
    assert_eq!(resolve_host_from(&config, "/a"), Ok("first".to_string()));
    assert_eq!(resolve_host_from(&config, "/b"), Ok("other".to_string()));
    assert_eq!(resolve_host_from(&config, "/c"), Ok("moved".to_string()));
}

#[test]
fn load_config_missing_file_returns_default() {
    let config = load_config_from(None);
    assert!(config.host.is_none());
    assert!(config.projects.rows.is_empty());
}

#[test]
fn load_config_parses_host() {
    let config = load_config_from(Some("host = \"myserver\"\n"));
    assert_eq!(config.host.as_deref(), Some("myserver"));
}

#[test]
fn setup_writes_project_to_config() {
    let mut config = load_config_from(Some("host = \"myhost\"\n"));
    assert!(remember_project(&mut config, "/work/myproject", "myhost"));
    assert_eq!(
        resolve_host_with_hint(&config, "/work/myproject", ""),
        Ok("myhost".to_string())
    );
}

#[test]
fn setup_skips_existing_project() {
    let mut config = load_config_from(Some(
        "host = \"myhost\"\n\n[projects]\n\"/work/myproject\" = \"myhost\"\n",
    ));
    assert!(!remember_project(&mut config, "/work/myproject", "myhost"));
}
