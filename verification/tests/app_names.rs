use psht::app_name::{
    allocate_port, app_ref_from_instance_name, candidate_app_name,
    canonical_app_name_from_container, deploy_app_family_from_app_ref, has_deploy_suffix,
    instance_name_from_app_ref, is_instance_in_app_family, is_transient_deploy_app_for,
    is_transient_deploy_app_name, validate_app_name,
};
use psht::app_state::{
    clear_app_runtime_state, desired_state, managed_runtime_states_with, normalized_desired_state,
    read_all_app_runtime_states, read_app_runtime_state, read_managed_app_runtime_states,
    resolve_active_app_ref, resolve_existing_active_app_ref, runtime_state_snapshot,
    set_desired_state, write_app_runtime_state, AppRuntimeState, AppRuntimeStateRow, AppSpecRow,
    DesiredState,
};
use psht::runtime;
use psht::table::Table;

#[test]
fn validate_allows_safe_names() {
    for name in ["app", "my-app", "a1", "app-2", "z9-x8", "My_App", "app.1"] {
        assert!(
            validate_app_name(name).is_ok(),
            "expected valid app name: {name}"
        );
    }
}

#[test]
fn validate_rejects_empty_name() {
    let err = validate_app_name("").unwrap_err();
    assert!(err.contains("invalid app name"));
}

#[test]
fn validate_rejects_invalid_characters() {
    for name in ["app/../x", "../x", "bad name", "bad\tname", "bad:name"] {
        let err = validate_app_name(name).unwrap_err();
        assert!(
            err.contains("allowed pattern is [A-Za-z0-9._-]"),
            "unexpected error for {name}: {err}"
        );
    }
}

#[test]
fn validate_rejects_disallowed_prefix_or_segments() {
    for name in ["-app", ".", ".."] {
        assert!(
            validate_app_name(name).is_err(),
            "expected invalid app name: {name}"
        );
    }
}

#[test]
fn app_state_app_ref_from_instance_name_handles_prefixed_and_unprefixed_values() {
    assert_eq!(
        app_ref_from_instance_name("psht-hyperlinked").as_deref(),
        Some("hyperlinked")
    );
    assert_eq!(
        app_ref_from_instance_name("hyperlinked-build-123").as_deref(),
        Some("hyperlinked-build-123")
    );
    assert!(app_ref_from_instance_name("").is_none());
}

#[test]
fn commands_app_ref_from_instance_name_handles_prefixed_and_unprefixed_values() {
    assert_eq!(
        app_ref_from_instance_name("psht-hyperlinked").as_deref(),
        Some("hyperlinked")
    );
    assert_eq!(
        app_ref_from_instance_name("hyperlinked-build-123").as_deref(),
        Some("hyperlinked-build-123")
    );
    assert!(app_ref_from_instance_name("").is_none());
}

#[test]
fn instance_name_from_app_ref_prefixes_plain_names() {
    assert_eq!(instance_name_from_app_ref("demo"), "psht-demo");
    assert_eq!(instance_name_from_app_ref("psht-demo"), "psht-demo");
}

fn running_in(active: &str, previous: Option<&str>) -> AppRuntimeState {
    AppRuntimeState {
        active_instance: active.to_string(),
        previous_instance: previous.map(|name| name.to_string()),
        runtime_project: Some("user-1000".to_string()),
        updated_at: 1,
    }
}

#[test]
fn managed_runtime_states_skip_transient_apps_and_clear_stale_ones() {
    let states = vec![
        (
            "hyperlinked".to_string(),
            running_in("psht-hyperlinked-build-100", None),
        ),
        (
            "hyperlinked-build-100".to_string(),
            running_in(
                "psht-hyperlinked-build-100",
                Some("psht-hyperlinked-prev-99"),
            ),
        ),
    ];

    let (managed, cleared) = managed_runtime_states_with(states, &Vec::new());

    assert_eq!(managed.len(), 1);
    assert_eq!(managed[0].0, "hyperlinked");
    assert_eq!(cleared, vec!["hyperlinked-build-100".to_string()]);
}

#[test]
fn managed_runtime_states_keep_transient_apps_with_live_instances() {
    let transient = "hyperlinked-build-100".to_string();
    let states = vec![(transient, running_in("psht-hyperlinked-build-100", None))];

    let (managed, cleared) =
        managed_runtime_states_with(states, &vec!["hyperlinked-build-100".to_string()]);

    assert!(managed.is_empty());
    assert!(cleared.is_empty());
}

#[test]
fn allocate_port_is_deterministic() {
    let port1 = allocate_port("myapp");
    let port2 = allocate_port("myapp");
    assert_eq!(port1, port2);
}

#[test]
fn allocate_port_in_valid_range() {
    for name in &["app1", "app2", "webapp", "api", "test-long-name"] {
        let port = allocate_port(name);
        assert!(
            port >= 3001 && port < 4001,
            "port {port} out of range for {name}"
        );
    }
}

#[test]
fn allocate_port_different_apps_likely_differ() {
    let port1 = allocate_port("myapp");
    let port2 = allocate_port("other");
    assert_ne!(port1, port2);
}

#[test]
fn allocate_port_goes_by_the_bytes_of_the_name() {
    assert_eq!(allocate_port(""), 3001);
    assert_eq!(allocate_port("a"), 3001 + 97);
    assert_eq!(allocate_port("ab"), 3001 + (97 * 31 + 98) % 1000);
    assert_eq!(allocate_port("\u{e9}"), 3001 + (0xc3 * 31 + 0xa9) % 1000);
}

#[test]
fn transient_deploy_app_for_detected() {
    assert!(is_transient_deploy_app_for(
        "hyperlinked",
        "hyperlinked-build-100"
    ));
    assert!(is_transient_deploy_app_for(
        "hyperlinked",
        "hyperlinked-prev-100"
    ));
    assert!(is_transient_deploy_app_for(
        "hyperlinked",
        "hyperlinked-failed-100"
    ));
    assert!(!is_transient_deploy_app_for(
        "hyperlinked",
        "hyperlinked-build-next"
    ));
    assert!(!is_transient_deploy_app_for(
        "hyperlinked",
        "other-build-100"
    ));
}

#[test]
fn deploy_app_family_is_derived_from_transient_refs() {
    assert_eq!(
        deploy_app_family_from_app_ref("hyperlinked-build-100"),
        "hyperlinked"
    );
    assert_eq!(
        deploy_app_family_from_app_ref("hyperlinked-prev-100"),
        "hyperlinked"
    );
    assert_eq!(
        deploy_app_family_from_app_ref("hyperlinked-failed-100"),
        "hyperlinked"
    );
    assert_eq!(deploy_app_family_from_app_ref("hyperlinked"), "hyperlinked");
    assert_eq!(
        deploy_app_family_from_app_ref("hyperlinked-build-next"),
        "hyperlinked-build-next"
    );
}

#[test]
fn instance_membership_detects_full_app_family() {
    assert!(is_instance_in_app_family("hyperlinked", "psht-hyperlinked"));
    assert!(is_instance_in_app_family(
        "hyperlinked",
        "psht-hyperlinked-build-1772593344"
    ));
    assert!(is_instance_in_app_family(
        "hyperlinked",
        "psht-hyperlinked-prev-1772593344"
    ));
    assert!(is_instance_in_app_family(
        "hyperlinked",
        "psht-hyperlinked-failed-1772593344"
    ));
    assert!(!is_instance_in_app_family(
        "hyperlinked",
        "psht-other-build-1772593344"
    ));
}

#[test]
fn has_deploy_suffix_requires_numeric_suffix() {
    assert!(has_deploy_suffix("demo-build-1772425113", "-build-"));
    assert!(has_deploy_suffix("demo-prev-1772425113", "-prev-"));
    assert!(has_deploy_suffix("demo-failed-1772425113", "-failed-"));
    assert!(!has_deploy_suffix("demo-build-next", "-build-"));
    assert!(!has_deploy_suffix("demo-build-", "-build-"));
}

#[test]
fn transient_deploy_app_names_are_detected() {
    assert!(is_transient_deploy_app_name("hyperlinked-build-1772425113"));
    assert!(is_transient_deploy_app_name("hyperlinked-prev-1772425113"));
    assert!(is_transient_deploy_app_name(
        "hyperlinked-failed-1772425113"
    ));
    assert!(!is_transient_deploy_app_name("hyperlinked-build-cache"));
    assert!(!is_transient_deploy_app_name("hyperlinked"));
}

#[test]
fn canonical_app_name_filters_transient_containers() {
    assert_eq!(
        canonical_app_name_from_container("psht-hyperlinked").as_deref(),
        Some("hyperlinked")
    );
    assert!(canonical_app_name_from_container("psht-hyperlinked-build-1772425113").is_none());
    assert!(canonical_app_name_from_container("psht-hyperlinked-prev-1772425113").is_none());
    assert!(canonical_app_name_from_container("psht-hyperlinked-failed-1772425113").is_none());
    assert!(canonical_app_name_from_container("other-service").is_none());
}

#[test]
fn candidates_are_transient_names_of_their_app() {
    let candidate = candidate_app_name("demo", "1772425113");
    assert_eq!(candidate, "demo-build-1772425113");
    assert!(is_transient_deploy_app_for("demo", &candidate));
    assert_eq!(deploy_app_family_from_app_ref(&candidate), "demo");
}

fn here() -> Result<String, String> {
    Ok("user-1000".to_string())
}

#[test]
fn app_runtime_state_round_trip() {
    let mut states: Table<AppRuntimeStateRow> = Table::new();
    let app = "runtime-state";
    runtime::write_app_runtime_state(&mut states, app, "myapp-build-123", Some("myapp"), 7);
    let loaded = read_app_runtime_state(&states, app).unwrap().unwrap();
    assert_eq!(loaded.active_instance, "psht-myapp-build-123");
    assert_eq!(loaded.previous_instance.as_deref(), Some("psht-myapp"));
    assert!(loaded.updated_at > 0);
    clear_app_runtime_state(&mut states, app);
    assert!(read_app_runtime_state(&states, app).unwrap().is_none());
}

#[test]
fn runtime_states_tell_what_cannot_be_stored_or_read() {
    let mut states: Table<AppRuntimeStateRow> = Table::new();
    let err = write_app_runtime_state(&mut states, "a", "a", None, &here(), u64::MAX).unwrap_err();
    assert_eq!(
        err,
        "value for updated_at in app 'a' exceeds sqlite integer range"
    );
    let gone: Result<String, String> = Err("no project".to_string());
    let err = write_app_runtime_state(&mut states, "a", "a", None, &gone, 1).unwrap_err();
    assert_eq!(err, "no project");
    states.put(
        "a",
        AppRuntimeStateRow {
            active_instance: "psht-a".to_string(),
            previous_instance: None,
            runtime_project: None,
            updated_at: -1,
        },
    );
    let err = read_app_runtime_state(&states, "a").unwrap_err();
    assert_eq!(
        err,
        "invalid sqlite value for updated_at in app 'a': expected non-negative integer"
    );
    assert!(read_all_app_runtime_states(&states).is_err());
}

#[test]
fn desired_state_round_trip_defaults_to_running() {
    let mut specs: Table<AppSpecRow> = Table::new();
    let app = "desired-state";
    assert_eq!(desired_state(&specs, app), DesiredState::Running);
    set_desired_state(&mut specs, app, DesiredState::Stopped);
    assert_eq!(desired_state(&specs, app), DesiredState::Stopped);
    set_desired_state(&mut specs, app, normalized_desired_state("weird"));
    assert_eq!(desired_state(&specs, app), DesiredState::Running);
    assert_eq!(normalized_desired_state("STOPPED"), DesiredState::Stopped);
}

#[test]
fn the_previous_container_takes_over_where_the_active_one_is_gone() {
    let mut states: Table<AppRuntimeStateRow> = Table::new();
    write_app_runtime_state(
        &mut states,
        "demo",
        "demo-build-2",
        Some("demo-build-1"),
        &here(),
        5,
    )
    .unwrap();
    let both = vec!["demo-build-1".to_string(), "demo-build-2".to_string()];
    let found = resolve_active_app_ref(&mut states, "demo", &both, &here(), 6).unwrap();
    assert_eq!(found.as_deref(), Some("demo-build-2"));
    let one = vec!["demo-build-1".to_string()];
    let found = resolve_active_app_ref(&mut states, "demo", &one, &here(), 6).unwrap();
    assert_eq!(found.as_deref(), Some("demo-build-1"));
    let again = resolve_existing_active_app_ref(&mut states, "demo", &one, &here(), 7).unwrap();
    assert_eq!(again, "demo-build-1");
    let state = read_app_runtime_state(&states, "demo").unwrap().unwrap();
    assert_eq!(state.active_instance, "psht-demo-build-1");
    assert_eq!(state.previous_instance, None);
    assert_eq!(state.updated_at, 6);
    let err = resolve_existing_active_app_ref(&mut states, "demo", &Vec::new(), &here(), 8)
        .unwrap_err();
    assert_eq!(err, "app 'demo' not found");
}

#[test]
fn leftovers_of_deploys_are_forgotten() {
    let mut states: Table<AppRuntimeStateRow> = Table::new();
    for app in ["demo", "demo-build-1"] {
        write_app_runtime_state(&mut states, app, "demo-build-1", None, &here(), 5).unwrap();
    }
    let kept = read_managed_app_runtime_states(&mut states, &Vec::new()).unwrap();
    assert_eq!(kept.len(), 1);
    assert_eq!(kept[0].0, "demo");
    assert!(!states.has("demo-build-1"));
    assert!(states.has("demo"));
}

#[test]
fn snapshots_name_the_containers() {
    let mut states: Table<AppRuntimeStateRow> = Table::new();
    let live = vec!["demo".to_string()];
    let (active, previous) = runtime_state_snapshot(&mut states, "demo", &live, &here(), 1);
    assert_eq!(active.as_deref(), Some("psht-demo"));
    assert_eq!(previous, None);
}

#[test]
fn leftovers_of_deploys_belong_to_their_app() {
    for name in ["web-build-1", "web-prev-22", "web-failed-3", "a-build-1-prev-2"] {
        let app = deploy_app_family_from_app_ref(name);
        assert!(is_transient_deploy_app_name(name));
        assert!(is_transient_deploy_app_for(&app, name));
        assert!(is_instance_in_app_family(&app, &format!("psht-{name}")));
    }
    assert_eq!(deploy_app_family_from_app_ref("a-build-1-prev-2"), "a-build-1");
    assert_eq!(deploy_app_family_from_app_ref("a-build-build-1"), "a-build");
    assert_eq!(deploy_app_family_from_app_ref("web-build-x"), "web-build-x");
    assert!(!is_transient_deploy_app_for("web", "web-build-1-prev-2"));
}
