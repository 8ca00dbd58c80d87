use psht::hostname::{
    AfterJoin, AfterWait, Attempt, HostnameSearch, LookupWarning, SearchStep, TailscaleJoinAttempt, retry_attempt_budget,
};
use psht::repair::{
    device_cleanup_verdict, join_tailscale_for_repair_with_fallback, owned_devices_to_delete,
    tailscale_up_lines,
};
use psht::tailnet::{tailscale_api_permission_denied, TailnetDevice};
use psht::tailscale::{
    parse_tailscale_dns_name, parse_tailscale_self_snapshot, tailscale_conflict_label_for_app,
    tailscale_hostname_is_exact, tailscale_self_status_summary_from_json,
    tailscale_ssh_enabled_from_status_json,
};

#[test]
fn parse_tailscale_dns_name_trims_trailing_dot() {
    let json = r#"{"Self":{"DNSName":"psht.tailnet.ts.net."}}"#;
    assert_eq!(
        parse_tailscale_dns_name(json),
        Some("psht.tailnet.ts.net".to_string())
    );
}

#[test]
fn parse_tailscale_dns_name_ignores_empty() {
    let json = r#"{"Self":{"DNSName":""}}"#;
    assert!(parse_tailscale_dns_name(json).is_none());
}

#[test]
fn tailscale_ssh_enabled_from_status_json_accepts_self_ssh_flag() {
    let json = r#"{"Self":{"SSH":true}}"#;
    assert!(tailscale_ssh_enabled_from_status_json(json).unwrap());
}

#[test]
fn tailscale_ssh_enabled_from_status_json_accepts_capabilities_ssh() {
    let json = r#"{"Self":{"Capabilities":["https://tailscale.com/cap/ssh"]}}"#;
    assert!(tailscale_ssh_enabled_from_status_json(json).unwrap());
}

#[test]
fn tailscale_ssh_enabled_from_status_json_accepts_capmap_ssh() {
    let json = r#"{"Self":{"CapMap":{"https://tailscale.com/cap/ssh":null}}}"#;
    assert!(tailscale_ssh_enabled_from_status_json(json).unwrap());
}

#[test]
fn tailscale_ssh_is_off_without_a_sign_of_it() {
    assert!(!tailscale_ssh_enabled_from_status_json(r#"{"Self":{}}"#).unwrap());
    assert!(tailscale_ssh_enabled_from_status_json("{").is_err());
}

#[test]
fn tailscale_hostname_is_exact_matches_label_only() {
    assert!(tailscale_hostname_is_exact(
        "hyperlinked.tail.ts.net",
        "hyperlinked"
    ));
    assert!(tailscale_hostname_is_exact(
        "Hyperlinked.tail.ts.net.",
        "hyperlinked"
    ));
    assert!(!tailscale_hostname_is_exact(
        "hyperlinked-1.tail.ts.net",
        "hyperlinked"
    ));
    assert!(!tailscale_hostname_is_exact(
        "other.tail.ts.net",
        "hyperlinked"
    ));
}

/// How often each thing was done in a search.
#[derive(Default)]
struct Calls {
    state: usize,
    auth: usize,
    health: usize,
    reset: usize,
    sleep: usize,
}

/// Runs a search to its end.
fn acquire(
    app: &str,
    state: impl Fn() -> Result<TailscaleJoinAttempt, String>,
    mut auth: impl FnMut() -> Result<TailscaleJoinAttempt, String>,
    mut health: impl FnMut() -> Result<(), String>,
) -> (Result<String, String>, Calls) {
    let mut search = HostnameSearch::new(app);
    let mut calls = Calls::default();
    loop {
        let reply = match search.begin_attempt(1000 * calls.sleep as u64) {
            Attempt::GiveUp(err) => return (Err(err), calls),
            Attempt::JoinWithState => {
                calls.state += 1;
                state()
            }
            Attempt::JoinWithAuthKey => {
                calls.auth += 1;
                auth()
            }
        };
        let retry = match search.join_replied(reply).0 {
            AfterJoin::Fail(err) => return (Err(err), calls),
            AfterJoin::Retry => true,
            AfterJoin::WaitHealthy => {
                calls.health += 1;
                match search.health_replied(health()) {
                    AfterWait::Acquired(name) => return (Ok(name), calls),
                    AfterWait::Retry => true,
                }
            }
        };
        assert!(retry);
        assert_eq!(search.step, SearchStep::Reset);
        search.was_reset();
        calls.reset += 1;
        search.has_paused();
        calls.sleep += 1;
    }
}

fn named(name: &str) -> Result<TailscaleJoinAttempt, String> {
    Ok(TailscaleJoinAttempt::from_dns_name(Some(name.to_string())))
}

#[test]
fn acquire_exact_tailscale_hostname_uses_state_when_exact_and_healthy() {
    let (name, calls) = acquire(
        "hyperlinked",
        || named("hyperlinked.tail.ts.net"),
        || named("unexpected.tail.ts.net"),
        || Ok(()),
    );
    assert_eq!(name.as_deref(), Ok("hyperlinked.tail.ts.net"));
    assert_eq!(calls.state, 1);
    assert_eq!(calls.auth, 0);
    assert_eq!(calls.health, 1);
    assert_eq!(calls.reset, 0);
    assert_eq!(calls.sleep, 0);
}

#[test]
fn acquire_exact_tailscale_hostname_switches_to_auth_when_state_has_no_dns() {
    let (name, calls) = acquire(
        "hyperlinked",
        || Ok(TailscaleJoinAttempt::from_dns_name(None)),
        || named("hyperlinked.tail.ts.net"),
        || Ok(()),
    );
    assert_eq!(name.as_deref(), Ok("hyperlinked.tail.ts.net"));
    assert_eq!(calls.state, 1);
    assert_eq!(calls.auth, 1);
    assert_eq!(calls.reset, 1);
    assert_eq!(calls.sleep, 1);
}

#[test]
fn acquire_exact_tailscale_hostname_switches_to_auth_when_state_is_unhealthy() {
    let mut asked = 0;
    let (name, calls) = acquire(
        "hyperlinked",
        || named("hyperlinked.tail.ts.net"),
        || named("hyperlinked.tail.ts.net"),
        || {
            asked += 1;
            if asked == 1 {
                Err("state unhealthy".to_string())
            } else {
                Ok(())
            }
        },
    );
    assert_eq!(name.as_deref(), Ok("hyperlinked.tail.ts.net"));
    assert_eq!(calls.state, 1);
    assert_eq!(calls.auth, 1);
    assert_eq!(calls.health, 2);
    assert_eq!(calls.reset, 1);
    assert_eq!(calls.sleep, 1);
}

#[test]
fn acquire_exact_tailscale_hostname_falls_back_to_auth_key_immediately_when_state_requires_login() {
    let (name, calls) = acquire(
        "hyperlinked",
        || Err("tailscale state requires login (state: NeedsLogin)".to_string()),
        || named("hyperlinked.tail.ts.net"),
        || Ok(()),
    );
    assert_eq!(name.as_deref(), Ok("hyperlinked.tail.ts.net"));
    assert_eq!(calls.state, 1);
    assert_eq!(calls.auth, 1);
    assert_eq!(calls.reset, 1);
    assert_eq!(calls.sleep, 1);
}

#[test]
fn acquire_exact_tailscale_hostname_stays_on_auth_key_after_state_requires_login() {
    let mut names = vec!["hyperlinked.tail.ts.net", "hyperlinked-1.tail.ts.net"];
    let (name, calls) = acquire(
        "hyperlinked",
        || Err("tailscale state requires login (state: NoState)".to_string()),
        || {
            named(
                names
                    .pop()
                    .expect("auth result should exist for each auth attempt"),
            )
        },
        || Ok(()),
    );
    assert_eq!(name.as_deref(), Ok("hyperlinked.tail.ts.net"));
    assert_eq!(calls.state, 1);
    assert_eq!(calls.auth, 2);
    assert_eq!(calls.reset, 2);
    assert_eq!(calls.sleep, 2);
}

#[test]
fn acquire_exact_tailscale_hostname_fails_fast_when_cleanup_lookup_unavailable_and_non_exact() {
    let (result, calls) = acquire(
        "hyperlinked",
        || Err("tailscale state requires login (state: NeedsLogin)".to_string()),
        || {
            Ok(TailscaleJoinAttempt {
                dns_name: Some("hyperlinked-1.tail.ts.net".to_string()),
                cleanup_lookup_error: Some("device list unavailable".to_string()),
            })
        },
        || Ok(()),
    );
    let err = result.unwrap_err();
    assert!(err.contains("ownership cleanup was unavailable"));
    assert!(err.contains("hyperlinked-1.tail.ts.net"));
    assert_eq!(calls.state, 1);
    assert_eq!(calls.auth, 1);
}

#[test]
fn acquire_exact_tailscale_hostname_does_not_fail_fast_when_cleanup_permission_denied() {
    let denied = "failed to list tailscale devices (http 403): calling actor does not have enough permissions";
    let mut names = vec!["hyperlinked.tail.ts.net", "hyperlinked-1.tail.ts.net"];
    let (name, calls) = acquire(
        "hyperlinked",
        || Err("tailscale state is unusable (state: NoState)".to_string()),
        || {
            Ok(TailscaleJoinAttempt {
                dns_name: names.pop().map(|name| name.to_string()),
                cleanup_lookup_error: Some(denied.to_string()),
            })
        },
        || Ok(()),
    );
    assert_eq!(name.as_deref(), Ok("hyperlinked.tail.ts.net"));
    assert_eq!(calls.state, 1);
    assert_eq!(calls.auth, 2);
    assert_eq!(calls.reset, 2);
    assert_eq!(calls.sleep, 2);
}

#[test]
fn searches_give_up_in_time() {
    let (result, calls) = acquire(
        "demo",
        || named("other.tail.ts.net"),
        || named("other.tail.ts.net"),
        || Ok(()),
    );
    assert_eq!(calls.state, 1);
    assert_eq!(calls.auth, 119);
    assert_eq!(
        result.unwrap_err(),
        "failed to acquire exact tailscale hostname 'demo' within 120s (attempts: 120); last observation: hostname mismatch: got 'other.tail.ts.net', expected 'demo'"
    );
}

#[test]
fn missing_rights_are_said_once() {
    let mut search = HostnameSearch::new("demo");
    search.begin_attempt(0);
    search.join_replied(Err("no state".to_string()));
    search.was_reset();
    search.has_paused();
    let mut warnings = Vec::new();
    for _ in 0..2 {
        search.begin_attempt(0);
        let (_, warning) = search.join_replied(Ok(TailscaleJoinAttempt {
            dns_name: None,
            cleanup_lookup_error: Some("http 403".to_string()),
        }));
        warnings.push(matches!(warning, LookupWarning::ScopesMissing));
        search.was_reset();
        search.has_paused();
    }
    assert_eq!(warnings, vec![true, false]);
}

#[test]
fn tailscale_api_permission_denied_detects_403_responses() {
    assert!(tailscale_api_permission_denied(
        "failed to list tailscale devices (http 403): {\"message\":\"calling actor does not have enough permissions to perform this function\"}"
    ));
    assert!(!tailscale_api_permission_denied(
        "failed to list tailscale devices (http 500): upstream unavailable"
    ));
}

#[test]
fn join_tailscale_for_repair_with_fallback_prefers_state_with_dns_name() {
    let mut state_calls = 0usize;
    let mut auth_calls = 0usize;

    let (name, created_via) = join_tailscale_for_repair_with_fallback(
        || {
            state_calls += 1;
            Ok(Some("hyperlinked.tail.ts.net".to_string()))
        },
        || {
            auth_calls += 1;
            Ok(Some("unexpected.tail.ts.net".to_string()))
        },
    )
    .unwrap();

    assert_eq!(name.as_deref(), Some("hyperlinked.tail.ts.net"));
    assert_eq!(created_via, "state");
    assert_eq!(state_calls, 1);
    assert_eq!(auth_calls, 0);
}

#[test]
fn join_tailscale_for_repair_with_fallback_uses_auth_key_when_state_has_no_dns() {
    let mut state_calls = 0usize;
    let mut auth_calls = 0usize;

    let (name, created_via) = join_tailscale_for_repair_with_fallback(
        || {
            state_calls += 1;
            Ok(None)
        },
        || {
            auth_calls += 1;
            Ok(Some("hyperlinked.tail.ts.net".to_string()))
        },
    )
    .unwrap();

    assert_eq!(name.as_deref(), Some("hyperlinked.tail.ts.net"));
    assert_eq!(created_via, "auth_key");
    assert_eq!(state_calls, 1);
    assert_eq!(auth_calls, 1);
}

#[test]
fn join_tailscale_for_repair_with_fallback_uses_auth_key_when_state_errors() {
    let mut state_calls = 0usize;
    let mut auth_calls = 0usize;

    let (name, created_via) = join_tailscale_for_repair_with_fallback(
        || {
            state_calls += 1;
            Err("state unavailable".to_string())
        },
        || {
            auth_calls += 1;
            Ok(Some("hyperlinked.tail.ts.net".to_string()))
        },
    )
    .unwrap();

    assert_eq!(name.as_deref(), Some("hyperlinked.tail.ts.net"));
    assert_eq!(created_via, "auth_key");
    assert_eq!(state_calls, 1);
    assert_eq!(auth_calls, 1);
}

#[test]
fn repairs_fail_where_both_joins_do() {
    let result = join_tailscale_for_repair_with_fallback(
        || Err("no state".to_string()),
        || Err("no key".to_string()),
    );
    assert_eq!(result.unwrap_err(), "no key");
}

#[test]
fn repairs_tell_where_the_app_is() {
    assert_eq!(
        tailscale_up_lines(Some("demo-1.ts.net"), "demo", 3001),
        vec![
            "       Warning: tailscale hostname 'demo-1.ts.net' does not match requested app label 'demo'",
            "=====> Tailscale ready: http://demo-1.ts.net (also http://demo-1.ts.net:3001)"
        ]
    );
    assert_eq!(
        tailscale_up_lines(None, "demo", 3001),
        vec!["=====> Tailscale repaired for demo"]
    );
}

fn device(id: &str, tags: &[&str]) -> TailnetDevice {
    TailnetDevice {
        id: id.to_string(),
        hostname_label: None,
        dns_name: None,
        tags: tags.iter().map(|tag| tag.to_string()).collect(),
    }
}

#[test]
fn devices_without_the_tag_stay() {
    let owned = vec!["a".to_string(), "b".to_string(), "c".to_string()];
    let devices = vec![
        device("a", &["tag:psht"]),
        device("b", &["tag:other"]),
        device("d", &["tag:psht"]),
    ];
    assert_eq!(owned_devices_to_delete(&owned, &devices), vec!["a"]);
    assert!(device_cleanup_verdict(&Vec::new()).is_ok());
    assert_eq!(
        device_cleanup_verdict(&vec!["a: x".to_string(), "b: y".to_string()]).unwrap_err(),
        "a: x | b: y"
    );
}

#[test]
fn tailscale_conflict_label_matches_exact_and_numeric_suffix() {
    assert!(tailscale_conflict_label_for_app(
        "hyperlinked",
        "hyperlinked"
    ));
    assert!(tailscale_conflict_label_for_app(
        "hyperlinked-7",
        "hyperlinked"
    ));
    assert!(!tailscale_conflict_label_for_app(
        "hyperlinked-stage",
        "hyperlinked"
    ));
    assert!(!tailscale_conflict_label_for_app(
        "other-hyperlinked-1",
        "hyperlinked"
    ));
}

#[test]
fn parse_tailscale_self_snapshot_extracts_identity_fields() {
    let json = r#"{
            "BackendState":"Running",
            "Health":[],
            "Self":{
                "ID":"n123",
                "HostName":"hyperlinked",
                "DNSName":"hyperlinked.tail.ts.net.",
                "Online":true,
                "TailscaleIPs":["100.64.1.2"]
            }
        }"#;
    let snapshot = parse_tailscale_self_snapshot(json).unwrap();
    assert_eq!(snapshot.device_id.as_deref(), Some("n123"));
    assert_eq!(snapshot.hostname_label.as_deref(), Some("hyperlinked"));
    assert_eq!(
        snapshot.dns_name.as_deref(),
        Some("hyperlinked.tail.ts.net")
    );
    assert_eq!(snapshot.backend_state, "Running");
    assert!(snapshot.online);
    assert_eq!(snapshot.ips, vec!["100.64.1.2".to_string()]);
}

#[test]
fn retry_attempt_budget_is_bounded_and_non_zero() {
    let budget = retry_attempt_budget(30, 1_000);
    assert!(budget >= 2);
    assert_eq!(budget, 31);
}

#[test]
fn tailscale_self_status_summary_outputs_self_only_fields() {
    let json = r#"{
            "BackendState":"Running",
            "Self":{
                "HostName":"hyperlinked",
                "DNSName":"hyperlinked.tail.ts.net.",
                "Online":true,
                "TailscaleIPs":["100.64.1.2"]
            },
            "Peer":{
                "abc":{"HostName":"other","DNSName":"other.tail.ts.net.","Online":true}
            }
        }"#;
    let summary = tailscale_self_status_summary_from_json("hyperlinked", json).unwrap();
    assert!(summary.contains("App: hyperlinked"));
    assert!(summary.contains("Host: hyperlinked"));
    assert!(summary.contains("DNS: hyperlinked.tail.ts.net"));
    assert!(summary.contains("State: Running"));
    assert!(summary.contains("Online: yes"));
    assert!(summary.contains("IPs: 100.64.1.2"));
    assert!(!summary.contains("other.tail.ts.net"));
}

#[test]
fn tailscale_self_status_summary_includes_repair_hint_when_unhealthy() {
    let json = r#"{
            "BackendState":"NeedsLogin",
            "Self":{
                "HostName":"hyperlinked",
                "DNSName":"hyperlinked.tail.ts.net.",
                "Online":false,
                "TailscaleIPs":["100.64.1.2"]
            },
            "Health":["not logged in"]
        }"#;
    let summary = tailscale_self_status_summary_from_json("hyperlinked", json).unwrap();
    assert!(summary.contains("Online: no"));
    assert!(summary.contains("Health: not logged in"));
    assert!(summary.contains("Repair: psht tailscale up hyperlinked"));
}

#[test]
fn searches_try_the_kept_identity_once() {
    let mut search = HostnameSearch::new("demo");
    let mut joins = Vec::new();
    let mut pauses = 0;
    loop {
        match search.begin_attempt(0) {
            Attempt::GiveUp(_) => break,
            Attempt::JoinWithState => joins.push("state"),
            Attempt::JoinWithAuthKey => joins.push("key"),
        }
        search.join_replied(named("other.ts.net"));
        search.was_reset();
        search.has_paused();
        pauses += 1;
    }
    assert_eq!(joins.len(), 121);
    assert_eq!(pauses, 121);
    assert_eq!(joins.iter().filter(|join| **join == "state").count(), 1);
    assert_eq!(joins[0], "state");
    assert_eq!(search.step, SearchStep::GaveUp);
}
