use psht::caddy::{
    add, added, config_from_values, delete_route, fetch_args, fetch_routes, post_args, remove,
    remove_config_from_values, route_hostname, route_id, route_json, routes_body, routes_of,
    routes_url, upsert_route_list, validate_route_app_label,
};
use psht::json::{field, json_array, json_integer, json_object, json_text, Json};

#[test]
fn route_id_format() {
    assert_eq!(route_id("myapp"), "psht-myapp");
    assert_eq!(route_id("web-api"), "psht-web-api");
}

#[test]
fn route_hostname_format() {
    assert_eq!(route_hostname("myapp", "example.com"), "myapp.example.com");
}

#[test]
fn validate_route_app_label_accepts_dns_label() {
    assert!(validate_route_app_label("my-app-1").is_ok());
}

#[test]
fn validate_route_app_label_rejects_underscore_and_dot() {
    let err = validate_route_app_label("my_app.v1").unwrap_err();
    assert!(err.contains("[A-Za-z0-9-]"));
}

#[test]
fn validate_route_app_label_tells_what_is_wrong() {
    assert_eq!(
        validate_route_app_label("").unwrap_err(),
        "invalid app name for Caddy route host: empty"
    );
    let long = "a".repeat(64);
    assert_eq!(
        validate_route_app_label(&long).unwrap_err(),
        format!("invalid app name for Caddy route host: '{long}' exceeds 63 characters")
    );
    assert!(validate_route_app_label(&"a".repeat(63)).is_ok());
    let wide = "\u{e9}".repeat(32);
    assert!(validate_route_app_label(&wide)
        .unwrap_err()
        .contains("exceeds 63 characters"));
    assert_eq!(
        validate_route_app_label("-app").unwrap_err(),
        "invalid app name for Caddy route host '-app': must start and end with [A-Za-z0-9]"
    );
}

#[test]
fn route_json_has_correct_id() {
    let json = route_json("myapp", "example.com", 3042);
    let v: serde_json::Value = serde_json::from_str(&json).unwrap();
    assert_eq!(v["@id"], "psht-myapp");
}

#[test]
fn route_json_matches_host() {
    let json = route_json("myapp", "example.com", 3042);
    let v: serde_json::Value = serde_json::from_str(&json).unwrap();
    assert_eq!(v["match"][0]["host"][0], "myapp.example.com");
}

#[test]
fn route_json_has_reverse_proxy_handler() {
    let json = route_json("myapp", "example.com", 3042);
    let v: serde_json::Value = serde_json::from_str(&json).unwrap();
    assert_eq!(v["handle"][0]["handler"], "reverse_proxy");
}

#[test]
fn route_json_dials_correct_upstream() {
    let json = route_json("myapp", "example.com", 3042);
    let v: serde_json::Value = serde_json::from_str(&json).unwrap();
    assert_eq!(v["handle"][0]["upstreams"][0]["dial"], "myapp:3042");
}

#[test]
fn route_json_uses_app_not_container_name() {
    let json = route_json("myapp", "example.com", 3042);
    let v: serde_json::Value = serde_json::from_str(&json).unwrap();
    let dial = v["handle"][0]["upstreams"][0]["dial"].as_str().unwrap();
    assert!(
        !dial.starts_with("psht-"),
        "upstream dial should use app name, not container name"
    );
}

#[test]
fn config_skips_when_no_api_url() {
    let result = config_from_values(None, Some("example.com")).unwrap();
    assert!(result.is_none());
}

#[test]
fn config_returns_both_when_set() {
    let result = config_from_values(Some("http://localhost:2019"), Some("example.com")).unwrap();
    assert_eq!(
        result,
        Some((
            "http://localhost:2019".to_string(),
            "example.com".to_string()
        ))
    );
}

#[test]
fn config_errors_when_api_set_but_domain_missing() {
    let result = config_from_values(Some("http://localhost:2019"), None);
    assert!(result.is_err());
    assert!(result.unwrap_err().contains("CADDY_DOMAIN"));
}

#[test]
fn routes_url_targets_server_routes_collection() {
    let url = routes_url("http://localhost:2019");
    assert_eq!(
        url,
        "http://localhost:2019/config/apps/http/servers/srv0/routes"
    );
}

fn route(id: &str, host: Option<&str>) -> Json {
    let hosts = match host {
        Some(host) => vec![json_object(vec![field(
            "host",
            json_array(vec![json_text(host)]),
        )])],
        None => Vec::new(),
    };
    json_object(vec![
        field("@id", json_text(id)),
        field("match", json_array(hosts)),
    ])
}

fn host_of(route: &Json) -> Option<String> {
    match route.get("match") {
        Some(Json::Array(matches)) if !matches.is_empty() => {
            matches[0].get_texts("host").first().cloned()
        }
        _ => None,
    }
}

#[test]
fn upsert_route_list_prepends_and_replaces_id() {
    let existing_keep = route("other", None);
    let existing_replace = route("psht-app", Some("old"));
    let new_route = route("psht-app", Some("new"));

    let routes = upsert_route_list(vec![existing_keep, existing_replace], new_route, "psht-app");

    assert_eq!(routes.len(), 2);
    assert_eq!(routes[0].get_text("@id"), Some("psht-app"));
    assert_eq!(host_of(&routes[0]).as_deref(), Some("new"));
    assert_eq!(routes[1].get_text("@id"), Some("other"));
    assert_eq!(host_of(&routes[1]), None);
}

#[test]
fn remove_config_uses_api_without_domain() {
    let result = remove_config_from_values(Some("http://localhost:2019"));
    assert_eq!(result.as_deref(), Some("http://localhost:2019"));
}

#[test]
fn remove_config_none_when_api_missing() {
    let result = remove_config_from_values(None);
    assert!(result.is_none());
}

#[test]
fn routes_come_as_arrays_or_by_index() {
    let routes = fetch_routes(true, "", b"[{\"@id\":\"a\"},{\"@id\":\"b\"}]").unwrap();
    assert_eq!(routes.len(), 2);
    assert_eq!(routes[1].get_text("@id"), Some("b"));
    let routes = fetch_routes(
        true,
        "",
        b"{\"10\":{\"@id\":\"c\"},\"2\":{\"@id\":\"b\"},\"0\":{\"@id\":\"a\"}}",
    )
    .unwrap();
    let ids: Vec<Option<&str>> = routes.iter().map(|route| route.get_text("@id")).collect();
    assert_eq!(ids, vec![Some("a"), Some("b"), Some("c")]);
    assert!(fetch_routes(true, "", b"null").unwrap().is_empty());
    assert!(fetch_routes(true, "", b"{}").unwrap().is_empty());
    assert!(fetch_routes(true, "", b"").unwrap().is_empty());
    assert!(fetch_routes(false, "curl: (22) 404", b"")
        .unwrap()
        .is_empty());
}

fn refusal<T>(result: Result<T, String>) -> String {
    match result {
        Ok(_) => panic!("should be refused"),
        Err(err) => err,
    }
}

#[test]
fn routes_that_cannot_be_had_are_errors() {
    assert_eq!(
        refusal(fetch_routes(false, " no route to host \n", b"")),
        "failed to fetch caddy routes: no route to host"
    );
    assert!(refusal(fetch_routes(true, "", b"[")).starts_with("failed to parse caddy routes response: "));
    assert!(refusal(fetch_routes(true, "", b"[\xff]")).starts_with("failed to parse caddy routes response: "));
    assert_eq!(
        refusal(fetch_routes(true, "", b"{\"first\":1}")),
        "unexpected caddy routes object key: first (expected array index)"
    );
    assert_eq!(
        refusal(routes_of(json_integer(3))),
        "unexpected caddy routes response: expected JSON array-like value"
    );
}

#[test]
fn a_route_is_put_in_before_the_others() {
    let request = add(
        "myapp",
        3042,
        Some("http://localhost:2019"),
        Some("example.com"),
    )
    .ok()
    .unwrap()
    .unwrap();
    assert_eq!(
        fetch_args(&request.url),
        vec![
            "-sf".to_string(),
            "http://localhost:2019/config/apps/http/servers/srv0/routes".to_string()
        ]
    );
    let url = request.url.clone();
    let there = fetch_routes(true, "", b"[{\"@id\":\"psht-myapp\"},{\"@id\":\"other\"}]").unwrap();
    let body = routes_body(request, there);
    assert_eq!(
        body,
        "[{\"@id\":\"psht-myapp\",\"handle\":[{\"handler\":\"reverse_proxy\",\"upstreams\":[{\"dial\":\"myapp:3042\"}]}],\"match\":[{\"host\":[\"myapp.example.com\"]}]},{\"@id\":\"other\"}]"
    );
    let args = post_args(&body, &url);
    assert_eq!(args.len(), 8);
    assert_eq!(args[6], body);
    assert_eq!(args[7], url);
    assert_eq!(
        added("myapp", false, " refused \n").unwrap_err(),
        "failed to add caddy route for myapp: refused"
    );
    assert!(added("myapp", true, "").is_ok());
}

#[test]
fn no_route_is_put_in_without_a_server_or_with_a_bad_name() {
    assert!(add("myapp", 1, None, Some("example.com")).ok().unwrap().is_none());
    assert!(refusal(add("my_app", 1, Some("http://x"), Some("example.com"))).contains("[A-Za-z0-9-]"));
    assert!(refusal(add("myapp", 1, Some("http://x"), None)).contains("CADDY_DOMAIN"));
    assert!(refusal(add("myapp", 1, Some("http://x"), Some("a\"b")))
        .starts_with("failed to encode caddy route payload: "));
}

#[test]
fn a_route_is_taken_out_by_its_id() {
    assert!(remove("myapp", None).is_none());
    assert_eq!(
        remove("myapp", Some("http://localhost:2019")).unwrap(),
        vec![
            "-sf".to_string(),
            "-X".to_string(),
            "DELETE".to_string(),
            "http://localhost:2019/id/psht-myapp".to_string()
        ]
    );
    assert!(delete_route("myapp", true, "").is_ok());
    assert!(delete_route("myapp", false, "curl: (22) 404").is_ok());
    assert_eq!(
        delete_route("myapp", false, " gone ").unwrap_err(),
        "failed to delete caddy route for myapp: gone"
    );
}
