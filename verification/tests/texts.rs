use std::path::Path;

use psht::intent::{append_reconcile_attempt_record, ActiveReconcileLease};
use psht::json::{
    field, json_array, json_bool, json_integer, json_object, json_text, json_text_array,
    json_text_or_null, Json,
};
use psht::number::{decimal_of, parse_up_to, signed_decimal_of, wrapped_i64};
use psht::order::{comes_before, dedupe, sort_texts};
use psht::paths::{
    binary_hash_path_in, binary_hashes_dir, build_number_path_in, build_numbers_dir,
    cleanup_lock_dir, cleanup_lock_path_in, components_of, dedupe_paths, deploy_lock_dir, is_same_path,
    deploy_lock_path_in, env_dir, env_path_in, file_name_of, path_join, repo_path,
    upgrade_check_state_path,
};
use psht::shell::{join_or_none, pretty_cmd, shell_quote};
use psht::split::{
    cut_at_first, cut_at_last, head_before, join_with, lines_of, nonblank_of, nonempty_trimmed_of,
    replace_all, split_at_each, trimmed_lines_of, words_of,
};
use psht::table::Table;
use psht::text::{
    alphanumeric, chars_of, contains_text, copy_opt, copy_texts, digit, eq_ignore_ascii_case,
    has_part, has_prefix, has_suffix, lower_case, position, push_text, same, same_opt, string_of,
    to_ascii_lowercase, to_lower, trim_end_of, trim_of, trim_start_of, trimmed, upper_case, white,
    without_prefix, without_suffix, CharClass,
};
use psht::tomltree::{
    entries_fit, file_with_text, find_entry, fits, set_text, table_text, Toml,
};

fn texts(list: &[&str]) -> Vec<String> {
    list.iter().map(|text| text.to_string()).collect()
}

// A value as it is put on record.
fn written(value: &Json) -> String {
    let lease = ActiveReconcileLease {
        owner: "box".to_string(),
        epoch: 1,
        intent_id: "i".to_string(),
        generation: 1,
    };
    append_reconcile_attempt_record("web", Some(&lease), "step", "ok", value, 0)
        .unwrap()
        .detail_json
}

#[test]
fn texts_are_taken_apart_and_put_together() {
    let chars = chars_of("añb");
    assert_eq!(chars, vec!['a', 'ñ', 'b']);
    assert_eq!(string_of(&chars, 1, 3), "ñb");
    assert_eq!(string_of(&chars, 0, 0), "");
    let mut list = texts(&["one"]);
    push_text(&mut list, "two".to_string());
    assert_eq!(copy_texts(&list), texts(&["one", "two"]));
    assert!(contains_text(&list, "two"));
    assert!(!contains_text(&list, "three"));
    assert_eq!(copy_opt(&Some("x".to_string())), Some("x".to_string()));
    assert_eq!(copy_opt(&None), None);
    assert!(same_opt(&None, &None));
    assert!(!same_opt(&None, &Some(String::new())));
    assert!(same_opt(&Some("x".to_string()), &Some("x".to_string())));
    assert!(same("a", "a"));
    assert!(!same("a", "A"));
}

#[test]
fn characters_are_classed_as_std_does() {
    for code in (0u32..0x3100).chain(0xd7f0..0xd800).chain(0xfef0..0xff00) {
        if let Some(c) = char::from_u32(code) {
            assert_eq!(white(c), c.is_whitespace());
            assert_eq!(digit(c), c.is_ascii_digit());
            assert_eq!(lower_case(c), c.is_ascii_lowercase());
            assert_eq!(upper_case(c), c.is_ascii_uppercase());
            assert_eq!(alphanumeric(c), c.is_ascii_alphanumeric());
            assert_eq!(to_lower(c), c.to_ascii_lowercase());
            assert!(CharClass::Is(c).holds(c));
        }
    }
    assert!(!CharClass::Is('x').holds('y'));
    assert!(CharClass::White.holds('\u{3000}'));
    assert_eq!(to_ascii_lowercase("HeLLo É"), "hello É");
    assert!(eq_ignore_ascii_case("TaG", "tAg"));
    assert!(!eq_ignore_ascii_case("tag", "tags"));
}

#[test]
fn ends_of_texts_are_recognised_and_cut() {
    assert!(has_prefix("refs/tags/v1", "refs/"));
    assert!(!has_prefix("ref", "refs/"));
    assert!(has_suffix("app.tar.gz", ".tar.gz"));
    assert!(has_suffix("x", ""));
    assert_eq!(without_prefix("v1.2", "v"), Some("1.2"));
    assert_eq!(without_prefix("1.2", "v"), None);
    assert_eq!(without_suffix("app.tgz", ".tgz"), Some("app"));
    assert_eq!(without_suffix("app.zip", ".tgz"), None);
    assert_eq!(position("abcabc", "ca"), Some(2));
    assert_eq!(position("abc", "d"), None);
    assert_eq!(position("abc", ""), Some(0));
    assert!(has_part("deploy interrupted", "interr"));
    assert!(!has_part("", "x"));
    assert_eq!(trimmed(" \t x y \u{a0}\n"), "x y");
    assert_eq!(trimmed("x"), "x");
    assert_eq!(trim_start_of("//a//", CharClass::Is('/')), "a//");
    assert_eq!(trim_end_of("//a//", CharClass::Is('/')), "//a");
    assert_eq!(trim_of("\"quoted\"", CharClass::Is('"')), "quoted");
    assert_eq!(trim_of("   ", CharClass::White), "");
}

#[test]
fn pieces_of_a_text_join_to_the_text() {
    for text in ["", ",", "a,b,,c", "no separator", ",x,"] {
        let pieces = split_at_each(text, ",");
        assert_eq!(pieces, text.split(',').collect::<Vec<&str>>());
        assert_eq!(join_with(&pieces, ","), text);
    }
    assert_eq!(split_at_each("a::b", "::"), texts(&["a", "b"]));
    assert_eq!(join_with(&texts(&[]), ", "), "");
    assert_eq!(replace_all("a'b'c", "'", "'\"'\"'"), "a'\"'\"'b'\"'\"'c");
    assert_eq!(replace_all("aaa", "aa", "b"), "ba");
}

#[test]
fn lines_and_words_are_those_of_std() {
    for text in ["", "\n", "a\r\nb\n\nc", "a\rb", "last\r", "x\n\r\n"] {
        assert_eq!(lines_of(text), text.lines().collect::<Vec<&str>>());
    }
    for text in ["", "  ", " a  b\tc ", "one"] {
        assert_eq!(words_of(text), text.split_whitespace().collect::<Vec<&str>>());
    }
    assert_eq!(nonempty_trimmed_of(&texts(&[" a ", "", "  ", "b"])), texts(&["a", "b"]));
    assert_eq!(nonblank_of(&texts(&[" a ", "  ", "b"])), texts(&[" a ", "b"]));
    assert_eq!(trimmed_lines_of("  a\n\n b \n"), texts(&["a", "b"]));
}

#[test]
fn texts_are_cut_at_a_separator() {
    assert_eq!(cut_at_first("K=a=b", "="), Some(("K", "a=b")));
    assert_eq!(cut_at_last("K=a=b", "="), Some(("K=a", "b")));
    assert_eq!(cut_at_first("K", "="), None);
    assert_eq!(cut_at_last("K", "="), None);
    assert_eq!(head_before("a?b?c", "?"), "a");
    assert_eq!(head_before("abc", "?"), "abc");
}

#[test]
fn decimal_notation_reads_back() {
    for n in [0, 7, 10, 99, 1_000, 65_535, u64::MAX] {
        let text = decimal_of(n);
        assert_eq!(text, n.to_string());
        assert_eq!(parse_up_to(&text, u64::MAX), Some(n));
    }
    assert_eq!(signed_decimal_of(i64::MIN), i64::MIN.to_string());
    assert_eq!(signed_decimal_of(-40), "-40");
    assert_eq!(signed_decimal_of(12), "12");
    assert_eq!(parse_up_to("+12", 100), Some(12));
    assert_eq!(parse_up_to("007", 100), Some(7));
    assert_eq!(parse_up_to("101", 100), None);
    assert_eq!(parse_up_to("18446744073709551616", u64::MAX), None);
    for text in ["", "+", "-1", " 1", "1a", "1_000"] {
        assert_eq!(parse_up_to(text, 100), None);
        assert!(text.parse::<u64>().is_err());
    }
}

#[test]
fn numbers_too_large_for_the_store_wrap_round() {
    for n in [0, 1, i64::MAX as u64, i64::MAX as u64 + 1, u64::MAX] {
        assert_eq!(wrapped_i64(n), n as i64);
    }
}

#[test]
fn texts_are_ordered_as_std_orders_them() {
    let list = ["b", "a", "", "ab", "ä", "B", "a", "\u{10000}", "\u{ffff}"];
    for a in list {
        for b in list {
            assert_eq!(comes_before(a, b), a < b);
        }
    }
    let mut expected = texts(&list);
    expected.sort();
    assert_eq!(sort_texts(&texts(&list)), expected);
    assert_eq!(dedupe(&texts(&["b", "a", "b", "c", "a"])), texts(&["b", "a", "c"]));
}

#[test]
fn lists_of_one_set_sort_alike() {
    let one = sort_texts(&dedupe(&texts(&["libpq", "curl", "libpq"])));
    let other = sort_texts(&dedupe(&texts(&["curl", "libpq", "curl", "curl"])));
    assert_eq!(one, texts(&["curl", "libpq"]));
    assert_eq!(one, other);
}

#[test]
fn what_a_table_keeps_reads_back() {
    let mut table: Table<u64> = Table::new();
    table.put("web", 1);
    table.put("api", 2);
    table.put("web", 3);
    assert_eq!(table.get("web"), Some(&3));
    assert_eq!(table.get("api"), Some(&2));
    assert_eq!(table.get("db"), None);
    assert!(table.has("api"));
    let names: Vec<&str> = table.rows.iter().map(|row| row.0.as_str()).collect();
    assert_eq!(names, vec!["api", "web"]);
    table.forget("api");
    table.forget("db");
    assert!(!table.has("api"));
    assert_eq!(table.get("web"), Some(&3));
}

#[test]
fn the_shell_reads_quoted_words_as_they_were() {
    assert_eq!(shell_quote(""), "''");
    assert_eq!(shell_quote("a b"), "'a b'");
    assert_eq!(shell_quote("it's"), "'it'\"'\"'s'");
    assert_eq!(join_or_none(&texts(&[])), "none");
    assert_eq!(join_or_none(&texts(&["a", "b"])), "a, b");
    assert_eq!(pretty_cmd("incus", &texts(&[])), "incus");
    assert_eq!(pretty_cmd("incus", &texts(&["storage", "list"])), "incus storage list");
}

#[test]
fn json_values_are_built_read_and_written() {
    let value = json_object(vec![
        field("name", json_text("a\"b\n")),
        field("count", json_integer(-3)),
        field("on", json_bool(true)),
        field("nothing", json_text_or_null(&None)),
        field("some", json_text_or_null(&Some("x".to_string()))),
        field("list", json_text_array(&texts(&["p", "q"]))),
        field("mixed", json_array(vec![json_text("r"), json_bool(false)])),
    ]);
    assert_eq!(
        written(&value),
        "{\"count\":-3,\"list\":[\"p\",\"q\"],\"mixed\":[\"r\",false],\"name\":\"a\\\"b\\n\",\
         \"nothing\":null,\"on\":true,\"some\":\"x\"}"
    );
    assert_eq!(value.get_text("name"), Some("a\"b\n"));
    assert_eq!(value.get_text("count"), None);
    assert_eq!(value.get_bool("on"), Some(true));
    assert_eq!(value.get_bool("name"), None);
    assert_eq!(value.get_texts("list"), texts(&["p", "q"]));
    assert_eq!(value.get_texts("mixed"), texts(&["r"]));
    assert_eq!(value.get_texts("absent"), texts(&[]));
    assert!(matches!(value.get("nothing"), Some(Json::Null)));
    assert!(value.get("absent").is_none());
    assert_eq!(json_text("t").text(), Some("t"));
    assert_eq!(json_bool(false).boolean(), Some(false));
    assert_eq!(Json::Null.text(), None);
}

#[test]
fn keys_of_a_toml_file_are_set() {
    let set = file_with_text("port = 80\napp = \"old\"\n", "app", "new", "psht.toml");
    assert_eq!(set, Ok(Some("app = \"new\"\nport = 80\n".to_string())));
    let added = file_with_text("", "app", "shop", "psht.toml");
    assert_eq!(added, Ok(Some("app = \"shop\"\n".to_string())));
    let refused = file_with_text("app = ", "app", "shop", "psht.toml").unwrap_err();
    assert!(refused.starts_with("failed to parse psht.toml: "));
    let quotes = "\"".repeat(256);
    assert_eq!(file_with_text("", "app", &quotes, "psht.toml"), Ok(None));
}

#[test]
fn a_key_that_is_set_reads_back_and_the_others_stay() {
    let mut entries = vec![
        ("host".to_string(), Toml::Text("box".to_string())),
        ("port".to_string(), Toml::Integer(22)),
    ];
    set_text(&mut entries, "host", "other");
    set_text(&mut entries, "app", "shop");
    assert_eq!(find_entry(&entries, "missing"), None);
    let host = find_entry(&entries, "host").unwrap();
    assert!(matches!(&entries[host].1, Toml::Text(text) if text == "other"));
    let port = find_entry(&entries, "port").unwrap();
    assert!(matches!(entries[port].1, Toml::Integer(22)));
    let app = find_entry(&entries, "app").unwrap();
    assert!(matches!(&entries[app].1, Toml::Text(text) if text == "shop"));
    assert!(entries_fit(&entries));
    let text = table_text(&entries, "config").unwrap();
    assert!(text.contains("host = \"other\"\n"));
    assert!(text.contains("port = 22\n"));
    assert!(!fits(&Toml::Array(vec![Toml::Text("'".repeat(256))])));
    assert!(fits(&Toml::Boolean(true)));
}

#[test]
fn paths_are_built_from_their_parts() {
    assert_eq!(path_join("/home/psht", "repos"), "/home/psht/repos");
    assert_eq!(path_join("/", "etc"), "/etc");
    assert_eq!(path_join("/home", "/etc"), "/etc");
    assert_eq!(path_join("", "x"), "x");
    assert_eq!(components_of("/a//./b/"), texts(&["a", "b"]));
    assert_eq!(file_name_of("/srv/my-app/"), Some("my-app".to_string()));
    assert_eq!(file_name_of("/srv/.."), None);
    assert_eq!(file_name_of("/"), None);
    let home = "/home/psht";
    assert_eq!(env_path_in(&env_dir(home), "web"), "/home/psht/.psht/env/web.toml");
    assert_eq!(upgrade_check_state_path(home), "/home/psht/.psht/upgrade-check.toml");
    assert_eq!(
        deploy_lock_path_in(&deploy_lock_dir(home), "web"),
        "/home/psht/deploy-locks/web.lock"
    );
    assert_eq!(
        cleanup_lock_path_in(&cleanup_lock_dir(home), "web"),
        "/home/psht/.psht/cleanup-locks/web.lock"
    );
    assert_eq!(
        build_number_path_in(&build_numbers_dir(home), "web"),
        "/home/psht/build-numbers/web.build"
    );
    assert_eq!(
        binary_hash_path_in(&binary_hashes_dir(home), "web"),
        "/home/psht/binary-hashes/web.hash"
    );
    assert_eq!(repo_path(home, "web"), "/home/psht/repos/web.git");
    let pair = |path: &str, place: &str| (path.to_string(), place.to_string());
    assert_eq!(
        dedupe_paths(&vec![
            pair("/link", "/opt/bin"),
            pair("/opt/bin", "/opt//bin/"),
            pair("/b", "/b"),
            pair("/other", "/b"),
        ]),
        texts(&["/link", "/b"])
    );
    for (a, b) in [
        ("/a/b", "/a//b/"),
        ("/a/./b", "/a/b"),
        ("a", "/a"),
        ("./a", "a"),
        (".", "./"),
        ("", "."),
        ("a/..", "a"),
    ] {
        assert_eq!(is_same_path(a, b), Path::new(a) == Path::new(b));
    }
}
