use policy_local::{
    denial_summary_from_event, denials_limit, denials_response, log_available, logs_to_scan,
    parse_json, parse_last_query, read_recent_denials, recent_denials_response, Json, LogEntry,
    PolicyLocalContext, DEFAULT_DENIALS_LIMIT, MAX_DENIALS_LIMIT, OCSF_LOG_DIR,
};

fn event(text: &str) -> Json {
    parse_json(text).unwrap()
}

fn summary_text(text: &str) -> String {
    denial_summary_from_event(&event(text)).unwrap().to_string()
}

fn hosts(denials: &[serde_json::Value]) -> Vec<String> {
    denials
        .iter()
        .map(|denial| denial["host"].as_str().unwrap().to_string())
        .collect()
}

fn denial_line(host: &str) -> String {
    format!(
        "{{\"class_uid\":4001,\"action_id\":2,\"dst_endpoint\":{{\"hostname\":\"{host}\"}}}}\n"
    )
}

#[test]
fn parse_last_query_clamps_to_max() {
    assert_eq!(parse_last_query("last=5"), Some(5));
    assert_eq!(parse_last_query("foo=bar&last=20"), Some(20));
    assert_eq!(parse_last_query("last=999"), Some(MAX_DENIALS_LIMIT));
    assert_eq!(parse_last_query("last=0"), Some(1));
    assert_eq!(parse_last_query(""), None);
    assert_eq!(parse_last_query("other=1"), None);
}

#[test]
fn parse_last_query_takes_the_first_last() {
    assert_eq!(parse_last_query("last=7&last=8"), Some(7));
    assert_eq!(parse_last_query("last=x&last=8"), None);
    assert_eq!(parse_last_query("last&last=8"), Some(8));
    assert_eq!(parse_last_query("&&last=8&"), Some(8));
}

#[test]
fn parse_last_query_reads_a_plain_number_only() {
    assert_eq!(parse_last_query("last="), None);
    assert_eq!(parse_last_query("last=+"), None);
    assert_eq!(parse_last_query("last=+6"), Some(6));
    assert_eq!(parse_last_query("last=-6"), None);
    assert_eq!(parse_last_query("last= 6"), None);
    assert_eq!(parse_last_query("last=6=7"), None);
    assert_eq!(parse_last_query("LAST=6"), None);
    assert_eq!(parse_last_query("last=\u{666}"), None);
    assert_eq!(parse_last_query("last=00000000000000000000000000012"), Some(12));
    assert_eq!(parse_last_query("last=18446744073709551615"), Some(MAX_DENIALS_LIMIT));
    assert_eq!(parse_last_query("last=18446744073709551616"), None);
}

#[test]
fn limit_is_always_within_bounds() {
    assert_eq!(denials_limit(""), DEFAULT_DENIALS_LIMIT);
    assert_eq!(denials_limit("last=abc"), 10);
    assert_eq!(denials_limit("last=0"), 1);
    assert_eq!(denials_limit("last=100"), 100);
    assert_eq!(denials_limit("last=101"), 100);
}

#[test]
fn denial_summary_filters_to_l4_l7_denied_only() {
    let allowed = event(
        r#"{
            "class_uid": 4001,
            "action_id": 1,
            "dst_endpoint": {"hostname": "api.github.com", "port": 443}
        }"#,
    );
    assert!(denial_summary_from_event(&allowed).is_none());

    let unrelated = event(
        r#"{
            "class_uid": 6002,
            "action_id": 2,
            "message": "supervisor lifecycle"
        }"#,
    );
    assert!(denial_summary_from_event(&unrelated).is_none());

    let l4_denied = event(
        r#"{
            "class_uid": 4001,
            "action_id": 2,
            "time": 1742054400000,
            "message": "CONNECT denied api.github.com:443",
            "dst_endpoint": {"hostname": "api.github.com", "port": 443},
            "actor": {"process": {"file": {"path": "/usr/bin/curl"}}},
            "firewall_rule": {"name": "github-readonly"}
        }"#,
    );
    let summary = denial_summary_from_event(&l4_denied).unwrap();
    assert_eq!(summary["layer"], "l4");
    assert_eq!(summary["host"], "api.github.com");
    assert_eq!(summary["port"], 443);
    assert_eq!(summary["binary"], "/usr/bin/curl");
    assert_eq!(summary["policy"], "github-readonly");
    assert_eq!(summary["time_ms"], 1_742_054_400_000_i64);

    let l7_denied = event(
        r#"{
            "class_uid": 4002,
            "action_id": 2,
            "message": "FORWARD denied PUT /repos/foo/bar/contents/x",
            "dst_endpoint": {"hostname": "api.github.com", "port": 443},
            "http_request": {
                "http_method": "PUT",
                "url": {"path": "/repos/foo/bar/contents/x"}
            }
        }"#,
    );
    let summary = denial_summary_from_event(&l7_denied).unwrap();
    assert_eq!(summary["layer"], "l7");
    assert_eq!(summary["method"], "PUT");
    assert_eq!(summary["path"], "/repos/foo/bar/contents/x");
}

#[test]
fn denial_summary_does_not_leak_message_field() {
    // OCSF `message` strings can include the request path with query
    // (e.g., `?access_token=…`); the summary must drop them.
    let evt = event(
        r#"{
            "class_uid": 4002,
            "action_id": 2,
            "message": "FORWARD denied PUT api.github.com:443/x?access_token=secret-token",
            "dst_endpoint": {"hostname": "api.github.com", "port": 443},
            "http_request": {"http_method": "PUT", "url": {"path": "/x"}}
        }"#,
    );
    let summary = denial_summary_from_event(&evt).unwrap();
    assert_eq!(summary["path"], "/x");
    assert!(summary.get("message").is_none());
    assert!(
        !summary.to_string().contains("secret-token"),
        "summary must not include credentials from the source message"
    );
}

#[test]
fn denial_summary_is_the_same_with_any_message() {
    let plain = summary_text(r#"{"class_uid":4001,"action_id":2}"#);
    let told = summary_text(r#"{"class_uid":4001,"action_id":2,"message":"x","other":[1]}"#);
    assert_eq!(plain, r#"{"layer":"l4"}"#);
    assert_eq!(told, plain);
}

#[test]
fn denial_summary_names_the_host_or_else_the_address() {
    assert_eq!(
        summary_text(
            r#"{"class_uid":4001,"action_id":2,
                "dst_endpoint":{"hostname":"a.example","ip":"10.0.0.1","port":80}}"#
        ),
        r#"{"host":"a.example","layer":"l4","port":80}"#
    );
    assert_eq!(
        summary_text(
            r#"{"class_uid":4001,"action_id":2,"dst_endpoint":{"hostname":7,"ip":"10.0.0.1"}}"#
        ),
        r#"{"host":"10.0.0.1","layer":"l4"}"#
    );
    assert_eq!(
        summary_text(r#"{"class_uid":4001,"action_id":2,"dst_endpoint":"a.example"}"#),
        r#"{"layer":"l4"}"#
    );
}

#[test]
fn denial_summary_drops_members_of_the_wrong_type() {
    assert_eq!(
        summary_text(
            r#"{"class_uid":4002,"action_id":2,"time":1.5,"dst_endpoint":{"port":-1},
                "http_request":{"http_method":null,"url":{"path":["/x"]}},
                "actor":{"process":{"file":"/bin/sh"}},"firewall_rule":{"name":true}}"#
        ),
        r#"{"layer":"l7"}"#
    );
    assert_eq!(
        summary_text(
            r#"{"class_uid":4002,"action_id":2,"time":-5,"dst_endpoint":{"port":18446744073709551615}}"#
        ),
        r#"{"layer":"l7","port":18446744073709551615,"time_ms":-5}"#
    );
    assert_eq!(
        summary_text(r#"{"class_uid":4002,"action_id":2,"time":9223372036854775808}"#),
        r#"{"layer":"l7"}"#
    );
}

#[test]
fn denial_summary_needs_integers_for_action_and_class() {
    for text in [
        r#"{"class_uid":4001,"action_id":2.0}"#,
        r#"{"class_uid":4001,"action_id":"2"}"#,
        r#"{"class_uid":4001,"action_id":-2}"#,
        r#"{"class_uid":4001}"#,
        r#"{"class_uid":4003,"action_id":2}"#,
        r#"{"action_id":2}"#,
        r#"[{"class_uid":4001,"action_id":2}]"#,
        "2",
        "null",
    ] {
        assert!(denial_summary_from_event(&event(text)).is_none(), "{text}");
    }
}

#[test]
fn repeated_member_counts_once_with_its_last_value() {
    assert!(denial_summary_from_event(&event(
        r#"{"class_uid":4001,"action_id":2,"action_id":1}"#
    ))
    .is_none());
    assert_eq!(
        summary_text(r#"{"action_id":1,"class_uid":4001,"action_id":2}"#),
        r#"{"layer":"l4"}"#
    );
}

#[test]
fn parse_json_reads_every_shape_of_value() {
    assert!(matches!(event("null"), Json::Null));
    assert!(matches!(event("true"), Json::Bool(true)));
    assert!(matches!(event("-9223372036854775808"), Json::Integer(-9223372036854775808)));
    assert!(matches!(event("18446744073709551615"), Json::Integer(18446744073709551615)));
    assert!(matches!(event("0.5"), Json::Fraction(text) if text == "0.5"));
    assert!(matches!(event("\"a\\u0062\""), Json::Text(text) if text == "ab"));
    assert!(matches!(event("[1,[]]"), Json::Array(items) if items.len() == 2));
    assert_eq!(event(r#"{"a":{"b":3}}"#).get("a").unwrap().get("b").unwrap().as_u64(), Some(3));
    assert!(parse_json("{").is_none());
    assert!(parse_json("").is_none());
    assert!(parse_json("1 2").is_none());
}

#[test]
fn recent_denials_returns_newest_first_from_jsonl_files() {
    let log = [
        r#"{"class_uid":4001,"action_id":2,"time":1,"message":"first","dst_endpoint":{"hostname":"first.example","port":443}}"#,
        // An allowed event mixed in — must be filtered out.
        r#"{"class_uid":4001,"action_id":1,"time":2,"dst_endpoint":{"hostname":"ok.example","port":443}}"#,
        r#"{"class_uid":4002,"action_id":2,"time":3,"message":"second","dst_endpoint":{"hostname":"second.example","port":443},"http_request":{"http_method":"PUT","url":{"path":"/x"}}}"#,
    ]
    .iter()
    .map(|line| format!("{line}\n"))
    .collect::<Vec<_>>()
    .concat();
    let listing = || {
        Some(vec![LogEntry {
            file_name: "openshell-ocsf.2026-05-04.log".to_string(),
            modified: Some(1),
            path: log.clone(),
        }])
    };

    let logs: Vec<Option<String>> = logs_to_scan(listing()).into_iter().map(Some).collect();
    let response =
        recent_denials_response(&logs, denials_limit("last=10"), log_available(listing()));
    assert_eq!(response.status, 200);
    let payload = response.payload;
    assert_eq!(payload["log_available"], true);
    let denials = payload["denials"].as_array().unwrap();
    assert_eq!(denials.len(), 2);
    // Newest first.
    assert_eq!(denials[0]["host"], "second.example");
    assert_eq!(denials[1]["host"], "first.example");
    assert!(
        denials[0].get("message").is_none(),
        "denial summaries must not echo the OCSF `message` field; it can leak credentials in query strings"
    );
    assert!(payload.get("note").is_none());
}

#[test]
fn recent_denials_signals_when_log_is_missing() {
    let ctx: PolicyLocalContext<u32> =
        PolicyLocalContext::with_log_dir(None, None, None, "/nowhere".to_string());
    assert_eq!(ctx.ocsf_log_dir(), "/nowhere");
    let listing = || -> Option<Vec<LogEntry<String>>> { Some(Vec::new()) };

    let logs: Vec<Option<String>> = logs_to_scan(listing()).into_iter().map(Some).collect();
    let response = recent_denials_response(&logs, denials_limit(""), log_available(listing()));
    assert_eq!(response.status, 200);
    let payload = response.payload;
    assert_eq!(payload["log_available"], false);
    assert_eq!(payload["denials"].as_array().unwrap().len(), 0);
    assert!(payload["note"]
        .as_str()
        .unwrap()
        .contains("ocsf_json_enabled"));
}

#[test]
fn context_writes_its_log_to_the_usual_place() {
    let ctx: PolicyLocalContext<u32> = PolicyLocalContext::new(None, None, None);
    assert_eq!(ctx.ocsf_log_dir(), OCSF_LOG_DIR);
    assert_eq!(ctx.ocsf_log_dir(), "/var/log");
}

#[test]
fn denials_of_the_first_log_come_first() {
    let newer = denial_line("c") + &denial_line("d");
    let older = denial_line("a") + &denial_line("b");
    let logs = vec![Some(newer), None, Some(older)];
    assert_eq!(hosts(&read_recent_denials(&logs, 10)), ["d", "c", "b", "a"]);
}

#[test]
fn limit_cuts_the_list_from_its_end() {
    let logs = vec![
        Some(denial_line("c") + &denial_line("d")),
        Some(denial_line("a") + &denial_line("b")),
    ];
    assert!(read_recent_denials(&logs, 0).is_empty());
    assert_eq!(hosts(&read_recent_denials(&logs, 1)), ["d"]);
    assert_eq!(hosts(&read_recent_denials(&logs, 2)), ["d", "c"]);
    assert_eq!(hosts(&read_recent_denials(&logs, 3)), ["d", "c", "b"]);
    assert_eq!(hosts(&read_recent_denials(&logs, 4)), ["d", "c", "b", "a"]);
    assert_eq!(hosts(&read_recent_denials(&logs, usize::MAX)), ["d", "c", "b", "a"]);
}

#[test]
fn appended_denial_is_listed_first() {
    let log = denial_line("a");
    let more = log.clone() + &denial_line("b");
    assert_eq!(hosts(&read_recent_denials(&vec![Some(log)], 10)), ["a"]);
    assert_eq!(hosts(&read_recent_denials(&vec![Some(more)], 10)), ["b", "a"]);
}

#[test]
fn lines_that_record_no_denial_are_passed_over() {
    let log = format!(
        "\n{}not json\n\r\n{}{{\"class_uid\":6002,\"action_id\":2}}\n{}",
        denial_line("a"),
        denial_line("b").replace('\n', "\r\n"),
        denial_line("c").trim_end()
    );
    assert_eq!(hosts(&read_recent_denials(&vec![Some(log)], 10)), ["c", "b", "a"]);
}

#[test]
fn denials_payload_has_an_exact_form() {
    let denials = read_recent_denials(&vec![Some(denial_line("a"))], 10);
    assert_eq!(
        denials_response(denials, true).payload.to_string(),
        r#"{"denials":[{"host":"a","layer":"l4"}],"log_available":true}"#
    );
    let response = denials_response(Vec::new(), false);
    assert_eq!(response.status, 200);
    assert_eq!(
        response.payload.to_string(),
        r#"{"denials":[],"log_available":false,"note":"no OCSF JSONL log file is present; enable the `ocsf_json_enabled` sandbox setting to populate"}"#
    );
}
