use policy_local::{
    agent_next_steps, current_policy_response, render_response, route_request, BodyRead,
    PolicyLocalContext, Route, POLICY_LOCAL_HOST, ROUTE_DENIALS, ROUTE_POLICY_CURRENT,
    ROUTE_PROPOSALS, SKILL_PATH,
};

struct Policy {
    version: u32,
}

fn to_yaml(policy: &Policy) -> Result<String, String> {
    Ok(format!("version: {}\n", policy.version))
}

#[test]
fn current_policy_route_returns_yaml_envelope() {
    let ctx = PolicyLocalContext::new(Some(Policy { version: 1 }), None, None);
    let request =
        b"GET http://policy.local/v1/policy/current HTTP/1.1\r\nHost: policy.local\r\n\r\n";

    let read = BodyRead::begin(request).unwrap();
    assert_eq!(read.wanted(), 0);
    assert!(read.into_body().is_empty());
    assert!(matches!(route_request("GET", "/v1/policy/current"), Route::CurrentPolicy));
    let response = render_response(&current_policy_response(
        ctx.current_policy().as_ref().map(to_yaml),
    ));

    assert!(response.starts_with("HTTP/1.1 200 OK"));
    let (_, body) = response.split_once("\r\n\r\n").unwrap();
    let body: serde_json::Value = serde_json::from_str(body).unwrap();
    assert_eq!(body["format"], "yaml");
    assert!(body["policy_yaml"].as_str().unwrap().contains("version: 1"));
}

#[test]
fn current_policy_is_the_one_set_last() {
    let mut ctx = PolicyLocalContext::new(
        None,
        Some("https://gateway".to_string()),
        Some("box".to_string()),
    );
    assert!(ctx.current_policy().is_none());
    ctx.set_current_policy(Policy { version: 2 });
    ctx.set_current_policy(Policy { version: 3 });
    assert_eq!(ctx.current_policy().as_ref().unwrap().version, 3);
    assert_eq!(ctx.gateway_endpoint().as_deref(), Some("https://gateway"));
    assert_eq!(ctx.sandbox_name().as_deref(), Some("box"));
    assert_eq!(ctx.ocsf_log_dir(), "/var/log");
}

#[test]
fn missing_policy_is_not_found() {
    let response = current_policy_response(None);
    assert_eq!(response.status, 404);
    assert_eq!(
        response.payload.to_string(),
        r#"{"detail":"no current sandbox policy is loaded","error":"policy_unavailable"}"#
    );
}

#[test]
fn unserializable_policy_is_an_internal_error() {
    let response = current_policy_response(Some(Err("bad \"yaml\"".to_string())));
    assert_eq!(response.status, 500);
    assert_eq!(
        response.payload.to_string(),
        r#"{"detail":"bad \"yaml\"","error":"policy_serialize_failed"}"#
    );
}

#[test]
fn current_policy_payload_has_an_exact_form() {
    let response = current_policy_response(Some(Ok("a: 1\n".to_string())));
    assert_eq!(response.status, 200);
    assert_eq!(response.payload.to_string(), r#"{"format":"yaml","policy_yaml":"a: 1\n"}"#);
}

#[test]
fn routes_go_by_method_and_path() {
    assert!(matches!(route_request("GET", ROUTE_POLICY_CURRENT), Route::CurrentPolicy));
    assert!(matches!(route_request("GET", ROUTE_DENIALS), Route::RecentDenials { limit: 10 }));
    assert!(matches!(route_request("POST", ROUTE_PROPOSALS), Route::SubmitProposal));
    for (method, path) in [
        ("POST", ROUTE_POLICY_CURRENT),
        ("POST", ROUTE_DENIALS),
        ("GET", ROUTE_PROPOSALS),
        ("get", ROUTE_DENIALS),
        ("GET", "/v1/denials/"),
        ("GET", "/"),
        ("GET", ""),
        ("", ""),
    ] {
        assert!(matches!(route_request(method, path), Route::NotFound(_)), "{method} {path}");
    }
}

#[test]
fn query_does_not_choose_the_route() {
    assert!(matches!(
        route_request("GET", "/v1/denials?last=3"),
        Route::RecentDenials { limit: 3 }
    ));
    assert!(matches!(
        route_request("GET", "/v1/denials?last=3?last=4"),
        Route::RecentDenials { limit: 10 }
    ));
    assert!(matches!(route_request("GET", "/v1/policy/current?"), Route::CurrentPolicy));
    assert!(matches!(route_request("POST", "/v1/proposals?a=b"), Route::SubmitProposal));
    assert!(matches!(route_request("GET", "?/v1/denials"), Route::NotFound(_)));
}

#[test]
fn unknown_route_is_reported_without_its_query() {
    let Route::NotFound(response) = route_request("DELETE", "/v1/x?token=secret") else {
        panic!("there is no such route");
    };
    assert_eq!(response.status, 404);
    assert_eq!(
        response.payload.to_string(),
        r#"{"detail":"policy.local route not found: DELETE /v1/x","error":"not_found"}"#
    );
}

#[test]
fn next_steps_have_an_exact_form() {
    assert_eq!(
        agent_next_steps().to_string(),
        [
            r#"[{"action":"read_skill","path":"/etc/openshell/skills/policy_advisor.md"},"#,
            r#"{"action":"inspect_policy","method":"GET","url":"http://policy.local/v1/policy/current"},"#,
            r#"{"action":"inspect_recent_denials","method":"GET","url":"http://policy.local/v1/denials?last=5"},"#,
            r#"{"action":"submit_proposal","body_type":"PolicyMergeOperation","method":"POST","url":"http://policy.local/v1/proposals"}]"#,
        ]
        .concat()
    );
    assert_eq!(agent_next_steps()[0]["path"], SKILL_PATH);
}

#[test]
fn next_steps_are_served() {
    let steps = agent_next_steps();
    let host = format!("http://{POLICY_LOCAL_HOST}");
    let mut served = 0;
    for step in steps.as_array().unwrap() {
        let Some(url) = step["url"].as_str() else {
            continue;
        };
        let path = url.strip_prefix(host.as_str()).unwrap();
        let route = route_request(step["method"].as_str().unwrap(), path);
        assert!(!matches!(route, Route::NotFound(_)), "{url}");
        served += 1;
    }
    assert_eq!(served, 3);
}
