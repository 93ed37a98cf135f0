use policy_local::{
    after_connect, after_submit, network_endpoint_from_json, network_rule_from_json,
    policy_chunk_from_add_rule, proposal_chunks, proposal_chunks_from_body, submit_proposal,
    AddNetworkRuleJson, L7AllowJson, L7DenyRuleJson, L7RuleJson, NetworkBinaryJson,
    NetworkEndpointJson, NetworkPolicyRuleJson, PolicyLocalContext, ProposalOperation,
    ProposalRequest, SubmitAction, SubmitReply, ANALYSIS_MODE,
};

fn text(s: &str) -> String {
    s.to_string()
}

fn endpoint(host: &str, port: u32) -> NetworkEndpointJson {
    NetworkEndpointJson {
        host: text(host),
        port,
        ports: vec![],
        protocol: String::new(),
        tls: String::new(),
        enforcement: String::new(),
        access: String::new(),
        rules: vec![],
        allowed_ips: vec![],
        deny_rules: vec![],
        allow_encoded_slash: false,
    }
}

fn allow(method: &str, path: &str) -> L7RuleJson {
    L7RuleJson {
        allow: L7AllowJson { method: text(method), path: text(path), command: String::new() },
    }
}

fn rule(name: Option<&str>, endpoints: Vec<NetworkEndpointJson>) -> NetworkPolicyRuleJson {
    NetworkPolicyRuleJson { name: name.map(text), endpoints, binaries: vec![] }
}

fn add_rule(rule_name: Option<&str>, rule: NetworkPolicyRuleJson) -> AddNetworkRuleJson {
    AddNetworkRuleJson { rule_name: rule_name.map(text), rule }
}

fn operation(add_rule: AddNetworkRuleJson) -> ProposalOperation {
    ProposalOperation { add_rule: Some(Ok(add_rule)) }
}

fn request(operations: Vec<ProposalOperation>) -> ProposalRequest {
    ProposalRequest { intent_summary: None, operations }
}

fn good_rule() -> NetworkPolicyRuleJson {
    rule(None, vec![endpoint("api.github.com", 443)])
}

fn good_request() -> ProposalRequest {
    request(vec![operation(add_rule(Some("good"), good_rule()))])
}

fn context(gateway: Option<&str>, name: Option<&str>) -> PolicyLocalContext<u32> {
    PolicyLocalContext::new(None, gateway.map(text), name.map(text))
}

#[test]
fn proposal_chunks_from_body_accepts_add_rule_operation() {
    let body = ProposalRequest {
        intent_summary: Some(text("Allow gh to create one repo.")),
        operations: vec![operation(AddNetworkRuleJson {
            rule_name: Some(text("github_api_repo_create")),
            rule: NetworkPolicyRuleJson {
                name: None,
                endpoints: vec![NetworkEndpointJson {
                    protocol: text("rest"),
                    tls: text("terminate"),
                    enforcement: text("enforce"),
                    rules: vec![allow("POST", "/user/repos")],
                    ..endpoint("api.github.com", 443)
                }],
                binaries: vec![NetworkBinaryJson { path: text("/usr/bin/gh") }],
            },
        })],
    };

    let chunks = proposal_chunks_from_body(Ok(body)).unwrap();

    assert_eq!(chunks.len(), 1);
    assert_eq!(chunks[0].rule_name, "github_api_repo_create");
    assert_eq!(chunks[0].rationale, "Allow gh to create one repo.");
    assert_eq!(chunks[0].binary, "/usr/bin/gh");
    let rule = chunks[0].proposed_rule.as_ref().unwrap();
    assert_eq!(rule.name, "github_api_repo_create");
    assert_eq!(rule.endpoints[0].host, "api.github.com");
    assert_eq!(rule.endpoints[0].port, 443);
    assert_eq!(rule.endpoints[0].ports, vec![443]);
    assert_eq!(rule.endpoints[0].protocol, "rest");
    assert_eq!(
        rule.endpoints[0].rules[0].allow.as_ref().unwrap().path,
        "/user/repos"
    );
}

#[test]
fn proposal_chunks_from_body_rejects_query_in_l7_path() {
    let body = request(vec![operation(add_rule(
        Some("bad"),
        rule(
            None,
            vec![NetworkEndpointJson {
                rules: vec![allow("GET", "/repos?token=secret")],
                ..endpoint("api.github.com", 443)
            }],
        ),
    ))]);

    let error = proposal_chunks_from_body(Ok(body)).unwrap_err();
    assert!(error.contains("query strings"));
    assert!(!error.contains("secret"));
}

#[test]
fn endpoint_keeps_what_it_was_asked_for() {
    let converted = network_endpoint_from_json(NetworkEndpointJson {
        host: text(" h "),
        port: 7,
        ports: vec![80, 443],
        protocol: text("rest"),
        tls: text("terminate"),
        enforcement: text("enforce"),
        access: text("full"),
        rules: vec![allow("GET", "/a"), allow("PUT", "/b")],
        allowed_ips: vec![text("10.0.0.0/8")],
        deny_rules: vec![L7DenyRuleJson {
            method: text("DELETE"),
            path: text("/c?d"),
            command: text("x"),
        }],
        allow_encoded_slash: true,
    })
    .unwrap();
    assert_eq!(converted.host, " h ");
    assert_eq!(converted.port, 80);
    assert_eq!(converted.ports, [80, 443]);
    assert_eq!(converted.protocol, "rest");
    assert_eq!(converted.tls, "terminate");
    assert_eq!(converted.enforcement, "enforce");
    assert_eq!(converted.access, "full");
    assert_eq!(converted.allowed_ips, ["10.0.0.0/8"]);
    assert!(converted.allow_encoded_slash);
    let allowed: Vec<(&str, &str)> = converted
        .rules
        .iter()
        .map(|rule| rule.allow.as_ref().unwrap())
        .map(|allow| (allow.method.as_str(), allow.path.as_str()))
        .collect();
    assert_eq!(allowed, [("GET", "/a"), ("PUT", "/b")]);
    assert!(converted.rules[0].allow.as_ref().unwrap().query.is_empty());
    assert_eq!(converted.deny_rules.len(), 1);
    assert_eq!(converted.deny_rules[0].method, "DELETE");
    assert_eq!(converted.deny_rules[0].path, "/c?d");
    assert_eq!(converted.deny_rules[0].command, "x");
    assert!(converted.deny_rules[0].query.is_empty());
}

#[test]
fn endpoint_takes_the_single_port_only_without_a_list() {
    let single = network_endpoint_from_json(endpoint("h", 22)).unwrap();
    assert_eq!((single.port, single.ports), (22, vec![22]));
    let listed =
        network_endpoint_from_json(NetworkEndpointJson { ports: vec![0], ..endpoint("h", 22) })
            .unwrap();
    assert_eq!((listed.port, listed.ports), (0, vec![0]));
}

#[test]
fn endpoint_needs_a_host() {
    for host in ["", " ", "\t\u{3000}"] {
        assert_eq!(
            network_endpoint_from_json(endpoint(host, 0)).unwrap_err(),
            "endpoint.host is required"
        );
    }
}

#[test]
fn endpoint_needs_a_port() {
    let asked = NetworkEndpointJson { rules: vec![allow("GET", "?")], ..endpoint("h", 0) };
    assert_eq!(
        network_endpoint_from_json(asked).unwrap_err(),
        "endpoint.port or endpoint.ports is required"
    );
}

#[test]
fn endpoint_allows_no_query_string() {
    let asked = NetworkEndpointJson {
        rules: vec![allow("GET", "/a"), allow("GET", "/b?")],
        ..endpoint("h", 1)
    };
    assert_eq!(
        network_endpoint_from_json(asked).unwrap_err(),
        "L7 allow paths must not include query strings"
    );
}

#[test]
fn rule_needs_an_endpoint() {
    assert_eq!(
        network_rule_from_json(rule(Some("r"), vec![])).unwrap_err(),
        "rule.endpoints must contain at least one endpoint"
    );
}

#[test]
fn rule_is_refused_for_its_first_bad_endpoint() {
    let asked = rule(
        Some("r"),
        vec![endpoint("a", 1), endpoint("b", 0), endpoint("", 1)],
    );
    assert_eq!(
        network_rule_from_json(asked).unwrap_err(),
        "endpoint.port or endpoint.ports is required"
    );
}

#[test]
fn rule_keeps_its_endpoints_and_programs_in_order() {
    let converted = network_rule_from_json(NetworkPolicyRuleJson {
        name: None,
        endpoints: vec![endpoint("a", 1), endpoint("b", 2)],
        binaries: vec![
            NetworkBinaryJson { path: text("/bin/x") },
            NetworkBinaryJson { path: text("/bin/y") },
        ],
    })
    .unwrap();
    assert_eq!(converted.name, "");
    assert_eq!(converted.endpoints[0].host, "a");
    assert_eq!(converted.endpoints[1].host, "b");
    assert_eq!(converted.binaries[0].path, "/bin/x");
    assert_eq!(converted.binaries[1].path, "/bin/y");
}

#[test]
fn chunk_is_named_by_the_operation_or_else_by_the_rule() {
    let names = |given: Option<&str>, own: Option<&str>| {
        let asked = add_rule(given, rule(own, vec![endpoint("h", 1)]));
        policy_chunk_from_add_rule(asked, "")
            .map(|chunk| (chunk.rule_name, chunk.proposed_rule.unwrap().name))
    };
    assert_eq!(names(Some(" a "), None), Ok((text("a"), text("a"))));
    assert_eq!(names(Some("a"), Some(" b ")), Ok((text("a"), text(" b "))));
    assert_eq!(names(Some(" "), Some(" b ")), Ok((text(" b "), text(" b "))));
    assert_eq!(names(None, Some("b")), Ok((text("b"), text("b"))));
    assert_eq!(names(Some("a"), Some("  ")), Ok((text("a"), text("a"))));
    let unnamed = Err(text("addRule.ruleName or rule.name is required"));
    assert_eq!(names(None, None), unnamed);
    assert_eq!(names(Some(" "), Some("\n")), unnamed);
}

#[test]
fn chunk_is_pending() {
    let chunk = policy_chunk_from_add_rule(add_rule(Some("r"), good_rule()), "why").unwrap();
    assert_eq!(chunk.id, "");
    assert_eq!(chunk.status, "pending");
    assert_eq!(chunk.rationale, "why");
    assert_eq!(chunk.security_notes, "");
    assert_eq!(chunk.confidence_hundredths as f32 / 100.0, 0.75);
    assert!(chunk.denial_summary_ids.is_empty());
    assert_eq!((chunk.created_at_ms, chunk.decided_at_ms), (0, 0));
    assert_eq!(chunk.stage, "agent");
    assert_eq!(chunk.supersedes_chunk_id, "");
    assert_eq!(chunk.hit_count, 1);
    assert_eq!((chunk.first_seen_ms, chunk.last_seen_ms), (0, 0));
    assert_eq!(chunk.binary, "");
}

#[test]
fn proposal_needs_an_operation() {
    assert_eq!(
        proposal_chunks(request(vec![])).unwrap_err(),
        "proposal requires at least one operation"
    );
}

#[test]
fn proposal_accepts_add_rule_only() {
    assert_eq!(
        proposal_chunks(request(vec![ProposalOperation { add_rule: None }])).unwrap_err(),
        "this MVP accepts `addRule` operations; submit a full narrow NetworkPolicyRule"
    );
}

#[test]
fn proposal_is_refused_for_its_first_bad_operation() {
    let asked = request(vec![
        operation(add_rule(Some("good"), good_rule())),
        ProposalOperation { add_rule: Some(Err(text("missing field `rule`"))) },
        ProposalOperation { add_rule: None },
    ]);
    assert_eq!(proposal_chunks(asked).unwrap_err(), "missing field `rule`");
}

#[test]
fn proposal_has_one_chunk_for_each_operation() {
    let chunks = proposal_chunks(request(vec![
        operation(add_rule(Some("a"), good_rule())),
        operation(add_rule(Some("b"), good_rule())),
    ]))
    .unwrap();
    assert_eq!(chunks.len(), 2);
    assert_eq!(chunks[0].rule_name, "a");
    assert_eq!(chunks[1].rule_name, "b");
    assert_eq!(chunks[1].rationale, "");
}

#[test]
fn body_that_is_no_proposal_is_refused_with_its_error() {
    assert_eq!(proposal_chunks_from_body(Err(text("EOF"))).unwrap_err(), "EOF");
}

#[test]
fn submission_needs_a_gateway() {
    let SubmitAction::Respond(response) = submit_proposal(&context(None, None), Err(text("x")))
    else {
        panic!("there is no gateway");
    };
    assert_eq!(response.status, 503);
    assert_eq!(
        response.payload.to_string(),
        r#"{"detail":"policy proposal submission requires a gateway-connected sandbox","error":"gateway_unavailable"}"#
    );
}

#[test]
fn submission_needs_a_sandbox_name() {
    for name in [None, Some(""), Some(" \n")] {
        let ctx = context(Some("https://gateway"), name);
        let SubmitAction::Respond(response) = submit_proposal(&ctx, Ok(good_request())) else {
            panic!("the sandbox has no name");
        };
        assert_eq!(response.status, 503);
        assert_eq!(
            response.payload.to_string(),
            r#"{"detail":"policy proposal submission requires a sandbox name","error":"sandbox_name_unavailable"}"#
        );
    }
}

#[test]
fn invalid_proposal_is_a_bad_request() {
    let ctx = context(Some("https://gateway"), Some("box"));
    let SubmitAction::Respond(response) = submit_proposal(&ctx, Ok(request(vec![]))) else {
        panic!("the proposal is empty");
    };
    assert_eq!(response.status, 400);
    assert_eq!(
        response.payload.to_string(),
        r#"{"detail":"proposal requires at least one operation","error":"invalid_proposal"}"#
    );
}

#[test]
fn proposal_is_submitted_under_the_name_of_the_sandbox() {
    let ctx = context(Some("https://gateway"), Some(" box "));
    let SubmitAction::Connect { endpoint, submission } = submit_proposal(&ctx, Ok(good_request()))
    else {
        panic!("the proposal is good");
    };
    assert_eq!(endpoint, "https://gateway");
    let SubmitAction::Submit(submission) = after_connect(submission, Ok(())) else {
        panic!("the gateway is there");
    };
    assert_eq!(submission.sandbox_name, "box");
    assert!(submission.summaries.is_empty());
    assert_eq!(submission.analysis_mode, ANALYSIS_MODE);
    assert_eq!(submission.analysis_mode, "agent_authored");
    assert_eq!(submission.chunks.len(), 1);
    assert_eq!(submission.chunks[0].rule_name, "good");
}

#[test]
fn gateway_that_cannot_be_reached_is_reported() {
    let ctx = context(Some("https://gateway"), Some("box"));
    let SubmitAction::Connect { submission, .. } = submit_proposal(&ctx, Ok(good_request())) else {
        panic!("the proposal is good");
    };
    let SubmitAction::Respond(response) = after_connect(submission, Err(text("refused"))) else {
        panic!("the gateway is not there");
    };
    assert_eq!(response.status, 502);
    assert_eq!(
        response.payload.to_string(),
        r#"{"detail":"refused","error":"gateway_connect_failed"}"#
    );
}

#[test]
fn submission_that_fails_is_reported() {
    let response = after_submit(Err(text("timeout")));
    assert_eq!(response.status, 502);
    assert_eq!(
        response.payload.to_string(),
        r#"{"detail":"timeout","error":"proposal_submit_failed"}"#
    );
}

#[test]
fn submission_is_accepted_with_what_the_gateway_says() {
    let response = after_submit(Ok(SubmitReply {
        accepted_chunks: 4294967295,
        rejected_chunks: 2,
        rejection_reasons: vec![text("too wide"), text("")],
    }));
    assert_eq!(response.status, 202);
    assert_eq!(
        response.payload.to_string(),
        r#"{"accepted_chunks":4294967295,"rejected_chunks":2,"rejection_reasons":["too wide",""],"status":"submitted"}"#
    );
}
