//! From a proposal to policy chunks.

use crate::proposal::{
    AddNetworkRuleJson, AddRuleView, ChunkView, EndpointJsonView, EndpointView, L7Allow, L7DenyRule,
    L7DenyRuleJson, L7MatchView, L7RequestView, L7Rule, L7RuleJson, NetworkBinary,
    NetworkBinaryJson, NetworkEndpoint, NetworkEndpointJson, NetworkPolicyRule,
    NetworkPolicyRuleJson, PolicyChunk, ProposalOperation, ProposalRequest, RequestView,
    RuleJsonView, RuleView,
};
use crate::text::{has_char, is_blank, is_blank_text, trim, trim_text};
use vstd::prelude::*;

verus! {

/// What is asked of an L7 request, with nothing asked of its query parameters.
pub open spec fn any_query(request: L7RequestView) -> L7MatchView {
    L7MatchView { request, query: seq![] }
}

/// The ports of an endpoint: those listed, or else the single one.
pub open spec fn ports_of(endpoint: EndpointJsonView) -> Seq<u32> {
    if endpoint.ports.len() == 0 && endpoint.port > 0 {
        seq![endpoint.port]
    } else {
        endpoint.ports
    }
}

/// Whether a path among the L7 rules has a query string.
pub open spec fn has_query(rules: Seq<L7RequestView>) -> bool {
    exists|i: int| 0 <= i < rules.len() && (#[trigger] rules[i]).path.contains('?')
}

/// The endpoint that a proposal asks for, or why it cannot be had.
pub open spec fn endpoint_of(endpoint: EndpointJsonView) -> Result<EndpointView, Seq<char>> {
    if is_blank(endpoint.host) {
        Err("endpoint.host is required"@)
    } else if ports_of(endpoint).len() == 0 {
        Err("endpoint.port or endpoint.ports is required"@)
    } else if has_query(endpoint.rules) {
        Err("L7 allow paths must not include query strings"@)
    } else {
        Ok(
            EndpointView {
                host: endpoint.host,
                port: ports_of(endpoint)[0],
                protocol: endpoint.protocol,
                tls: endpoint.tls,
                enforcement: endpoint.enforcement,
                access: endpoint.access,
                rules: endpoint.rules.map_values(|request| Some(any_query(request))),
                allowed_ips: endpoint.allowed_ips,
                ports: ports_of(endpoint),
                deny_rules: endpoint.deny_rules.map_values(|request| any_query(request)),
                allow_encoded_slash: endpoint.allow_encoded_slash,
            },
        )
    }
}

/// What a fallible function returned.
pub open spec fn outcome<T: View>(result: Result<T, String>) -> Result<T::V, Seq<char>> {
    match result {
        Ok(value) => Ok(value@),
        Err(error) => Err(error@),
    }
}

fn convert_rules(rules: Vec<L7RuleJson>) -> (converted: Vec<L7Rule>)
    ensures
        converted@.map_values(|rule: L7Rule| rule@) == rules@.map_values(
            |rule: L7RuleJson| Some(any_query(rule@)),
        ),
{
    let mut converted: Vec<L7Rule> = Vec::new();
    let ghost all = rules@;
    for rule in it: rules
        invariant
            it.seq() == all,
            converted@.len() == it.index(),
            forall|i: int|
                0 <= i < it.index() ==> (#[trigger] converted@[i])@ == Some(any_query(all[i]@)),
    {
        let next = L7Rule {
            allow: Some(
                L7Allow {
                    method: rule.allow.method,
                    path: rule.allow.path,
                    command: rule.allow.command,
                    query: Vec::new(),
                },
            ),
        };
        assert(next@ == Some(any_query(rule@)));
        converted.push(next);
    }
    converted
}

fn convert_deny_rules(rules: Vec<L7DenyRuleJson>) -> (converted: Vec<L7DenyRule>)
    ensures
        converted@.map_values(|rule: L7DenyRule| rule@) == rules@.map_values(
            |rule: L7DenyRuleJson| any_query(rule@),
        ),
{
    let mut converted: Vec<L7DenyRule> = Vec::new();
    let ghost all = rules@;
    for rule in it: rules
        invariant
            it.seq() == all,
            converted@.len() == it.index(),
            forall|i: int| 0 <= i < it.index() ==> (#[trigger] converted@[i])@ == any_query(all[i]@),
    {
        let next = L7DenyRule {
            method: rule.method,
            path: rule.path,
            command: rule.command,
            query: Vec::new(),
        };
        assert(next@ == any_query(rule@));
        converted.push(next);
    }
    converted
}

fn any_query_in_path(rules: &Vec<L7RuleJson>) -> (found: bool)
    ensures
        found == has_query(rules@.map_values(|rule: L7RuleJson| rule@)),
{
    let ghost requests = rules@.map_values(|rule: L7RuleJson| rule@);
    let mut i: usize = 0;
    while i < rules.len()
        invariant
            i <= rules@.len(),
            requests == rules@.map_values(|rule: L7RuleJson| rule@),
            forall|j: int| 0 <= j < i ==> !(#[trigger] requests[j]).path.contains('?'),
        decreases rules@.len() - i,
    {
        if has_char(rules[i].allow.path.as_str(), '?') {
            assert(requests[i as int].path.contains('?'));
            return true;
        }
        assert(!requests[i as int].path.contains('?'));
        i += 1;
    }
    false
}

/// The endpoint that a proposal asks for.
///
/// It needs a host and a port, and no path that it allows may have a query
/// string: a query string can carry credentials.
pub fn network_endpoint_from_json(endpoint: NetworkEndpointJson) -> (converted: Result<
    NetworkEndpoint,
    String,
>)
    ensures
        outcome(converted) == endpoint_of(endpoint@),
{
    if is_blank_text(endpoint.host.as_str()) {
        return Err("endpoint.host is required".to_owned());
    }
    let ghost asked = endpoint@;
    let mut ports = endpoint.ports;
    if ports.len() == 0 && endpoint.port > 0 {
        ports.push(endpoint.port);
    }
    assert(ports@ =~= ports_of(asked));
    if ports.len() == 0 {
        return Err("endpoint.port or endpoint.ports is required".to_owned());
    }
    if any_query_in_path(&endpoint.rules) {
        return Err("L7 allow paths must not include query strings".to_owned());
    }
    let port: u32 = ports[0];
    let rules = convert_rules(endpoint.rules);
    let deny_rules = convert_deny_rules(endpoint.deny_rules);
    let converted = NetworkEndpoint {
        host: endpoint.host,
        port,
        protocol: endpoint.protocol,
        tls: endpoint.tls,
        enforcement: endpoint.enforcement,
        access: endpoint.access,
        rules,
        allowed_ips: endpoint.allowed_ips,
        ports,
        deny_rules,
        allow_encoded_slash: endpoint.allow_encoded_slash,
    };
    assert(converted@.rules =~= asked.rules.map_values(|request| Some(any_query(request))));
    assert(converted@.deny_rules =~= asked.deny_rules.map_values(|request| any_query(request)));
    Ok(converted)
}

/// The results of a fallible function on each of `items`, or the first error.
pub open spec fn all_or_first_error<A, B>(
    items: Seq<A>,
    f: spec_fn(A) -> Result<B, Seq<char>>,
) -> Result<Seq<B>, Seq<char>>
    decreases items.len(),
{
    if items.len() == 0 {
        Ok(seq![])
    } else {
        match all_or_first_error(items.drop_last(), f) {
            Ok(before) => match f(items.last()) {
                Ok(last) => Ok(before.push(last)),
                Err(error) => Err(error),
            },
            Err(error) => Err(error),
        }
    }
}

/// An error among the first items is the error of all of them.
proof fn lemma_first_error<A, B>(items: Seq<A>, f: spec_fn(A) -> Result<B, Seq<char>>, n: int)
    requires
        0 <= n <= items.len(),
        all_or_first_error(items.take(n), f) is Err,
    ensures
        all_or_first_error(items, f) == all_or_first_error(items.take(n), f),
    decreases items.len(),
{
    if n == items.len() {
        assert(items.take(n) =~= items);
    } else {
        assert(items.drop_last().take(n) =~= items.take(n));
        lemma_first_error(items.drop_last(), f, n);
    }
}

/// Whether an endpoint can be had, and what it is then.
pub open spec fn to_endpoint() -> spec_fn(EndpointJsonView) -> Result<EndpointView, Seq<char>> {
    |endpoint: EndpointJsonView| endpoint_of(endpoint)
}

/// The network rule that a proposal asks for, or why it cannot be had.
pub open spec fn rule_of(rule: RuleJsonView) -> Result<RuleView, Seq<char>> {
    if rule.endpoints.len() == 0 {
        Err("rule.endpoints must contain at least one endpoint"@)
    } else {
        match all_or_first_error(rule.endpoints, to_endpoint()) {
            Ok(endpoints) => Ok(
                RuleView {
                    name: match rule.name {
                        Some(name) => name,
                        None => seq![],
                    },
                    endpoints,
                    binaries: rule.binaries,
                },
            ),
            Err(error) => Err(error),
        }
    }
}

fn convert_binaries(binaries: Vec<NetworkBinaryJson>) -> (converted: Vec<NetworkBinary>)
    ensures
        converted@.map_values(|binary: NetworkBinary| binary.path@) == binaries@.map_values(
            |binary: NetworkBinaryJson| binary.path@,
        ),
{
    let mut converted: Vec<NetworkBinary> = Vec::new();
    let ghost all = binaries@;
    for binary in it: binaries
        invariant
            it.seq() == all,
            converted@.len() == it.index(),
            forall|i: int| 0 <= i < it.index() ==> (#[trigger] converted@[i]).path@ == all[i].path@,
    {
        converted.push(NetworkBinary { path: binary.path });
    }
    converted
}

/// The network rule that a proposal asks for. It needs an endpoint.
pub fn network_rule_from_json(rule: NetworkPolicyRuleJson) -> (converted: Result<
    NetworkPolicyRule,
    String,
>)
    ensures
        outcome(converted) == rule_of(rule@),
{
    if rule.endpoints.len() == 0 {
        return Err("rule.endpoints must contain at least one endpoint".to_owned());
    }
    let ghost asked = rule@;
    let ghost all = rule.endpoints@;
    let mut endpoints: Vec<NetworkEndpoint> = Vec::new();
    assert(endpoints@.map_values(|endpoint: NetworkEndpoint| endpoint@) =~= seq![]);
    for endpoint in it: rule.endpoints
        invariant
            it.seq() == all,
            asked.endpoints == all.map_values(|endpoint: NetworkEndpointJson| endpoint@),
            asked.endpoints.len() > 0,
            asked == rule@,
            all_or_first_error(asked.endpoints.take(it.index() as int), to_endpoint()) == Ok::<
                Seq<EndpointView>,
                Seq<char>,
            >(endpoints@.map_values(|endpoint: NetworkEndpoint| endpoint@)),
    {
        let ghost n = it.index() as int;
        let ghost had = endpoints@.map_values(|endpoint: NetworkEndpoint| endpoint@);
        proof {
            assert(asked.endpoints.take(n + 1).drop_last() =~= asked.endpoints.take(n));
            assert(asked.endpoints[n] == endpoint@);
        }
        match network_endpoint_from_json(endpoint) {
            Ok(converted) => {
                endpoints.push(converted);
                assert(endpoints@.map_values(|endpoint: NetworkEndpoint| endpoint@) =~= had.push(
                    converted@,
                ));
            },
            Err(error) => {
                proof {
                    lemma_first_error(asked.endpoints, to_endpoint(), n + 1);
                }
                return Err(error);
            },
        }
    }
    assert(asked.endpoints.take(asked.endpoints.len() as int) =~= asked.endpoints);
    let name = match rule.name {
        Some(name) => name,
        None => String::new(),
    };
    let binaries = convert_binaries(rule.binaries);
    Ok(NetworkPolicyRule { name, endpoints, binaries })
}

/// The name under which a rule is added: the one that the operation gives,
/// trimmed, or else the rule's own.
pub open spec fn name_of(add_rule: AddRuleView, rule: RuleView) -> Seq<char> {
    match add_rule.rule_name {
        Some(name) => if is_blank(name) {
            rule.name
        } else {
            trim(name)
        },
        None => rule.name,
    }
}

/// A chunk that proposes a rule, not yet decided on.
pub open spec fn pending_chunk(
    rule_name: Seq<char>,
    rule: RuleView,
    intent_summary: Seq<char>,
) -> ChunkView {
    ChunkView {
        id: seq![],
        status: "pending"@,
        rule_name,
        proposed_rule: Some(rule),
        rationale: intent_summary,
        security_notes: seq![],
        confidence_hundredths: 75,
        denial_summary_ids: seq![],
        created_at_ms: 0,
        decided_at_ms: 0,
        stage: "agent"@,
        supersedes_chunk_id: seq![],
        hit_count: 1,
        first_seen_ms: 0,
        last_seen_ms: 0,
        binary: if rule.binaries.len() > 0 {
            rule.binaries[0]
        } else {
            seq![]
        },
    }
}

/// The chunk that an `addRule` operation asks for, or why it cannot be had.
pub open spec fn chunk_of(add_rule: AddRuleView, intent_summary: Seq<char>) -> Result<
    ChunkView,
    Seq<char>,
> {
    match rule_of(add_rule.rule) {
        Ok(rule) => {
            let rule_name = name_of(add_rule, rule);
            if is_blank(rule_name) {
                Err("addRule.ruleName or rule.name is required"@)
            } else {
                let name = if is_blank(rule.name) {
                    rule_name
                } else {
                    rule.name
                };
                Ok(pending_chunk(rule_name, RuleView { name, ..rule }, intent_summary))
            }
        },
        Err(error) => Err(error),
    }
}

/// The chunk that an `addRule` operation asks for. It needs a name for the
/// rule, from the operation or from the rule.
pub fn policy_chunk_from_add_rule(add_rule: AddNetworkRuleJson, intent_summary: &str) -> (chunk:
    Result<PolicyChunk, String>)
    ensures
        outcome(chunk) == chunk_of(add_rule@, intent_summary@),
{
    let ghost asked = add_rule@;
    let mut rule = match network_rule_from_json(add_rule.rule) {
        Ok(rule) => rule,
        Err(error) => {
            return Err(error);
        },
    };
    let rule_name = match add_rule.rule_name {
        Some(name) => {
            if is_blank_text(name.as_str()) {
                rule.name.clone()
            } else {
                trim_text(name.as_str()).to_owned()
            }
        },
        None => rule.name.clone(),
    };
    assert(rule_name@ == name_of(asked, rule@));
    if is_blank_text(rule_name.as_str()) {
        return Err("addRule.ruleName or rule.name is required".to_owned());
    }
    let ghost named = RuleView {
        name: if is_blank(rule.name@) {
            rule_name@
        } else {
            rule.name@
        },
        ..rule@
    };
    if is_blank_text(rule.name.as_str()) {
        rule.name = rule_name.clone();
    }
    assert(rule@ =~= named);
    let binary = if rule.binaries.len() > 0 {
        rule.binaries[0].path.clone()
    } else {
        String::new()
    };
    let chunk = PolicyChunk {
        id: String::new(),
        status: "pending".to_owned(),
        rule_name,
        proposed_rule: Some(rule),
        rationale: intent_summary.to_owned(),
        security_notes: String::new(),
        confidence_hundredths: 75,
        denial_summary_ids: Vec::new(),
        created_at_ms: 0,
        decided_at_ms: 0,
        stage: "agent".to_owned(),
        supersedes_chunk_id: String::new(),
        hit_count: 1,
        first_seen_ms: 0,
        last_seen_ms: 0,
        binary,
    };
    assert(chunk@ =~= pending_chunk(rule_name@, named, intent_summary@));
    Ok(chunk)
}

/// The chunk that one operation of a proposal asks for.
pub open spec fn to_chunk(intent_summary: Seq<char>) -> spec_fn(
    Option<Result<AddRuleView, Seq<char>>>,
) -> Result<ChunkView, Seq<char>> {
    |operation: Option<Result<AddRuleView, Seq<char>>>|
        match operation {
            Some(Ok(add_rule)) => chunk_of(add_rule, intent_summary),
            Some(Err(error)) => Err(error),
            None => Err(
                "this MVP accepts `addRule` operations; submit a full narrow NetworkPolicyRule"@,
            ),
        }
}

/// The chunks that a proposal asks for, or why they cannot be had.
pub open spec fn chunks_of(request: RequestView) -> Result<Seq<ChunkView>, Seq<char>> {
    if request.operations.len() == 0 {
        Err("proposal requires at least one operation"@)
    } else {
        all_or_first_error(
            request.operations,
            to_chunk(
                match request.intent_summary {
                    Some(summary) => summary,
                    None => seq![],
                },
            ),
        )
    }
}

/// What chunks say.
pub open spec fn chunk_views(chunks: Seq<PolicyChunk>) -> Seq<ChunkView> {
    chunks.map_values(|chunk: PolicyChunk| chunk@)
}

/// The chunks that a proposal asks for: one for each of its operations, in
/// their order.
pub fn proposal_chunks(request: ProposalRequest) -> (chunks: Result<Vec<PolicyChunk>, String>)
    ensures
        chunks_outcome(chunks) == chunks_of(request@),
{
    if request.operations.len() == 0 {
        return Err("proposal requires at least one operation".to_owned());
    }
    let ghost asked = request@;
    let ghost all = request.operations@;
    let intent_summary = match request.intent_summary {
        Some(summary) => summary,
        None => String::new(),
    };
    let ghost f = to_chunk(intent_summary@);
    let mut chunks: Vec<PolicyChunk> = Vec::new();
    assert(chunk_views(chunks@) =~= seq![]);
    for operation in it: request.operations
        invariant
            it.seq() == all,
            asked == request@,
            asked.operations == all.map_values(|operation: ProposalOperation| operation@),
            f == to_chunk(intent_summary@),
            chunks_of(asked) == all_or_first_error(asked.operations, f),
            all_or_first_error(asked.operations.take(it.index() as int), f) == Ok::<
                Seq<ChunkView>,
                Seq<char>,
            >(chunk_views(chunks@)),
    {
        let ghost n = it.index() as int;
        let ghost had = chunk_views(chunks@);
        proof {
            assert(asked.operations.take(n + 1).drop_last() =~= asked.operations.take(n));
            assert(asked.operations[n] == operation@);
        }
        let converted = match operation.add_rule {
            Some(Ok(add_rule)) => policy_chunk_from_add_rule(add_rule, intent_summary.as_str()),
            Some(Err(error)) => Err(error),
            None => Err(
                "this MVP accepts `addRule` operations; submit a full narrow NetworkPolicyRule".to_owned(),
            ),
        };
        match converted {
            Ok(chunk) => {
                chunks.push(chunk);
                assert(chunk_views(chunks@) =~= had.push(chunk@));
            },
            Err(error) => {
                proof {
                    lemma_first_error(asked.operations, f, n + 1);
                }
                return Err(error);
            },
        }
    }
    assert(asked.operations.take(asked.operations.len() as int) =~= asked.operations);
    Ok(chunks)
}

/// The chunks that the body of a request asks for, or why they cannot be had.
/// A body that is not a proposal is answered with what is wrong with it.
pub open spec fn body_chunks(body: Result<RequestView, Seq<char>>) -> Result<
    Seq<ChunkView>,
    Seq<char>,
> {
    match body {
        Ok(request) => chunks_of(request),
        Err(error) => Err(error),
    }
}

/// What came of reading chunks.
pub open spec fn chunks_outcome(chunks: Result<Vec<PolicyChunk>, String>) -> Result<
    Seq<ChunkView>,
    Seq<char>,
> {
    match chunks {
        Ok(chunks) => Ok(chunk_views(chunks@)),
        Err(error) => Err(error@),
    }
}

/// The chunks that the body of a request asks for. `body` is the proposal in
/// it, or why it is not one.
pub fn proposal_chunks_from_body(body: Result<ProposalRequest, String>) -> (chunks: Result<
    Vec<PolicyChunk>,
    String,
>)
    ensures
        chunks_outcome(chunks) == body_chunks(outcome(body)),
{
    match body {
        Ok(request) => proposal_chunks(request),
        Err(error) => Err(error),
    }
}

} // verus!
