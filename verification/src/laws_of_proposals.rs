//! What becomes of a proposal: what is asked for is what is handed on, and all
//! of it, or the proposal is refused.

use crate::chunks::{
    all_or_first_error, any_query, body_chunks, chunk_of, chunk_views, chunks_of, endpoint_of,
    has_query, network_endpoint_from_json, network_rule_from_json, outcome,
    policy_chunk_from_add_rule, proposal_chunks, proposal_chunks_from_body, rule_of, to_chunk,
    to_endpoint,
};
use crate::context::PolicyLocalContext;
use crate::laws::law_all_or_first_error;
use crate::laws_of_replies::{lemma_error_members, reports};
use crate::proposal::{
    string_view, AddNetworkRuleJson, ChunkView, EndpointView, L7DenyRule, L7DenyRuleJson, L7Rule,
    L7RuleJson, NetworkEndpoint, NetworkEndpointJson, NetworkPolicyRule, NetworkPolicyRuleJson,
    PolicyChunk, ProposalOperation, ProposalRequest,
};
use crate::submit::{submit_proposal, SubmitAction};
use crate::text::{is_space, lemma_trim_blank, trim};
use vstd::prelude::*;

verus! {

/// Whether a text has nothing in it but white space.
pub open spec fn all_white(text: Seq<char>) -> bool {
    forall|i: int| 0 <= i < text.len() ==> is_space(#[trigger] text[i])
}

/// Whether an L7 rule allows the request that was asked for, whatever its query
/// parameters are.
pub open spec fn rule_kept(asked: L7RuleJson, got: L7Rule) -> bool {
    got.allow matches Some(allow) && {
        &&& allow.method@ == asked.allow.method@
        &&& allow.path@ == asked.allow.path@
        &&& allow.command@ == asked.allow.command@
        &&& allow.query@.len() == 0
    }
}

/// Whether an L7 rule denies the request that was asked for, whatever its query
/// parameters are.
pub open spec fn deny_rule_kept(asked: L7DenyRuleJson, got: L7DenyRule) -> bool {
    &&& got.method@ == asked.method@
    &&& got.path@ == asked.path@
    &&& got.command@ == asked.command@
    &&& got.query@.len() == 0
}

/// Whether an endpoint has everything that was asked for, and nothing else.
pub open spec fn endpoint_kept(asked: NetworkEndpointJson, got: NetworkEndpoint) -> bool {
    &&& got.host@ == asked.host@
    &&& got.protocol@ == asked.protocol@
    &&& got.tls@ == asked.tls@
    &&& got.enforcement@ == asked.enforcement@
    &&& got.access@ == asked.access@
    &&& got.allow_encoded_slash == asked.allow_encoded_slash
    &&& got.ports@.len() > 0
    &&& got.port == got.ports@[0]
    &&& asked.ports@.len() > 0 ==> got.ports@ == asked.ports@
    &&& asked.ports@.len() == 0 ==> got.ports@ == seq![asked.port]
    &&& got.rules@.len() == asked.rules@.len()
    &&& forall|i: int|
        0 <= i < asked.rules@.len() ==> rule_kept(asked.rules@[i], #[trigger] got.rules@[i])
    &&& got.deny_rules@.len() == asked.deny_rules@.len()
    &&& forall|i: int|
        0 <= i < asked.deny_rules@.len() ==> deny_rule_kept(
            asked.deny_rules@[i],
            #[trigger] got.deny_rules@[i],
        )
    &&& got.allowed_ips@.len() == asked.allowed_ips@.len()
    &&& forall|i: int|
        0 <= i < asked.allowed_ips@.len() ==> (#[trigger] got.allowed_ips@[i])@
            == asked.allowed_ips@[i]@
}

/// Whether one of the L7 requests that an endpoint asks to allow has a query
/// string in its path.
pub open spec fn allows_query(asked: NetworkEndpointJson) -> bool {
    exists|i: int|
        0 <= i < asked.rules@.len() && (#[trigger] asked.rules@[i]).allow.path@.contains('?')
}

/// Why an endpoint is refused, or `None` if it is not.
pub open spec fn endpoint_refusal(asked: NetworkEndpointJson) -> Option<Seq<char>> {
    if all_white(asked.host@) {
        Some("endpoint.host is required"@)
    } else if asked.ports@.len() == 0 && asked.port == 0 {
        Some("endpoint.port or endpoint.ports is required"@)
    } else if allows_query(asked) {
        Some("L7 allow paths must not include query strings"@)
    } else {
        None
    }
}

proof fn lemma_query(asked: NetworkEndpointJson)
    ensures
        has_query(asked@.rules) <==> allows_query(asked),
{
    let requests = asked@.rules;
    if has_query(requests) {
        let i = choose|i: int|
            0 <= i < requests.len() && (#[trigger] requests[i]).path.contains('?');
        assert(asked.rules@[i].allow.path@.contains('?'));
    }
    if allows_query(asked) {
        let i = choose|i: int|
            0 <= i < asked.rules@.len() && (#[trigger] asked.rules@[i]).allow.path@.contains('?');
        assert(requests[i].path.contains('?'));
    }
}

proof fn lemma_endpoint(asked: NetworkEndpointJson)
    ensures
        match endpoint_of(asked@) {
            Ok(_) => endpoint_refusal(asked) is None,
            Err(error) => endpoint_refusal(asked) == Some(error),
        },
{
    lemma_query(asked);
}

proof fn lemma_endpoint_kept(asked: NetworkEndpointJson, got: NetworkEndpoint)
    requires
        endpoint_of(asked@) == Ok::<EndpointView, Seq<char>>(got@),
    ensures
        endpoint_kept(asked, got),
{
    let view = got@;
    assert(view.rules.len() == got.rules@.len());
    assert forall|i: int| 0 <= i < asked.rules@.len() implies rule_kept(
        asked.rules@[i],
        #[trigger] got.rules@[i],
    ) by {
        assert(view.rules[i] == got.rules@[i]@);
        assert(view.rules[i] == Some(any_query(asked.rules@[i]@)));
        assert(view.rules[i]->0.query.len() == got.rules@[i].allow->0.query@.len());
    }
    assert(view.deny_rules.len() == got.deny_rules@.len());
    assert forall|i: int| 0 <= i < asked.deny_rules@.len() implies deny_rule_kept(
        asked.deny_rules@[i],
        #[trigger] got.deny_rules@[i],
    ) by {
        assert(view.deny_rules[i] == got.deny_rules@[i]@);
        assert(view.deny_rules[i] == any_query(asked.deny_rules@[i]@));
        assert(view.deny_rules[i].query.len() == got.deny_rules@[i].query@.len());
    }
    assert(view.allowed_ips.len() == got.allowed_ips@.len());
    assert(asked@.allowed_ips.len() == asked.allowed_ips@.len());
    assert forall|i: int| 0 <= i < asked.allowed_ips@.len() implies (
    #[trigger] got.allowed_ips@[i])@ == asked.allowed_ips@[i]@ by {
        assert(view.allowed_ips[i] == got.allowed_ips@[i]@);
        assert(asked@.allowed_ips[i] == asked.allowed_ips@[i]@);
    }
}

/// An endpoint that is accepted is the one that was asked for. Each L7 rule that
/// was asked for is handed on, in its place and as it was, whatever the other
/// fields say; so is each deny rule and each address, and every other field.
pub proof fn law_accepted_endpoint_is_the_one_asked_for(
    asked: NetworkEndpointJson,
    got: NetworkEndpoint,
)
    requires
        call_ensures(network_endpoint_from_json, (asked,), Ok::<NetworkEndpoint, String>(got)),
    ensures
        endpoint_kept(asked, got),
{
    lemma_endpoint_kept(asked, got);
}

/// An endpoint is refused just where it has no host, no port, or a query string
/// in a path that it asks to allow, and the refusal says which.
pub proof fn law_endpoint_is_refused_for_cause(
    asked: NetworkEndpointJson,
    answer: Result<NetworkEndpoint, String>,
)
    requires
        call_ensures(network_endpoint_from_json, (asked,), answer),
    ensures
        answer is Ok <==> endpoint_refusal(asked) is None,
        answer matches Err(error) ==> endpoint_refusal(asked) == Some(error@),
{
    lemma_endpoint(asked);
}

/// The name of a rule, empty if it has none.
pub open spec fn own_name(rule: NetworkPolicyRuleJson) -> Seq<char> {
    match rule.name {
        Some(name) => name@,
        None => seq![],
    }
}

/// Whether a rule has the endpoints and the programs that were asked for, all of
/// them and in their order.
pub open spec fn parts_kept(asked: NetworkPolicyRuleJson, got: NetworkPolicyRule) -> bool {
    &&& got.endpoints@.len() == asked.endpoints@.len()
    &&& forall|i: int|
        0 <= i < asked.endpoints@.len() ==> endpoint_kept(
            asked.endpoints@[i],
            #[trigger] got.endpoints@[i],
        )
    &&& got.binaries@.len() == asked.binaries@.len()
    &&& forall|i: int|
        0 <= i < asked.binaries@.len() ==> (#[trigger] got.binaries@[i]).path@
            == asked.binaries@[i].path@
}

/// Whether `error` is why a rule is refused: it has no endpoint, or its first
/// endpoint that is refused is refused with it.
pub open spec fn rule_refused(asked: NetworkPolicyRuleJson, error: Seq<char>) -> bool {
    ||| asked.endpoints@.len() == 0 && error == "rule.endpoints must contain at least one endpoint"@
    ||| exists|k: int|
        0 <= k < asked.endpoints@.len() && endpoint_refusal(#[trigger] asked.endpoints@[k]) == Some(
            error,
        ) && forall|j: int| 0 <= j < k ==> endpoint_refusal(#[trigger] asked.endpoints@[j]) is None
}

/// Whether a rule can be had: it has an endpoint, and none that is refused.
pub open spec fn rule_accepted(asked: NetworkPolicyRuleJson) -> bool {
    &&& asked.endpoints@.len() > 0
    &&& forall|i: int|
        0 <= i < asked.endpoints@.len() ==> endpoint_refusal(#[trigger] asked.endpoints@[i]) is None
}

proof fn lemma_rule(asked: NetworkPolicyRuleJson)
    ensures
        match rule_of(asked@) {
            Ok(_) => rule_accepted(asked),
            Err(error) => rule_refused(asked, error) && !rule_accepted(asked),
        },
{
    let views = asked@.endpoints;
    law_all_or_first_error(views, to_endpoint());
    assert forall|i: int| 0 <= i < asked.endpoints@.len() implies (match to_endpoint()(
        #[trigger] views[i],
    ) {
        Ok(_) => endpoint_refusal(asked.endpoints@[i]) is None,
        Err(error) => endpoint_refusal(asked.endpoints@[i]) == Some(error),
    }) by {
        lemma_endpoint(asked.endpoints@[i]);
    }
    match all_or_first_error(views, to_endpoint()) {
        Ok(done) => {
            assert forall|i: int| 0 <= i < asked.endpoints@.len() implies endpoint_refusal(
                #[trigger] asked.endpoints@[i],
            ) is None by {
                assert(to_endpoint()(views[i]) is Ok);
            }
        },
        Err(error) => {
            let k = choose|k: int|
                0 <= k < views.len() && to_endpoint()(#[trigger] views[k]) == Err::<
                    EndpointView,
                    Seq<char>,
                >(error) && forall|j: int| 0 <= j < k ==> to_endpoint()(#[trigger] views[j]) is Ok;
            assert(endpoint_refusal(asked.endpoints@[k]) == Some(error));
            assert forall|j: int| 0 <= j < k implies endpoint_refusal(
                #[trigger] asked.endpoints@[j],
            ) is None by {
                assert(to_endpoint()(views[j]) is Ok);
            }
        },
    }
}

proof fn lemma_parts_kept(asked: NetworkPolicyRuleJson, got: NetworkPolicyRule)
    requires
        rule_of(asked@) matches Ok(rule) && got@.endpoints == rule.endpoints && got@.binaries
            == rule.binaries,
    ensures
        parts_kept(asked, got),
        rule_of(asked@)->Ok_0.name == own_name(asked),
{
    let rule = rule_of(asked@)->Ok_0;
    let views = asked@.endpoints;
    law_all_or_first_error(views, to_endpoint());
    assert(got@.endpoints.len() == got.endpoints@.len());
    assert forall|i: int| 0 <= i < asked.endpoints@.len() implies endpoint_kept(
        asked.endpoints@[i],
        #[trigger] got.endpoints@[i],
    ) by {
        assert(to_endpoint()(views[i]) == Ok::<EndpointView, Seq<char>>(rule.endpoints[i]));
        assert(got@.endpoints[i] == got.endpoints@[i]@);
        lemma_endpoint_kept(asked.endpoints@[i], got.endpoints@[i]);
    }
    assert(got@.binaries.len() == got.binaries@.len());
    assert(asked@.binaries.len() == asked.binaries@.len());
    assert forall|i: int| 0 <= i < asked.binaries@.len() implies (#[trigger] got.binaries@[i]).path@
        == asked.binaries@[i].path@ by {
        assert(got@.binaries[i] == got.binaries@[i].path@);
        assert(asked@.binaries[i] == asked.binaries@[i].path@);
    }
}

/// A rule that is accepted is the one that was asked for: its name, its
/// endpoints and its programs, all of them and in their order.
pub proof fn law_accepted_rule_is_the_one_asked_for(
    asked: NetworkPolicyRuleJson,
    got: NetworkPolicyRule,
)
    requires
        call_ensures(network_rule_from_json, (asked,), Ok::<NetworkPolicyRule, String>(got)),
    ensures
        parts_kept(asked, got),
        got.name@ == own_name(asked),
{
    lemma_parts_kept(asked, got);
}

/// A rule is refused just where it has no endpoint, or one that is refused; then
/// the first that is refused says why.
pub proof fn law_rule_is_refused_for_cause(
    asked: NetworkPolicyRuleJson,
    answer: Result<NetworkPolicyRule, String>,
)
    requires
        call_ensures(network_rule_from_json, (asked,), answer),
    ensures
        answer is Ok <==> rule_accepted(asked),
        answer matches Err(error) ==> rule_refused(asked, error@),
{
    lemma_rule(asked);
}

/// The name under which an operation adds its rule: the one that it gives,
/// without white space around it, or else the rule's own.
pub open spec fn added_name(asked: AddNetworkRuleJson) -> Seq<char> {
    if asked.rule_name matches Some(name) && !all_white(name@) {
        trim(asked.rule_name->0@)
    } else {
        own_name(asked.rule)
    }
}

/// Whether a chunk proposes what an operation asks for, for the reason given,
/// and waits to be decided on.
pub open spec fn chunk_carries(
    asked: AddNetworkRuleJson,
    intent_summary: Seq<char>,
    chunk: PolicyChunk,
) -> bool {
    &&& chunk.rule_name@ == added_name(asked)
    &&& !all_white(chunk.rule_name@)
    &&& chunk.proposed_rule matches Some(rule) && parts_kept(asked.rule, rule) && rule.name@ == (
    if all_white(own_name(asked.rule)) {
        added_name(asked)
    } else {
        own_name(asked.rule)
    })
    &&& chunk.rationale@ == intent_summary
    &&& asked.rule.binaries@.len() > 0 ==> chunk.binary@ == asked.rule.binaries@[0].path@
    &&& asked.rule.binaries@.len() == 0 ==> chunk.binary@.len() == 0
    &&& chunk.id@.len() == 0
    &&& chunk.status@ == "pending"@
    &&& chunk.security_notes@.len() == 0
    &&& chunk.confidence_hundredths == 75
    &&& chunk.denial_summary_ids@.len() == 0
    &&& chunk.created_at_ms == 0
    &&& chunk.decided_at_ms == 0
    &&& chunk.stage@ == "agent"@
    &&& chunk.supersedes_chunk_id@.len() == 0
    &&& chunk.hit_count == 1
    &&& chunk.first_seen_ms == 0
    &&& chunk.last_seen_ms == 0
}

/// Whether an operation can be had: its rule can, and there is a name for it.
pub open spec fn add_rule_accepted(asked: AddNetworkRuleJson) -> bool {
    rule_accepted(asked.rule) && !all_white(added_name(asked))
}

/// Whether `error` is why an operation is refused: its rule is refused with it,
/// or there is no name for the rule.
pub open spec fn add_rule_refused(asked: AddNetworkRuleJson, error: Seq<char>) -> bool {
    ||| rule_refused(asked.rule, error)
    ||| rule_accepted(asked.rule) && all_white(added_name(asked)) && error
        == "addRule.ruleName or rule.name is required"@
}

proof fn lemma_chunk(asked: AddNetworkRuleJson, intent_summary: Seq<char>)
    ensures
        match chunk_of(asked@, intent_summary) {
            Ok(_) => add_rule_accepted(asked),
            Err(error) => add_rule_refused(asked, error) && !add_rule_accepted(asked),
        },
{
    lemma_rule(asked.rule);
}

proof fn lemma_chunk_carries(asked: AddNetworkRuleJson, intent_summary: Seq<char>, got: PolicyChunk)
    requires
        chunk_of(asked@, intent_summary) == Ok::<ChunkView, Seq<char>>(got@),
    ensures
        chunk_carries(asked, intent_summary, got),
{
    let rule = got.proposed_rule->0;
    assert(got@.proposed_rule == Some(rule@));
    lemma_parts_kept(asked.rule, rule);
    assert(got@.denial_summary_ids.len() == got.denial_summary_ids@.len());
    assert(asked@.rule.binaries.len() == asked.rule.binaries@.len());
    if asked.rule.binaries@.len() > 0 {
        assert(asked@.rule.binaries[0] == asked.rule.binaries@[0].path@);
    }
}

/// A chunk proposes the rule that its operation asks for, under the name that it
/// gives and for the reason given, and waits to be decided on.
pub proof fn law_chunk_proposes_what_is_asked_for(
    asked: AddNetworkRuleJson,
    intent_summary: &str,
    chunk: PolicyChunk,
)
    requires
        call_ensures(
            policy_chunk_from_add_rule,
            (asked, intent_summary),
            Ok::<PolicyChunk, String>(chunk),
        ),
    ensures
        chunk_carries(asked, intent_summary@, chunk),
{
    lemma_chunk_carries(asked, intent_summary@, chunk);
}

/// An operation is refused just where its rule is, or there is no name for it.
pub proof fn law_operation_is_refused_for_cause(
    asked: AddNetworkRuleJson,
    intent_summary: &str,
    answer: Result<PolicyChunk, String>,
)
    requires
        call_ensures(policy_chunk_from_add_rule, (asked, intent_summary), answer),
    ensures
        answer is Ok <==> add_rule_accepted(asked),
        answer matches Err(error) ==> add_rule_refused(asked, error@),
{
    lemma_chunk(asked, intent_summary@);
}

/// The reason that a proposal gives, empty if it gives none.
pub open spec fn intent_of(request: ProposalRequest) -> Seq<char> {
    match request.intent_summary {
        Some(summary) => summary@,
        None => seq![],
    }
}

/// Whether a chunk proposes what one operation of a proposal asks for.
pub open spec fn operation_carried(
    operation: ProposalOperation,
    intent_summary: Seq<char>,
    chunk: PolicyChunk,
) -> bool {
    operation.add_rule matches Some(Ok(asked)) && chunk_carries(asked, intent_summary, chunk)
}

/// Whether chunks propose what a proposal asks for: one for each of its
/// operations, and in their order.
pub open spec fn chunks_carry(request: ProposalRequest, chunks: Seq<PolicyChunk>) -> bool {
    &&& chunks.len() == request.operations@.len()
    &&& chunks.len() > 0
    &&& forall|i: int|
        0 <= i < chunks.len() ==> operation_carried(
            request.operations@[i],
            intent_of(request),
            #[trigger] chunks[i],
        )
}

/// Whether one operation of a proposal can be had.
pub open spec fn operation_accepted(operation: ProposalOperation) -> bool {
    operation.add_rule matches Some(Ok(asked)) && add_rule_accepted(asked)
}

/// Whether `error` is why one operation of a proposal is refused.
pub open spec fn operation_refused(operation: ProposalOperation, error: Seq<char>) -> bool {
    match operation.add_rule {
        Some(Ok(asked)) => add_rule_refused(asked, error),
        Some(Err(unread)) => error == unread@,
        None => error
            == "this MVP accepts `addRule` operations; submit a full narrow NetworkPolicyRule"@,
    }
}

/// Whether a proposal can be had: it has an operation, and none that cannot.
pub open spec fn proposal_accepted(request: ProposalRequest) -> bool {
    &&& request.operations@.len() > 0
    &&& forall|i: int|
        0 <= i < request.operations@.len() ==> operation_accepted(#[trigger] request.operations@[i])
}

/// Whether `error` is why a proposal is refused: it has no operation, or its
/// first operation that cannot be had is refused with it.
pub open spec fn proposal_refused(request: ProposalRequest, error: Seq<char>) -> bool {
    ||| request.operations@.len() == 0 && error == "proposal requires at least one operation"@
    ||| exists|k: int|
        0 <= k < request.operations@.len() && operation_refused(
            #[trigger] request.operations@[k],
            error,
        ) && !operation_accepted(request.operations@[k]) && forall|j: int|
            0 <= j < k ==> operation_accepted(#[trigger] request.operations@[j])
}

proof fn lemma_operation(operation: ProposalOperation, intent_summary: Seq<char>)
    ensures
        match to_chunk(intent_summary)(operation@) {
            Ok(_) => operation_accepted(operation),
            Err(error) => operation_refused(operation, error) && !operation_accepted(operation),
        },
{
    if let Some(Ok(asked)) = operation.add_rule {
        lemma_chunk(asked, intent_summary);
    }
}

proof fn lemma_proposal(request: ProposalRequest)
    ensures
        match chunks_of(request@) {
            Ok(_) => proposal_accepted(request),
            Err(error) => proposal_refused(request, error) && !proposal_accepted(request),
        },
{
    let views = request@.operations;
    let f = to_chunk(intent_of(request));
    assert(string_view(request.intent_summary) == request@.intent_summary);
    law_all_or_first_error(views, f);
    assert forall|i: int| 0 <= i < request.operations@.len() implies (match f(#[trigger] views[i]) {
        Ok(_) => operation_accepted(request.operations@[i]),
        Err(error) => operation_refused(request.operations@[i], error) && !operation_accepted(
            request.operations@[i],
        ),
    }) by {
        lemma_operation(request.operations@[i], intent_of(request));
    }
    match all_or_first_error(views, f) {
        Ok(done) => {
            assert forall|i: int| 0 <= i < request.operations@.len() implies operation_accepted(
                #[trigger] request.operations@[i],
            ) by {
                assert(f(views[i]) is Ok);
            }
        },
        Err(error) => {
            let k = choose|k: int|
                0 <= k < views.len() && f(#[trigger] views[k]) == Err::<ChunkView, Seq<char>>(error)
                    && forall|j: int| 0 <= j < k ==> f(#[trigger] views[j]) is Ok;
            assert(operation_refused(request.operations@[k], error));
            assert forall|j: int| 0 <= j < k implies operation_accepted(
                #[trigger] request.operations@[j],
            ) by {
                assert(f(views[j]) is Ok);
            }
        },
    }
}

proof fn lemma_chunks_carry(request: ProposalRequest, chunks: Seq<PolicyChunk>)
    requires
        chunks_of(request@) == Ok::<Seq<ChunkView>, Seq<char>>(
            chunk_views(chunks),
        ),
    ensures
        chunks_carry(request, chunks),
{
    let views = request@.operations;
    let got = chunk_views(chunks);
    let f = to_chunk(intent_of(request));
    law_all_or_first_error(views, f);
    assert(got.len() == chunks.len());
    assert(views.len() == request.operations@.len());
    assert(all_or_first_error(views, f) == Ok::<Seq<ChunkView>, Seq<char>>(got));
    assert forall|i: int| 0 <= i < chunks.len() implies operation_carried(
        request.operations@[i],
        intent_of(request),
        #[trigger] chunks[i],
    ) by {
        assert(f(views[i]) == Ok::<ChunkView, Seq<char>>(got[i]));
        assert(views[i] == request.operations@[i]@);
        assert(got[i] == chunks[i]@);
        lemma_chunk_carries(
            request.operations@[i].add_rule->0->Ok_0,
            intent_of(request),
            chunks[i],
        );
    }
}

/// A proposal that is accepted asks for one chunk with each of its operations,
/// and has that chunk, in that place.
pub proof fn law_proposal_has_a_chunk_for_each_operation(
    request: ProposalRequest,
    chunks: Vec<PolicyChunk>,
)
    requires
        call_ensures(proposal_chunks, (request,), Ok::<Vec<PolicyChunk>, String>(chunks)),
    ensures
        chunks_carry(request, chunks@),
{
    lemma_chunks_carry(request, chunks@);
}

/// A proposal is refused just where it has no operation, or one that cannot be
/// had; then the first such operation says why.
pub proof fn law_proposal_is_refused_for_cause(
    request: ProposalRequest,
    answer: Result<Vec<PolicyChunk>, String>,
)
    requires
        call_ensures(proposal_chunks, (request,), answer),
    ensures
        answer is Ok <==> proposal_accepted(request),
        answer matches Err(error) ==> proposal_refused(request, error@),
{
    lemma_proposal(request);
}

/// A body is answered as the proposal in it, or with why there is none in it.
pub proof fn law_body_is_answered_as_its_proposal(
    body: Result<ProposalRequest, String>,
    answer: Result<Vec<PolicyChunk>, String>,
)
    requires
        call_ensures(proposal_chunks_from_body, (body,), answer),
    ensures
        match (body, answer) {
            (Ok(request), Ok(chunks)) => chunks_carry(request, chunks@) && proposal_accepted(
                request,
            ),
            (Ok(request), Err(error)) => proposal_refused(request, error@) && !proposal_accepted(
                request,
            ),
            (Err(unread), Err(error)) => error@ == unread@,
            (Err(_), Ok(_)) => false,
        },
{
    if let Ok(request) = body {
        lemma_proposal(request);
        if let Ok(chunks) = answer {
            lemma_chunks_carry(request, chunks@);
        }
    }
}

/// What is submitted is the proposal: one chunk for each of its operations, all
/// of them and in their order, to the gateway of the sandbox and under its name.
pub proof fn law_submission_is_the_whole_proposal<P>(
    ctx: PolicyLocalContext<P>,
    body: Result<ProposalRequest, String>,
    action: SubmitAction,
)
    requires
        call_ensures(submit_proposal::<P>, (&ctx, body), action),
    ensures
        action matches SubmitAction::Connect { endpoint, submission } ==> {
            &&& ctx.gateway() == Some(endpoint@)
            &&& ctx.name() matches Some(name) && submission.sandbox_name@ == trim(name)
            &&& submission.sandbox_name@.len() > 0
            &&& submission.summaries@.len() == 0
            &&& submission.analysis_mode@ == "agent_authored"@
            &&& body matches Ok(request) && chunks_carry(request, submission.chunks@)
        },
{
    if let SubmitAction::Connect { endpoint, submission } = action {
        let request = body->Ok_0;
        assert(submission@.summaries.len() == submission.summaries@.len());
        lemma_trim_blank(ctx.name()->0);
        lemma_chunks_carry(request, submission.chunks@);
    }
}

/// A proposal is submitted just where there is a gateway to submit it to, a
/// sandbox name to submit it under, and nothing to refuse in it; else it is
/// answered, and the answer says which of these is missing.
pub proof fn law_proposal_is_submitted_or_answered<P>(
    ctx: PolicyLocalContext<P>,
    body: Result<ProposalRequest, String>,
    action: SubmitAction,
)
    requires
        call_ensures(submit_proposal::<P>, (&ctx, body), action),
    ensures
        action !is Submit,
        action is Connect <==> {
            &&& ctx.gateway() is Some
            &&& ctx.name() matches Some(name) && !all_white(name)
            &&& body matches Ok(request) && proposal_accepted(request)
        },
        action matches SubmitAction::Respond(response) ==> if ctx.gateway() is None {
            reports(
                response,
                503,
                "gateway_unavailable"@,
                "policy proposal submission requires a gateway-connected sandbox"@,
            )
        } else if ctx.name() is None || all_white(ctx.name()->0) {
            reports(
                response,
                503,
                "sandbox_name_unavailable"@,
                "policy proposal submission requires a sandbox name"@,
            )
        } else {
            exists|error: Seq<char>|
                {
                    &&& match body {
                        Ok(request) => proposal_refused(request, error),
                        Err(unread) => error == unread@,
                    }
                    &&& #[trigger] reports(
                        response,
                        400,
                        "invalid_proposal"@,
                        error,
                    )
                }
        },
{
    if let Ok(request) = body {
        lemma_proposal(request);
    }
    if let SubmitAction::Respond(response) = action {
        lemma_error_members(response@.payload);
        if let Err(error) = body_chunks(outcome(body)) {
            assert(ctx.gateway() is Some && ctx.name() is Some && !all_white(ctx.name()->0)
                ==> reports(response, 400, "invalid_proposal"@, error));
        }
    }
}

} // verus!
