//! What a reply says, and which request it is for.

use crate::context::{current_policy_response, PolicyLocalContext};
use crate::denials::denials_limit;
use crate::json::{is_simple, JsonView};
use crate::outside::{parsed_tree, printed, value_tree};
use crate::proposal::texts;
use crate::reply::{
    error_payload, error_response, error_tree, frame_response, render_response, status_text,
    Response,
};
use crate::routes::{route_request, Route};
use crate::submit::{after_connect, after_submit, text_trees, Submission, SubmitAction, SubmitReply};
use crate::text::{decimal, lemma_find, lemma_find_behind};
use vstd::prelude::*;
use vstd::utf8::encode_utf8;

verus! {

/// The member of that name, if this is an object that has one.
pub open spec fn under(tree: Option<JsonView>, name: Seq<char>) -> Option<JsonView> {
    if tree matches Some(JsonView::Object(members)) && members.contains_key(name) {
        Some(tree->0->Object_0[name])
    } else {
        None
    }
}

/// Whether an object has no members but those named.
pub open spec fn only_members(tree: JsonView, names: Seq<Seq<char>>) -> bool {
    &&& tree is Object
    &&& forall|name: Seq<char>| #[trigger]
        under(Some(tree), name) is Some ==> names.contains(name)
}

/// Whether an object reports an error by its code and a detail, and nothing
/// else.
pub open spec fn is_error(tree: JsonView, error: Seq<char>, detail: Seq<char>) -> bool {
    &&& under(Some(tree), "error"@) == Some(JsonView::Text(error))
    &&& under(Some(tree), "detail"@) == Some(JsonView::Text(detail))
    &&& only_members(tree, seq!["error"@, "detail"@])
}

/// Whether a reply has that status, and reports that error.
pub open spec fn reports(
    response: Response,
    status: u16,
    error: Seq<char>,
    detail: Seq<char>,
) -> bool {
    response.status == status && is_error(value_tree(response.payload), error, detail)
}

/// A payload that reports an error has the members that it should.
pub(crate) proof fn lemma_error_members(tree: JsonView)
    ensures
        forall|error: Seq<char>, detail: Seq<char>|
            tree == #[trigger] error_tree(error, detail) ==> is_error(tree, error, detail),
{
    reveal_strlit("error");
    reveal_strlit("detail");
    assert("error"@.len() == 5 && "detail"@.len() == 6);
    let names = seq!["error"@, "detail"@];
    assert(names[0] == "error"@ && names[1] == "detail"@);
}

/// An error is reported by its code and its detail.
pub proof fn law_error_is_reported(
    status: u16,
    error: &str,
    detail: &str,
    payload: serde_json::Value,
    response: Response,
)
    requires
        call_ensures(error_payload, (error, detail), payload),
        call_ensures(error_response, (status, error, detail), response),
    ensures
        is_error(value_tree(payload), error@, detail@),
        reports(response, status, error@, detail@),
{
    lemma_error_members(value_tree(payload));
    lemma_error_members(value_tree(response.payload));
}

/// The statuses that the API replies with have their reason phrases, and every
/// other has that of success.
pub proof fn law_status_has_its_reason(status: u16, text: &'static str)
    requires
        call_ensures(status_text, (status,), text),
    ensures
        status == 202 ==> text@ == "Accepted"@,
        status == 400 ==> text@ == "Bad Request"@,
        status == 404 ==> text@ == "Not Found"@,
        status == 500 ==> text@ == "Internal Server Error"@,
        status == 502 ==> text@ == "Bad Gateway"@,
        status == 503 ==> text@ == "Service Unavailable"@,
        !seq![202u16, 400u16, 404u16, 500u16, 502u16, 503u16].contains(status) ==> text@ == "OK"@,
{
    let known = seq![202u16, 400u16, 404u16, 500u16, 502u16, 503u16];
    assert(known[0] == 202 && known[1] == 400 && known[2] == 404 && known[3] == 500 && known[4]
        == 502 && known[5] == 503);
}

/// A response is the status with its reason, the type and the length in bytes of
/// the body, and the body, in that order and with nothing else.
pub proof fn law_response_is_framed(
    status: u16,
    body: &str,
    phrase: &'static str,
    response: String,
)
    requires
        call_ensures(status_text, (status,), phrase),
        call_ensures(frame_response, (status, body), response),
    ensures
        response@ == "HTTP/1.1 "@ + decimal(status as nat) + " "@ + phrase@
            + "\r\nContent-Type: application/json\r\nContent-Length: "@ + decimal(
            encode_utf8(body@).len(),
        ) + "\r\nConnection: close\r\n\r\n"@ + body@,
{
    reveal_strlit("\r\n");
    reveal_strlit("Content-Type: application/json");
    reveal_strlit("Content-Length: ");
    reveal_strlit("Connection: close");
    reveal_strlit("\r\nContent-Type: application/json\r\nContent-Length: ");
    reveal_strlit("\r\nConnection: close\r\n\r\n");
    assert("\r\nContent-Type: application/json\r\nContent-Length: "@ =~= "\r\n"@
        + "Content-Type: application/json"@ + "\r\n"@ + "Content-Length: "@);
    assert("\r\nConnection: close\r\n\r\n"@ =~= "\r\n"@ + "Connection: close"@ + "\r\n"@ + "\r\n"@);
    assert(response@ =~= "HTTP/1.1 "@ + decimal(status as nat) + " "@ + phrase@ + ("\r\n"@
        + "Content-Type: application/json"@ + "\r\n"@ + "Content-Length: "@) + decimal(
        encode_utf8(body@).len(),
    ) + ("\r\n"@ + "Connection: close"@ + "\r\n"@ + "\r\n"@) + body@);
}

/// A reply is sent as the response with its status, and with its payload in
/// print as the body; a simple payload is read back from there.
pub proof fn law_reply_is_sent_as_it_is(
    response: Response,
    body: &str,
    framed: String,
    text: String,
)
    requires
        body@ == printed(value_tree(response.payload)),
        call_ensures(frame_response, (response.status, body), framed),
        call_ensures(render_response, (&response,), text),
    ensures
        text@ == framed@,
        is_simple(value_tree(response.payload), 100) ==> parsed_tree(body@) == Some(
            value_tree(response.payload),
        ),
{
}

/// The reply with the current policy holds the policy as it was written down, or
/// says that it could not be, or that there is none.
pub proof fn law_current_policy_is_told(
    policy: Option<Result<String, String>>,
    response: Response,
)
    requires
        call_ensures(current_policy_response, (policy,), response),
    ensures
        match policy {
            Some(Ok(yaml)) => {
                let told = value_tree(response.payload);
                &&& response.status == 200
                &&& under(Some(told), "format"@) == Some(JsonView::Text("yaml"@))
                &&& under(Some(told), "policy_yaml"@) == Some(JsonView::Text(yaml@))
                &&& only_members(told, seq!["format"@, "policy_yaml"@])
            },
            Some(Err(error)) => reports(response, 500, "policy_serialize_failed"@, error@),
            None => reports(
                response,
                404,
                "policy_unavailable"@,
                "no current sandbox policy is loaded"@,
            ),
        },
{
    lemma_error_members(value_tree(response.payload));
    reveal_strlit("format");
    reveal_strlit("policy_yaml");
    assert("format"@.len() == 6 && "policy_yaml"@.len() == 11);
    let names = seq!["format"@, "policy_yaml"@];
    assert(names[0] == "format"@ && names[1] == "policy_yaml"@);
}

/// A request goes by its method and by its path up to the first question mark,
/// and by nothing else. What stands behind the question mark says how many
/// denials are listed. Any other request is reported as not found.
pub proof fn law_request_is_routed_by_method_and_path(
    method: &str,
    path: &str,
    place: Seq<char>,
    query: &str,
    limit: usize,
    route: Route,
)
    requires
        !place.contains('?'),
        path@ == place && query@.len() == 0 || path@ == place + seq!['?'] + query@,
        call_ensures(denials_limit, (query,), limit),
        call_ensures(route_request, (method, path), route),
    ensures
        route is CurrentPolicy <==> method@ == "GET"@ && place == "/v1/policy/current"@,
        route is RecentDenials <==> method@ == "GET"@ && place == "/v1/denials"@,
        route is SubmitProposal <==> method@ == "POST"@ && place == "/v1/proposals"@,
        route matches Route::RecentDenials { limit: n } ==> n == limit,
        route matches Route::NotFound(response) ==> reports(
            response,
            404,
            "not_found"@,
            "policy.local route not found: "@ + method@ + " "@ + place,
        ),
{
    reveal_strlit("GET");
    reveal_strlit("POST");
    reveal_strlit("/v1/policy/current");
    reveal_strlit("/v1/denials");
    reveal_strlit("/v1/proposals");
    assert("GET"@.len() == 3 && "POST"@.len() == 4);
    assert("/v1/policy/current"@.len() == 18 && "/v1/denials"@.len() == 11);
    if path@ == place {
        lemma_find(path@, '?');
        assert(query@ =~= seq![]);
    } else {
        lemma_find_behind(place, '?', query@);
        lemma_find(path@, '?');
    }
    if let Route::NotFound(response) = route {
        lemma_error_members(value_tree(response.payload));
    }
}

/// A proposal is submitted as it was prepared once the gateway is reached, and
/// the failure is reported if it is not.
pub proof fn law_prepared_submission_is_submitted(
    submission: Submission,
    connected: Result<(), String>,
    action: SubmitAction,
)
    requires
        call_ensures(after_connect, (submission, connected), action),
    ensures
        match connected {
            Ok(_) => action matches SubmitAction::Submit(next) && {
                &&& next.sandbox_name@ == submission.sandbox_name@
                &&& next.analysis_mode@ == submission.analysis_mode@
                &&& next.summaries@.len() == submission.summaries@.len()
                &&& forall|i: int|
                    0 <= i < next.summaries@.len() ==> (#[trigger] next.summaries@[i])@
                        == submission.summaries@[i]@
                &&& next.chunks@.len() == submission.chunks@.len()
                &&& forall|i: int|
                    0 <= i < next.chunks@.len() ==> (#[trigger] next.chunks@[i])@
                        == submission.chunks@[i]@
            },
            Err(error) => action matches SubmitAction::Respond(response) && reports(
                response,
                502,
                "gateway_connect_failed"@,
                error@,
            ),
        },
{
    if let SubmitAction::Submit(next) = action {
        assert(next@.summaries.len() == next.summaries@.len());
        assert(submission@.summaries.len() == submission.summaries@.len());
        assert(next@.chunks.len() == next.chunks@.len());
        assert(submission@.chunks.len() == submission.chunks@.len());
        assert forall|i: int| 0 <= i < next.summaries@.len() implies (
        #[trigger] next.summaries@[i])@ == submission.summaries@[i]@ by {
            assert(next@.summaries[i] == submission@.summaries[i]);
        }
        assert forall|i: int| 0 <= i < next.chunks@.len() implies (#[trigger] next.chunks@[i])@
            == submission.chunks@[i]@ by {
            assert(next@.chunks[i] == submission@.chunks[i]);
        }
    }
    if let SubmitAction::Respond(response) = action {
        lemma_error_members(value_tree(response.payload));
    }
}

/// What the gateway says of a submission is passed on: how many chunks it
/// accepted and rejected, and each of its reasons. The failure is reported if it
/// says nothing.
pub proof fn law_word_of_the_gateway_is_passed_on(
    submitted: Result<SubmitReply, String>,
    response: Response,
)
    requires
        call_ensures(after_submit, (submitted,), response),
    ensures
        match submitted {
            Ok(reply) => {
                let told = Some(value_tree(response.payload));
                &&& response.status == 202
                &&& under(told, "status"@) == Some(JsonView::Text("submitted"@))
                &&& under(told, "accepted_chunks"@) == Some(
                    JsonView::Integer(reply.accepted_chunks as int),
                )
                &&& under(told, "rejected_chunks"@) == Some(
                    JsonView::Integer(reply.rejected_chunks as int),
                )
                &&& under(told, "rejection_reasons"@) == Some(
                    JsonView::Array(
                        Seq::new(
                            reply.rejection_reasons@.len(),
                            |i: int| JsonView::Text(reply.rejection_reasons@[i]@),
                        ),
                    ),
                )
                &&& only_members(
                    value_tree(response.payload),
                    seq![
                        "status"@,
                        "accepted_chunks"@,
                        "rejected_chunks"@,
                        "rejection_reasons"@,
                    ],
                )
            },
            Err(error) => reports(response, 502, "proposal_submit_failed"@, error@),
        },
{
    lemma_error_members(value_tree(response.payload));
    reveal_strlit("status");
    reveal_strlit("accepted_chunks");
    reveal_strlit("rejected_chunks");
    reveal_strlit("rejection_reasons");
    assert("status"@.len() == 6 && "rejection_reasons"@.len() == 17);
    assert("accepted_chunks"@[0] == 'a' && "rejected_chunks"@[0] == 'r');
    assert("accepted_chunks"@.len() == 15 && "rejected_chunks"@.len() == 15);
    let names = seq!["status"@, "accepted_chunks"@, "rejected_chunks"@, "rejection_reasons"@];
    assert(names[0] == "status"@ && names[1] == "accepted_chunks"@ && names[2]
        == "rejected_chunks"@ && names[3] == "rejection_reasons"@);
    if let Ok(reply) = submitted {
        assert(text_trees(texts(reply.rejection_reasons@)) =~= Seq::new(
            reply.rejection_reasons@.len(),
            |i: int| JsonView::Text(reply.rejection_reasons@[i]@),
        ));
    }
}

/// A text that may be missing.
pub open spec fn text_if_any(text: Option<String>) -> Option<Seq<char>> {
    match text {
        Some(text) => Some(text@),
        None => None,
    }
}

/// A sandbox is what it was made as, and writes its log to the usual place
/// unless another was given.
pub proof fn law_sandbox_is_as_it_was_made<P>(
    current_policy: Option<P>,
    gateway_endpoint: Option<String>,
    sandbox_name: Option<String>,
    ocsf_log_dir: String,
    usual: PolicyLocalContext<P>,
    placed: PolicyLocalContext<P>,
)
    requires
        call_ensures(
            PolicyLocalContext::<P>::new,
            (current_policy, gateway_endpoint, sandbox_name),
            usual,
        ),
        call_ensures(
            PolicyLocalContext::<P>::with_log_dir,
            (current_policy, gateway_endpoint, sandbox_name, ocsf_log_dir),
            placed,
        ),
    ensures
        usual.policy() == current_policy && placed.policy() == current_policy,
        usual.gateway() == text_if_any(gateway_endpoint),
        placed.gateway() == text_if_any(gateway_endpoint),
        usual.name() == text_if_any(sandbox_name),
        placed.name() == text_if_any(sandbox_name),
        usual.log_dir() == "/var/log"@,
        placed.log_dir() == ocsf_log_dir@,
{
}

/// A sandbox tells what it is.
pub proof fn law_sandbox_tells_what_it_is<P>(
    ctx: PolicyLocalContext<P>,
    policy: &Option<P>,
    endpoint: &Option<String>,
    name: &Option<String>,
    dir: &str,
)
    requires
        call_ensures(PolicyLocalContext::<P>::current_policy, (&ctx,), policy),
        call_ensures(PolicyLocalContext::<P>::gateway_endpoint, (&ctx,), endpoint),
        call_ensures(PolicyLocalContext::<P>::sandbox_name, (&ctx,), name),
        call_ensures(PolicyLocalContext::<P>::ocsf_log_dir, (&ctx,), dir),
    ensures
        *policy == ctx.policy(),
        text_if_any(*endpoint) == ctx.gateway(),
        text_if_any(*name) == ctx.name(),
        dir@ == ctx.log_dir(),
{
}

/// The policy that is set is the current one, and nothing else of the sandbox is
/// changed.
pub proof fn law_policy_that_is_set_is_current<P>(ctx: &mut PolicyLocalContext<P>, policy: P)
    requires
        call_ensures(PolicyLocalContext::<P>::set_current_policy, (ctx, policy), ()),
    ensures
        final(ctx).policy() == Some(policy),
        final(ctx).gateway() == old(ctx).gateway(),
        final(ctx).name() == old(ctx).name(),
        final(ctx).log_dir() == old(ctx).log_dir(),
{
}

} // verus!
