//! The submission of a proposal to the gateway.

use crate::chunks::{body_chunks, chunk_views, outcome, proposal_chunks_from_body};
use crate::context::PolicyLocalContext;
use crate::json::{no_members, JsonView};
use crate::outside::{
    array_value, map_insert, new_map, object_value, text_value, u64_value, value_tree, value_trees,
};
use crate::proposal::{texts, ChunkView, PolicyChunk, ProposalRequest, RequestView};
use crate::reply::{error_reply, error_response, put_text, Response, ResponseView};
use crate::text::{is_blank, is_blank_text, trim, trim_text};
use vstd::prelude::*;

verus! {

/// How the gateway is told where chunks come from.
pub const ANALYSIS_MODE: &'static str = "agent_authored";

/// What is submitted to the gateway.
#[derive(Debug)]
pub struct Submission {
    pub sandbox_name: String,
    pub summaries: Vec<String>,
    pub chunks: Vec<PolicyChunk>,
    pub analysis_mode: String,
}

/// What is submitted to the gateway.
#[verifier::ext_equal]
pub struct SubmissionView {
    pub sandbox_name: Seq<char>,
    pub summaries: Seq<Seq<char>>,
    pub chunks: Seq<ChunkView>,
    pub analysis_mode: Seq<char>,
}

impl View for Submission {
    type V = SubmissionView;

    open spec fn view(&self) -> SubmissionView {
        SubmissionView {
            sandbox_name: self.sandbox_name@,
            summaries: texts(self.summaries@),
            chunks: chunk_views(self.chunks@),
            analysis_mode: self.analysis_mode@,
        }
    }
}

/// What is to be done next for a proposal.
#[derive(Debug)]
pub enum SubmitAction {
    /// Reply. Nothing else is left to do.
    Respond(Response),
    /// Connect to the gateway at that endpoint.
    Connect { endpoint: String, submission: Submission },
    /// Submit over the connection.
    Submit(Submission),
}

/// What is to be done next for a proposal.
pub enum SubmitActionView {
    Respond(ResponseView),
    Connect { endpoint: Seq<char>, submission: SubmissionView },
    Submit(SubmissionView),
}

impl View for SubmitAction {
    type V = SubmitActionView;

    open spec fn view(&self) -> SubmitActionView {
        match *self {
            SubmitAction::Respond(response) => SubmitActionView::Respond(response@),
            SubmitAction::Connect { endpoint, submission } => SubmitActionView::Connect {
                endpoint: endpoint@,
                submission: submission@,
            },
            SubmitAction::Submit(submission) => SubmitActionView::Submit(submission@),
        }
    }
}

/// What is submitted of chunks under the name of the sandbox.
pub open spec fn submission_of(name: Seq<char>, chunks: Seq<ChunkView>) -> SubmissionView {
    SubmissionView {
        sandbox_name: trim(name),
        summaries: seq![],
        chunks,
        analysis_mode: ANALYSIS_MODE@,
    }
}

/// The first thing to do for a proposal.
pub open spec fn first_action(
    gateway: Option<Seq<char>>,
    name: Option<Seq<char>>,
    body: Result<RequestView, Seq<char>>,
) -> SubmitActionView {
    match gateway {
        Some(endpoint) => if name matches Some(name) && !is_blank(name) {
            match body_chunks(body) {
                Ok(chunks) => SubmitActionView::Connect {
                    endpoint,
                    submission: submission_of(name->0, chunks),
                },
                Err(error) => SubmitActionView::Respond(
                    error_reply(400, "invalid_proposal"@, error),
                ),
            }
        } else {
            SubmitActionView::Respond(
                error_reply(
                    503,
                    "sandbox_name_unavailable"@,
                    "policy proposal submission requires a sandbox name"@,
                ),
            )
        },
        None => SubmitActionView::Respond(
            error_reply(
                503,
                "gateway_unavailable"@,
                "policy proposal submission requires a gateway-connected sandbox"@,
            ),
        ),
    }
}

/// Begins to submit a proposal: checks that there is a gateway to submit it
/// to and a sandbox to submit it for, and that it is one. `body` is the
/// proposal in the body of the request, or why it is not one.
pub fn submit_proposal<P>(
    ctx: &PolicyLocalContext<P>,
    body: Result<ProposalRequest, String>,
) -> (action: SubmitAction)
    ensures
        action@ == first_action(ctx.gateway(), ctx.name(), outcome(body)),
{
    let endpoint = match ctx.gateway_endpoint() {
        Some(endpoint) => endpoint,
        None => {
            return SubmitAction::Respond(
                error_response(
                    503,
                    "gateway_unavailable",
                    "policy proposal submission requires a gateway-connected sandbox",
                ),
            );
        },
    };
    let sandbox_name = match ctx.sandbox_name() {
        Some(name) if !is_blank_text(name.as_str()) => trim_text(name.as_str()).to_owned(),
        _ => {
            return SubmitAction::Respond(
                error_response(
                    503,
                    "sandbox_name_unavailable",
                    "policy proposal submission requires a sandbox name",
                ),
            );
        },
    };
    match proposal_chunks_from_body(body) {
        Ok(chunks) => {
            let submission = Submission {
                sandbox_name,
                summaries: Vec::new(),
                chunks,
                analysis_mode: ANALYSIS_MODE.to_owned(),
            };
            assert(submission@ =~= submission_of(ctx.name()->0, chunk_views(chunks@)));
            SubmitAction::Connect { endpoint: endpoint.clone(), submission }
        },
        Err(error) => SubmitAction::Respond(error_response(400, "invalid_proposal", error.as_str())),
    }
}

/// What is to be done once the gateway was called: submit, or reply that it
/// could not be reached.
pub fn after_connect(submission: Submission, connected: Result<(), String>) -> (action:
    SubmitAction)
    ensures
        action@ == match connected {
            Ok(_) => SubmitActionView::Submit(submission@),
            Err(error) => SubmitActionView::Respond(
                error_reply(502, "gateway_connect_failed"@, error@),
            ),
        },
{
    match connected {
        Ok(_) => SubmitAction::Submit(submission),
        Err(error) => SubmitAction::Respond(
            error_response(502, "gateway_connect_failed", error.as_str()),
        ),
    }
}

/// What the gateway says of a submission.
#[derive(Debug)]
pub struct SubmitReply {
    pub accepted_chunks: u32,
    pub rejected_chunks: u32,
    pub rejection_reasons: Vec<String>,
}

/// Strings of a JSON array.
pub open spec fn text_trees(strings: Seq<Seq<char>>) -> Seq<JsonView> {
    strings.map_values(|text: Seq<char>| JsonView::Text(text))
}

/// The payload that reports what the gateway says of a submission.
pub open spec fn submitted_tree(reply: SubmitReply) -> JsonView {
    JsonView::Object(
        no_members().insert("status"@, JsonView::Text("submitted"@)).insert(
            "accepted_chunks"@,
            JsonView::Integer(reply.accepted_chunks as int),
        ).insert("rejected_chunks"@, JsonView::Integer(reply.rejected_chunks as int)).insert(
            "rejection_reasons"@,
            JsonView::Array(text_trees(texts(reply.rejection_reasons@))),
        ),
    )
}

fn text_values(strings: &Vec<String>) -> (values: Vec<serde_json::Value>)
    ensures
        value_trees(values@) == text_trees(texts(strings@)),
{
    let mut values: Vec<serde_json::Value> = Vec::new();
    let mut i: usize = 0;
    while i < strings.len()
        invariant
            i <= strings@.len(),
            values@.len() == i,
            forall|j: int|
                0 <= j < i ==> value_tree(#[trigger] values@[j]) == JsonView::Text(strings@[j]@),
        decreases strings@.len() - i,
    {
        values.push(text_value(strings[i].as_str()));
        i += 1;
    }
    assert(value_trees(values@) =~= text_trees(texts(strings@)));
    values
}

/// Replies with what the gateway says of a submission, or with why it said
/// nothing.
pub fn after_submit(submitted: Result<SubmitReply, String>) -> (response: Response)
    ensures
        response@ == match submitted {
            Ok(reply) => ResponseView { status: 202, payload: submitted_tree(reply) },
            Err(error) => error_reply(502, "proposal_submit_failed"@, error@),
        },
{
    match submitted {
        Ok(reply) => {
            let mut members = new_map();
            put_text(&mut members, "status", "submitted");
            map_insert(
                &mut members,
                "accepted_chunks".to_owned(),
                u64_value(reply.accepted_chunks as u64),
            );
            map_insert(
                &mut members,
                "rejected_chunks".to_owned(),
                u64_value(reply.rejected_chunks as u64),
            );
            let reasons = array_value(text_values(&reply.rejection_reasons));
            map_insert(&mut members, "rejection_reasons".to_owned(), reasons);
            Response { status: 202, payload: object_value(members) }
        },
        Err(error) => error_response(502, "proposal_submit_failed", error.as_str()),
    }
}

} // verus!
