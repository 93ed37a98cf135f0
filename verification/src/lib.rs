//! The sandbox-local policy advisor API, served to agents at
//! `http://policy.local`.
//!
//! An agent in the sandbox reads the current policy and the recent denials, and
//! proposes changes of the policy for a developer to decide on. This crate
//! holds what the API decides and computes: how the body of a request is read,
//! where a request is routed to, which log files and which denials are listed,
//! what a proposal becomes, and how a reply is written. Reading and sending
//! bytes, files and gateway calls is left to the caller.

pub mod chunks;
pub mod context;
pub mod denials;
pub mod json;
pub mod laws;
pub mod laws_of_denials;
pub mod laws_of_logs;
pub mod laws_of_proposals;
pub mod laws_of_replies;
pub mod laws_of_requests;
pub mod laws_of_text;
pub mod logs;
pub mod outside;
pub mod proposal;
pub mod reply;
pub mod request;
pub mod routes;
pub mod split;
pub mod submit;
pub mod text;
pub mod wire;

pub use chunks::{
    network_endpoint_from_json, network_rule_from_json, policy_chunk_from_add_rule,
    proposal_chunks, proposal_chunks_from_body,
};
pub use context::{current_policy_response, PolicyLocalContext};
pub use denials::{
    denial_summary_from_event, denials_limit, denials_response, parse_last_query,
    read_recent_denials, recent_denials_response, DEFAULT_DENIALS_LIMIT, MAX_DENIALS_LIMIT,
};
pub use json::{parse_json, Json, Member};
pub use logs::{
    collect_ocsf_log_files, log_available, logs_to_scan, LogEntry, DENIAL_LOG_FILES_TO_SCAN,
    OCSF_LOG_DIR, OCSF_LOG_PREFIX,
};
pub use proposal::{
    AddNetworkRuleJson, L7Allow, L7AllowJson, L7DenyRule, L7DenyRuleJson, L7Rule, L7RuleJson,
    NetworkBinary, NetworkBinaryJson, NetworkEndpoint, NetworkEndpointJson, NetworkPolicyRule,
    NetworkPolicyRuleJson, PolicyChunk, ProposalOperation, ProposalRequest,
};
pub use reply::{
    error_payload, error_response, frame_response, render_response, status_text, Response,
};
pub use request::{
    content_length_of, find_header_end, parse_content_length, BodyError, BodyRead,
    MAX_POLICY_LOCAL_BODY_BYTES, MAX_READ_BYTES,
};
pub use routes::{
    agent_next_steps, route_request, Route, POLICY_LOCAL_HOST, ROUTE_DENIALS,
    ROUTE_POLICY_CURRENT, ROUTE_PROPOSALS, SKILL_PATH,
};
pub use submit::{
    after_connect, after_submit, submit_proposal, Submission, SubmitAction, SubmitReply,
    ANALYSIS_MODE,
};
