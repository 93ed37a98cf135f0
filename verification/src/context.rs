//! What the API knows about its sandbox.

use crate::json::{no_members, JsonView};
use crate::logs::OCSF_LOG_DIR;
use crate::outside::{new_map, object_value};
use crate::proposal::string_view;
use crate::reply::{error_reply, error_response, put_text, Response, ResponseView};
use vstd::prelude::*;

verus! {

/// The sandbox that the API serves: its current policy, of type `P`, the
/// gateway that it is connected to, its name, and where its OCSF log is.
#[derive(Debug)]
pub struct PolicyLocalContext<P> {
    current_policy: Option<P>,
    gateway_endpoint: Option<String>,
    sandbox_name: Option<String>,
    ocsf_log_dir: String,
}

impl<P> PolicyLocalContext<P> {
    /// The current policy, if one is loaded.
    pub closed spec fn policy(self) -> Option<P> {
        self.current_policy
    }

    /// The endpoint of the gateway, if the sandbox is connected to one.
    pub closed spec fn gateway(self) -> Option<Seq<char>> {
        string_view(self.gateway_endpoint)
    }

    /// The name of the sandbox, if it has one.
    pub closed spec fn name(self) -> Option<Seq<char>> {
        string_view(self.sandbox_name)
    }

    /// The directory that the OCSF log is written to.
    pub closed spec fn log_dir(self) -> Seq<char> {
        self.ocsf_log_dir@
    }

    /// A sandbox that writes its OCSF log to the usual place.
    pub fn new(
        current_policy: Option<P>,
        gateway_endpoint: Option<String>,
        sandbox_name: Option<String>,
    ) -> (ctx: Self)
        ensures
            ctx.policy() == current_policy,
            ctx.gateway() == string_view(gateway_endpoint),
            ctx.name() == string_view(sandbox_name),
            ctx.log_dir() == OCSF_LOG_DIR@,
    {
        Self::with_log_dir(
            current_policy,
            gateway_endpoint,
            sandbox_name,
            OCSF_LOG_DIR.to_owned(),
        )
    }

    /// A sandbox that writes its OCSF log to that directory.
    pub fn with_log_dir(
        current_policy: Option<P>,
        gateway_endpoint: Option<String>,
        sandbox_name: Option<String>,
        ocsf_log_dir: String,
    ) -> (ctx: Self)
        ensures
            ctx.policy() == current_policy,
            ctx.gateway() == string_view(gateway_endpoint),
            ctx.name() == string_view(sandbox_name),
            ctx.log_dir() == ocsf_log_dir@,
    {
        PolicyLocalContext { current_policy, gateway_endpoint, sandbox_name, ocsf_log_dir }
    }

    /// Puts a policy in place of the current one.
    pub fn set_current_policy(&mut self, policy: P)
        ensures
            final(self).policy() == Some(policy),
            final(self).gateway() == old(self).gateway(),
            final(self).name() == old(self).name(),
            final(self).log_dir() == old(self).log_dir(),
    {
        self.current_policy = Some(policy);
    }

    /// The current policy, if one is loaded.
    pub fn current_policy(&self) -> (policy: &Option<P>)
        ensures
            *policy == self.policy(),
    {
        &self.current_policy
    }

    /// The endpoint of the gateway, if the sandbox is connected to one.
    pub fn gateway_endpoint(&self) -> (endpoint: &Option<String>)
        ensures
            string_view(*endpoint) == self.gateway(),
    {
        &self.gateway_endpoint
    }

    /// The name of the sandbox, if it has one.
    pub fn sandbox_name(&self) -> (name: &Option<String>)
        ensures
            string_view(*name) == self.name(),
    {
        &self.sandbox_name
    }

    /// The directory that the OCSF log is written to.
    pub fn ocsf_log_dir(&self) -> (dir: &str)
        ensures
            dir@ == self.log_dir(),
    {
        self.ocsf_log_dir.as_str()
    }
}

/// The reply with the current policy.
pub open spec fn current_policy_reply(policy: Option<Result<Seq<char>, Seq<char>>>) -> ResponseView {
    match policy {
        Some(Ok(yaml)) => ResponseView {
            status: 200,
            payload: JsonView::Object(
                no_members().insert("format"@, JsonView::Text("yaml"@)).insert(
                    "policy_yaml"@,
                    JsonView::Text(yaml),
                ),
            ),
        },
        Some(Err(error)) => error_reply(500, "policy_serialize_failed"@, error),
        None => error_reply(404, "policy_unavailable"@, "no current sandbox policy is loaded"@),
    }
}

/// What came of writing the current policy down.
pub open spec fn yaml_view(policy: Option<Result<String, String>>) -> Option<
    Result<Seq<char>, Seq<char>>,
> {
    match policy {
        Some(Ok(yaml)) => Some(Ok(yaml@)),
        Some(Err(error)) => Some(Err(error@)),
        None => None,
    }
}

/// Replies with the current policy. `policy` is what came of writing it down
/// as YAML, or `None` if none is loaded.
pub fn current_policy_response(policy: Option<Result<String, String>>) -> (response: Response)
    ensures
        response@ == current_policy_reply(yaml_view(policy)),
{
    match policy {
        Some(Ok(yaml)) => {
            let mut members = new_map();
            put_text(&mut members, "format", "yaml");
            put_text(&mut members, "policy_yaml", yaml.as_str());
            Response { status: 200, payload: object_value(members) }
        },
        Some(Err(error)) => error_response(500, "policy_serialize_failed", error.as_str()),
        None => error_response(404, "policy_unavailable", "no current sandbox policy is loaded"),
    }
}

} // verus!
