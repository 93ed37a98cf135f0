//! The routes of the API, and the pointers to them that an agent gets when a
//! request of it is denied.

use crate::denials::{denials_limit, limit_for};
use crate::json::{no_members, JsonView};
use crate::outside::{array_value, map_tree, new_map, object_value, value_tree, value_trees};
use crate::reply::{error_reply, error_response, put_text, Response, ResponseView};
use crate::split::split_at_first;
use crate::text::{same_text, split_once};
use vstd::prelude::*;
use vstd::string::*;

verus! {

/// The host name that the API is reached under inside the sandbox.
pub const POLICY_LOCAL_HOST: &'static str = "policy.local";

/// Where the guidance for agents lies inside the sandbox.
pub const SKILL_PATH: &'static str = "/etc/openshell/skills/policy_advisor.md";

/// The route of the current policy.
pub const ROUTE_POLICY_CURRENT: &'static str = "/v1/policy/current";

/// The route of the recent denials.
pub const ROUTE_DENIALS: &'static str = "/v1/denials";

/// The route that proposals are submitted to.
pub const ROUTE_PROPOSALS: &'static str = "/v1/proposals";

/// What is to be done for a request.
pub enum RouteView {
    CurrentPolicy,
    RecentDenials { limit: usize },
    SubmitProposal,
    NotFound(ResponseView),
}

/// What is to be done for a request.
#[derive(Debug)]
pub enum Route {
    /// Reply with the current policy.
    CurrentPolicy,
    /// Reply with the most recent denials, up to the limit.
    RecentDenials { limit: usize },
    /// Submit the proposal in the body.
    SubmitProposal,
    /// There is no such route: the reply that says so.
    NotFound(Response),
}

impl View for Route {
    type V = RouteView;

    open spec fn view(&self) -> RouteView {
        match *self {
            Route::CurrentPolicy => RouteView::CurrentPolicy,
            Route::RecentDenials { limit } => RouteView::RecentDenials { limit },
            Route::SubmitProposal => RouteView::SubmitProposal,
            Route::NotFound(response) => RouteView::NotFound(response@),
        }
    }
}

/// A request path without its query string, and the query string.
pub open spec fn split_query(path: Seq<char>) -> (Seq<char>, Seq<char>) {
    match split_once(path, '?') {
        Some((route, query)) => (route, query),
        None => (path, seq![]),
    }
}

/// The reply for a route that is not there.
pub open spec fn not_found_reply(method: Seq<char>, route: Seq<char>) -> ResponseView {
    error_reply(404, "not_found"@, "policy.local route not found: "@ + method + " "@ + route)
}

/// What is to be done for a request.
pub open spec fn route_of(method: Seq<char>, path: Seq<char>) -> RouteView {
    let (route, query) = split_query(path);
    if method == "GET"@ && route == ROUTE_POLICY_CURRENT@ {
        RouteView::CurrentPolicy
    } else if method == "GET"@ && route == ROUTE_DENIALS@ {
        RouteView::RecentDenials { limit: limit_for(query) }
    } else if method == "POST"@ && route == ROUTE_PROPOSALS@ {
        RouteView::SubmitProposal
    } else {
        RouteView::NotFound(not_found_reply(method, route))
    }
}

/// Decides what is to be done for a request.
pub fn route_request(method: &str, path: &str) -> (route: Route)
    ensures
        route@ == route_of(method@, path@),
{
    proof {
        reveal_strlit("");
    }
    let (route, query) = match split_at_first(path, '?') {
        Some((route, query)) => (route, query),
        None => (path, ""),
    };
    assert(query@ =~= split_query(path@).1);
    if same_text(method, "GET") && same_text(route, ROUTE_POLICY_CURRENT) {
        Route::CurrentPolicy
    } else if same_text(method, "GET") && same_text(route, ROUTE_DENIALS) {
        Route::RecentDenials { limit: denials_limit(query) }
    } else if same_text(method, "POST") && same_text(route, ROUTE_PROPOSALS) {
        Route::SubmitProposal
    } else {
        let detail = "policy.local route not found: ".to_owned().concat(method).concat(" ").concat(
            route,
        );
        Route::NotFound(error_response(404, "not_found", detail.as_str()))
    }
}

/// The URL of a route inside the sandbox.
pub open spec fn url_of(route: Seq<char>) -> Seq<char> {
    "http://"@ + POLICY_LOCAL_HOST@ + route
}

fn url_text(route: &str) -> (url: String)
    ensures
        url@ == url_of(route@),
{
    "http://".to_owned().concat(POLICY_LOCAL_HOST).concat(route)
}

/// A step that points at a request.
pub open spec fn request_step(action: Seq<char>, method: Seq<char>, url: Seq<char>) -> Map<
    Seq<char>,
    JsonView,
> {
    no_members().insert("action"@, JsonView::Text(action)).insert(
        "method"@,
        JsonView::Text(method),
    ).insert("url"@, JsonView::Text(url))
}

/// The steps that an agent can take after a denial.
pub open spec fn next_steps() -> Seq<JsonView> {
    seq![
        JsonView::Object(
            no_members().insert("action"@, JsonView::Text("read_skill"@)).insert(
                "path"@,
                JsonView::Text(SKILL_PATH@),
            ),
        ),
        JsonView::Object(request_step("inspect_policy"@, "GET"@, url_of(ROUTE_POLICY_CURRENT@))),
        JsonView::Object(
            request_step("inspect_recent_denials"@, "GET"@, url_of(ROUTE_DENIALS@) + "?last=5"@),
        ),
        JsonView::Object(
            request_step("submit_proposal"@, "POST"@, url_of(ROUTE_PROPOSALS@)).insert(
                "body_type"@,
                JsonView::Text("PolicyMergeOperation"@),
            ),
        ),
    ]
}

fn request_members(action: &str, method: &str, url: &str) -> (members: serde_json::Map<
    String,
    serde_json::Value,
>)
    ensures
        map_tree(members) == request_step(action@, method@, url@),
{
    let mut members = new_map();
    put_text(&mut members, "action", action);
    put_text(&mut members, "method", method);
    put_text(&mut members, "url", url);
    members
}

/// The steps that an agent can take after a denial, for the body of the reply
/// that denies its request.
#[must_use]
pub fn agent_next_steps() -> (steps: serde_json::Value)
    ensures
        value_tree(steps) == JsonView::Array(next_steps()),
{
    let mut read_skill = new_map();
    put_text(&mut read_skill, "action", "read_skill");
    put_text(&mut read_skill, "path", SKILL_PATH);
    let inspect_policy = request_members(
        "inspect_policy",
        "GET",
        url_text(ROUTE_POLICY_CURRENT).as_str(),
    );
    let inspect_recent_denials = request_members(
        "inspect_recent_denials",
        "GET",
        url_text(ROUTE_DENIALS).concat("?last=5").as_str(),
    );
    let mut submit_proposal = request_members(
        "submit_proposal",
        "POST",
        url_text(ROUTE_PROPOSALS).as_str(),
    );
    put_text(&mut submit_proposal, "body_type", "PolicyMergeOperation");
    let steps: Vec<serde_json::Value> = vec![
        object_value(read_skill),
        object_value(inspect_policy),
        object_value(inspect_recent_denials),
        object_value(submit_proposal),
    ];
    assert(value_trees(steps@) =~= next_steps());
    array_value(steps)
}

} // verus!
