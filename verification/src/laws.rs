//! What holds of the API as a whole.

use crate::chunks::{
    all_or_first_error, any_query, body_chunks, chunk_of, chunks_of, endpoint_of, has_query,
    to_chunk, to_endpoint,
};
use crate::context::current_policy_reply;
use crate::denials::{
    clip, denial_of, denial_summary, denials_reply, limit_for, line_denial, logged_denials,
    newest_denials, u64_of, MAX_DENIALS_LIMIT,
};
use crate::json::{is_simple, JsonView};
use crate::logs::{is_log, newest_first, LogEntry};
use crate::outside::parsed_tree;
use crate::proposal::{texts, AddRuleView, ChunkView, EndpointView, RequestView};
use crate::reply::error_reply;
use crate::request::first_bytes;
use crate::routes::{
    next_steps, route_of, url_of, ROUTE_DENIALS, ROUTE_POLICY_CURRENT, ROUTE_PROPOSALS,
};
use crate::submit::{
    first_action, submitted_tree, text_trees, SubmitActionView, SubmitReply, ANALYSIS_MODE,
};
use crate::text::{
    is_blank, lemma_find_behind, lemma_line_first, lemma_lines_concat, lemma_trim_blank, lines,
    trim,
};
use vstd::prelude::*;

verus! {

/// The members of an event that a summary is made from.
pub open spec fn read_names() -> Seq<Seq<char>> {
    seq![
        "action_id"@,
        "class_uid"@,
        "time"@,
        "dst_endpoint"@,
        "http_request"@,
        "actor"@,
        "firewall_rule"@,
    ]
}

/// The members that a summary can have.
pub open spec fn summary_names() -> Seq<Seq<char>> {
    seq![
        "layer"@,
        "time_ms"@,
        "host"@,
        "port"@,
        "method"@,
        "path"@,
        "binary"@,
        "policy"@,
    ]
}

/// A summary depends on nothing in an event but the members that it is made
/// from: two events that agree on these have the same summary.
pub proof fn law_summary_reads_only_its_members(a: JsonView, b: JsonView)
    requires
        forall|i: int|
            0 <= i < read_names().len() ==> a.get(#[trigger] read_names()[i]) == b.get(
                read_names()[i],
            ),
    ensures
        denial_summary(a) == denial_summary(b),
{
    let names = read_names();
    assert(a.get(names[0]) == b.get(names[0]));
    assert(a.get(names[1]) == b.get(names[1]));
    assert(a.get(names[2]) == b.get(names[2]));
    assert(a.get(names[3]) == b.get(names[3]));
    assert(a.get(names[4]) == b.get(names[4]));
    assert(a.get(names[5]) == b.get(names[5]));
    assert(a.get(names[6]) == b.get(names[6]));
}

/// The message of an event leaves no trace in the summary: whatever it is, or
/// if it is missing, the summary is the same.
pub proof fn law_message_leaves_no_trace(members: Map<Seq<char>, JsonView>, message: JsonView)
    ensures
        denial_summary(JsonView::Object(members.insert("message"@, message))) == denial_summary(
            JsonView::Object(members.remove("message"@)),
        ),
{
    reveal_strlit("message");
    reveal_strlit("action_id");
    reveal_strlit("class_uid");
    reveal_strlit("time");
    reveal_strlit("dst_endpoint");
    reveal_strlit("http_request");
    reveal_strlit("actor");
    reveal_strlit("firewall_rule");
    let a = JsonView::Object(members.insert("message"@, message));
    let b = JsonView::Object(members.remove("message"@));
    let names = read_names();
    assert("message"@.len() == 7 && "message"@[0] == 'm');
    assert forall|i: int| 0 <= i < names.len() implies a.get(#[trigger] names[i]) == b.get(names[i]) by {
        assert(names[i].len() != 7 || names[i][0] != 'm');
        assert(names[i] != "message"@);
    }
    law_summary_reads_only_its_members(a, b);
}

/// A summary is an object with no members but those that a summary can have.
pub proof fn law_summary_has_only_its_members(event: JsonView, name: Seq<char>)
    requires
        denial_summary(event) matches Some(summary) && summary.get(name) is Some,
    ensures
        summary_names().contains(name),
{
    let names = summary_names();
    assert(names[0] == "layer"@);
    assert(names[1] == "time_ms"@);
    assert(names[2] == "host"@);
    assert(names[3] == "port"@);
    assert(names[4] == "method"@);
    assert(names[5] == "path"@);
    assert(names[6] == "binary"@);
    assert(names[7] == "policy"@);
}

/// Only denied network activity and denied HTTP activity is summarized, and
/// all of it is.
pub proof fn law_only_denials_are_summarized(event: JsonView)
    ensures
        denial_summary(event) is Some <==> {
            &&& u64_of(event.get("action_id"@)) == Some(2u64)
            &&& (u64_of(event.get("class_uid"@)) == Some(4001u64) || u64_of(
                event.get("class_uid"@),
            ) == Some(4002u64))
        },
{
}

/// However a query is written, at least one denial is asked for and no more
/// than the most that can be.
pub proof fn law_limit_is_within_bounds(query: Seq<char>)
    ensures
        1 <= limit_for(query) <= MAX_DENIALS_LIMIT,
{
}

/// The denials of a log file are listed in the reverse of the order in which
/// it records them: the newest first, and none left out.
pub proof fn law_denials_are_listed_newest_first(log_lines: Seq<Seq<char>>)
    ensures
        newest_denials(log_lines) == log_lines.filter_map(
            |line: Seq<char>| line_denial(line),
        ).reverse(),
    decreases log_lines.len(),
{
    let f = |line: Seq<char>| line_denial(line);
    if log_lines.len() > 0 {
        law_denials_are_listed_newest_first(log_lines.drop_last());
        let earlier = log_lines.drop_last().filter_map(f);
        match line_denial(log_lines.last()) {
            Some(denial) => {
                assert((earlier + seq![denial]).reverse() =~= seq![denial] + earlier.reverse());
            },
            None => {},
        }
    } else {
        assert(log_lines.filter_map(f).reverse() =~= seq![]);
    }
}

/// A denial that is written to the end of a log file is listed before all
/// that the file recorded so far; a line that records no denial changes
/// nothing.
pub proof fn law_appended_denial_is_listed_first(log: Seq<char>, line: Seq<char>)
    requires
        log.len() == 0 || log.last() == '\n',
        !line.contains('\n'),
        line.len() == 0 || line.last() != '\r',
    ensures
        newest_denials(lines(log + line + seq!['\n'])) == match line_denial(line) {
            Some(denial) => seq![denial] + newest_denials(lines(log)),
            None => newest_denials(lines(log)),
        },
{
    lemma_lines_concat(log, line + seq!['\n']);
    lemma_line_first(line, seq![]);
    assert(line + seq!['\n'] + seq![] =~= line + seq!['\n']);
    assert(lines(seq![]) =~= seq![]) by {
        assert(!Seq::<char>::empty().contains('\n'));
    }
    assert(log + (line + seq!['\n']) =~= log + line + seq!['\n']);
    let all = lines(log + line + seq!['\n']);
    assert(all =~= lines(log).push(line));
    assert(all.drop_last() =~= lines(log));
}

/// No more denials are listed than are asked for, and to ask for more only
/// adds to the end of the list.
pub proof fn law_limit_cuts_the_list(all: Seq<JsonView>, limit: usize, more: usize)
    requires
        limit <= more,
    ensures
        clip(all, limit).len() <= limit,
        clip(all, limit).is_prefix_of(clip(all, more)),
        clip(all, more).is_prefix_of(all),
        all.len() <= limit ==> clip(all, limit) == all,
{
}

/// An agent can tell an empty log from a log that is not there: the reply says
/// which, and points out what to do just where there is no log.
pub proof fn law_missing_log_is_told(denials: Seq<JsonView>, log_available: bool)
    ensures
        ({
            let payload = denials_reply(denials, log_available).payload;
            &&& payload.get("denials"@) == Some(JsonView::Array(denials))
            &&& payload.get("log_available"@) == Some(JsonView::Bool(log_available))
            &&& payload.get("note"@) is None <==> log_available
        }),
{
    reveal_strlit("denials");
    reveal_strlit("log_available");
    reveal_strlit("note");
    assert("denials"@.len() == 7 && "log_available"@.len() == 13 && "note"@.len() == 4);
}

/// Every denial that is listed is recorded in a log file that could be read.
pub proof fn law_listed_denials_are_logged(logs: Seq<Option<Seq<char>>>, k: int)
    requires
        0 <= k < logged_denials(logs).len(),
    ensures
        exists|i: int, j: int|
            0 <= i < logs.len() && logs[i] is Some && 0 <= j < lines(logs[i]->0).len()
                && #[trigger] line_denial(lines(logs[i]->0)[j]) == Some(logged_denials(logs)[k]),
    decreases logs.len(),
{
    let first = match logs[0] {
        Some(text) => newest_denials(lines(text)),
        None => seq![],
    };
    if k < first.len() {
        lemma_listed_line(lines(logs[0]->0), k);
    } else {
        let rest = logs.skip(1);
        law_listed_denials_are_logged(rest, k - first.len());
        let (i, j) = choose|i: int, j: int|
            0 <= i < rest.len() && rest[i] is Some && 0 <= j < lines(rest[i]->0).len()
                && #[trigger] line_denial(lines(rest[i]->0)[j]) == Some(
                logged_denials(rest)[k - first.len()],
            );
        assert(rest[i] == logs[i + 1]);
        assert(line_denial(lines(logs[i + 1]->0)[j]) == Some(logged_denials(logs)[k]));
    }
}

proof fn lemma_listed_line(log_lines: Seq<Seq<char>>, k: int)
    requires
        0 <= k < newest_denials(log_lines).len(),
    ensures
        exists|j: int|
            0 <= j < log_lines.len() && #[trigger] line_denial(log_lines[j]) == Some(
                newest_denials(log_lines)[k],
            ),
    decreases log_lines.len(),
{
    let earlier = log_lines.drop_last();
    let n: int = if line_denial(log_lines.last()) is Some {
        1
    } else {
        0
    };
    if k < n {
        assert(line_denial(log_lines[log_lines.len() - 1]) == Some(newest_denials(log_lines)[k]));
    } else {
        lemma_listed_line(earlier, k - n);
        let j = choose|j: int|
            0 <= j < earlier.len() && #[trigger] line_denial(earlier[j]) == Some(
                newest_denials(earlier)[k - n],
            );
        assert(earlier[j] == log_lines[j]);
        assert(line_denial(log_lines[j]) == Some(newest_denials(log_lines)[k]));
    }
}

/// There is one order only in which log files are listed.
pub proof fn law_one_order_of_log_files<P>(
    entries: Seq<LogEntry<P>>,
    a: Seq<int>,
    b: Seq<int>,
)
    requires
        newest_first(entries, a),
        newest_first(entries, b),
    ensures
        a == b,
{
    let n: int = if a.len() <= b.len() {
        a.len() as int
    } else {
        b.len() as int
    };
    lemma_orders_agree(entries, a, b, n);
    if a.len() > n {
        assert(is_log(entries[a[n]]));
        assert(b.contains(a[n]));
    }
    if b.len() > n {
        assert(is_log(entries[b[n]]));
        assert(a.contains(b[n]));
    }
    assert(a =~= b);
}

proof fn lemma_orders_agree<P>(entries: Seq<LogEntry<P>>, a: Seq<int>, b: Seq<int>, n: int)
    requires
        newest_first(entries, a),
        newest_first(entries, b),
        0 <= n <= a.len(),
        n <= b.len(),
    ensures
        forall|k: int| 0 <= k < n ==> a[k] == b[k],
    decreases n,
{
    if n > 0 {
        let k = n - 1;
        lemma_orders_agree(entries, a, b, k);
        assert(is_log(entries[a[k]]));
        assert(is_log(entries[b[k]]));
        let l = b.index_of(a[k]);
        let m = a.index_of(b[k]);
        assert(b.contains(a[k]) && a.contains(b[k]));
        assert(b[l] == a[k] && a[m] == b[k]);
        assert(l >= k && m >= k) by {
            if l < k {
                assert(a[l] == b[l]);
            }
            if m < k {
                assert(b[m] == a[m]);
            }
        }
    }
}

/// What is to be done with each of several things is done with all of them,
/// in their order, or not at all: then the first that fails says why.
pub proof fn law_all_or_first_error<A, B>(items: Seq<A>, f: spec_fn(A) -> Result<B, Seq<char>>)
    ensures
        match all_or_first_error(items, f) {
            Ok(done) => done.len() == items.len() && forall|i: int|
                0 <= i < items.len() ==> f(#[trigger] items[i]) == Ok::<B, Seq<char>>(done[i]),
            Err(error) => exists|k: int|
                0 <= k < items.len() && f(#[trigger] items[k]) == Err::<B, Seq<char>>(error)
                    && forall|j: int| 0 <= j < k ==> f(#[trigger] items[j]) is Ok,
        },
    decreases items.len(),
{
    if items.len() > 0 {
        let before = items.drop_last();
        let n = before.len() as int;
        law_all_or_first_error(before, f);
        match all_or_first_error(before, f) {
            Ok(done) => {
                assert forall|i: int| 0 <= i < n implies f(#[trigger] items[i]) is Ok by {
                    assert(items[i] == before[i]);
                }
                match f(items.last()) {
                    Ok(last) => {
                        assert forall|i: int| 0 <= i < items.len() implies f(#[trigger] items[i])
                            == Ok::<B, Seq<char>>(done.push(last)[i]) by {
                            if i < n {
                                assert(items[i] == before[i]);
                            }
                        }
                    },
                    Err(error) => {
                        assert(f(items[n]) == Err::<B, Seq<char>>(error));
                    },
                }
            },
            Err(error) => {
                let k = choose|k: int|
                    0 <= k < before.len() && f(#[trigger] before[k]) == Err::<B, Seq<char>>(error)
                        && forall|j: int| 0 <= j < k ==> f(#[trigger] before[j]) is Ok;
                assert(items[k] == before[k]);
                assert forall|j: int| 0 <= j < k implies f(#[trigger] items[j]) is Ok by {
                    assert(items[j] == before[j]);
                }
            },
        }
    }
}

/// Whether an endpoint says where it is, and allows no path with a query
/// string.
pub open spec fn is_sound_endpoint(endpoint: EndpointView) -> bool {
    &&& !is_blank(endpoint.host)
    &&& endpoint.ports.len() > 0
    &&& endpoint.port == endpoint.ports[0]
    &&& forall|i: int|
        0 <= i < endpoint.rules.len() ==> {
            &&& #[trigger] endpoint.rules[i] is Some
            &&& !endpoint.rules[i]->0.request.path.contains('?')
            &&& endpoint.rules[i]->0.query.len() == 0
        }
}

/// Whether a chunk proposes a rule that has a name and sound endpoints, and is
/// not decided on.
pub open spec fn is_sound_chunk(chunk: ChunkView) -> bool {
    &&& chunk.status == "pending"@
    &&& chunk.stage == "agent"@
    &&& !is_blank(chunk.rule_name)
    &&& chunk.proposed_rule is Some
    &&& !is_blank(chunk.proposed_rule->0.name)
    &&& chunk.proposed_rule->0.endpoints.len() > 0
    &&& forall|i: int|
        0 <= i < chunk.proposed_rule->0.endpoints.len() ==> is_sound_endpoint(
            #[trigger] chunk.proposed_rule->0.endpoints[i],
        )
}

/// A chunk that is accepted is sound.
pub proof fn law_accepted_chunk_is_sound(add_rule: AddRuleView, intent_summary: Seq<char>)
    ensures
        chunk_of(add_rule, intent_summary) matches Ok(chunk) ==> is_sound_chunk(chunk)
            && chunk.rationale == intent_summary,
{
    if let Ok(chunk) = chunk_of(add_rule, intent_summary) {
        let asked = add_rule.rule.endpoints;
        law_all_or_first_error(asked, to_endpoint());
        let rule = chunk.proposed_rule->0;
        assert forall|i: int| 0 <= i < rule.endpoints.len() implies is_sound_endpoint(
            #[trigger] rule.endpoints[i],
        ) by {
            assert(to_endpoint()(asked[i]) == Ok::<EndpointView, Seq<char>>(rule.endpoints[i]));
            let endpoint = rule.endpoints[i];
            assert forall|j: int| 0 <= j < endpoint.rules.len() implies {
                &&& #[trigger] endpoint.rules[j] is Some
                &&& !endpoint.rules[j]->0.request.path.contains('?')
                &&& endpoint.rules[j]->0.query.len() == 0
            } by {
                assert(endpoint.rules[j] == Some(any_query(asked[i].rules[j])));
                assert(!asked[i].rules[j].path.contains('?'));
            }
        }
    }
}

/// A proposal that is accepted asks for one sound chunk with each of its
/// operations, and for at least one.
pub proof fn law_accepted_chunks_are_sound(request: RequestView)
    ensures
        chunks_of(request) matches Ok(chunks) ==> {
            &&& chunks.len() == request.operations.len()
            &&& chunks.len() > 0
            &&& forall|i: int| 0 <= i < chunks.len() ==> is_sound_chunk(#[trigger] chunks[i])
        },
{
    if let Ok(chunks) = chunks_of(request) {
        let summary = match request.intent_summary {
            Some(summary) => summary,
            None => seq![],
        };
        law_all_or_first_error(request.operations, to_chunk(summary));
        assert forall|i: int| 0 <= i < chunks.len() implies is_sound_chunk(#[trigger] chunks[i]) by {
            let operation = request.operations[i];
            assert(to_chunk(summary)(operation) == Ok::<ChunkView, Seq<char>>(chunks[i]));
            law_accepted_chunk_is_sound(operation->0->Ok_0, summary);
        }
    }
}

/// A proposal that asks to allow a path with a query string is not accepted,
/// whatever else it asks for.
pub proof fn law_query_strings_are_refused(request: RequestView, i: int, j: int)
    requires
        0 <= i < request.operations.len(),
        request.operations[i] matches Some(Ok(add_rule)) && 0 <= j < add_rule.rule.endpoints.len()
            && has_query(add_rule.rule.endpoints[j].rules),
    ensures
        chunks_of(request) is Err,
{
    if let Ok(chunks) = chunks_of(request) {
        let summary = match request.intent_summary {
            Some(summary) => summary,
            None => seq![],
        };
        law_all_or_first_error(request.operations, to_chunk(summary));
        let operation = request.operations[i];
        assert(to_chunk(summary)(operation) == Ok::<ChunkView, Seq<char>>(chunks[i]));
        let endpoints = operation->0->Ok_0.rule.endpoints;
        law_all_or_first_error(endpoints, to_endpoint());
        assert(to_endpoint()(endpoints[j]) is Ok);
    }
}

/// The texts with which a rule that could be read is refused.
pub open spec fn refusals() -> Seq<Seq<char>> {
    seq![
        "endpoint.host is required"@,
        "endpoint.port or endpoint.ports is required"@,
        "L7 allow paths must not include query strings"@,
        "rule.endpoints must contain at least one endpoint"@,
        "addRule.ruleName or rule.name is required"@,
    ]
}

/// A refusal holds nothing of what was proposed: it is one of a few fixed
/// texts. So it cannot give away a credential in a path.
pub proof fn law_refusals_echo_nothing(add_rule: AddRuleView, intent_summary: Seq<char>)
    ensures
        chunk_of(add_rule, intent_summary) matches Err(error) ==> refusals().contains(error),
{
    let texts = refusals();
    assert(texts[0] == "endpoint.host is required"@);
    assert(texts[1] == "endpoint.port or endpoint.ports is required"@);
    assert(texts[2] == "L7 allow paths must not include query strings"@);
    assert(texts[3] == "rule.endpoints must contain at least one endpoint"@);
    assert(texts[4] == "addRule.ruleName or rule.name is required"@);
    law_all_or_first_error(add_rule.rule.endpoints, to_endpoint());
    if let Err(error) = all_or_first_error(add_rule.rule.endpoints, to_endpoint()) {
        let endpoints = add_rule.rule.endpoints;
        let k = choose|k: int|
            0 <= k < endpoints.len() && to_endpoint()(#[trigger] endpoints[k]) == Err::<
                EndpointView,
                Seq<char>,
            >(error) && forall|j: int| 0 <= j < k ==> to_endpoint()(#[trigger] endpoints[j]) is Ok;
        assert(endpoint_of(endpoints[k]) == Err::<EndpointView, Seq<char>>(error));
    }
}

/// Whether a step points at a request that the API serves.
pub open spec fn is_served(step: JsonView) -> bool {
    exists|method: Seq<char>, path: Seq<char>|
        step.get("method"@) == Some(JsonView::Text(method)) && step.get("url"@) == Some(
            JsonView::Text(url_of(path)),
        ) && #[trigger] route_of(method, path) !is NotFound
}

/// The steps that an agent is pointed to and the routes that are served do not
/// drift apart: every URL among the steps is served.
pub proof fn law_next_steps_are_served(i: int)
    requires
        0 <= i < next_steps().len(),
        next_steps()[i].get("url"@) is Some,
    ensures
        is_served(next_steps()[i]),
{
    reveal_strlit("action");
    reveal_strlit("method");
    reveal_strlit("url");
    reveal_strlit("path");
    reveal_strlit("body_type");
    reveal_strlit("GET");
    reveal_strlit("POST");
    reveal_strlit("/v1/policy/current");
    reveal_strlit("/v1/denials");
    reveal_strlit("/v1/proposals");
    reveal_strlit("?last=5");
    assert("action"@.len() == 6 && "path"@.len() == 4 && "body_type"@.len() == 9);
    assert("url"@.len() == 3);
    assert("method"@.len() == 6 && "method"@[0] == 'm' && "action"@[0] == 'a');
    let step = next_steps()[i];
    if i == 1 {
        let path = ROUTE_POLICY_CURRENT@;
        assert(!path.contains('?'));
        assert(route_of("GET"@, path) is CurrentPolicy);
    } else if i == 2 {
        let query = "?last=5"@.skip(1);
        let path = ROUTE_DENIALS@ + "?last=5"@;
        assert(path =~= ROUTE_DENIALS@ + seq!['?'] + query);
        assert(!ROUTE_DENIALS@.contains('?'));
        lemma_find_behind(ROUTE_DENIALS@, '?', query);
        assert(ROUTE_DENIALS@ != ROUTE_POLICY_CURRENT@) by {
            assert(ROUTE_DENIALS@.len() == 11 && ROUTE_POLICY_CURRENT@.len() == 18);
        }
        assert(url_of(ROUTE_DENIALS@) + "?last=5"@ =~= url_of(path));
        assert(route_of("GET"@, path) is RecentDenials);
    } else if i == 3 {
        let path = ROUTE_PROPOSALS@;
        assert(!path.contains('?'));
        assert("POST"@ != "GET"@) by {
            assert("POST"@.len() == 4 && "GET"@.len() == 3);
        }
        assert(route_of("POST"@, path) is SubmitProposal);
    }
}

/// A query string has no say in which route a request is for.
pub proof fn law_query_does_not_choose_the_route(
    method: Seq<char>,
    route: Seq<char>,
    query: Seq<char>,
)
    requires
        !route.contains('?'),
    ensures
        route_of(method, route + seq!['?'] + query) is NotFound <==> route_of(
            method,
            route,
        ) is NotFound,
        route_of(method, route + seq!['?'] + query) is CurrentPolicy <==> route_of(
            method,
            route,
        ) is CurrentPolicy,
        route_of(method, route + seq!['?'] + query) is RecentDenials <==> route_of(
            method,
            route,
        ) is RecentDenials,
        route_of(method, route + seq!['?'] + query) is SubmitProposal <==> route_of(
            method,
            route,
        ) is SubmitProposal,
{
    lemma_find_behind(route, '?', query);
}

/// Nothing is submitted but sound chunks, to the gateway of the sandbox, and
/// under its name.
pub proof fn law_only_sound_chunks_are_submitted(
    gateway: Option<Seq<char>>,
    name: Option<Seq<char>>,
    body: Result<RequestView, Seq<char>>,
)
    ensures
        first_action(gateway, name, body) !is Submit,
        first_action(gateway, name, body) matches SubmitActionView::Connect {
            endpoint,
            submission,
        } ==> {
            &&& gateway == Some(endpoint)
            &&& name is Some
            &&& submission.sandbox_name == trim(name->0)
            &&& submission.sandbox_name.len() > 0
            &&& submission.analysis_mode == ANALYSIS_MODE@
            &&& submission.chunks.len() > 0
            &&& forall|i: int|
                0 <= i < submission.chunks.len() ==> is_sound_chunk(#[trigger] submission.chunks[i])
        },
{
    if let Ok(request) = body {
        law_accepted_chunks_are_sound(request);
    }
    if let Some(text) = name {
        lemma_trim_blank(text);
    }
}

/// A proposal that is not submitted is answered with an error: with 503 where
/// the sandbox lacks a gateway or a name, and else with 400 and what is wrong
/// with the proposal.
pub proof fn law_refused_proposal_is_answered(
    gateway: Option<Seq<char>>,
    name: Option<Seq<char>>,
    body: Result<RequestView, Seq<char>>,
)
    ensures
        first_action(gateway, name, body) matches SubmitActionView::Respond(response) ==> {
            ||| response.status == 503 && (gateway is None || name is None || is_blank(name->0))
            ||| body_chunks(body) matches Err(error) && response == error_reply(
                400,
                "invalid_proposal"@,
                error,
            )
        },
        first_action(gateway, name, body) is Respond <==> gateway is None || name is None
            || is_blank(name->0) || body_chunks(body) is Err,
{
}

/// Whether every member is a string or an integer.
spec fn all_flat(members: Map<Seq<char>, JsonView>) -> bool {
    forall|name: Seq<char>|
        members.contains_key(name) ==> (#[trigger] members[name] is Text || members[name] is Integer)
}

proof fn lemma_simple_deeper(tree: JsonView, depth: nat, deeper: nat)
    requires
        is_simple(tree, depth),
        depth <= deeper,
    ensures
        is_simple(tree, deeper),
    decreases depth,
{
    match tree {
        JsonView::Array(items) => {
            assert forall|i: int| 0 <= i < items.len() implies is_simple(
                #[trigger] items[i],
                (deeper - 1) as nat,
            ) by {
                lemma_simple_deeper(items[i], (depth - 1) as nat, (deeper - 1) as nat);
            }
        },
        JsonView::Object(members) => {
            assert forall|name: Seq<char>| members.contains_key(name) implies is_simple(
                #[trigger] members[name],
                (deeper - 1) as nat,
            ) by {
                lemma_simple_deeper(members[name], (depth - 1) as nat, (deeper - 1) as nat);
            }
        },
        _ => {},
    }
}

proof fn lemma_flat_is_simple(members: Map<Seq<char>, JsonView>)
    requires
        all_flat(members),
    ensures
        is_simple(JsonView::Object(members), 1),
{
    reveal_with_fuel(is_simple, 2);
}

proof fn lemma_summary_is_simple(event: JsonView)
    ensures
        denial_summary(event) matches Some(summary) ==> is_simple(summary, 1),
{
    if let Some(denial) = denial_of(event) {
        lemma_flat_is_simple(denial.tree()->Object_0);
    }
}

/// A reply that reports an error is simple, so that it is read back as it was.
pub proof fn law_error_is_simple(status: u16, error: Seq<char>, detail: Seq<char>)
    ensures
        is_simple(error_reply(status, error, detail).payload, 100),
{
    let payload = error_reply(status, error, detail).payload;
    lemma_flat_is_simple(payload->Object_0);
    lemma_simple_deeper(payload, 1, 100);
}

/// A reply with the current policy is simple, so that it is read back as it
/// was.
pub proof fn law_policy_is_simple(policy: Option<Result<Seq<char>, Seq<char>>>)
    ensures
        is_simple(current_policy_reply(policy).payload, 100),
{
    let payload = current_policy_reply(policy).payload;
    lemma_flat_is_simple(payload->Object_0);
    lemma_simple_deeper(payload, 1, 100);
}

/// A reply that lists denials is simple, so that it is read back as it was.
pub proof fn law_denials_are_simple(
    logs: Seq<Option<Seq<char>>>,
    limit: usize,
    log_available: bool,
)
    ensures
        is_simple(
            denials_reply(clip(logged_denials(logs), limit), log_available).payload,
            100,
        ),
{
    let denials = clip(logged_denials(logs), limit);
    let payload = denials_reply(denials, log_available).payload;
    assert forall|k: int| 0 <= k < denials.len() implies is_simple(#[trigger] denials[k], 1) by {
        law_listed_denials_are_logged(logs, k);
        let (i, j) = choose|i: int, j: int|
            0 <= i < logs.len() && logs[i] is Some && 0 <= j < lines(logs[i]->0).len()
                && #[trigger] line_denial(lines(logs[i]->0)[j]) == Some(logged_denials(logs)[k]);
        lemma_summary_is_simple(parsed_tree(lines(logs[i]->0)[j])->0);
    }
    assert(is_simple(JsonView::Array(denials), 2));
    assert(is_simple(payload, 3)) by {
        reveal_with_fuel(is_simple, 2);
    }
    lemma_simple_deeper(payload, 3, 100);
}

/// A reply with what the gateway says of a submission is simple, so that it is
/// read back as it was.
pub proof fn law_submission_is_simple(reply: SubmitReply)
    ensures
        is_simple(submitted_tree(reply), 100),
{
    let reasons = JsonView::Array(text_trees(texts(reply.rejection_reasons@)));
    assert(is_simple(submitted_tree(reply), 2)) by {
        reveal_with_fuel(is_simple, 2);
        assert(is_simple(reasons, 1));
    }
    lemma_simple_deeper(submitted_tree(reply), 2, 100);
}

/// Chunks of bytes, one behind the other.
pub open spec fn joined(chunks: Seq<Seq<u8>>) -> Seq<u8>
    decreases chunks.len(),
{
    if chunks.len() == 0 {
        seq![]
    } else {
        joined(chunks.drop_last()) + chunks.last()
    }
}

/// However the client's bytes are cut into chunks, a complete body is the
/// first of them, as many as the content length says. `rest` has come with the
/// head; `states` is what has come before each of `chunks`, and in the end.
pub proof fn law_body_is_what_was_sent(
    rest: Seq<u8>,
    states: Seq<Seq<u8>>,
    chunks: Seq<Seq<u8>>,
    length: usize,
)
    requires
        states.len() == chunks.len() + 1,
        states[0] == first_bytes(rest, length),
        forall|k: int| 0 <= k < chunks.len() ==> states[k + 1] == states[k] + #[trigger] chunks[k],
        states.last().len() == length,
    ensures
        states.last() == (rest + joined(chunks)).take(length as int),
{
    lemma_states(states, chunks);
    let body = states.last();
    if rest.len() <= length {
        assert(body =~= (rest + joined(chunks)).take(length as int));
    } else {
        assert(states[0].len() == length);
        assert(joined(chunks).len() == 0);
        assert(body =~= (rest + joined(chunks)).take(length as int));
    }
}

proof fn lemma_states(states: Seq<Seq<u8>>, chunks: Seq<Seq<u8>>)
    requires
        states.len() == chunks.len() + 1,
        forall|k: int| 0 <= k < chunks.len() ==> states[k + 1] == states[k] + #[trigger] chunks[k],
    ensures
        states.last() == states[0] + joined(chunks),
    decreases chunks.len(),
{
    if chunks.len() == 0 {
        assert(states.last() =~= states[0] + joined(chunks));
    } else {
        let n = chunks.len() - 1;
        let before = states.drop_last();
        assert forall|k: int| 0 <= k < n implies before[k + 1] == before[k]
            + #[trigger] chunks.drop_last()[k] by {
            assert(chunks.drop_last()[k] == chunks[k]);
        }
        lemma_states(before, chunks.drop_last());
        assert(states[n + 1] == states[n] + chunks[n]);
        assert(states.last() =~= states[0] + joined(chunks));
    }
}

} // verus!
