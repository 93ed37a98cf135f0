//! Recent denials, read from the OCSF event log.

use crate::json::{no_members, parse_json, part_view, text_view, Json, JsonView};
use crate::outside::{
    array_value, bool_value, i64_value, map_insert, map_tree, new_map, object_value, parsed_tree,
    u64_value, value_tree, value_trees,
};
use crate::proposal::string_view;
use crate::reply::{put_text, Response, ResponseView};
use crate::split::split_at_first;
use crate::text::{
    lines, lines_of, parse_usize, parse_usize_text, same_text, split, split_once, split_text, views,
};
use vstd::prelude::*;

verus! {

/// How many denials a query asks for if it does not say.
pub const DEFAULT_DENIALS_LIMIT: usize = 10;

/// How many denials a query can ask for at most.
pub const MAX_DENIALS_LIMIT: usize = 100;

/// The value of the first `last` among the `key=value` pairs of a query.
pub open spec fn last_value(pairs: Seq<Seq<char>>) -> Option<Seq<char>>
    decreases pairs.len(),
{
    if pairs.len() == 0 {
        None
    } else {
        match split_once(pairs[0], '=') {
            Some((key, value)) => if key == "last"@ {
                Some(value)
            } else {
                last_value(pairs.skip(1))
            },
            None => last_value(pairs.skip(1)),
        }
    }
}

/// The number of denials that `n` stands for: at least one, and no more than
/// the most that can be asked for.
pub open spec fn clamp_limit(n: usize) -> usize {
    if n < 1 {
        1
    } else if n > MAX_DENIALS_LIMIT {
        MAX_DENIALS_LIMIT
    } else {
        n
    }
}

/// The number of denials that a query asks for.
pub open spec fn last_query(query: Seq<char>) -> Option<usize> {
    match last_value(split(query, '&')) {
        Some(value) => match parse_usize(value) {
            Some(n) => Some(clamp_limit(n)),
            None => None,
        },
        None => None,
    }
}

/// The number of denials that a query asks for.
pub fn parse_last_query(query: &str) -> (limit: Option<usize>)
    ensures
        limit == last_query(query@),
{
    let pairs = split_text(query, '&');
    let ghost all = split(query@, '&');
    let mut i: usize = 0;
    assert(all.skip(0) =~= all);
    while i < pairs.len()
        invariant
            i <= pairs@.len(),
            views(pairs@) == all,
            all == split(query@, '&'),
            last_value(all) == last_value(all.skip(i as int)),
        decreases pairs@.len() - i,
    {
        assert(all[i as int] == pairs@[i as int]@);
        assert(all.skip(i as int).skip(1) =~= all.skip(i + 1));
        if let Some((key, value)) = split_at_first(pairs[i], '=') {
            if same_text(key, "last") {
                return match parse_usize_text(value) {
                    Some(n) => Some(
                        if n < 1 {
                            1
                        } else if n > MAX_DENIALS_LIMIT {
                            MAX_DENIALS_LIMIT
                        } else {
                            n
                        },
                    ),
                    None => None,
                };
            }
        }
        i += 1;
    }
    None
}

/// The number of denials to list for a query.
pub open spec fn limit_for(query: Seq<char>) -> usize {
    match last_query(query) {
        Some(n) => n,
        None => DEFAULT_DENIALS_LIMIT,
    }
}

/// The number of denials to list for a query.
pub fn denials_limit(query: &str) -> (limit: usize)
    ensures
        limit == limit_for(query@),
{
    match parse_last_query(query) {
        Some(n) => n,
        None => DEFAULT_DENIALS_LIMIT,
    }
}

/// The member of that name, if there is an object that has one.
pub open spec fn member(part: Option<JsonView>, name: Seq<char>) -> Option<JsonView> {
    match part {
        Some(tree) => tree.get(name),
        None => None,
    }
}

/// The unsigned integer that a part is.
pub open spec fn u64_of(part: Option<JsonView>) -> Option<u64> {
    match part {
        Some(tree) => tree.as_u64(),
        None => None,
    }
}

/// The signed integer that a part is.
pub open spec fn i64_of(part: Option<JsonView>) -> Option<i64> {
    match part {
        Some(tree) => tree.as_i64(),
        None => None,
    }
}

/// The text that a part is.
pub open spec fn text_of(part: Option<JsonView>) -> Option<Seq<char>> {
    match part {
        Some(tree) => tree.as_text(),
        None => None,
    }
}

fn find_member<'a>(part: Option<&'a Json>, name: &str) -> (found: Option<&'a Json>)
    ensures
        part_view(found) == member(part_view(part), name@),
{
    match part {
        Some(json) => json.get(name),
        None => None,
    }
}

fn find_u64(part: Option<&Json>) -> (n: Option<u64>)
    ensures
        n == u64_of(part_view(part)),
{
    match part {
        Some(json) => json.as_u64(),
        None => None,
    }
}

fn find_i64(part: Option<&Json>) -> (n: Option<i64>)
    ensures
        n == i64_of(part_view(part)),
{
    match part {
        Some(json) => json.as_i64(),
        None => None,
    }
}

fn find_text<'a>(part: Option<&'a Json>) -> (text: Option<&'a str>)
    ensures
        text_view(text) == text_of(part_view(part)),
{
    match part {
        Some(json) => json.as_str(),
        None => None,
    }
}

/// What a denial is reported by. None of it comes from the event's message.
#[verifier::ext_equal]
pub struct DenialView {
    pub layer: Seq<char>,
    pub time_ms: Option<i64>,
    pub host: Option<Seq<char>>,
    pub port: Option<u64>,
    pub method: Option<Seq<char>>,
    pub path: Option<Seq<char>>,
    pub binary: Option<Seq<char>>,
    pub policy: Option<Seq<char>>,
}

/// `members` and a string under `name`, if there is one.
pub open spec fn with_text(
    members: Map<Seq<char>, JsonView>,
    name: Seq<char>,
    text: Option<Seq<char>>,
) -> Map<Seq<char>, JsonView> {
    match text {
        Some(text) => members.insert(name, JsonView::Text(text)),
        None => members,
    }
}

/// `members` and an integer under `name`, if there is one.
pub open spec fn with_integer(
    members: Map<Seq<char>, JsonView>,
    name: Seq<char>,
    n: Option<int>,
) -> Map<Seq<char>, JsonView> {
    match n {
        Some(n) => members.insert(name, JsonView::Integer(n)),
        None => members,
    }
}

impl DenialView {
    /// The summary as a JSON object. What is not known is left out.
    pub open spec fn tree(self) -> JsonView {
        let members = no_members().insert("layer"@, JsonView::Text(self.layer));
        let members = with_integer(
            members,
            "time_ms"@,
            match self.time_ms {
                Some(n) => Some(n as int),
                None => None,
            },
        );
        let members = with_text(members, "host"@, self.host);
        let members = with_integer(
            members,
            "port"@,
            match self.port {
                Some(n) => Some(n as int),
                None => None,
            },
        );
        let members = with_text(members, "method"@, self.method);
        let members = with_text(members, "path"@, self.path);
        let members = with_text(members, "binary"@, self.binary);
        let members = with_text(members, "policy"@, self.policy);
        JsonView::Object(members)
    }
}

/// The layer that an event class belongs to: network activity, or HTTP
/// activity.
pub open spec fn layer_of(class_uid: u64) -> Option<Seq<char>> {
    if class_uid == 4001 {
        Some("l4"@)
    } else if class_uid == 4002 {
        Some("l7"@)
    } else {
        None
    }
}

/// The layer at which an event was denied, or `None` if it was not a denial at
/// one of the layers.
pub open spec fn denied_layer(event: JsonView) -> Option<Seq<char>> {
    if u64_of(event.get("action_id"@)) == Some(2u64) {
        match u64_of(event.get("class_uid"@)) {
            Some(class_uid) => layer_of(class_uid),
            None => None,
        }
    } else {
        None
    }
}

/// The host that a destination names: by its name, or else by its address.
pub open spec fn host_of(dst: Option<JsonView>) -> Option<Seq<char>> {
    match text_of(member(dst, "hostname"@)) {
        Some(name) => Some(name),
        None => text_of(member(dst, "ip"@)),
    }
}

/// The denial that an event records.
pub open spec fn denial_of(event: JsonView) -> Option<DenialView> {
    match denied_layer(event) {
        Some(layer) => {
            let dst = event.get("dst_endpoint"@);
            let request = event.get("http_request"@);
            let file = member(member(event.get("actor"@), "process"@), "file"@);
            Some(
                DenialView {
                    layer,
                    time_ms: i64_of(event.get("time"@)),
                    host: host_of(dst),
                    port: u64_of(member(dst, "port"@)),
                    method: text_of(member(request, "http_method"@)),
                    path: text_of(member(member(request, "url"@), "path"@)),
                    binary: text_of(member(file, "path"@)),
                    policy: text_of(member(event.get("firewall_rule"@), "name"@)),
                },
            )
        },
        None => None,
    }
}

/// The summary of the denial that an event records.
pub open spec fn denial_summary(event: JsonView) -> Option<JsonView> {
    match denial_of(event) {
        Some(denial) => Some(denial.tree()),
        None => None,
    }
}

fn put_found_text(
    members: &mut serde_json::Map<String, serde_json::Value>,
    name: &str,
    text: Option<&str>,
)
    ensures
        map_tree(*final(members)) == with_text(map_tree(*old(members)), name@, text_view(text)),
{
    if let Some(text) = text {
        put_text(members, name, text);
    }
}

/// Summarizes an OCSF event for the agent, or gives `None` if the event is not
/// a network or HTTP denial.
///
/// The event's `message` is left out: it can hold the request path with its
/// query string, and with it credentials that the agent must not see.
pub fn denial_summary_from_event(event: &Json) -> (summary: Option<serde_json::Value>)
    ensures
        match summary {
            Some(value) => denial_summary(event@) == Some(value_tree(value)),
            None => denial_summary(event@) is None,
        },
{
    match find_u64(event.get("action_id")) {
        Some(2) => {},
        _ => {
            return None;
        },
    }
    let layer = match find_u64(event.get("class_uid")) {
        Some(4001) => "l4",
        Some(4002) => "l7",
        _ => {
            return None;
        },
    };
    let mut members = new_map();
    put_text(&mut members, "layer", layer);
    if let Some(time) = find_i64(event.get("time")) {
        map_insert(&mut members, "time_ms".to_owned(), i64_value(time));
    }
    let dst = event.get("dst_endpoint");
    let host = match find_text(find_member(dst, "hostname")) {
        Some(name) => Some(name),
        None => find_text(find_member(dst, "ip")),
    };
    put_found_text(&mut members, "host", host);
    if let Some(port) = find_u64(find_member(dst, "port")) {
        map_insert(&mut members, "port".to_owned(), u64_value(port));
    }
    let request = event.get("http_request");
    put_found_text(&mut members, "method", find_text(find_member(request, "http_method")));
    let url = find_member(request, "url");
    put_found_text(&mut members, "path", find_text(find_member(url, "path")));
    let file = find_member(find_member(event.get("actor"), "process"), "file");
    put_found_text(&mut members, "binary", find_text(find_member(file, "path")));
    let rule = event.get("firewall_rule");
    put_found_text(&mut members, "policy", find_text(find_member(rule, "name")));
    Some(object_value(members))
}

/// The summary of the denial that a line of the log records.
pub open spec fn line_denial(line: Seq<char>) -> Option<JsonView> {
    if line.len() == 0 {
        None
    } else {
        match parsed_tree(line) {
            Some(event) => denial_summary(event),
            None => None,
        }
    }
}

/// The denials that lines of the log record, from the last line to the first.
pub open spec fn newest_denials(log_lines: Seq<Seq<char>>) -> Seq<JsonView>
    decreases log_lines.len(),
{
    if log_lines.len() == 0 {
        seq![]
    } else {
        let earlier = newest_denials(log_lines.drop_last());
        match line_denial(log_lines.last()) {
            Some(denial) => seq![denial] + earlier,
            None => earlier,
        }
    }
}

/// The denials that log files record, from the first file to the last, and
/// within a file from its last line to its first. A file that could not be
/// read records none.
pub open spec fn logged_denials(logs: Seq<Option<Seq<char>>>) -> Seq<JsonView>
    decreases logs.len(),
{
    if logs.len() == 0 {
        seq![]
    } else {
        let first = match logs[0] {
            Some(text) => newest_denials(lines(text)),
            None => seq![],
        };
        first + logged_denials(logs.skip(1))
    }
}

/// The texts of log files, `None` for a file that could not be read.
pub open spec fn log_texts(logs: Seq<Option<String>>) -> Seq<Option<Seq<char>>> {
    logs.map_values(|log: Option<String>| string_view(log))
}

/// The first `limit` of `all`, or all of them if they are fewer.
pub open spec fn clip(all: Seq<JsonView>, limit: usize) -> Seq<JsonView> {
    if all.len() <= limit {
        all
    } else {
        all.take(limit as int)
    }
}

/// Adds the denials in the text of one log file, up to the limit, and says
/// whether the limit has been reached.
fn add_denials(summaries: &mut Vec<serde_json::Value>, text: &str, limit: usize) -> (full: bool)
    requires
        old(summaries)@.len() < limit,
    ensures
        value_trees(final(summaries)@) == clip(
            value_trees(old(summaries)@) + newest_denials(lines(text@)),
            limit,
        ),
        full == (final(summaries)@.len() == limit),
{
    let log_lines = lines_of(text);
    let ghost all = lines(text@);
    let ghost before = value_trees(summaries@);
    let mut i: usize = log_lines.len();
    assert(all.take(i as int) =~= all);
    while i > 0
        invariant
            i <= log_lines@.len(),
            views(log_lines@) == all,
            all == lines(text@),
            summaries@.len() < limit,
            before == value_trees(old(summaries)@),
            before + newest_denials(all) == value_trees(summaries@) + newest_denials(
                all.take(i as int),
            ),
        decreases i,
    {
        assert(all.take(i as int).drop_last() =~= all.take(i - 1));
        i -= 1;
        let line = log_lines[i];
        assert(line@ == all[i as int]);
        if !line.is_empty() {
            if let Some(event) = parse_json(line) {
                if let Some(summary) = denial_summary_from_event(&event) {
                    let ghost had = value_trees(summaries@);
                    summaries.push(summary);
                    assert(value_trees(summaries@) =~= had + seq![value_tree(summary)]);
                    assert(value_trees(summaries@) + newest_denials(all.take(i as int)) =~= had + (
                    seq![value_tree(summary)] + newest_denials(all.take(i as int))));
                    if summaries.len() >= limit {
                        assert(value_trees(summaries@) =~= clip(before + newest_denials(all), limit));
                        return true;
                    }
                }
            }
        }
    }
    assert(all.take(0) =~= Seq::<Seq<char>>::empty());
    assert(value_trees(summaries@) =~= before + newest_denials(all));
    false
}

/// Lists up to `limit` denials, newest first.
///
/// `logs` holds the text of each log file, the most recent file first, and
/// `None` for a file that could not be read. Within a file the last line is
/// the most recent.
pub fn read_recent_denials(logs: &Vec<Option<String>>, limit: usize) -> (summaries: Vec<
    serde_json::Value,
>)
    ensures
        value_trees(summaries@) == clip(logged_denials(log_texts(logs@)), limit),
{
    let ghost all = log_texts(logs@);
    let mut summaries: Vec<serde_json::Value> = Vec::new();
    if limit == 0 {
        assert(value_trees(summaries@) =~= clip(logged_denials(all), limit));
        return summaries;
    }
    let mut i: usize = 0;
    assert(all.skip(0) =~= all);
    assert(value_trees(summaries@) + logged_denials(all) =~= logged_denials(all));
    while i < logs.len()
        invariant
            i <= logs@.len(),
            all == log_texts(logs@),
            summaries@.len() < limit,
            logged_denials(all) == value_trees(summaries@) + logged_denials(all.skip(i as int)),
        decreases logs@.len() - i,
    {
        let ghost rest = all.skip(i as int);
        let ghost had = value_trees(summaries@);
        assert(rest.skip(1) =~= all.skip(i + 1));
        assert(rest[0] == string_view(logs@[i as int]));
        if let Some(text) = &logs[i] {
            let ghost found = newest_denials(lines(text@));
            assert(had + logged_denials(rest) =~= had + found + logged_denials(rest.skip(1)));
            if add_denials(&mut summaries, text.as_str(), limit) {
                assert(value_trees(summaries@) =~= clip(logged_denials(all), limit));
                return summaries;
            }
            assert(value_trees(summaries@) =~= had + found);
        } else {
            assert(logged_denials(rest) =~= logged_denials(rest.skip(1)));
        }
        i += 1;
    }
    assert(value_trees(summaries@) =~= logged_denials(all));
    summaries
}

/// The payload that lists denials. It says whether there is a log at all: no
/// denials in a log is one thing, no log to read is another.
pub open spec fn denials_tree(denials: Seq<JsonView>, log_available: bool) -> JsonView {
    let members = no_members().insert("denials"@, JsonView::Array(denials)).insert(
        "log_available"@,
        JsonView::Bool(log_available),
    );
    JsonView::Object(
        if log_available {
            members
        } else {
            members.insert(
                "note"@,
                JsonView::Text(
                    "no OCSF JSONL log file is present; enable the `ocsf_json_enabled` sandbox setting to populate"@,
                ),
            )
        },
    )
}

/// The reply that lists denials.
pub open spec fn denials_reply(denials: Seq<JsonView>, log_available: bool) -> ResponseView {
    ResponseView { status: 200, payload: denials_tree(denials, log_available) }
}

/// Replies with denials, and with whether a log file is there to read them
/// from.
pub fn denials_response(denials: Vec<serde_json::Value>, log_available: bool) -> (response:
    Response)
    ensures
        response@ == denials_reply(value_trees(denials@), log_available),
{
    let mut members = new_map();
    map_insert(&mut members, "denials".to_owned(), array_value(denials));
    map_insert(&mut members, "log_available".to_owned(), bool_value(log_available));
    if !log_available {
        put_text(
            &mut members,
            "note",
            "no OCSF JSONL log file is present; enable the `ocsf_json_enabled` sandbox setting to populate",
        );
    }
    Response { status: 200, payload: object_value(members) }
}

/// Replies with up to `limit` denials out of log files, newest first.
pub fn recent_denials_response(
    logs: &Vec<Option<String>>,
    limit: usize,
    log_available: bool,
) -> (response: Response)
    ensures
        response@ == denials_reply(clip(logged_denials(log_texts(logs@)), limit), log_available),
{
    denials_response(read_recent_denials(logs, limit), log_available)
}

} // verus!
