//! What is told of the denials in the log.

use crate::denials::{
    denial_summary, denial_summary_from_event, denials_limit, denials_response, last_value,
    line_denial, log_texts, logged_denials, newest_denials, parse_last_query, read_recent_denials,
    recent_denials_response,
};
use crate::json::{members_view, parse_json, Json, JsonView, Member};
use crate::laws::law_denials_are_listed_newest_first;
use crate::laws_of_replies::{only_members, under};
use crate::outside::{parsed_tree, value_tree, value_trees};
use crate::proposal::string_view;
use crate::reply::Response;
use crate::text::{find, lemma_find, lemma_find_behind, lines, parse_usize, split, split_once};
use vstd::prelude::*;

verus! {

/// A part that is a string, and `None` for any other.
pub open spec fn if_text(part: Option<JsonView>) -> Option<JsonView> {
    if part matches Some(JsonView::Text(_)) {
        part
    } else {
        None
    }
}

/// A part that is an integer from `low` to `high`, and `None` for any other.
pub open spec fn if_integer(part: Option<JsonView>, low: int, high: int) -> Option<JsonView> {
    if part matches Some(JsonView::Integer(n)) && low <= n <= high {
        part
    } else {
        None
    }
}

/// Whether an event is denied network activity.
pub open spec fn is_network_denial(event: JsonView) -> bool {
    &&& under(Some(event), "action_id"@) == Some(JsonView::Integer(2))
    &&& under(Some(event), "class_uid"@) == Some(JsonView::Integer(4001))
}

/// Whether an event is denied HTTP activity.
pub open spec fn is_http_denial(event: JsonView) -> bool {
    &&& under(Some(event), "action_id"@) == Some(JsonView::Integer(2))
    &&& under(Some(event), "class_uid"@) == Some(JsonView::Integer(4002))
}

/// Whether a summary tells what an event says, member by member: each member
/// from its own place in the event, and none where the event has nothing there.
pub open spec fn tells(event: JsonView, summary: JsonView) -> bool {
    let whole = Some(event);
    let told = Some(summary);
    let dst = under(whole, "dst_endpoint"@);
    let request = under(whole, "http_request"@);
    let file = under(under(under(whole, "actor"@), "process"@), "file"@);
    &&& under(told, "layer"@) == Some(
        JsonView::Text(
            if is_network_denial(event) {
                "l4"@
            } else {
                "l7"@
            },
        ),
    )
    &&& under(told, "time_ms"@) == if_integer(
        under(whole, "time"@),
        i64::MIN as int,
        i64::MAX as int,
    )
    &&& under(told, "host"@) == if if_text(under(dst, "hostname"@)) is Some {
        under(dst, "hostname"@)
    } else {
        if_text(under(dst, "ip"@))
    }
    &&& under(told, "port"@) == if_integer(under(dst, "port"@), 0, u64::MAX as int)
    &&& under(told, "method"@) == if_text(under(request, "http_method"@))
    &&& under(told, "path"@) == if_text(under(under(request, "url"@), "path"@))
    &&& under(told, "binary"@) == if_text(under(file, "path"@))
    &&& under(told, "policy"@) == if_text(under(under(whole, "firewall_rule"@), "name"@))
    &&& only_members(
        summary,
        seq![
            "layer"@,
            "time_ms"@,
            "host"@,
            "port"@,
            "method"@,
            "path"@,
            "binary"@,
            "policy"@,
        ],
    )
}

proof fn lemma_summary_tells(event: JsonView)
    ensures
        denial_summary(event) is Some <==> is_network_denial(event) || is_http_denial(event),
        denial_summary(event) matches Some(summary) ==> tells(event, summary),
{
    reveal_strlit("layer");
    reveal_strlit("time_ms");
    reveal_strlit("host");
    reveal_strlit("port");
    reveal_strlit("method");
    reveal_strlit("path");
    reveal_strlit("binary");
    reveal_strlit("policy");
    let names = seq![
        "layer"@,
        "time_ms"@,
        "host"@,
        "port"@,
        "method"@,
        "path"@,
        "binary"@,
        "policy"@,
    ];
    assert("layer"@.len() == 5 && "time_ms"@.len() == 7 && "host"@.len() == 4 && "port"@.len() == 4
        && "method"@.len() == 6 && "path"@.len() == 4 && "binary"@.len() == 6 && "policy"@.len()
        == 6);
    assert("host"@[0] == 'h' && "port"@[0] == 'p' && "port"@[1] == 'o' && "path"@[0] == 'p'
        && "path"@[1] == 'a');
    assert("method"@[0] == 'm' && "binary"@[0] == 'b' && "policy"@[0] == 'p');
    assert(names[0] == "layer"@ && names[1] == "time_ms"@ && names[2] == "host"@ && names[3]
        == "port"@ && names[4] == "method"@ && names[5] == "path"@ && names[6] == "binary"@
        && names[7] == "policy"@);
}

/// An event is summarized just where it is denied network or HTTP activity. The
/// summary tells what the event says, each member from its own place: the
/// program is the one at `actor.process.file.path`, the policy is the name of
/// the firewall rule, and so on.
pub proof fn law_summary_tells_what_the_event_says(event: Json, summary: Option<serde_json::Value>)
    requires
        call_ensures(denial_summary_from_event, (&event,), summary),
    ensures
        summary is Some <==> is_network_denial(event@) || is_http_denial(event@),
        summary matches Some(value) ==> tells(event@, value_tree(value)),
{
    lemma_summary_tells(event@);
}

/// What a line of a log records, if it is a denial: a summary that tells what
/// the event in the line says.
pub open spec fn records(line: Seq<char>, summary: JsonView) -> bool {
    &&& line.len() > 0
    &&& parsed_tree(line) matches Some(event) && (is_network_denial(event) || is_http_denial(event))
        && tells(event, summary)
}

/// Whether a line of a log records a denial.
pub open spec fn is_denial(line: Seq<char>) -> bool {
    &&& line.len() > 0
    &&& parsed_tree(line) matches Some(event) && (is_network_denial(event) || is_http_denial(event))
}

/// A line is listed just where it records a denial, and then by its summary.
pub proof fn law_line_is_listed_by_its_summary(line: Seq<char>)
    ensures
        line_denial(line) is Some <==> is_denial(line),
        line_denial(line) matches Some(summary) ==> records(line, summary),
{
    if let Some(event) = parsed_tree(line) {
        lemma_summary_tells(event);
    }
}

/// The denials of one log, the last line first.
pub open spec fn denials_in(log: Option<String>) -> Seq<JsonView> {
    match log {
        Some(text) => lines(text@).filter_map(|line: Seq<char>| line_denial(line)).reverse(),
        None => seq![],
    }
}

/// The denials of several logs: those of the first log, and behind them those
/// of the others.
pub open spec fn denials_in_all(logs: Seq<Option<String>>) -> Seq<JsonView> {
    logs.map_values(|log: Option<String>| denials_in(log)).flatten()
}

proof fn lemma_all_denials(logs: Seq<Option<String>>)
    ensures
        logged_denials(log_texts(logs)) == denials_in_all(logs),
    decreases logs.len(),
{
    let texts = log_texts(logs);
    let parts = logs.map_values(|log: Option<String>| denials_in(log));
    if logs.len() == 0 {
        assert(parts.flatten() =~= seq![]);
        assert(logged_denials(texts) =~= seq![]);
    } else {
        let rest = logs.skip(1);
        lemma_all_denials(rest);
        assert(texts.skip(1) =~= log_texts(rest));
        assert(parts.drop_first() =~= rest.map_values(|log: Option<String>| denials_in(log)));
        assert(parts.first() == denials_in(logs[0]));
        assert(texts[0] == string_view(logs[0]));
        if let Some(text) = logs[0] {
            law_denials_are_listed_newest_first(lines(text@));
        }
        assert(parts.flatten() == parts.first() + parts.drop_first().flatten());
        assert(logged_denials(texts) =~= denials_in(logs[0]) + logged_denials(texts.skip(1)));
    }
}

/// The denials that are listed are those of every log that could be read, log
/// behind log, and within a log the last line first. The list is cut at the
/// limit, and nowhere else.
pub proof fn law_all_denials_are_listed(
    logs: Vec<Option<String>>,
    limit: usize,
    listed: Vec<serde_json::Value>,
)
    requires
        call_ensures(read_recent_denials, (&logs, limit), listed),
    ensures
        ({
            let all = denials_in_all(logs@);
            &&& listed@.len() == if all.len() <= limit {
                all.len()
            } else {
                limit as nat
            }
            &&& forall|k: int|
                0 <= k < listed@.len() ==> value_tree(#[trigger] listed@[k]) == all[k]
        }),
{
    lemma_all_denials(logs@);
    let trees = value_trees(listed@);
    assert(trees.len() == listed@.len());
    assert forall|k: int| 0 <= k < listed@.len() implies value_tree(#[trigger] listed@[k])
        == denials_in_all(logs@)[k] by {
        assert(trees[k] == value_tree(listed@[k]));
    }
}

/// What logs are listed as, they are listed as behind other logs too: the
/// denials of the logs that come later stand behind those of the earlier ones.
pub proof fn law_logs_are_listed_one_behind_the_other(
    a: Seq<Option<Seq<char>>>,
    b: Seq<Option<Seq<char>>>,
)
    ensures
        logged_denials(a + b) == logged_denials(a) + logged_denials(b),
    decreases a.len(),
{
    if a.len() == 0 {
        assert(a + b =~= b);
        assert(logged_denials(a) + logged_denials(b) =~= logged_denials(b));
    } else {
        law_logs_are_listed_one_behind_the_other(a.skip(1), b);
        assert((a + b).skip(1) =~= a.skip(1) + b);
        assert((a + b)[0] == a[0]);
        assert(logged_denials(a + b) =~= logged_denials(a) + logged_denials(b));
    }
}

proof fn lemma_no_denials(log_lines: Seq<Seq<char>>)
    requires
        forall|j: int| 0 <= j < log_lines.len() ==> !is_denial(#[trigger] log_lines[j]),
    ensures
        newest_denials(log_lines).len() == 0,
    decreases log_lines.len(),
{
    if log_lines.len() > 0 {
        let n = log_lines.len() - 1;
        assert(!is_denial(log_lines[n]));
        law_line_is_listed_by_its_summary(log_lines[n]);
        assert forall|j: int| 0 <= j < n implies !is_denial(#[trigger] log_lines.drop_last()[j]) by {
            assert(!is_denial(log_lines[j]));
        }
        lemma_no_denials(log_lines.drop_last());
    }
}

/// A log that records no denial, or could not be read, changes nothing in the
/// list, wherever it stands among the logs.
pub proof fn law_log_without_denials_changes_nothing(
    a: Seq<Option<Seq<char>>>,
    log: Option<Seq<char>>,
    b: Seq<Option<Seq<char>>>,
)
    requires
        log matches Some(text) ==> forall|j: int|
            0 <= j < lines(text).len() ==> !is_denial(#[trigger] lines(text)[j]),
    ensures
        logged_denials(a + seq![log] + b) == logged_denials(a + b),
{
    law_logs_are_listed_one_behind_the_other(a + seq![log], b);
    law_logs_are_listed_one_behind_the_other(a, seq![log]);
    law_logs_are_listed_one_behind_the_other(a, b);
    let alone = seq![log];
    assert(alone.skip(1) =~= seq![]);
    assert(logged_denials(alone.skip(1)).len() == 0);
    if let Some(text) = log {
        lemma_no_denials(lines(text));
    }
    assert(logged_denials(alone) =~= seq![]);
    assert(logged_denials(a + seq![log] + b) =~= logged_denials(a + b));
}

proof fn lemma_line_listed(log_lines: Seq<Seq<char>>, j: int) -> (k: int)
    requires
        0 <= j < log_lines.len(),
        is_denial(log_lines[j]),
    ensures
        0 <= k < newest_denials(log_lines).len(),
        records(log_lines[j], newest_denials(log_lines)[k]),
    decreases log_lines.len(),
{
    let n = log_lines.len() - 1;
    law_line_is_listed_by_its_summary(log_lines[n]);
    if j == n {
        0
    } else {
        let earlier = log_lines.drop_last();
        let k = lemma_line_listed(earlier, j);
        if line_denial(log_lines[n]) is Some {
            assert(newest_denials(log_lines)[k + 1] == newest_denials(earlier)[k]);
            k + 1
        } else {
            k
        }
    }
}

proof fn lemma_logged(logs: Seq<Option<Seq<char>>>, i: int, j: int) -> (k: int)
    requires
        0 <= i < logs.len(),
        logs[i] matches Some(text) && 0 <= j < lines(text).len() && is_denial(lines(text)[j]),
    ensures
        0 <= k < logged_denials(logs).len(),
        records(lines(logs[i]->0)[j], logged_denials(logs)[k]),
    decreases logs.len(),
{
    let first = match logs[0] {
        Some(text) => newest_denials(lines(text)),
        None => seq![],
    };
    assert(logged_denials(logs) =~= first + logged_denials(logs.skip(1)));
    if i == 0 {
        lemma_line_listed(lines(logs[0]->0), j)
    } else {
        let rest = logs.skip(1);
        assert(rest[i - 1] == logs[i]);
        lemma_logged(rest, i - 1, j) + first.len()
    }
}

/// Every line of every log that could be read is listed if it records a denial,
/// unless the limit was reached.
pub proof fn law_no_denial_is_left_out(
    logs: Vec<Option<String>>,
    limit: usize,
    listed: Vec<serde_json::Value>,
    i: int,
    j: int,
)
    requires
        call_ensures(read_recent_denials, (&logs, limit), listed),
        listed@.len() < limit,
        0 <= i < logs@.len(),
        logs@[i] matches Some(text) && 0 <= j < lines(text@).len() && is_denial(lines(text@)[j]),
    ensures
        exists|k: int|
            0 <= k < listed@.len() && records(
                lines(logs@[i]->0@)[j],
                value_tree(#[trigger] listed@[k]),
            ),
{
    let texts = log_texts(logs@);
    assert(texts[i] == string_view(logs@[i]));
    let k = lemma_logged(texts, i, j);
    let trees = value_trees(listed@);
    assert(trees.len() == listed@.len());
    assert(trees[k] == value_tree(listed@[k]));
    assert(records(lines(logs@[i]->0@)[j], value_tree(listed@[k])));
}

/// A reply with denials lists the denials that it was given, says whether there
/// is a log, and gives advice just where there is none.
pub proof fn law_reply_lists_its_denials(
    denials: Vec<serde_json::Value>,
    log_available: bool,
    response: Response,
)
    requires
        call_ensures(denials_response, (denials, log_available), response),
    ensures
        response.status == 200,
        ({
            let told = Some(value_tree(response.payload));
            &&& under(told, "denials"@) == Some(
                JsonView::Array(
                    Seq::new(denials@.len(), |k: int| value_tree(denials@[k])),
                ),
            )
            &&& under(told, "log_available"@) == Some(JsonView::Bool(log_available))
            &&& under(told, "note"@) == if log_available {
                None
            } else {
                Some(
                    JsonView::Text(
                        "no OCSF JSONL log file is present; enable the `ocsf_json_enabled` sandbox setting to populate"@,
                    ),
                )
            }
            &&& only_members(
                value_tree(response.payload),
                seq!["denials"@, "log_available"@, "note"@],
            )
        }),
{
    reveal_strlit("denials");
    reveal_strlit("log_available");
    reveal_strlit("note");
    assert("denials"@.len() == 7 && "log_available"@.len() == 13 && "note"@.len() == 4);
    let names = seq!["denials"@, "log_available"@, "note"@];
    assert(names[0] == "denials"@ && names[1] == "log_available"@ && names[2] == "note"@);
    assert(value_trees(denials@) =~= Seq::new(denials@.len(), |k: int| value_tree(denials@[k])));
}

/// The reply out of logs says the same as the reply with the denials that are
/// read out of these logs.
pub proof fn law_reply_out_of_logs_lists_what_is_read(
    logs: Vec<Option<String>>,
    limit: usize,
    log_available: bool,
    listed: Vec<serde_json::Value>,
    response: Response,
    direct: Response,
)
    requires
        call_ensures(read_recent_denials, (&logs, limit), listed),
        call_ensures(denials_response, (listed, log_available), direct),
        call_ensures(recent_denials_response, (&logs, limit, log_available), response),
    ensures
        response.status == direct.status,
        value_tree(response.payload) == value_tree(direct.payload),
{
}

/// Whether a pair of a query has the key `last`.
pub open spec fn is_last(pair: Seq<char>) -> bool {
    pair.len() >= 5 && pair.take(5) == "last="@
}

proof fn lemma_is_last(pair: Seq<char>)
    ensures
        match split_once(pair, '=') {
            Some((key, value)) => (key == "last"@ <==> is_last(pair)) && (is_last(pair) ==> value
                == pair.skip(5)),
            None => !is_last(pair),
        },
{
    reveal_strlit("last=");
    reveal_strlit("last");
    lemma_find(pair, '=');
    if is_last(pair) {
        assert(pair.take(5)[4] == '=');
        assert(pair[4] == '=');
        let key = pair.take(4);
        assert(key =~= "last"@) by {
            assert forall|i: int| 0 <= i < 4 implies key[i] == "last"@[i] by {
                assert(key[i] == pair.take(5)[i]);
            }
        }
        assert(pair =~= key + seq!['='] + pair.skip(5));
        lemma_find_behind(key, '=', pair.skip(5));
    } else if let Some((key, value)) = split_once(pair, '=') {
        if key == "last"@ {
            let k = find(pair, '=');
            assert(key.len() == k);
            assert(pair.take(5) =~= "last="@) by {
                assert forall|i: int| 0 <= i < 5 implies pair.take(5)[i] == "last="@[i] by {
                    if i < 4 {
                        assert(pair[i] == key[i]);
                    }
                }
            }
        }
    }
}

proof fn lemma_last_value(pairs: Seq<Seq<char>>, k: int)
    requires
        0 <= k <= pairs.len(),
        forall|j: int| 0 <= j < k ==> !is_last(#[trigger] pairs[j]),
    ensures
        last_value(pairs) == last_value(pairs.skip(k)),
    decreases k,
{
    if k == 0 {
        assert(pairs.skip(0) =~= pairs);
    } else {
        lemma_is_last(pairs[0]);
        assert(!is_last(pairs[0]));
        let rest = pairs.skip(1);
        assert forall|j: int| 0 <= j < k - 1 implies !is_last(#[trigger] rest[j]) by {
            assert(!is_last(pairs[j + 1]));
        }
        lemma_last_value(rest, k - 1);
        assert(rest.skip(k - 1) =~= pairs.skip(k));
    }
}

/// The first pair of a query with the key `last` says how many denials are asked
/// for, whatever stands before and behind it: the number that it writes, but at
/// least 1 and at most 100, and no number if it writes none.
pub proof fn law_first_last_counts(query: &str, answer: Option<usize>, k: int)
    requires
        call_ensures(parse_last_query, (query,), answer),
        0 <= k < split(query@, '&').len(),
        is_last(split(query@, '&')[k]),
        forall|j: int| 0 <= j < k ==> !is_last(#[trigger] split(query@, '&')[j]),
    ensures
        match parse_usize(split(query@, '&')[k].skip(5)) {
            Some(n) => answer == Some(
                if n < 1 {
                    1usize
                } else if n > 100 {
                    100usize
                } else {
                    n
                },
            ),
            None => answer is None,
        },
{
    let pairs = split(query@, '&');
    lemma_last_value(pairs, k);
    assert(pairs.skip(k)[0] == pairs[k]);
    lemma_is_last(pairs[k]);
}

/// A query without the key `last` does not say how many denials are asked for.
pub proof fn law_query_without_last_asks_for_none(query: &str, answer: Option<usize>)
    requires
        call_ensures(parse_last_query, (query,), answer),
        forall|j: int|
            0 <= j < split(query@, '&').len() ==> !is_last(#[trigger] split(query@, '&')[j]),
    ensures
        answer is None,
{
    let pairs = split(query@, '&');
    lemma_last_value(pairs, pairs.len() as int);
    assert(pairs.skip(pairs.len() as int) =~= seq![]);
}

/// As many denials are listed as the query asks for, and 10 if it does not say.
pub proof fn law_limit_is_what_is_asked_for(query: &str, asked: Option<usize>, limit: usize)
    requires
        call_ensures(parse_last_query, (query,), asked),
        call_ensures(denials_limit, (query,), limit),
    ensures
        limit == match asked {
            Some(n) => n,
            None => 10,
        },
{
}

proof fn lemma_members(members: Seq<Member>, name: Seq<char>, i: int)
    requires
        -1 <= i < members.len(),
        i >= 0 ==> members[i].name@ == name,
        forall|j: int| i < j < members.len() ==> (#[trigger] members[j]).name@ != name,
    ensures
        i >= 0 ==> members_view(members).contains_key(name) && members_view(members)[name]
            == members[i].value@,
        i < 0 ==> !members_view(members).contains_key(name),
    decreases members.len(),
{
    if members.len() > 0 && i < members.len() - 1 {
        let n = members.len() - 1;
        assert(members[n].name@ != name);
        lemma_members(members.drop_last(), name, i);
    }
}

/// A member of an object is found by its name. Where a name occurs more than
/// once, the last member of that name is found.
pub proof fn law_member_is_found_by_its_name(
    members: Vec<Member>,
    name: &str,
    found: Option<&Json>,
    i: int,
)
    requires
        call_ensures(Json::get, (&Json::Object(members), name), found),
        0 <= i < members@.len(),
        members@[i].name@ == name@,
        forall|j: int| i < j < members@.len() ==> (#[trigger] members@[j]).name@ != name@,
    ensures
        found matches Some(part) && part@ == members@[i].value@,
{
    lemma_members(members@, name@, i);
}

/// Where no member has the name, or there is no object, nothing is found.
pub proof fn law_nothing_is_found_by_another_name(json: Json, name: &str, found: Option<&Json>)
    requires
        call_ensures(Json::get, (&json, name), found),
        json matches Json::Object(members) ==> forall|j: int|
            0 <= j < members@.len() ==> (#[trigger] members@[j]).name@ != name@,
    ensures
        found is None,
{
    if let Json::Object(members) = json {
        lemma_members(members@, name@, -1);
    }
}

/// A value is an unsigned or a signed 64-bit integer, or a string, just where it
/// is one.
pub proof fn law_value_is_what_it_is(
    json: Json,
    unsigned: Option<u64>,
    signed: Option<i64>,
    text: Option<&str>,
)
    requires
        call_ensures(Json::as_u64, (&json,), unsigned),
        call_ensures(Json::as_i64, (&json,), signed),
        call_ensures(Json::as_str, (&json,), text),
    ensures
        match json {
            Json::Integer(n) => {
                &&& unsigned == if 0 <= n <= u64::MAX {
                    Some(n as u64)
                } else {
                    None
                }
                &&& signed == if i64::MIN <= n <= i64::MAX {
                    Some(n as i64)
                } else {
                    None
                }
                &&& text is None
            },
            Json::Text(s) => unsigned is None && signed is None && (text matches Some(t) && t@
                == s@),
            _ => unsigned is None && signed is None && text is None,
        },
{
}

/// A document is read from a text just where there is one in it, and is the one
/// in it.
pub proof fn law_document_is_the_one_in_the_text(text: &str, parsed: Option<Json>)
    requires
        call_ensures(parse_json, (text,), parsed),
    ensures
        parsed is Some <==> parsed_tree(text@) is Some,
        parsed matches Some(json) ==> parsed_tree(text@) == Some(json@),
{
}

/// What a document says, is what it holds.
pub proof fn law_document_says_what_it_holds(json: Json)
    ensures
        match json {
            Json::Null => json@ == JsonView::Null,
            Json::Bool(b) => json@ == JsonView::Bool(b),
            Json::Integer(n) => json@ == JsonView::Integer(n as int),
            Json::Fraction(text) => json@ == JsonView::Fraction(text@),
            Json::Text(text) => json@ == JsonView::Text(text@),
            Json::Array(items) => json@ is Array && json@->Array_0.len() == items@.len()
                && forall|i: int|
                0 <= i < items@.len() ==> #[trigger] json@->Array_0[i] == items@[i]@,
            Json::Object(members) => json@ is Object && forall|i: int|
                0 <= i < members@.len() ==> json@->Object_0.contains_key(
                    (#[trigger] members@[i]).name@,
                ),
        },
{
    if let Json::Object(members) = json {
        assert forall|i: int| 0 <= i < members@.len() implies members_view(members@).contains_key(
            (#[trigger] members@[i]).name@,
        ) by {
            lemma_member_counts(members@, i);
        }
    }
}

proof fn lemma_member_counts(members: Seq<Member>, i: int)
    requires
        0 <= i < members.len(),
    ensures
        members_view(members).contains_key(members[i].name@),
    decreases members.len(),
{
    if i < members.len() - 1 {
        lemma_member_counts(members.drop_last(), i);
    }
}

} // verus!
