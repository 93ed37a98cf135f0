//! How the body of a request is read.

use crate::laws_of_text::law_case_is_that_of_ascii;
use crate::outside::lossy;
use crate::request::{
    blank_line_at, content_length_of, content_length_value, find_header_end, head_text,
    header_end_from, parse_content_length, BodyError, BodyRead,
};
use crate::text::{
    find, lemma_find, lemma_find_behind, lines, parse_usize, same_but_case, split_once, trim,
};
use vstd::prelude::*;
use vstd::utf8::{
    decode_utf8, encode_utf8, encode_utf8_decode_utf8, encode_utf8_valid_utf8, valid_utf8,
};

verus! {

/// The end of a line, and an empty line behind it.
pub open spec fn blank_line() -> Seq<u8> {
    seq![13u8, 10u8, 13u8, 10u8]
}

proof fn lemma_blank_line(bytes: Seq<u8>, i: int)
    requires
        0 <= i,
        i + 4 <= bytes.len(),
    ensures
        blank_line_at(bytes, i) <==> bytes.subrange(i, i + 4) == blank_line(),
{
    let four = bytes.subrange(i, i + 4);
    if blank_line_at(bytes, i) {
        assert(four =~= blank_line());
    }
    if four == blank_line() {
        assert(four[0] == bytes[i] && four[1] == bytes[i + 1] && four[2] == bytes[i + 2] && four[3]
            == bytes[i + 3]);
    }
}

proof fn lemma_header_end(bytes: Seq<u8>, from: int)
    requires
        0 <= from,
    ensures
        match header_end_from(bytes, from) {
            Some(n) => {
                &&& from + 4 <= n <= bytes.len()
                &&& bytes.subrange(n - 4, n) == blank_line()
                &&& forall|i: int|
                    from <= i < n - 4 ==> #[trigger] bytes.subrange(i, i + 4) != blank_line()
            },
            None => forall|i: int|
                from <= i && i + 4 <= bytes.len() ==> #[trigger] bytes.subrange(i, i + 4)
                    != blank_line(),
        },
    decreases bytes.len() - from,
{
    if from + 4 <= bytes.len() {
        lemma_blank_line(bytes, from);
        if !blank_line_at(bytes, from) {
            lemma_header_end(bytes, from + 1);
        }
    }
}

/// The head of a request ends behind the first empty line, wherever that is, and
/// has no end just where there is no empty line.
pub proof fn law_head_ends_at_the_first_empty_line(buf: &[u8], end: Option<usize>)
    requires
        call_ensures(find_header_end, (buf,), end),
    ensures
        match end {
            Some(n) => {
                &&& 4 <= n <= buf@.len()
                &&& buf@.subrange(n - 4, n as int) == blank_line()
                &&& forall|i: int|
                    0 <= i < n - 4 ==> #[trigger] buf@.subrange(i, i + 4) != blank_line()
            },
            None => forall|i: int|
                0 <= i && i + 4 <= buf@.len() ==> #[trigger] buf@.subrange(i, i + 4)
                    != blank_line(),
        },
{
    lemma_header_end(buf@, 0);
}

/// Whether a line is a `Content-Length` header: before its first colon stands
/// that name, in capitals or small letters.
pub open spec fn is_length_header(line: Seq<char>) -> bool {
    &&& line.len() > 14
    &&& line[14] == ':'
    &&& forall|i: int|
        0 <= i < 14 ==> {
            ||| #[trigger] line[i] == "content-length"@[i]
            ||| 'A' <= line[i] <= 'Z' && line[i] as int + 32 == "content-length"@[i] as int
        }
}

proof fn lemma_length_header(line: Seq<char>)
    ensures
        match split_once(line, ':') {
            Some((name, value)) => {
                &&& same_but_case(name, "content-length"@) <==> is_length_header(line)
                &&& is_length_header(line) ==> value == line.skip(15)
            },
            None => !is_length_header(line),
        },
{
    reveal_strlit("content-length");
    let wanted = "content-length"@;
    assert(wanted.len() == 14);
    assert forall|i: int| 0 <= i < 14 implies 'a' <= #[trigger] wanted[i] <= 'z' || wanted[i]
        == '-' by {}
    lemma_find(line, ':');
    if is_length_header(line) {
        let name = line.take(14);
        assert forall|i: int| 0 <= i < 14 implies name[i] != ':' by {
            assert(name[i] == line[i]);
            assert('a' <= wanted[i] <= 'z' || wanted[i] == '-');
        }
        assert(line =~= name + seq![':'] + line.skip(15));
        lemma_find_behind(name, ':', line.skip(15));
        law_case_is_that_of_ascii(name, wanted);
        assert(same_but_case(name, wanted)) by {
            assert forall|i: int| 0 <= i < 14 implies {
                ||| #[trigger] name[i] == wanted[i]
                ||| 'A' <= name[i] <= 'Z' && wanted[i] as int == name[i] as int + 32
                ||| 'A' <= wanted[i] <= 'Z' && name[i] as int == wanted[i] as int + 32
            } by {
                assert(name[i] == line[i]);
            }
        }
    } else if let Some((name, value)) = split_once(line, ':') {
        law_case_is_that_of_ascii(name, wanted);
        if same_but_case(name, wanted) {
            let k = find(line, ':');
            assert(k == 14);
            assert forall|i: int| 0 <= i < 14 implies {
                ||| #[trigger] line[i] == wanted[i]
                ||| 'A' <= line[i] <= 'Z' && line[i] as int + 32 == wanted[i] as int
            } by {
                assert(name[i] == line[i]);
                assert('a' <= wanted[i] <= 'z' || wanted[i] == '-');
            }
        }
    }
}

proof fn lemma_headers(headers: Seq<Seq<char>>, k: int)
    requires
        0 <= k <= headers.len(),
        forall|j: int| 0 <= j < k ==> !is_length_header(#[trigger] headers[j]),
    ensures
        content_length_value(headers) == content_length_value(headers.skip(k)),
    decreases k,
{
    if k == 0 {
        assert(headers.skip(0) =~= headers);
    } else {
        assert(!is_length_header(headers[0]));
        lemma_length_header(headers[0]);
        let rest = headers.skip(1);
        assert forall|j: int| 0 <= j < k - 1 implies !is_length_header(#[trigger] rest[j]) by {
            assert(!is_length_header(headers[j + 1]));
        }
        lemma_headers(rest, k - 1);
        assert(rest.skip(k - 1) =~= headers.skip(k));
    }
}

/// The content length is what the first `Content-Length` header behind the
/// request line states, however many other headers stand before it: the number
/// behind the colon, with white space around it or none. It is not known if what
/// stands there is no number.
pub proof fn law_first_stated_length_counts(head: &str, length: Option<usize>, k: int)
    requires
        call_ensures(content_length_of, (head,), length),
        1 <= k < lines(head@).len(),
        is_length_header(lines(head@)[k]),
        forall|j: int| 1 <= j < k ==> !is_length_header(#[trigger] lines(head@)[j]),
    ensures
        length == parse_usize(trim(lines(head@)[k].skip(15))),
{
    let headers = lines(head@).skip(1);
    assert forall|j: int| 0 <= j < k - 1 implies !is_length_header(#[trigger] headers[j]) by {
        assert(!is_length_header(lines(head@)[j + 1]));
    }
    lemma_headers(headers, k - 1);
    assert(headers.skip(k - 1)[0] == lines(head@)[k]);
    lemma_length_header(lines(head@)[k]);
}

/// Only where no line behind the request line is a `Content-Length` header, the
/// content length is zero without being stated.
pub proof fn law_length_is_zero_if_not_stated(head: &str, length: Option<usize>)
    requires
        call_ensures(content_length_of, (head,), length),
        forall|j: int| 1 <= j < lines(head@).len() ==> !is_length_header(#[trigger] lines(head@)[j]),
    ensures
        length == Some(0usize),
{
    if lines(head@).len() > 0 {
        let headers = lines(head@).skip(1);
        assert forall|j: int| 0 <= j < headers.len() implies !is_length_header(
            #[trigger] headers[j],
        ) by {
            assert(!is_length_header(lines(head@)[j + 1]));
        }
        lemma_headers(headers, headers.len() as int);
        assert(headers.skip(headers.len() as int) =~= seq![]);
    }
}

/// The length that bytes state is the one that their text states, and an error
/// stands for one that is not known.
pub proof fn law_bytes_state_what_their_text_states(
    headers: &[u8],
    head: &str,
    length: Option<usize>,
    answer: Result<usize, BodyError>,
)
    requires
        valid_utf8(headers@) ==> head@ == decode_utf8(headers@),
        !valid_utf8(headers@) ==> head@ == lossy(headers@),
        call_ensures(content_length_of, (head,), length),
        call_ensures(parse_content_length, (headers,), answer),
    ensures
        match length {
            Some(n) => answer == Ok::<usize, BodyError>(n),
            None => answer == Err::<usize, BodyError>(BodyError::InvalidContentLength),
        },
{
}

/// The text of a head is read from its bytes as it was written.
pub proof fn law_head_is_read_as_it_was_written(text: Seq<char>)
    ensures
        head_text(encode_utf8(text)) == text,
{
    encode_utf8_valid_utf8(text);
    encode_utf8_decode_utf8(text);
}

/// Whether the read of a body has begun with what has come of it.
pub open spec fn begins_with_rest(
    begun: Result<BodyRead, BodyError>,
    rest: Seq<u8>,
    length: usize,
) -> bool {
    if length <= 65536 {
        begun matches Ok(read) && {
            &&& read.length() == length
            &&& rest.len() <= length ==> read.received() == rest
            &&& rest.len() > length ==> read.received() == rest.take(length as int)
        }
    } else {
        begun matches Err(error) && error == BodyError::TooLarge
    }
}

/// The body of a request has the length that its head states and begins with
/// what came behind the head. It is refused if the length is over the limit, or
/// not a number.
pub proof fn law_body_begins_behind_the_head(
    initial_request: &[u8],
    head: &[u8],
    end: usize,
    length: Result<usize, BodyError>,
    begun: Result<BodyRead, BodyError>,
)
    requires
        call_ensures(find_header_end, (initial_request,), Some(end)),
        head@ == initial_request@.take(end as int),
        call_ensures(parse_content_length, (head,), length),
        call_ensures(BodyRead::begin, (initial_request,), begun),
    ensures
        match length {
            Ok(n) => begins_with_rest(begun, initial_request@.skip(end as int), n),
            Err(error) => begun matches Err(refusal) && refusal == error,
        },
{
}

/// A request whose head does not end has no body.
pub proof fn law_open_head_has_no_body(
    initial_request: &[u8],
    begun: Result<BodyRead, BodyError>,
)
    requires
        call_ensures(find_header_end, (initial_request,), None::<usize>),
        call_ensures(BodyRead::begin, (initial_request,), begun),
    ensures
        begun matches Ok(read) && read.length() == 0 && read.received().len() == 0,
{
}

/// A body of a given length begins with what has come of it.
pub proof fn law_body_begins_with_what_has_come(
    rest: &[u8],
    content_length: usize,
    begun: Result<BodyRead, BodyError>,
)
    requires
        call_ensures(BodyRead::with_length, (rest, content_length), begun),
    ensures
        begins_with_rest(begun, rest@, content_length),
{
}

/// As much is asked of the client as is missing, but not more than 8192 bytes at
/// once; nothing is asked for just where nothing is missing.
pub proof fn law_what_is_missing_is_asked_for(read: BodyRead, n: usize)
    requires
        call_ensures(BodyRead::wanted, (&read,), n),
    ensures
        read.received().len() + n <= read.length() <= 65536,
        n == 0 <==> read.received().len() == read.length(),
        n <= 8192,
        n < 8192 ==> read.received().len() + n == read.length(),
{
}

/// What the client sends is put behind what has come; if it sends nothing, the
/// body has ended early.
pub proof fn law_what_is_sent_is_put_behind(
    read: BodyRead,
    chunk: &[u8],
    fed: Result<BodyRead, BodyError>,
)
    requires
        call_ensures(BodyRead::feed, (read, chunk), fed),
    ensures
        chunk@.len() > 0 ==> (fed matches Ok(next) && next.length() == read.length()
            && next.received() == read.received() + chunk@),
        chunk@.len() == 0 ==> (fed matches Err(error) && error == BodyError::EndedEarly),
{
}

/// The body is what has come, byte for byte.
pub proof fn law_body_is_what_has_come(read: BodyRead, body: Vec<u8>)
    requires
        call_ensures(BodyRead::into_body, (read,), body),
    ensures
        body@ == read.received(),
{
}

} // verus!
