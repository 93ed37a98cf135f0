//! What a response says on the wire.

use crate::reply::{head_line, http_response, reason, response_head, status_line};
use crate::request::{
    blank_line_at, content_length, content_length_value, head_text, header_end, header_end_from,
};
use crate::split::lemma_encode_concat;
use crate::text::{
    decimal, is_digit, lemma_decimal_reads_back, lemma_find_behind, lemma_line_first, lines,
    parse_usize, same_but_case, strip_plus, strip_return, trim, trim_end, trim_start,
};
use vstd::prelude::*;
use vstd::utf8::{
    encode_utf8, encode_utf8_decode_utf8, encode_utf8_valid_utf8, is_ascii_chars,
    is_ascii_chars_encode_utf8,
};

verus! {

/// Whether a line is printable ASCII, and not empty.
pub open spec fn is_plain(line: Seq<char>) -> bool {
    &&& line.len() > 0
    &&& forall|i: int| 0 <= i < line.len() ==> ' ' <= #[trigger] line[i] <= '~'
}

proof fn lemma_decimal_is_plain(n: nat)
    ensures
        is_plain(decimal(n)),
{
    lemma_decimal_reads_back(n);
    assert forall|i: int| 0 <= i < decimal(n).len() implies ' ' <= #[trigger] decimal(n)[i] <= '~' by {
        assert(is_digit(decimal(n)[i]));
    }
}

proof fn lemma_reason_is_plain(status: u16)
    ensures
        is_plain(reason(status)),
{
    reveal_strlit("Accepted");
    reveal_strlit("Bad Request");
    reveal_strlit("Not Found");
    reveal_strlit("Internal Server Error");
    reveal_strlit("Bad Gateway");
    reveal_strlit("Service Unavailable");
    reveal_strlit("OK");
}

proof fn lemma_head_lines_are_plain(status: u16, length: nat)
    ensures
        is_plain(status_line(status)),
        is_plain("Content-Type: application/json"@),
        is_plain("Content-Length: "@ + decimal(length)),
        is_plain("Connection: close"@),
{
    reveal_strlit("HTTP/1.1 ");
    reveal_strlit(" ");
    reveal_strlit("Content-Type: application/json");
    reveal_strlit("Content-Length: ");
    reveal_strlit("Connection: close");
    lemma_decimal_is_plain(status as nat);
    lemma_decimal_is_plain(length);
    lemma_reason_is_plain(status);
}

/// Lines, each with its ending.
spec fn block(head_lines: Seq<Seq<char>>) -> Seq<char>
    decreases head_lines.len(),
{
    if head_lines.len() == 0 {
        seq![]
    } else {
        head_line(head_lines[0]) + block(head_lines.skip(1))
    }
}

spec fn all_plain(head_lines: Seq<Seq<char>>) -> bool {
    forall|i: int| 0 <= i < head_lines.len() ==> is_plain(#[trigger] head_lines[i])
}

/// The lines of a head are read back from it.
proof fn lemma_block_lines(head_lines: Seq<Seq<char>>)
    requires
        all_plain(head_lines),
    ensures
        lines(block(head_lines) + "\r\n"@) == head_lines.push(seq![]),
    decreases head_lines.len(),
{
    reveal_strlit("\r\n");
    let end = "\r\n"@;
    if head_lines.len() == 0 {
        let line = seq!['\r'];
        lemma_line_first(line, seq![]);
        assert(line + seq!['\n'] + seq![] =~= block(head_lines) + end);
        assert(lines(seq![]) =~= seq![]) by {
            assert(!Seq::<char>::empty().contains('\n'));
        }
        assert(strip_return(line) =~= seq![]);
        assert(head_lines.push(seq![]) =~= seq![Seq::<char>::empty()]);
    } else {
        let first = head_lines[0];
        let rest = head_lines.skip(1);
        assert(is_plain(first));
        assert(all_plain(rest)) by {
            assert forall|i: int| 0 <= i < rest.len() implies is_plain(#[trigger] rest[i]) by {
                assert(rest[i] == head_lines[i + 1]);
            }
        }
        lemma_block_lines(rest);
        let line = first.push('\r');
        let more = block(rest) + end;
        assert(!line.contains('\n'));
        lemma_line_first(line, more);
        assert(line + seq!['\n'] + more =~= block(head_lines) + end);
        assert(strip_return(line) =~= first);
        assert(seq![first] + rest.push(seq![]) =~= head_lines.push(seq![]));
    }
}

/// Whether bytes begin with the ASCII characters of a text.
spec fn begins_as(bytes: Seq<u8>, text: Seq<char>) -> bool {
    &&& text.len() <= bytes.len()
    &&& forall|i: int| 0 <= i < text.len() ==> bytes[i] == #[trigger] text[i] as u8
}

/// Behind lines none of which is empty, the first empty line ends the head.
proof fn lemma_block_end(bytes: Seq<u8>, head_lines: Seq<Seq<char>>, from: int)
    requires
        0 < head_lines.len(),
        all_plain(head_lines),
        0 <= from <= bytes.len(),
        begins_as(bytes.skip(from), block(head_lines) + "\r\n"@),
    ensures
        header_end_from(bytes, from) == Some(from + block(head_lines).len() + 2),
    decreases head_lines.len(),
{
    reveal_strlit("\r\n");
    let first = head_lines[0];
    let rest = head_lines.skip(1);
    let text = block(head_lines) + "\r\n"@;
    assert(is_plain(first));
    assert(text =~= first + "\r\n"@ + block(rest) + "\r\n"@);
    let behind = from + first.len();
    assert forall|i: int| from <= i < behind implies !blank_line_at(bytes, i) by {
        assert(bytes[i] == bytes.skip(from)[i - from]);
        assert(text[i - from] == first[i - from]);
    }
    lemma_skip_to(bytes, from, behind);
    assert(bytes[behind] == bytes.skip(from)[first.len() as int]);
    assert(bytes[behind + 1] == bytes.skip(from)[first.len() as int + 1]);
    assert(bytes[behind + 2] == bytes.skip(from)[first.len() as int + 2]);
    assert(text[first.len() as int] == '\r');
    assert(text[first.len() as int + 1] == '\n');
    if rest.len() == 0 {
        assert(block(rest) =~= seq![]);
        assert(bytes[behind + 3] == bytes.skip(from)[first.len() as int + 3]);
        assert(text[first.len() as int + 2] == '\r');
        assert(text[first.len() as int + 3] == '\n');
        assert(blank_line_at(bytes, behind));
        assert(block(head_lines).len() == first.len() + 2);
    } else {
        let second = rest[0];
        assert(is_plain(second)) by {
            assert(second == head_lines[1]);
        }
        assert(block(rest) =~= second + "\r\n"@ + block(rest.skip(1)));
        assert(text[first.len() as int + 2] == second[0]);
        assert(!blank_line_at(bytes, behind));
        assert(!blank_line_at(bytes, behind + 1));
        lemma_skip_to(bytes, behind, behind + 2);
        assert(all_plain(rest)) by {
            assert forall|i: int| 0 <= i < rest.len() implies is_plain(#[trigger] rest[i]) by {
                assert(rest[i] == head_lines[i + 1]);
            }
        }
        let more = block(rest) + "\r\n"@;
        assert forall|i: int| 0 <= i < more.len() implies bytes.skip(behind + 2)[i]
            == #[trigger] more[i] as u8 by {
            assert(more[i] == text[i + first.len() + 2]);
            assert(bytes.skip(behind + 2)[i] == bytes.skip(from)[i + first.len() + 2]);
        }
        lemma_block_end(bytes, rest, behind + 2);
    }
}

/// Where no empty line stands, the end of the head lies further on.
proof fn lemma_skip_to(bytes: Seq<u8>, from: int, to: int)
    requires
        0 <= from <= to,
        to + 4 <= bytes.len(),
        forall|i: int| from <= i < to ==> !blank_line_at(bytes, i),
    ensures
        header_end_from(bytes, from) == header_end_from(bytes, to),
    decreases to - from,
{
    if from < to {
        assert(!blank_line_at(bytes, from));
        lemma_skip_to(bytes, from + 1, to);
    }
}

/// The lines of the head of a response.
spec fn head_lines_of(status: u16, length: nat) -> Seq<Seq<char>> {
    seq![
        status_line(status),
        "Content-Type: application/json"@,
        "Content-Length: "@ + decimal(length),
        "Connection: close"@,
    ]
}

proof fn lemma_head_is_block(status: u16, length: nat)
    ensures
        all_plain(head_lines_of(status, length)),
        response_head(status, length) == block(head_lines_of(status, length)) + "\r\n"@,
{
    lemma_head_lines_are_plain(status, length);
    let all = head_lines_of(status, length);
    assert(all.skip(1).skip(1) =~= all.skip(2));
    assert(all.skip(2).skip(1) =~= all.skip(3));
    assert(all.skip(3).skip(1) =~= seq![]);
    reveal_with_fuel(block, 5);
    assert(block(all) =~= head_line(all[0]) + head_line(all[1]) + head_line(all[2]) + head_line(
        all[3],
    ));
}

/// A number behind a space is read as it was written.
proof fn lemma_spaced_decimal(n: nat)
    requires
        n <= usize::MAX,
    ensures
        parse_usize(trim(seq![' '] + decimal(n))) == Some(n as usize),
{
    let digits = decimal(n);
    let text = seq![' '] + digits;
    lemma_decimal_reads_back(n);
    assert(is_digit(digits[0]) && is_digit(digits[digits.len() - 1]));
    assert(text.skip(1) =~= digits);
    reveal_with_fuel(trim_start, 2);
    assert(trim_start(text) == digits);
    assert(trim_end(digits) == digits);
    assert(strip_plus(digits) == digits);
}

/// The content length in the head of a response is read as it was written.
proof fn lemma_head_states_length(status: u16, length: nat)
    requires
        length <= usize::MAX,
    ensures
        content_length(response_head(status, length)) == Some(length as usize),
{
    reveal_strlit("Content-Type: application/json");
    reveal_strlit("Content-Length: ");
    reveal_strlit("content-length");
    let all = head_lines_of(status, length);
    lemma_head_is_block(status, length);
    lemma_block_lines(all);
    let headers = all.push(seq![]).skip(1);
    let kind = "Content-Type: application/json"@;
    let kind_name = kind.take(12);
    assert(kind =~= kind_name + seq![':'] + kind.skip(13));
    assert(!kind_name.contains(':'));
    lemma_find_behind(kind_name, ':', kind.skip(13));
    assert(!same_but_case(kind_name, "content-length"@));
    let label = "Content-Length: "@;
    let stated = label + decimal(length);
    let label_name = label.take(14);
    let value = seq![' '] + decimal(length);
    assert(stated =~= label_name + seq![':'] + value);
    assert(!label_name.contains(':'));
    lemma_find_behind(label_name, ':', value);
    assert(same_but_case(label_name, "content-length"@));
    assert(headers[0] == kind);
    assert(headers.skip(1)[0] == stated);
    assert(content_length_value(headers.skip(1)) == Some(value));
    assert(content_length_value(headers) == Some(value));
    lemma_spaced_decimal(length);
}

/// A response is read back from the wire as it was written. Its head ends
/// where its body begins, the head states how many bytes the body has, and
/// these are the bytes of the body.
pub proof fn law_response_is_read_back(status: u16, body: Seq<char>)
    requires
        encode_utf8(body).len() <= usize::MAX,
    ensures
        ({
            let bytes = encode_utf8(http_response(status, body));
            let head = response_head(status, encode_utf8(body).len());
            &&& header_end(bytes) == Some(head.len() as int)
            &&& head_text(bytes.take(head.len() as int)) == head
            &&& content_length(head) == Some(encode_utf8(body).len() as usize)
            &&& bytes.skip(head.len() as int) == encode_utf8(body)
        }),
{
    let length = encode_utf8(body).len();
    let head = response_head(status, length);
    let bytes = encode_utf8(http_response(status, body));
    let all = head_lines_of(status, length);
    lemma_head_states_length(status, length);
    lemma_head_is_block(status, length);
    lemma_encode_concat(head, body);
    reveal_strlit("\r\n");
    lemma_block_is_ascii(all);
    assert(is_ascii_chars(head));
    is_ascii_chars_encode_utf8(head);
    encode_utf8_decode_utf8(head);
    encode_utf8_valid_utf8(head);
    assert(bytes.skip(0) =~= bytes);
    assert(begins_as(bytes, head)) by {
        assert forall|i: int| 0 <= i < head.len() implies bytes[i] == #[trigger] head[i] as u8 by {
            assert(bytes[i] == encode_utf8(head)[i]);
        }
    }
    lemma_block_end(bytes, all, 0);
    assert(bytes.take(head.len() as int) =~= encode_utf8(head));
    assert(bytes.skip(head.len() as int) =~= encode_utf8(body));
}

proof fn lemma_block_is_ascii(head_lines: Seq<Seq<char>>)
    requires
        all_plain(head_lines),
    ensures
        is_ascii_chars(block(head_lines)),
    decreases head_lines.len(),
{
    reveal_strlit("\r\n");
    if head_lines.len() > 0 {
        let rest = head_lines.skip(1);
        assert(is_plain(head_lines[0]));
        assert(all_plain(rest)) by {
            assert forall|i: int| 0 <= i < rest.len() implies is_plain(#[trigger] rest[i]) by {
                assert(rest[i] == head_lines[i + 1]);
            }
        }
        lemma_block_is_ascii(rest);
    }
}

} // verus!
