//! Text: splitting, trimming, lines and decimal numbers.

use crate::split::split_at_first;
use vstd::prelude::*;
use vstd::string::*;

verus! {

/// The index of the first `c` in `text`, or the length of `text` if there is
/// none.
pub open spec fn find(text: Seq<char>, c: char) -> int
    decreases text.len(),
{
    if text.len() == 0 || text[0] == c {
        0
    } else {
        1 + find(text.skip(1), c)
    }
}

/// What stands before and behind the first `c` in `text`.
pub open spec fn split_once(text: Seq<char>, c: char) -> Option<(Seq<char>, Seq<char>)> {
    if text.contains(c) {
        Some((text.take(find(text, c)), text.skip(find(text, c) + 1)))
    } else {
        None
    }
}

pub proof fn lemma_find(text: Seq<char>, c: char)
    ensures
        0 <= find(text, c) <= text.len(),
        forall|i: int| 0 <= i < find(text, c) ==> text[i] != c,
        find(text, c) < text.len() ==> text[find(text, c)] == c,
        text.contains(c) <==> find(text, c) < text.len(),
    decreases text.len(),
{
    if text.len() > 0 && text[0] != c {
        let rest = text.skip(1);
        lemma_find(rest, c);
        assert forall|i: int| 0 <= i < find(text, c) implies text[i] != c by {
            if i > 0 {
                assert(text[i] == rest[i - 1]);
            }
        }
    }
    if text.contains(c) {
        let i = text.index_of(c);
        assert(text[i] == c);
    }
}

/// The parts of `text` between one `c` and the next.
pub open spec fn split(text: Seq<char>, c: char) -> Seq<Seq<char>>
    decreases text.len(),
{
    match split_once(text, c) {
        Some((before, after)) => {
            proof {
                lemma_find(text, c);
            }
            seq![before] + split(after, c)
        },
        None => seq![text],
    }
}

/// `line` without a carriage return at its end.
pub open spec fn strip_return(line: Seq<char>) -> Seq<char> {
    if line.len() > 0 && line.last() == '\r' {
        line.drop_last()
    } else {
        line
    }
}

/// The lines of `text`. A line ends in a line feed, or in a carriage return
/// and a line feed; the last one needs no ending.
pub open spec fn lines(text: Seq<char>) -> Seq<Seq<char>>
    decreases text.len(),
{
    match split_once(text, '\n') {
        Some((line, after)) => {
            proof {
                lemma_find(text, '\n');
            }
            seq![strip_return(line)] + lines(after)
        },
        None => if text.len() == 0 {
            seq![]
        } else {
            seq![text]
        },
    }
}

/// The views of a vector of string slices.
pub open spec fn views(parts: Seq<&str>) -> Seq<Seq<char>> {
    parts.map_values(|part: &str| part@)
}

/// The parts of `text` between one `c` and the next.
pub fn split_text<'a>(text: &'a str, c: char) -> (parts: Vec<&'a str>)
    requires
        c <= '\u{7f}',
    ensures
        views(parts@) == split(text@, c),
{
    let mut parts: Vec<&'a str> = Vec::new();
    let mut rest: &'a str = text;
    loop
        invariant
            c <= '\u{7f}',
            split(text@, c) == views(parts@) + split(rest@, c),
        decreases rest@.len(),
    {
        proof {
            lemma_find(rest@, c);
        }
        let ghost had = parts@;
        match split_at_first(rest, c) {
            Some((before, after)) => {
                parts.push(before);
                assert(views(parts@) =~= views(had) + seq![before@]);
                rest = after;
            },
            None => {
                parts.push(rest);
                assert(views(parts@) =~= views(had) + seq![rest@]);
                return parts;
            },
        }
    }
}

/// `line` without a carriage return at its end.
fn strip_return_text<'a>(line: &'a str) -> (stripped: &'a str)
    ensures
        stripped@ == strip_return(line@),
{
    let n: usize = line.unicode_len();
    if n > 0 && line.get_char(n - 1) == '\r' {
        line.substring_char(0, n - 1)
    } else {
        line
    }
}

/// The lines of `text`.
pub fn lines_of<'a>(text: &'a str) -> (found: Vec<&'a str>)
    ensures
        views(found@) == lines(text@),
{
    let mut found: Vec<&'a str> = Vec::new();
    let mut rest: &'a str = text;
    loop
        invariant
            lines(text@) == views(found@) + lines(rest@),
        decreases rest@.len(),
    {
        proof {
            lemma_find(rest@, '\n');
        }
        let ghost had = found@;
        match split_at_first(rest, '\n') {
            Some((line, after)) => {
                found.push(strip_return_text(line));
                assert(views(found@) =~= views(had) + seq![strip_return(line@)]);
                rest = after;
            },
            None => {
                if !rest.is_empty() {
                    found.push(rest);
                    assert(views(found@) =~= views(had) + seq![rest@]);
                }
                return found;
            },
        }
    }
}

/// The characters of `text`.
pub fn chars_of(text: &str) -> (chars: Vec<char>)
    ensures
        chars@ == text@,
{
    let mut chars: Vec<char> = Vec::new();
    for c in it: text.chars()
        invariant
            it.seq() == text@,
            chars@ == text@.take(it.index() as int),
    {
        chars.push(c);
    }
    assert(text@.take(text@.len() as int) =~= text@);
    chars
}

/// Whether `a` and `b` are the same text.
pub fn same_text(a: &str, b: &str) -> (same: bool)
    ensures
        same == (a@ == b@),
{
    a.to_owned() == b.to_owned()
}

/// Whether `text` holds a `c`.
pub fn has_char(text: &str, c: char) -> (found: bool)
    requires
        c <= '\u{7f}',
    ensures
        found == text@.contains(c),
{
    proof {
        lemma_find(text@, c);
    }
    split_at_first(text, c).is_some()
}

/// Whether `text` begins with `prefix`.
pub fn begins_with(text: &str, prefix: &str) -> (begins: bool)
    ensures
        begins == prefix@.is_prefix_of(text@),
{
    let n: usize = prefix.unicode_len();
    if n <= text.unicode_len() {
        let head = text.substring_char(0, n);
        assert(head@ == prefix@ ==> prefix@ =~= text@.subrange(0, prefix@.len() as int));
        same_text(head, prefix)
    } else {
        false
    }
}

/// The characters with the Unicode property White_Space.
pub open spec fn is_space(c: char) -> bool {
    ||| '\u{9}' <= c <= '\u{d}'
    ||| c == ' '
    ||| c == '\u{85}'
    ||| c == '\u{a0}'
    ||| c == '\u{1680}'
    ||| '\u{2000}' <= c <= '\u{200a}'
    ||| c == '\u{2028}'
    ||| c == '\u{2029}'
    ||| c == '\u{202f}'
    ||| c == '\u{205f}'
    ||| c == '\u{3000}'
}

/// `text` without the white space at its start.
pub open spec fn trim_start(text: Seq<char>) -> Seq<char>
    decreases text.len(),
{
    if text.len() > 0 && is_space(text[0]) {
        trim_start(text.skip(1))
    } else {
        text
    }
}

/// `text` without the white space at its end.
pub open spec fn trim_end(text: Seq<char>) -> Seq<char>
    decreases text.len(),
{
    if text.len() > 0 && is_space(text.last()) {
        trim_end(text.drop_last())
    } else {
        text
    }
}

/// `text` without the white space at its start and its end.
pub open spec fn trim(text: Seq<char>) -> Seq<char> {
    trim_end(trim_start(text))
}

/// Whether `text` is all white space.
pub open spec fn is_blank(text: Seq<char>) -> bool {
    forall|i: int| 0 <= i < text.len() ==> is_space(#[trigger] text[i])
}

proof fn lemma_trim_start_blank(text: Seq<char>)
    ensures
        trim_start(text).len() == 0 <==> is_blank(text),
        trim_start(text).len() > 0 ==> !is_space(trim_start(text)[0]),
    decreases text.len(),
{
    if text.len() > 0 {
        if is_space(text[0]) {
            let rest = text.skip(1);
            lemma_trim_start_blank(rest);
            if is_blank(rest) {
                assert forall|i: int| 0 <= i < text.len() implies is_space(#[trigger] text[i]) by {
                    if i > 0 {
                        assert(is_space(rest[i - 1]));
                    }
                }
            }
            if is_blank(text) {
                assert forall|i: int| 0 <= i < rest.len() implies is_space(#[trigger] rest[i]) by {
                    assert(is_space(text[i + 1]));
                }
            }
        } else {
            assert(text[0] == text[0]);
        }
    }
}

proof fn lemma_trim_end_keeps_start(text: Seq<char>)
    requires
        text.len() > 0,
        !is_space(text[0]),
    ensures
        trim_end(text).len() > 0,
    decreases text.len(),
{
    if is_space(text.last()) {
        lemma_trim_end_keeps_start(text.drop_last());
    }
}

/// Trimming leaves nothing of a text just where it is all white space.
pub proof fn lemma_trim_blank(text: Seq<char>)
    ensures
        trim(text).len() == 0 <==> is_blank(text),
{
    lemma_trim_start_blank(text);
    if trim_start(text).len() > 0 {
        lemma_trim_end_keeps_start(trim_start(text));
    }
}

/// Whether `c` is white space.
pub fn is_space_char(c: char) -> (space: bool)
    ensures
        space == is_space(c),
{
    ('\u{9}' <= c && c <= '\u{d}') || c == ' ' || c == '\u{85}' || c == '\u{a0}' || c == '\u{1680}'
        || ('\u{2000}' <= c && c <= '\u{200a}') || c == '\u{2028}' || c == '\u{2029}' || c
        == '\u{202f}' || c == '\u{205f}' || c == '\u{3000}'
}

/// `text` without the white space at its start and its end.
pub fn trim_text<'a>(text: &'a str) -> (trimmed: &'a str)
    ensures
        trimmed@ == trim(text@),
{
    let chars = chars_of(text);
    let n: usize = chars.len();
    let mut start: usize = 0;
    assert(text@.skip(0) =~= text@);
    while start < n && is_space_char(chars[start])
        invariant
            n == chars@.len(),
            start <= n,
            chars@ == text@,
            trim_start(text@) == trim_start(text@.skip(start as int)),
        decreases n - start,
    {
        assert(text@.skip(start as int).skip(1) =~= text@.skip(start + 1));
        start += 1;
    }
    assert(trim_start(text@) == text@.skip(start as int));
    let mut end: usize = n;
    assert(text@.subrange(start as int, end as int) =~= text@.skip(start as int));
    while end > start && is_space_char(chars[end - 1])
        invariant
            n == chars@.len(),
            start <= end <= n,
            chars@ == text@,
            trim(text@) == trim_end(text@.subrange(start as int, end as int)),
        decreases end,
    {
        assert(text@.subrange(start as int, end as int).drop_last() =~= text@.subrange(
            start as int,
            end - 1,
        ));
        end -= 1;
    }
    text.substring_char(start, end)
}

/// Whether `text` is all white space.
pub fn is_blank_text(text: &str) -> (blank: bool)
    ensures
        blank == is_blank(text@),
{
    proof {
        lemma_trim_blank(text@);
    }
    trim_text(text).is_empty()
}

/// An ASCII capital as a small letter, any other character as it is.
pub open spec fn lower(c: char) -> char {
    if 'A' <= c <= 'Z' {
        (c as u32 + 32) as char
    } else {
        c
    }
}

/// Whether `a` and `b` differ at most in the case of ASCII letters.
pub open spec fn same_but_case(a: Seq<char>, b: Seq<char>) -> bool {
    &&& a.len() == b.len()
    &&& forall|i: int| 0 <= i < a.len() ==> lower(#[trigger] a[i]) == lower(b[i])
}

fn lower_char(c: char) -> (small: char)
    ensures
        small == lower(c),
{
    if 'A' <= c && c <= 'Z' {
        (c as u8 + 32) as char
    } else {
        c
    }
}

/// Whether `a` and `b` differ at most in the case of ASCII letters.
pub fn same_text_but_case(a: &str, b: &str) -> (same: bool)
    ensures
        same == same_but_case(a@, b@),
{
    let left = chars_of(a);
    let right = chars_of(b);
    if left.len() != right.len() {
        return false;
    }
    let mut i: usize = 0;
    while i < left.len()
        invariant
            left@ == a@,
            right@ == b@,
            left@.len() == right@.len(),
            i <= left@.len(),
            forall|j: int| 0 <= j < i ==> lower(#[trigger] a@[j]) == lower(b@[j]),
        decreases left@.len() - i,
    {
        if lower_char(left[i]) != lower_char(right[i]) {
            assert(lower(a@[i as int]) != lower(b@[i as int]));
            return false;
        }
        i += 1;
    }
    true
}

/// Whether `c` is a decimal digit.
pub open spec fn is_digit(c: char) -> bool {
    '0' <= c <= '9'
}

/// Whether `text` is one or more decimal digits.
pub open spec fn is_decimal(text: Seq<char>) -> bool {
    &&& text.len() > 0
    &&& forall|i: int| 0 <= i < text.len() ==> is_digit(#[trigger] text[i])
}

/// The number that decimal digits stand for.
pub open spec fn decimal_value(digits: Seq<char>) -> int
    decreases digits.len(),
{
    if digits.len() == 0 {
        0
    } else {
        10 * decimal_value(digits.drop_last()) + (digits.last() as int - '0' as int)
    }
}

/// `text` without a plus sign at its start.
pub open spec fn strip_plus(text: Seq<char>) -> Seq<char> {
    if text.len() > 0 && text[0] == '+' {
        text.skip(1)
    } else {
        text
    }
}

/// The `usize` that `text` writes in decimal digits, a plus sign before them
/// or none. There is none if `text` is anything else, or the number too large.
pub open spec fn parse_usize(text: Seq<char>) -> Option<usize> {
    let digits = strip_plus(text);
    if is_decimal(digits) && decimal_value(digits) <= usize::MAX {
        Some(decimal_value(digits) as usize)
    } else {
        None
    }
}

/// More digits make no smaller number.
proof fn lemma_decimal_value_grows(digits: Seq<char>, i: int)
    requires
        0 <= i <= digits.len(),
        forall|j: int| 0 <= j < digits.len() ==> is_digit(#[trigger] digits[j]),
    ensures
        0 <= decimal_value(digits.take(i)) <= decimal_value(digits),
    decreases digits.len(),
{
    if i == digits.len() {
        assert(digits.take(i) =~= digits);
        if digits.len() > 0 {
            lemma_decimal_value_grows(digits.drop_last(), i - 1);
            assert(digits.drop_last().take(i - 1) =~= digits.drop_last());
            assert(is_digit(digits[i - 1]));
        }
    } else {
        lemma_decimal_value_grows(digits.drop_last(), i);
        assert(digits.drop_last().take(i) =~= digits.take(i));
        assert(is_digit(digits[digits.len() - 1]));
    }
}

/// The `usize` that `text` writes in decimal digits.
pub fn parse_usize_text(text: &str) -> (parsed: Option<usize>)
    ensures
        parsed == parse_usize(text@),
{
    let chars = chars_of(text);
    let n: usize = chars.len();
    let start: usize = if n > 0 && chars[0] == '+' {
        1
    } else {
        0
    };
    let ghost digits = strip_plus(text@);
    assert(digits =~= text@.skip(start as int));
    if start == n {
        return None;
    }
    let mut i: usize = start;
    while i < n
        invariant
            n == chars@.len(),
            chars@ == text@,
            digits == text@.skip(start as int),
            digits == strip_plus(text@),
            start <= i <= n,
            forall|j: int| 0 <= j < i - start ==> is_digit(#[trigger] digits[j]),
        decreases n - i,
    {
        if chars[i] < '0' || chars[i] > '9' {
            assert(!is_digit(digits[i - start]));
            return None;
        }
        assert(is_digit(digits[i - start]));
        i += 1;
    }
    let mut value: usize = 0;
    i = start;
    while i < n
        invariant
            n == chars@.len(),
            chars@ == text@,
            digits == text@.skip(start as int),
            digits == strip_plus(text@),
            start <= i <= n,
            is_decimal(digits),
            value == decimal_value(digits.take(i - start)),
        decreases n - i,
    {
        proof {
            assert(is_digit(digits[i - start]));
            assert(digits.take(i - start + 1).drop_last() =~= digits.take(i - start));
            lemma_decimal_value_grows(digits, i - start + 1);
        }
        let digit: usize = (chars[i] as u32 - '0' as u32) as usize;
        match value.checked_mul(10) {
            Some(tenfold) => match tenfold.checked_add(digit) {
                Some(sum) => {
                    value = sum;
                },
                None => {
                    return None;
                },
            },
            None => {
                return None;
            },
        }
        i += 1;
    }
    assert(digits.take(n - start) =~= digits);
    Some(value)
}

/// `n` in decimal digits.
pub open spec fn decimal(n: nat) -> Seq<char>
    decreases n,
{
    if n < 10 {
        seq![('0' as u32 + n) as char]
    } else {
        decimal(n / 10).push(('0' as u32 + n % 10) as char)
    }
}

fn digit_text(digit: usize) -> (text: &'static str)
    requires
        digit < 10,
    ensures
        text@ == seq![('0' as u32 + digit) as char],
{
    proof {
        reveal_strlit("0");
        reveal_strlit("1");
        reveal_strlit("2");
        reveal_strlit("3");
        reveal_strlit("4");
        reveal_strlit("5");
        reveal_strlit("6");
        reveal_strlit("7");
        reveal_strlit("8");
        reveal_strlit("9");
    }
    match digit {
        0 => "0",
        1 => "1",
        2 => "2",
        3 => "3",
        4 => "4",
        5 => "5",
        6 => "6",
        7 => "7",
        8 => "8",
        _ => "9",
    }
}

/// `n` in decimal digits.
pub fn decimal_text(n: usize) -> (text: String)
    ensures
        text@ == decimal(n as nat),
    decreases n,
{
    if n < 10 {
        digit_text(n).to_owned()
    } else {
        let text = decimal_text(n / 10).concat(digit_text(n % 10));
        assert(text@ =~= decimal(n as nat));
        text
    }
}

/// Decimal digits read back as the number that they were written for.
pub proof fn lemma_decimal_reads_back(n: nat)
    ensures
        is_decimal(decimal(n)),
        decimal_value(decimal(n)) == n,
    decreases n,
{
    if n < 10 {
        assert(decimal(n).drop_last() =~= Seq::<char>::empty());
        assert(decimal_value(Seq::<char>::empty()) == 0);
    } else {
        lemma_decimal_reads_back(n / 10);
        assert(decimal(n).drop_last() =~= decimal(n / 10));
        assert forall|i: int| 0 <= i < decimal(n).len() implies is_digit(#[trigger] decimal(n)[i]) by {
            if i < decimal(n / 10).len() {
                assert(is_digit(decimal(n / 10)[i]));
            }
        }
    }
}

/// Where `c` occurs in `head`, it first occurs there in `head + tail`.
proof fn lemma_find_in_head(head: Seq<char>, tail: Seq<char>, c: char)
    requires
        head.contains(c),
    ensures
        find(head + tail, c) == find(head, c),
    decreases head.len(),
{
    lemma_find(head, c);
    assert((head + tail)[0] == head[0]);
    if head[0] != c {
        lemma_find(head.skip(1), c);
        lemma_find_in_head(head.skip(1), tail, c);
        assert((head + tail).skip(1) =~= head.skip(1) + tail);
    }
}

/// Where `c` does not occur in `head`, it first occurs behind it.
pub proof fn lemma_find_behind(head: Seq<char>, c: char, tail: Seq<char>)
    requires
        !head.contains(c),
    ensures
        find(head + seq![c] + tail, c) == head.len(),
        split_once(head + seq![c] + tail, c) == Some((head, tail)),
    decreases head.len(),
{
    let text = head + seq![c] + tail;
    if head.len() == 0 {
        assert(text[0] == c);
    } else {
        assert(text[0] == head[0]);
        assert(head.contains(head[0]));
        let rest = head.skip(1);
        assert forall|i: int| 0 <= i < rest.len() implies rest[i] != c by {
            assert(rest[i] == head[i + 1]);
            assert(head.contains(head[i + 1]));
        }
        lemma_find_behind(rest, c, tail);
        assert(text.skip(1) =~= rest + seq![c] + tail);
    }
    assert(text[head.len() as int] == c);
    assert(text.take(head.len() as int) =~= head);
    assert(text.skip(head.len() as int + 1) =~= tail);
}

/// The lines of a text that ends in a line feed, and of what stands behind it.
pub proof fn lemma_lines_concat(text: Seq<char>, more: Seq<char>)
    requires
        text.len() == 0 || text.last() == '\n',
    ensures
        lines(text + more) == lines(text) + lines(more),
    decreases text.len(),
{
    if text.len() == 0 {
        assert(text + more =~= more);
        assert(!text.contains('\n'));
        assert(lines(text) + lines(more) =~= lines(more));
    } else {
        assert(text.contains('\n')) by {
            assert(text[text.len() - 1] == '\n');
        }
        assert((text + more).contains('\n')) by {
            assert((text + more)[text.len() - 1] == '\n');
        }
        lemma_find(text, '\n');
        lemma_find_in_head(text, more, '\n');
        let i = find(text, '\n');
        let rest = text.skip(i + 1);
        assert(rest.len() > 0 ==> rest.last() == text.last());
        lemma_lines_concat(rest, more);
        assert((text + more).take(i) =~= text.take(i));
        assert((text + more).skip(i + 1) =~= rest + more);
        assert(lines(text + more) =~= lines(text) + lines(more));
    }
}

/// A line and its ending.
pub proof fn lemma_line_first(line: Seq<char>, more: Seq<char>)
    requires
        !line.contains('\n'),
    ensures
        lines(line + seq!['\n'] + more) == seq![strip_return(line)] + lines(more),
{
    let text = line + seq!['\n'] + more;
    lemma_find_behind(line, '\n', more);
    lemma_find(text, '\n');
}

} // verus!
