//! What is found in a text.

use crate::laws_of_proposals::all_white;
use crate::split::split_at_first;
use crate::text::{
    begins_with, chars_of, decimal, decimal_text, decimal_value, has_char, is_blank, is_blank_text,
    is_digit, is_space, lemma_decimal_reads_back, lemma_find, lemma_find_behind, lemma_line_first,
    lemma_trim_blank, lines, lines_of, lower, parse_usize, parse_usize_text, same_but_case,
    same_text, same_text_but_case, split, split_once, split_text, strip_plus, strip_return, trim,
    trim_end, trim_start, trim_text, views,
};
use vstd::arithmetic::div_mod::lemma_div_denominator;
use vstd::arithmetic::power::{lemma_pow0, lemma_pow_positive, pow};
use vstd::prelude::*;

verus! {

/// A text is split where the character first occurs, and nothing of it is lost.
pub proof fn law_split_once_is_at_the_first(text: Seq<char>, c: char)
    ensures
        split_once(text, c) is None <==> !text.contains(c),
        split_once(text, c) matches Some((before, after)) ==> text == before + seq![c] + after
            && !before.contains(c),
{
    lemma_find(text, c);
    if let Some((before, after)) = split_once(text, c) {
        assert(text =~= before + seq![c] + after);
        assert forall|i: int| 0 <= i < before.len() implies before[i] != c by {
            assert(before[i] == text[i]);
        }
    }
}

/// What stands before the first occurrence is the first part, and what stands
/// behind it is split into the others; a text without the character is one part.
pub proof fn law_split_parts(part: Seq<char>, c: char, more: Seq<char>)
    requires
        !part.contains(c),
    ensures
        split(part, c) == seq![part],
        split(part + seq![c] + more, c) == seq![part] + split(more, c),
{
    lemma_find_behind(part, c, more);
    lemma_find(part + seq![c] + more, c);
}

/// A line ends at a line feed, or at a carriage return and a line feed, and the
/// other lines stand behind it. The last line needs no ending, and an empty text
/// has no line.
pub proof fn law_lines(line: Seq<char>, more: Seq<char>)
    requires
        !line.contains('\n'),
    ensures
        lines(line) == if line.len() == 0 {
            seq![]
        } else {
            seq![line]
        },
        lines(line + seq!['\r', '\n'] + more) == seq![line] + lines(more),
        (line.len() == 0 || line.last() != '\r') ==> lines(line + seq!['\n'] + more) == seq![line]
            + lines(more),
{
    let ended = line.push('\r');
    assert(!ended.contains('\n'));
    lemma_line_first(ended, more);
    assert(ended + seq!['\n'] + more =~= line + seq!['\r', '\n'] + more);
    assert(strip_return(ended) =~= line);
    lemma_line_first(line, more);
}

proof fn lemma_trim_start(text: Seq<char>) -> (left: Seq<char>)
    ensures
        text == left + trim_start(text),
        all_white(left),
        trim_start(text).len() > 0 ==> !is_space(trim_start(text)[0]),
    decreases text.len(),
{
    if text.len() > 0 && is_space(text[0]) {
        let rest = lemma_trim_start(text.skip(1));
        let left = seq![text[0]] + rest;
        assert(text =~= seq![text[0]] + text.skip(1));
        assert(text =~= left + trim_start(text));
        assert forall|i: int| 0 <= i < left.len() implies is_space(#[trigger] left[i]) by {
            if i > 0 {
                assert(is_space(rest[i - 1]));
            }
        }
        left
    } else {
        assert(text =~= seq![] + trim_start(text));
        seq![]
    }
}

proof fn lemma_trim_end(text: Seq<char>) -> (right: Seq<char>)
    ensures
        text == trim_end(text) + right,
        all_white(right),
        trim_end(text).len() > 0 ==> !is_space(trim_end(text).last()),
    decreases text.len(),
{
    if text.len() > 0 && is_space(text.last()) {
        let rest = lemma_trim_end(text.drop_last());
        let right = rest.push(text.last());
        assert(text =~= text.drop_last().push(text.last()));
        assert(text =~= trim_end(text) + right);
        assert forall|i: int| 0 <= i < right.len() implies is_space(#[trigger] right[i]) by {
            if i < rest.len() {
                assert(is_space(rest[i]));
            }
        }
        right
    } else {
        assert(text =~= trim_end(text) + seq![]);
        seq![]
    }
}

/// Trimming takes white space from both ends of a text, all of it and nothing
/// else.
pub proof fn law_trim_takes_white_space_only(text: Seq<char>)
    ensures
        exists|left: Seq<char>, right: Seq<char>|
            text == #[trigger] (left + trim(text) + right) && all_white(left) && all_white(right),
        trim(text).len() > 0 ==> !is_space(trim(text)[0]) && !is_space(trim(text).last()),
        trim(text).len() == 0 <==> all_white(text),
        is_blank(text) <==> all_white(text),
{
    let left = lemma_trim_start(text);
    let right = lemma_trim_end(trim_start(text));
    assert(text =~= left + trim(text) + right);
    lemma_trim_blank(text);
    if trim(text).len() > 0 {
        assert(trim(text)[0] == trim_start(text)[0]);
    }
}

/// Texts are the same but for case just where they are as long, and each two
/// characters are the same, or a capital and its small letter in ASCII.
pub proof fn law_case_is_that_of_ascii(a: Seq<char>, b: Seq<char>)
    ensures
        same_but_case(a, b) <==> a.len() == b.len() && forall|i: int|
            0 <= i < a.len() ==> {
                ||| #[trigger] a[i] == b[i]
                ||| 'A' <= a[i] <= 'Z' && b[i] as int == a[i] as int + 32
                ||| 'A' <= b[i] <= 'Z' && a[i] as int == b[i] as int + 32
            },
{
    if a.len() == b.len() {
        assert forall|i: int| 0 <= i < a.len() implies (lower(#[trigger] a[i]) == lower(b[i])) == {
            ||| a[i] == b[i]
            ||| 'A' <= a[i] <= 'Z' && b[i] as int == a[i] as int + 32
            ||| 'A' <= b[i] <= 'Z' && a[i] as int == b[i] as int + 32
        } by {
            lemma_lower(a[i], b[i]);
        }
    }
}

proof fn lemma_lower(a: char, b: char)
    ensures
        (lower(a) == lower(b)) == {
            ||| a == b
            ||| 'A' <= a <= 'Z' && b as int == a as int + 32
            ||| 'A' <= b <= 'Z' && a as int == b as int + 32
        },
{
    if 'A' <= a <= 'Z' {
        assert(lower(a) as int == a as int + 32);
    }
    if 'A' <= b <= 'Z' {
        assert(lower(b) as int == b as int + 32);
    }
}

/// The digits of a number are those of its decimal notation: each is worth its
/// power of ten, there are enough of them, and none too many.
pub proof fn law_decimal_digits(n: nat)
    ensures
        decimal(n).len() > 0,
        n < pow(10, decimal(n).len()),
        decimal(n).len() > 1 ==> n >= pow(10, (decimal(n).len() - 1) as nat),
        forall|i: int|
            0 <= i < decimal(n).len() ==> #[trigger] decimal(n)[i] as int == '0' as int + (n as int
                / pow(10, (decimal(n).len() - 1 - i) as nat)) % 10,
    decreases n,
{
    reveal(pow);
    lemma_pow0(10);
    let digits = decimal(n);
    let len = digits.len();
    if n < 10 {
        reveal_with_fuel(pow, 2);
        assert(pow(10, 1) == 10);
        assert(len == 1);
        assert forall|i: int| 0 <= i < len implies #[trigger] digits[i] as int == '0' as int + (
        n as int / pow(10, (len - 1 - i) as nat)) % 10 by {
            assert(i == 0);
            assert(pow(10, 0) == 1);
            assert(n as int / 1 == n);
        }
    } else {
        let rest = decimal(n / 10);
        law_decimal_digits(n / 10);
        assert(len == rest.len() + 1);
        assert(pow(10, len) == 10 * pow(10, rest.len()));
        assert(pow(10, rest.len()) == 10 * pow(10, (rest.len() - 1) as nat));
        if rest.len() == 1 {
            assert(n / 10 >= 1);
        }
        assert forall|i: int| 0 <= i < len implies #[trigger] digits[i] as int == '0' as int + (
        n as int / pow(10, (len - 1 - i) as nat)) % 10 by {
            if i < len - 1 {
                let j = (len - 2 - i) as nat;
                assert(digits[i] == rest[i]);
                lemma_pow_positive(10, j);
                lemma_div_denominator(n as int, 10, pow(10, j));
                assert(pow(10, (len - 1 - i) as nat) == 10 * pow(10, j));
            }
        }
    }
}

proof fn lemma_leading_zeros(zeros: nat, digits: Seq<char>)
    ensures
        decimal_value(Seq::new(zeros, |i: int| '0') + digits) == decimal_value(digits),
    decreases zeros + digits.len(),
{
    let pad = Seq::new(zeros, |i: int| '0');
    let text = pad + digits;
    if digits.len() > 0 {
        lemma_leading_zeros(zeros, digits.drop_last());
        assert(text.drop_last() =~= pad + digits.drop_last());
        assert(text.last() == digits.last());
    } else if zeros > 0 {
        let less = (zeros - 1) as nat;
        lemma_leading_zeros(less, digits);
        assert(text.drop_last() =~= Seq::new(less, |i: int| '0') + digits);
        assert(text.last() == '0');
    } else {
        assert(text =~= digits);
    }
}

/// A number is read from its digits, with any number of zeros before them, and
/// with a plus sign before all or without. It is not read if it does not fit.
pub proof fn law_number_is_read_from_its_digits(zeros: nat, n: nat)
    ensures
        ({
            let text = Seq::new(zeros, |i: int| '0') + decimal(n);
            let read = if n <= usize::MAX {
                Some(n as usize)
            } else {
                None
            };
            parse_usize(text) == read && parse_usize(seq!['+'] + text) == read
        }),
{
    let pad = Seq::new(zeros, |i: int| '0');
    let text = pad + decimal(n);
    lemma_decimal_reads_back(n);
    lemma_leading_zeros(zeros, decimal(n));
    assert forall|i: int| 0 <= i < text.len() implies is_digit(#[trigger] text[i]) by {
        if i >= zeros {
            assert(is_digit(decimal(n)[i - zeros]));
        }
    }
    assert(is_digit(text[0]));
    assert(strip_plus(text) == text);
    assert((seq!['+'] + text).skip(1) =~= text);
    assert(strip_plus(seq!['+'] + text) == text);
}

/// No number is read from a text with anything in it but digits behind a plus
/// sign or none, nor from one without digits.
pub proof fn law_nothing_else_is_a_number(text: Seq<char>)
    requires
        text.len() == 0 || text == seq!['+'] || exists|i: int|
            0 <= i < text.len() && !('0' <= #[trigger] text[i] <= '9') && !(i == 0 && text[0]
                == '+'),
    ensures
        parse_usize(text) is None,
{
    let digits = strip_plus(text);
    if text.len() > 0 && text != seq!['+'] {
        let i = choose|i: int|
            0 <= i < text.len() && !('0' <= #[trigger] text[i] <= '9') && !(i == 0 && text[0]
                == '+');
        if text[0] == '+' {
            assert(digits[i - 1] == text[i]);
            assert(!is_digit(digits[i - 1]));
        } else {
            assert(!is_digit(digits[i]));
        }
    }
}

/// A text is split into its parts and its lines, and at a character, with
/// nothing of it changed.
pub proof fn law_text_is_split<'a>(
    text: &'a str,
    c: char,
    halves: Option<(&'a str, &'a str)>,
    parts: Vec<&'a str>,
    found: Vec<&'a str>,
    chars: Vec<char>,
)
    requires
        call_ensures(split_at_first, (text, c), halves),
        call_ensures(split_text, (text, c), parts),
        call_ensures(lines_of, (text,), found),
        call_ensures(chars_of, (text,), chars),
    ensures
        halves is Some <==> text@.contains(c),
        halves matches Some((before, after)) ==> text@ == before@ + seq![c] + after@
            && !before@.contains(c),
        Seq::new(parts@.len(), |i: int| parts@[i]@) == split(text@, c),
        Seq::new(found@.len(), |i: int| found@[i]@) == lines(text@),
        chars@ == text@,
{
    law_split_once_is_at_the_first(text@, c);
    assert(Seq::new(parts@.len(), |i: int| parts@[i]@) =~= views(parts@));
    assert(Seq::new(found@.len(), |i: int| found@[i]@) =~= views(found@));
}

/// Texts are compared character by character.
pub proof fn law_texts_are_compared(
    a: &str,
    b: &str,
    c: char,
    same: bool,
    begins: bool,
    has: bool,
    same_letters: bool,
)
    requires
        call_ensures(same_text, (a, b), same),
        call_ensures(begins_with, (a, b), begins),
        call_ensures(has_char, (a, c), has),
        call_ensures(same_text_but_case, (a, b), same_letters),
    ensures
        same <==> a@ == b@,
        begins <==> b@.len() <= a@.len() && a@.take(b@.len() as int) == b@,
        has <==> a@.contains(c),
        same_letters <==> same_but_case(a@, b@),
{
    if b@.len() <= a@.len() {
        assert(a@.subrange(0, b@.len() as int) =~= a@.take(b@.len() as int));
    }
}

/// Texts are trimmed, and numbers read and written, as is said of them above.
pub proof fn law_text_is_trimmed_and_read(
    text: &str,
    n: usize,
    trimmed: &str,
    blank: bool,
    parsed: Option<usize>,
    digits: String,
)
    requires
        call_ensures(trim_text, (text,), trimmed),
        call_ensures(is_blank_text, (text,), blank),
        call_ensures(parse_usize_text, (text,), parsed),
        call_ensures(decimal_text, (n,), digits),
    ensures
        trimmed@ == trim(text@),
        blank <==> all_white(text@),
        parsed == parse_usize(text@),
        digits@ == decimal(n as nat),
{
}

} // verus!
