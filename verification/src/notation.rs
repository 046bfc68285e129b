//! What the colour notations mean, stated over sequences of characters.

use crate::chars::{ascii_lower, hex_value, is_digit, is_hex_digit, is_whitespace};
use vstd::prelude::*;

verus! {

/// The value of a pair of characters read as a base-16 integer of two
/// digits. A pair that holds any other character counts as 0.
pub open spec fn hex_pair_value(high: char, low: char) -> u8 {
    if is_hex_digit(high) && is_hex_digit(low) {
        (hex_value(high) * 16 + hex_value(low)) as u8
    } else {
        0
    }
}

/// The words that open the display-p3 notation.
pub open spec fn p3_prefix() -> Seq<char> {
    "color(display-p3"@
}

/// Whether `s` begins with `prefix`.
pub open spec fn starts_with(s: Seq<char>, prefix: Seq<char>) -> bool {
    prefix.len() <= s.len() && s.take(prefix.len() as int) == prefix
}

/// `s` without the closing bracket that it ends with, if it ends with one.
pub open spec fn without_closing(s: Seq<char>) -> Seq<char> {
    if s.len() > 0 && s.last() == ')' {
        s.drop_last()
    } else {
        s
    }
}

/// How many characters at the start of `s` are no white space.
pub open spec fn word_len(s: Seq<char>) -> nat
    decreases s.len(),
{
    if s.len() > 0 && !is_whitespace(s[0]) {
        1 + word_len(s.skip(1))
    } else {
        0
    }
}

/// How many characters at the start of `s` are decimal digits.
pub open spec fn digit_run(s: Seq<char>) -> nat
    decreases s.len(),
{
    if s.len() > 0 && is_digit(s[0]) {
        1 + digit_run(s.skip(1))
    } else {
        0
    }
}

/// A word is never longer than the text it starts.
pub proof fn lemma_word_len_bound(s: Seq<char>)
    ensures
        word_len(s) <= s.len(),
    decreases s.len(),
{
    if s.len() > 0 && !is_whitespace(s[0]) {
        lemma_word_len_bound(s.skip(1));
    }
}

/// A run of digits is never longer than the text it starts.
pub proof fn lemma_digit_run_bound(s: Seq<char>)
    ensures
        digit_run(s) <= s.len(),
    decreases s.len(),
{
    if s.len() > 0 && is_digit(s[0]) {
        lemma_digit_run_bound(s.skip(1));
    }
}

/// The words of `s`: its longest stretches without white space, in order.
pub open spec fn split_whitespace(s: Seq<char>) -> Seq<Seq<char>>
    decreases s.len(),
{
    if s.len() == 0 {
        Seq::empty()
    } else if is_whitespace(s[0]) {
        split_whitespace(s.skip(1))
    } else {
        proof {
            lemma_word_len_bound(s);
        }
        seq![s.take(word_len(s) as int)] + split_whitespace(s.skip(word_len(s) as int))
    }
}

/// 1 where `s` begins with a sign, else 0.
pub open spec fn sign_len(s: Seq<char>) -> int {
    if s.len() > 0 && (s[0] == '+' || s[0] == '-') {
        1
    } else {
        0
    }
}

/// `s` with its upper-case ASCII letters in lower case.
pub open spec fn lower(s: Seq<char>) -> Seq<char> {
    s.map_values(|c: char| ascii_lower(c))
}

/// Whether `s` is an exponent: `e` or `E`, an optional sign, then one digit
/// or more, and nothing else.
pub open spec fn is_exponent(s: Seq<char>) -> bool {
    let digits = s.skip(1 + sign_len(s.skip(1)));
    &&& s.len() > 0
    &&& ascii_lower(s[0]) == 'e'
    &&& digits.len() > 0
    &&& digit_run(digits) == digits.len()
}

/// Whether a point follows the digits that `s` begins with.
pub open spec fn has_point(s: Seq<char>) -> bool {
    digit_run(s) < s.len() && s[digit_run(s) as int] == '.'
}

/// How many digits follow the point of `s`; 0 where it has none.
pub open spec fn fraction_len(s: Seq<char>) -> nat {
    if has_point(s) {
        digit_run(s.skip(digit_run(s) as int + 1))
    } else {
        0
    }
}

/// How long the digits that `s` begins with are, together with its point
/// and the digits behind it.
pub open spec fn mantissa_len(s: Seq<char>) -> nat {
    if has_point(s) {
        digit_run(s) + 1 + fraction_len(s)
    } else {
        digit_run(s)
    }
}

/// Whether `s` is an unsigned decimal number: digits with at most one point
/// among them, at least one digit before or after it, and an optional
/// exponent.
pub open spec fn is_number(s: Seq<char>) -> bool {
    let rest = s.skip(mantissa_len(s) as int);
    digit_run(s) + fraction_len(s) > 0 && (rest.len() == 0 || is_exponent(rest))
}

/// Whether `s` is the text of a floating-point number: an optional sign,
/// then `inf`, `infinity` or `nan` in any case, or a decimal number.
pub open spec fn is_float_text(s: Seq<char>) -> bool {
    let body = s.skip(sign_len(s));
    ||| lower(body) == "inf"@
    ||| lower(body) == "infinity"@
    ||| lower(body) == "nan"@
    ||| is_number(body)
}

/// The characters that a run of digits counts are digits.
pub proof fn lemma_digit_run_holds_digits(s: Seq<char>, i: int)
    requires
        0 <= i < digit_run(s),
    ensures
        i < s.len(),
        is_digit(s[i]),
    decreases s.len(),
{
    if i > 0 {
        lemma_digit_run_holds_digits(s.skip(1), i - 1);
    }
}

/// The characters that a word counts are no white space.
pub proof fn lemma_word_holds_no_whitespace(s: Seq<char>, i: int)
    requires
        0 <= i < word_len(s),
    ensures
        i < s.len(),
        !is_whitespace(s[i]),
    decreases s.len(),
{
    if i > 0 {
        lemma_word_holds_no_whitespace(s.skip(1), i - 1);
    }
}

/// A text without white space, followed by nothing or by white space, is
/// one word.
pub proof fn lemma_word_len_of_word(word: Seq<char>, rest: Seq<char>)
    requires
        forall|i: int| 0 <= i < word.len() ==> !is_whitespace(#[trigger] word[i]),
        rest.len() == 0 || is_whitespace(rest[0]),
    ensures
        word_len(word + rest) == word.len(),
    decreases word.len(),
{
    if word.len() > 0 {
        assert((word + rest).skip(1) =~= word.skip(1) + rest);
        assert forall|i: int| 0 <= i < word.skip(1).len() implies !is_whitespace(
            #[trigger] word.skip(1)[i],
        ) by {
            assert(word.skip(1)[i] == word[i + 1]);
        }
        lemma_word_len_of_word(word.skip(1), rest);
    } else {
        assert(word + rest =~= rest);
    }
}

/// The words of a text that begins with a word are that word and the words
/// of what follows it.
pub proof fn lemma_split_after_word(word: Seq<char>, rest: Seq<char>)
    requires
        word.len() > 0,
        forall|i: int| 0 <= i < word.len() ==> !is_whitespace(#[trigger] word[i]),
        rest.len() == 0 || is_whitespace(rest[0]),
    ensures
        split_whitespace(word + rest) == seq![word] + split_whitespace(rest),
{
    let s = word + rest;
    lemma_word_len_of_word(word, rest);
    assert(s[0] == word[0]);
    assert(s.take(word.len() as int) =~= word);
    assert(s.skip(word.len() as int) =~= rest);
}

/// White space before a text adds no word.
pub proof fn lemma_split_after_space(c: char, rest: Seq<char>)
    requires
        is_whitespace(c),
    ensures
        split_whitespace(seq![c] + rest) == split_whitespace(rest),
{
    assert((seq![c] + rest).skip(1) =~= rest);
}

/// A number is written without white space, and is not empty.
pub proof fn lemma_float_text_is_one_word(s: Seq<char>)
    requires
        is_float_text(s),
    ensures
        s.len() > 0,
        forall|i: int| 0 <= i < s.len() ==> !is_whitespace(#[trigger] s[i]),
{
    reveal_strlit("inf");
    reveal_strlit("infinity");
    reveal_strlit("nan");
    let sign = sign_len(s);
    let body = s.skip(sign);
    assert forall|i: int| 0 <= i < s.len() implies !is_whitespace(#[trigger] s[i]) by {
        if i >= sign {
            assert(s[i] == body[i - sign]);
            lemma_body_char(body, i - sign);
        }
    }
    if is_number(body) {
        lemma_digit_run_bound(body);
    } else {
        assert(lower(body).len() == body.len());
    }
}

/// Whether `c` may stand in a number: a letter, a digit, a sign or a point.
pub open spec fn is_number_char(c: char) -> bool {
    ||| is_digit(c)
    ||| ('a' <= c && c <= 'z')
    ||| ('A' <= c && c <= 'Z')
    ||| c == '+'
    ||| c == '-'
    ||| c == '.'
}

/// Each character of a number without its sign is a letter, a digit, a sign
/// or a point.
proof fn lemma_body_char(body: Seq<char>, i: int)
    requires
        0 <= i < body.len(),
        lower(body) == "inf"@ || lower(body) == "infinity"@ || lower(body) == "nan"@ || is_number(
            body,
        ),
    ensures
        is_number_char(body[i]),
{
    reveal_strlit("inf");
    reveal_strlit("infinity");
    reveal_strlit("nan");
    if lower(body) == "inf"@ || lower(body) == "infinity"@ || lower(body) == "nan"@ {
        assert(lower(body)[i] == ascii_lower(body[i]));
        assert("inf"@ =~= seq!['i', 'n', 'f']);
        assert("infinity"@ =~= seq!['i', 'n', 'f', 'i', 'n', 'i', 't', 'y']);
        assert("nan"@ =~= seq!['n', 'a', 'n']);
        assert('a' <= lower(body)[i] && lower(body)[i] <= 'z');
    } else {
        let whole = digit_run(body) as int;
        let mantissa = mantissa_len(body) as int;
        lemma_digit_run_bound(body);
        if i < whole {
            lemma_digit_run_holds_digits(body, i);
        } else if i < mantissa {
            if i > whole {
                lemma_digit_run_holds_digits(body.skip(whole + 1), i - whole - 1);
            }
        } else {
            if has_point(body) {
                lemma_digit_run_bound(body.skip(whole + 1));
            }
            let rest = body.skip(mantissa);
            let j = i - mantissa;
            assert(rest[j] == body[i]);
            let digits = rest.skip(1 + sign_len(rest.skip(1)));
            if j >= 1 + sign_len(rest.skip(1)) {
                lemma_digit_run_holds_digits(digits, j - 1 - sign_len(rest.skip(1)));
            } else if j == 1 {
                assert(rest.skip(1)[0] == rest[1]);
            }
        }
    }
}

} // verus!
