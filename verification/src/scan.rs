//! Scanning a slice of characters for the pieces of the colour notations.

use crate::chars::{ascii_lower, digit, to_ascii_lower, whitespace};
use crate::notation::{
    digit_run, fraction_len, has_point, is_exponent, is_float_text, is_number, lower,
    mantissa_len, sign_len, split_whitespace, starts_with, word_len,
};
use crate::text::chars_of;
use vstd::prelude::*;

verus! {

/// The index behind the digits that begin at `from`.
pub fn skip_digits(s: &[char], from: usize) -> (end: usize)
    requires
        from <= s@.len(),
    ensures
        from <= end <= s@.len(),
        end - from == digit_run(s@.skip(from as int)),
{
    let mut i: usize = from;
    while i < s.len() && digit(s[i])
        invariant
            from <= i <= s@.len(),
            digit_run(s@.skip(from as int)) == (i - from) + digit_run(s@.skip(i as int)),
        decreases s@.len() - i,
    {
        assert(s@.skip(i as int).skip(1) =~= s@.skip(i + 1));
        i += 1;
    }
    i
}

/// The index behind the word that begins at `from`.
pub fn skip_word(s: &[char], from: usize) -> (end: usize)
    requires
        from <= s@.len(),
    ensures
        from <= end <= s@.len(),
        end - from == word_len(s@.skip(from as int)),
{
    let mut i: usize = from;
    while i < s.len() && !whitespace(s[i])
        invariant
            from <= i <= s@.len(),
            word_len(s@.skip(from as int)) == (i - from) + word_len(s@.skip(i as int)),
        decreases s@.len() - i,
    {
        assert(s@.skip(i as int).skip(1) =~= s@.skip(i + 1));
        i += 1;
    }
    i
}

/// Decides whether `s` begins with `prefix` at `from`.
pub fn starts_with_at(s: &[char], from: usize, prefix: &[char]) -> (result: bool)
    requires
        from <= s@.len(),
    ensures
        result == starts_with(s@.skip(from as int), prefix@),
{
    if s.len() - from < prefix.len() {
        return false;
    }
    let ghost rest = s@.skip(from as int);
    let mut i: usize = 0;
    while i < prefix.len()
        invariant
            from <= s@.len() <= usize::MAX,
            i <= prefix@.len() <= s@.len() - from,
            rest == s@.skip(from as int),
            rest.take(i as int) == prefix@.take(i as int),
        decreases prefix@.len() - i,
    {
        if s[from + i] != prefix[i] {
            assert(rest.take(prefix@.len() as int)[i as int] != prefix@[i as int]);
            return false;
        }
        assert(rest.take(i + 1) =~= rest.take(i as int).push(rest[i as int]));
        assert(prefix@.take(i + 1) =~= prefix@.take(i as int).push(prefix@[i as int]));
        i += 1;
    }
    assert(prefix@.take(prefix@.len() as int) =~= prefix@);
    true
}

/// The stretches of `s` that `ranges` marks, each from its first index up to
/// its second.
pub open spec fn stretches(s: Seq<char>, ranges: Seq<(usize, usize)>) -> Seq<Seq<char>> {
    ranges.map_values(|r: (usize, usize)| s.subrange(r.0 as int, r.1 as int))
}

/// Where the words of `s` stand, in order.
pub fn word_ranges(s: &[char]) -> (ranges: Vec<(usize, usize)>)
    ensures
        stretches(s@, ranges@) == split_whitespace(s@),
        forall|k: int|
            0 <= k < ranges@.len() ==> (#[trigger] ranges@[k]).0 <= ranges@[k].1 <= s@.len(),
{
    let mut ranges: Vec<(usize, usize)> = Vec::new();
    let mut at: usize = 0;
    assert(s@.skip(0) =~= s@);
    assert(stretches(s@, ranges@) + split_whitespace(s@) =~= split_whitespace(s@));
    while at < s.len()
        invariant
            at <= s@.len(),
            stretches(s@, ranges@) + split_whitespace(s@.skip(at as int)) == split_whitespace(s@),
            forall|k: int|
                0 <= k < ranges@.len() ==> (#[trigger] ranges@[k]).0 <= ranges@[k].1 <= s@.len(),
        decreases s@.len() - at,
    {
        let ghost rest = s@.skip(at as int);
        if whitespace(s[at]) {
            assert(rest.skip(1) =~= s@.skip(at + 1));
            at += 1;
        } else {
            let end = skip_word(s, at);
            proof {
                let done = stretches(s@, ranges@);
                let word = s@.subrange(at as int, end as int);
                assert(rest.take(word_len(rest) as int) =~= word);
                assert(rest.skip(word_len(rest) as int) =~= s@.skip(end as int));
                assert(stretches(s@, ranges@.push((at, end))) =~= done.push(word));
                assert(done.push(word) + split_whitespace(s@.skip(end as int)) =~= done
                    + split_whitespace(rest));
            }
            ranges.push((at, end));
            at = end;
        }
    }
    assert(stretches(s@, ranges@) + split_whitespace(s@.skip(at as int)) =~= stretches(
        s@,
        ranges@,
    ));
    ranges
}

/// Decides whether `s` from `from` on, in lower case, is `word`.
pub fn lower_equals(s: &[char], from: usize, word: &str) -> (result: bool)
    requires
        from <= s@.len(),
    ensures
        result == (lower(s@.skip(from as int)) == word@),
{
    let letters = chars_of(word);
    let ghost rest = lower(s@.skip(from as int));
    assert(rest.len() == s@.len() - from);
    if s.len() - from != letters.len() {
        return false;
    }
    let mut i: usize = 0;
    while i < letters.len()
        invariant
            from <= s@.len() <= usize::MAX,
            i <= letters@.len() == s@.len() - from,
            rest == lower(s@.skip(from as int)),
            letters@ == word@,
            rest.take(i as int) == letters@.take(i as int),
        decreases letters@.len() - i,
    {
        if to_ascii_lower(s[from + i]) != letters[i] {
            assert(rest[i as int] == ascii_lower(s@[from + i]));
            return false;
        }
        assert(rest.take(i + 1) =~= rest.take(i as int).push(rest[i as int]));
        assert(letters@.take(i + 1) =~= letters@.take(i as int).push(letters@[i as int]));
        i += 1;
    }
    assert(rest.take(rest.len() as int) =~= rest);
    assert(letters@.take(letters@.len() as int) =~= letters@);
    true
}

/// Decides whether `s` from `from` on is an exponent.
fn exponent_at(s: &[char], from: usize) -> (result: bool)
    requires
        from <= s@.len(),
    ensures
        result == is_exponent(s@.skip(from as int)),
{
    let n = s.len();
    if from >= n || to_ascii_lower(s[from]) != 'e' {
        return false;
    }
    let ghost rest = s@.skip(from as int);
    assert(rest.skip(1) =~= s@.skip(from + 1));
    let signed = from + 1 < n && (s[from + 1] == '+' || s[from + 1] == '-');
    let digits: usize = if signed {
        from + 2
    } else {
        from + 1
    };
    assert(rest.skip(1 + sign_len(rest.skip(1))) =~= s@.skip(digits as int));
    if digits >= n {
        return false;
    }
    let end = skip_digits(s, digits);
    end == n
}

/// Where the parts of the number that begins at `from` end: the digits
/// before the point, and the digits behind it.
pub fn mantissa_ends(s: &[char], from: usize) -> (ends: (usize, usize))
    requires
        from <= s@.len(),
    ensures
        from <= ends.0 <= ends.1 <= s@.len(),
        ends.0 - from == digit_run(s@.skip(from as int)),
        ends.1 - from == mantissa_len(s@.skip(from as int)),
        ends.1 - ends.0 == if has_point(s@.skip(from as int)) {
            1 + fraction_len(s@.skip(from as int))
        } else {
            0
        },
{
    let ghost body = s@.skip(from as int);
    let whole_end = skip_digits(s, from);
    if whole_end < s.len() && s[whole_end] == '.' {
        assert(body.skip(whole_end - from + 1) =~= s@.skip(whole_end + 1));
        let fraction_end = skip_digits(s, whole_end + 1);
        (whole_end, fraction_end)
    } else {
        (whole_end, whole_end)
    }
}

/// Decides whether `s` from `from` on is an unsigned decimal number.
fn number_at(s: &[char], from: usize) -> (result: bool)
    requires
        from <= s@.len(),
    ensures
        result == is_number(s@.skip(from as int)),
{
    let ghost body = s@.skip(from as int);
    let (whole_end, mantissa_end) = mantissa_ends(s, from);
    assert(body.skip(mantissa_end - from) =~= s@.skip(mantissa_end as int));
    if mantissa_end - from == 0 || (whole_end == from && mantissa_end - whole_end == 1) {
        return false;
    }
    mantissa_end == s.len() || exponent_at(s, mantissa_end)
}

/// Decides whether `s` is the text of a floating-point number.
pub fn is_float(s: &[char]) -> (result: bool)
    ensures
        result == is_float_text(s@),
{
    let start: usize = if s.len() > 0 && (s[0] == '+' || s[0] == '-') {
        1
    } else {
        0
    };
    lower_equals(s, start, "inf") || lower_equals(s, start, "infinity") || lower_equals(
        s,
        start,
        "nan",
    ) || number_at(s, start)
}

} // verus!
