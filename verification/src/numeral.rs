//! Reading numbers out of annotation text.
//!
//! Whole numbers are read exactly. Numbers with a fraction or an exponent are
//! only recognised: the text is kept, and whoever needs the value reads it
//! from the text.

use vstd::prelude::*;

verus! {

/// An ASCII decimal digit.
pub open spec fn is_digit(c: char) -> bool {
    '0' <= c <= '9'
}

/// What a digit counts for; 0 for any other character.
pub open spec fn digit_value(c: char) -> nat {
    if is_digit(c) {
        (c as u32 - '0' as u32) as nat
    } else {
        0
    }
}

/// Every character from `from` up to `to` is a digit.
pub open spec fn digits_between(s: Seq<char>, from: int, to: int) -> bool {
    forall|i: int| from <= i < to ==> is_digit(#[trigger] s[i])
}

/// The number that a run of digits writes, most significant digit first.
pub open spec fn digits_value(s: Seq<char>) -> nat
    decreases s.len(),
{
    if s.len() == 0 {
        0
    } else {
        digits_value(s.drop_last()) * 10 + digit_value(s.last())
    }
}

/// 1 where a `+` stands at `at`, else 0.
pub open spec fn plus_len(s: Seq<char>, at: int) -> int {
    if 0 <= at < s.len() && s[at] == '+' {
        1
    } else {
        0
    }
}

/// 1 where a `+` or a `-` stands at `at`, else 0.
pub open spec fn sign_len(s: Seq<char>, at: int) -> int {
    if 0 <= at < s.len() && (s[at] == '+' || s[at] == '-') {
        1
    } else {
        0
    }
}

/// The whole number that `s` writes: an optional `+`, then one digit or more
/// and nothing else.
pub open spec fn unsigned_value(s: Seq<char>) -> Option<nat> {
    let start = plus_len(s, 0);
    if start < s.len() && digits_between(s, start, s.len() as int) {
        Some(digits_value(s.subrange(start, s.len() as int)))
    } else {
        None
    }
}

/// The whole number that `s` writes, where it is at most `max`.
pub open spec fn bounded_value(s: Seq<char>, max: nat) -> Option<nat> {
    match unsigned_value(s) {
        Some(v) => if v <= max {
            Some(v)
        } else {
            None
        },
        None => None,
    }
}

/// Where the run of digits that starts at `from` ends.
pub open spec fn digit_run(s: Seq<char>, from: int) -> int
    decreases s.len() - from,
{
    if 0 <= from < s.len() && is_digit(s[from]) {
        digit_run(s, from + 1)
    } else {
        from
    }
}

/// From `at` to the end stands an exponent: `e` or `E`, an optional sign,
/// then one digit or more.
pub open spec fn is_exponent_at(s: Seq<char>, at: int) -> bool {
    let digits = at + 1 + sign_len(s, at + 1);
    &&& 0 <= at < s.len()
    &&& (s[at] == 'e' || s[at] == 'E')
    &&& digits < s.len()
    &&& digits_between(s, digits, s.len() as int)
}

/// From `at` to the end stands a decimal number: digits, optionally a point
/// and more digits, with at least one digit in all, then optionally an
/// exponent.
pub open spec fn is_decimal_at(s: Seq<char>, at: int) -> bool {
    let whole_end = digit_run(s, at);
    let fraction_start = if whole_end < s.len() && s[whole_end] == '.' {
        whole_end + 1
    } else {
        whole_end
    };
    let fraction_end = digit_run(s, fraction_start);
    &&& (whole_end - at) + (fraction_end - fraction_start) > 0
    &&& (fraction_end == s.len() || is_exponent_at(s, fraction_end))
}

/// `c` and `letter`, a lower-case ASCII letter, differ at most in case.
pub open spec fn is_letter(c: char, letter: char) -> bool {
    c == letter || c as u32 + 32 == letter as u32
}

/// From `at` to the end stands `word`, in any mix of upper and lower case.
pub open spec fn is_word_at(s: Seq<char>, at: int, word: Seq<char>) -> bool {
    &&& s.len() - at == word.len()
    &&& forall|i: int| 0 <= i < word.len() ==> is_letter(#[trigger] s[at + i], word[i])
}

/// The word for an unbounded amount, in its short form.
pub open spec fn word_inf() -> Seq<char> {
    seq!['i', 'n', 'f']
}

/// The word for an unbounded amount, in its long form.
pub open spec fn word_infinity() -> Seq<char> {
    seq!['i', 'n', 'f', 'i', 'n', 'i', 't', 'y']
}

/// The word for an amount that is no number.
pub open spec fn word_nan() -> Seq<char> {
    seq!['n', 'a', 'n']
}

/// Whether `s` writes a number with an optional fraction and exponent: an
/// optional sign, then a decimal number or one of the words `inf`,
/// `infinity` and `nan`.
pub open spec fn is_number_text(s: Seq<char>) -> bool {
    let body = sign_len(s, 0);
    ||| is_decimal_at(s, body)
    ||| is_word_at(s, body, word_inf())
    ||| is_word_at(s, body, word_infinity())
    ||| is_word_at(s, body, word_nan())
}

/// A longer run of digits writes no smaller a number than its beginning.
pub proof fn lemma_digits_value_grows(s: Seq<char>, k: int)
    requires
        0 <= k <= s.len(),
    ensures
        digits_value(s.subrange(0, k)) <= digits_value(s),
    decreases s.len() - k,
{
    if k == s.len() {
        assert(s.subrange(0, k) =~= s);
    } else {
        lemma_digits_value_grows(s.drop_last(), k);
        assert(s.drop_last().subrange(0, k) =~= s.subrange(0, k));
    }
}

/// The characters of `text`, one by one.
pub fn chars_of(text: &str) -> (chars: Vec<char>)
    ensures
        chars@ == text@,
{
    broadcast use vstd::string::group_string_axioms;

    let mut chars: Vec<char> = Vec::new();
    for c in iter: text.chars()
        invariant
            iter.seq() == text@,
            chars@ == text@.subrange(0, iter.index() as int),
    {
        chars.push(c);
        assert(chars@ =~= text@.subrange(0, iter.index() + 1));
    }
    assert(chars@ =~= text@);
    chars
}

/// Reads a whole number of at most `max` from `text`: an optional `+`, then
/// digits only. Anything else, and a number above `max`, reads as nothing.
pub fn parse_bounded(text: &str, max: u64) -> (value: Option<u64>)
    ensures
        match value {
            Some(v) => bounded_value(text@, max as nat) == Some(v as nat),
            None => bounded_value(text@, max as nat) is None,
        },
{
    let chars = chars_of(text);
    let n = chars.len();
    let start: usize = if n > 0 && chars[0] == '+' {
        1
    } else {
        0
    };
    if start >= n {
        return None;
    }
    let ghost digits = chars@.subrange(start as int, n as int);
    let mut total: u64 = 0;
    let mut i: usize = start;
    while i < n
        invariant
            start <= i <= n,
            n == chars.len(),
            chars@ == text@,
            start == plus_len(text@, 0),
            digits == chars@.subrange(start as int, n as int),
            digits_between(chars@, start as int, i as int),
            total == digits_value(chars@.subrange(start as int, i as int)),
            total <= max,
        decreases n - i,
    {
        let c = chars[i];
        if !('0' <= c && c <= '9') {
            assert(!is_digit(text@[i as int]));
            return None;
        }
        let digit: u128 = (c as u32 - '0' as u32) as u128;
        let next: u128 = total as u128 * 10 + digit;
        proof {
            let longer = chars@.subrange(start as int, i + 1);
            assert(longer.drop_last() =~= chars@.subrange(start as int, i as int));
            assert(longer.last() == c);
            assert(next == digits_value(longer));
            assert(longer =~= digits.subrange(0, i + 1 - start));
            lemma_digits_value_grows(digits, i + 1 - start);
        }
        if next > max as u128 {
            return None;
        }
        total = next as u64;
        i += 1;
    }
    assert(chars@.subrange(start as int, i as int) =~= digits);
    Some(total)
}

/// Reads a whole number that fits 64 bits.
pub fn parse_u64(text: &str) -> (value: Option<u64>)
    ensures
        match value {
            Some(v) => bounded_value(text@, u64::MAX as nat) == Some(v as nat),
            None => bounded_value(text@, u64::MAX as nat) is None,
        },
{
    parse_bounded(text, u64::MAX)
}

/// Reads a whole number that fits 32 bits.
pub fn parse_u32(text: &str) -> (value: Option<u32>)
    ensures
        match value {
            Some(v) => bounded_value(text@, u32::MAX as nat) == Some(v as nat),
            None => bounded_value(text@, u32::MAX as nat) is None,
        },
{
    match parse_bounded(text, 0xffff_ffff) {
        Some(v) => Some(v as u32),
        None => None,
    }
}

/// Walks over the digits that start at `from`.
fn skip_digits(chars: &Vec<char>, from: usize) -> (end: usize)
    requires
        from <= chars.len(),
    ensures
        from <= end <= chars.len(),
        end == digit_run(chars@, from as int),
        digits_between(chars@, from as int, end as int),
        end < chars.len() ==> !is_digit(chars[end as int]),
{
    let mut end: usize = from;
    while end < chars.len() && '0' <= chars[end] && chars[end] <= '9'
        invariant
            from <= end <= chars.len(),
            digit_run(chars@, from as int) == digit_run(chars@, end as int),
            digits_between(chars@, from as int, end as int),
        decreases chars.len() - end,
    {
        end += 1;
    }
    end
}

/// Whether a sign stands at `at`.
fn sign_at(chars: &Vec<char>, at: usize) -> (len: usize)
    ensures
        len == sign_len(chars@, at as int),
{
    if at < chars.len() && (chars[at] == '+' || chars[at] == '-') {
        1
    } else {
        0
    }
}

/// Whether `c` is `letter` in either case.
fn letter_matches(c: char, letter: char) -> (same: bool)
    requires
        'a' <= letter <= 'z',
    ensures
        same == is_letter(c, letter),
{
    c == letter || c as u32 + 32 == letter as u32
}

/// Whether the rest of `chars` from `at` is `word` in any case.
fn word_at(chars: &Vec<char>, at: usize, word: &Vec<char>) -> (same: bool)
    requires
        at <= chars.len(),
        forall|i: int| 0 <= i < word.len() ==> 'a' <= #[trigger] word[i] <= 'z',
    ensures
        same == is_word_at(chars@, at as int, word@),
{
    if chars.len() - at != word.len() {
        return false;
    }
    let mut i: usize = 0;
    while i < word.len()
        invariant
            i <= word.len(),
            at <= chars.len(),
            chars.len() - at == word.len(),
            forall|i: int| 0 <= i < word.len() ==> 'a' <= #[trigger] word[i] <= 'z',
            forall|j: int| 0 <= j < i ==> is_letter(#[trigger] chars[at + j], word[j]),
        decreases word.len() - i,
    {
        if !letter_matches(chars[at + i], word[i]) {
            return false;
        }
        i += 1;
    }
    true
}

/// Whether the rest of `chars` from `at` is an exponent.
fn exponent_at(chars: &Vec<char>, at: usize) -> (ok: bool)
    requires
        at < chars.len(),
    ensures
        ok == is_exponent_at(chars@, at as int),
{
    if !(chars[at] == 'e' || chars[at] == 'E') {
        return false;
    }
    let digits = at + 1 + sign_at(chars, at + 1);
    if digits >= chars.len() {
        return false;
    }
    let end = skip_digits(chars, digits);
    end == chars.len()
}

/// Whether the rest of `chars` from `at` is a decimal number.
fn decimal_at(chars: &Vec<char>, at: usize) -> (ok: bool)
    requires
        at <= chars.len(),
    ensures
        ok == is_decimal_at(chars@, at as int),
{
    let whole_end = skip_digits(chars, at);
    let fraction_start = if whole_end < chars.len() && chars[whole_end] == '.' {
        whole_end + 1
    } else {
        whole_end
    };
    let fraction_end = skip_digits(chars, fraction_start);
    if (whole_end - at) + (fraction_end - fraction_start) == 0 {
        return false;
    }
    fraction_end == chars.len() || exponent_at(chars, fraction_end)
}

/// Whether `text` writes a number with an optional fraction and exponent.
pub fn reads_as_number(text: &str) -> (ok: bool)
    ensures
        ok == is_number_text(text@),
{
    let chars = chars_of(text);
    let body = sign_at(&chars, 0);
    if decimal_at(&chars, body) {
        return true;
    }
    let inf: Vec<char> = vec!['i', 'n', 'f'];
    let infinity: Vec<char> = vec!['i', 'n', 'f', 'i', 'n', 'i', 't', 'y'];
    let nan: Vec<char> = vec!['n', 'a', 'n'];
    assert(inf@ =~= word_inf());
    assert(infinity@ =~= word_infinity());
    assert(nan@ =~= word_nan());
    word_at(&chars, body, &inf) || word_at(&chars, body, &infinity) || word_at(&chars, body, &nan)
}

} // verus!
