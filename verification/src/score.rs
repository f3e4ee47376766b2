//! Ranking of candidate signatures: shorter texts with fewer digits rank higher.

use vstd::prelude::*;
use crate::text::filter_push;

verus! {

/// The score of a signature whose text costs nothing.
pub const BASE_SCORE: u32 = 1000;

/// What each digit costs, on top of its own length.
pub const DIGIT_PENALTY: u32 = 3;

/// A decimal digit, `0` to `9`.
pub open spec fn is_digit(c: char) -> bool {
    '0' <= c && c <= '9'
}

/// The predicate that holds of the decimal digits.
pub open spec fn digits() -> spec_fn(char) -> bool {
    |c: char| is_digit(c)
}

/// How many characters of `text` are decimal digits.
pub open spec fn digit_count(text: Seq<char>) -> nat {
    text.filter(digits()).len()
}

/// The length of `text` in bytes of UTF-8.
pub open spec fn byte_len(text: Seq<char>) -> nat {
    vstd::utf8::encode_utf8(text).len()
}

/// What a signature loses against the base score: its length in bytes, and
/// three more for each digit.
pub open spec fn signature_cost(text: Seq<char>) -> nat {
    byte_len(text) + (DIGIT_PENALTY as nat) * digit_count(text)
}

/// The score of a signature: the base score less its cost.
pub open spec fn score_of(text: Seq<char>) -> int {
    BASE_SCORE - signature_cost(text)
}

/// The score that fits the result type: `None` where the cost exceeds the
/// base score.
pub open spec fn checked_score_of(text: Seq<char>) -> Option<u32> {
    if signature_cost(text) <= BASE_SCORE {
        Some(score_of(text) as u32)
    } else {
        None
    }
}

/// Whether `c` is a decimal digit.
pub fn is_decimal_digit(c: char) -> (digit: bool)
    ensures
        digit == is_digit(c),
{
    '0' <= c && c <= '9'
}

/// Counts the decimal digits of `text`.
pub fn count_digits(text: &str) -> (count: usize)
    ensures
        count == digit_count(text@),
        count <= text@.len(),
{
    let n: usize = text.unicode_len();
    let mut count: usize = 0;
    let mut i: usize = 0;
    proof {
        reveal_with_fuel(Seq::filter, 1);
        assert(text@.subrange(0, 0) =~= Seq::<char>::empty());
    }
    while i < n
        invariant
            n == text@.len(),
            i <= n,
            count <= i,
            count == digit_count(text@.subrange(0, i as int)),
        decreases n - i,
    {
        let c: char = text.get_char(i);
        proof {
            filter_push(text@.subrange(0, i as int), c, digits());
            assert(text@.subrange(0, i as int).push(c) =~= text@.subrange(0, i + 1));
        }
        if is_decimal_digit(c) {
            count = count + 1;
        }
        i = i + 1;
    }
    proof {
        assert(text@.subrange(0, n as int) =~= text@);
    }
    count
}

/// What a signature loses against the base score.
pub fn cost_of(signature: &str) -> (cost: u128)
    ensures
        cost == signature_cost(signature@),
{
    let len: usize = signature.as_bytes().len();
    let digits: usize = count_digits(signature);
    (len as u128) + 3 * (digits as u128)
}

/// The score of a text of `len` bytes with `digits` digits: the base score,
/// less the length, less three for each digit.
pub fn score_from_counts(len: usize, digits: usize) -> (score: u32)
    requires
        len + 3 * digits <= 1000,
    ensures
        score == 1000 - len - 3 * digits,
{
    BASE_SCORE - (len as u32) - DIGIT_PENALTY * (digits as u32)
}

/// Scores a signature: the base score, less its length in bytes, less three
/// for each digit. The cost must not exceed the base score.
pub fn score_signature(signature: &str) -> (score: u32)
    requires
        signature_cost(signature@) <= BASE_SCORE,
    ensures
        score == score_of(signature@),
        score <= BASE_SCORE,
{
    let len: usize = signature.as_bytes().len();
    let digits: usize = count_digits(signature);
    score_from_counts(len, digits)
}

/// Scores a signature of any length: `None` exactly where the cost exceeds
/// the base score, so that no score exists.
pub fn checked_score_signature(signature: &str) -> (score: Option<u32>)
    ensures
        score == checked_score_of(signature@),
{
    let cost: u128 = cost_of(signature);
    if cost > BASE_SCORE as u128 {
        None
    } else {
        Some(score_signature(signature))
    }
}

/// A score depends on the characters of the text and on nothing else: equal
/// texts have equal costs and equal scores, whatever their length.
pub proof fn equal_texts_score_equally(first: Seq<char>, second: Seq<char>)
    requires
        first =~= second,
    ensures
        signature_cost(first) == signature_cost(second),
        score_of(first) == score_of(second),
        checked_score_of(first) == checked_score_of(second),
{
}

/// Characters that are no digits cost their length only: texts of equal
/// length without a digit score equally.
pub proof fn texts_without_digits_score_by_length(first: Seq<char>, second: Seq<char>)
    requires
        byte_len(first) == byte_len(second),
        forall|i: int| 0 <= i < first.len() ==> !is_digit(first[i]),
        forall|i: int| 0 <= i < second.len() ==> !is_digit(second[i]),
    ensures
        digit_count(first) == 0,
        digit_count(second) == 0,
        score_of(first) == score_of(second),
{
    no_digit_counts_none(first);
    no_digit_counts_none(second);
}

/// A text without a digit has a digit count of zero.
proof fn no_digit_counts_none(text: Seq<char>)
    requires
        forall|i: int| 0 <= i < text.len() ==> !is_digit(text[i]),
    ensures
        digit_count(text) == 0,
    decreases text.len(),
{
    reveal_with_fuel(Seq::filter, 1);
    if text.len() > 0 {
        no_digit_counts_none(text.drop_last());
        filter_push(text.drop_last(), text.last(), digits());
        assert(text.drop_last().push(text.last()) =~= text);
    }
}

/// At a fixed count of digits the score falls strictly as the length grows.
pub proof fn score_decreases_with_length(shorter: Seq<char>, longer: Seq<char>)
    requires
        digit_count(shorter) == digit_count(longer),
        byte_len(shorter) < byte_len(longer),
    ensures
        score_of(shorter) > score_of(longer),
{
}

/// At a fixed length the score falls strictly as the count of digits grows.
pub proof fn score_decreases_with_digits(fewer: Seq<char>, more: Seq<char>)
    requires
        byte_len(fewer) == byte_len(more),
        digit_count(fewer) < digit_count(more),
    ensures
        score_of(fewer) > score_of(more),
{
}

} // verus!
