//! Total, default-producing parsing of free-text "last updated" phrases into
//! elapsed minutes.

use vstd::prelude::*;
use crate::text::{contains_seq, contains_sub, str_to_chars};

verus! {

/// An ASCII decimal digit.
pub open spec fn is_digit_char(c: char) -> bool {
    48 <= c as u32 <= 57
}

/// The leading run of decimal digits of a text.
pub open spec fn leading_digits(s: Seq<char>) -> Seq<char>
    decreases s.len(),
{
    if s.len() == 0 || !is_digit_char(s[0]) {
        Seq::<char>::empty()
    } else {
        seq![s[0]] + leading_digits(s.skip(1))
    }
}

/// The numeric value of a run of decimal digits.
pub open spec fn digits_val(ds: Seq<char>) -> int
    decreases ds.len(),
{
    if ds.len() == 0 {
        0
    } else {
        digits_val(ds.drop_last()) * 10 + (ds.last() as u32 - 48)
    }
}

/// The elapsed-minutes value of a free-text update phrase: a mention of
/// "seconds" counts as zero; otherwise the leading digit run is taken, or, if
/// there is none, a mention of an "hour" unit counts as sixty; anything
/// unparseable (no digits, or a value beyond `i32`) defaults to zero.
pub open spec fn parse_time_remaining_spec(s: Seq<char>) -> int {
    let run = leading_digits(s);
    if contains_seq(s, "seconds"@) {
        0
    } else if run.len() == 0 {
        if contains_seq(s, "hour"@) {
            60
        } else {
            0
        }
    } else if digits_val(run) <= i32::MAX {
        digits_val(run)
    } else {
        0
    }
}

/// The value of a digit run is never negative.
proof fn lemma_digits_val_nonneg(ds: Seq<char>)
    requires
        forall|i: int| 0 <= i < ds.len() ==> is_digit_char(#[trigger] ds[i]),
    ensures
        digits_val(ds) >= 0,
    decreases ds.len(),
{
    if ds.len() > 0 {
        lemma_digits_val_nonneg(ds.drop_last());
    }
}

/// When the first `i` characters are digits and the next one is not, the
/// leading digit run is exactly that prefix.
proof fn lemma_leading_digits_is_prefix(s: Seq<char>, i: int)
    requires
        0 <= i <= s.len(),
        forall|j: int| 0 <= j < i ==> is_digit_char(#[trigger] s[j]),
        i == s.len() || !is_digit_char(s[i]),
    ensures
        leading_digits(s) == s.take(i),
    decreases s.len(),
{
    if i == 0 {
        assert(leading_digits(s) =~= s.take(0));
    } else {
        lemma_leading_digits_is_prefix(s.skip(1), i - 1);
        assert(leading_digits(s) == seq![s[0]] + leading_digits(s.skip(1)));
        assert(seq![s[0]] + s.skip(1).take(i - 1) =~= s.take(i));
    }
}

/// The index where the leading run of decimal digits ends.
fn digit_run_end(chars: &Vec<char>) -> (i: usize)
    ensures
        i <= chars@.len(),
        forall|j: int| 0 <= j < i ==> is_digit_char(#[trigger] chars@[j]),
        i == chars@.len() || !is_digit_char(chars@[i as int]),
{
    let mut i: usize = 0;
    while i < chars.len()
        invariant
            i <= chars@.len(),
            forall|j: int| 0 <= j < i ==> is_digit_char(#[trigger] chars@[j]),
        decreases chars@.len() - i,
    {
        let u = chars[i] as u32;
        if !(48 <= u && u <= 57) {
            return i;
        }
        i = i + 1;
    }
    i
}

/// Parses the elapsed minutes out of a free-text update phrase; never fails.
pub fn parse_time_remaining(last_updated: &str) -> (r: i32)
    ensures
        r as int == parse_time_remaining_spec(last_updated@),
{
    let chars = str_to_chars(last_updated);
    let run_end = digit_run_end(&chars);
    let mut i: usize = 0;
    let mut val: u64 = 0;
    let mut over: bool = false;
    while i < run_end
        invariant
            chars@ == last_updated@,
            run_end <= chars@.len(),
            forall|j: int| 0 <= j < run_end ==> is_digit_char(#[trigger] chars@[j]),
            i <= run_end,
            !over ==> val as int == digits_val(chars@.take(i as int)) && val <= i32::MAX,
            over ==> digits_val(chars@.take(i as int)) > i32::MAX,
        decreases run_end - i,
    {
        let ghost pre = chars@.take(i as int);
        let d = chars[i] as u32 - 48;
        proof {
            let cur = chars@.take(i as int + 1);
            assert(cur.drop_last() =~= pre);
            assert(cur.last() == chars@[i as int]);
            if over {
                lemma_digits_val_nonneg(pre);
                assert(digits_val(cur) == digits_val(pre) * 10 + (cur.last() as u32 - 48));
                assert(digits_val(pre) * 10 >= digits_val(pre));
            }
        }
        if !over {
            val = val * 10 + (d as u64);
            if val > 0x7fff_ffff {
                over = true;
            }
        }
        i = i + 1;
    }
    proof {
        lemma_leading_digits_is_prefix(last_updated@, run_end as int);
    }
    let has_seconds = contains_sub(last_updated, "seconds");
    let has_hour = contains_sub(last_updated, "hour");
    if has_seconds {
        0
    } else if i == 0 {
        if has_hour {
            60
        } else {
            0
        }
    } else if !over {
        proof {
            assert(leading_digits(last_updated@).len() == i);
        }
        val as i32
    } else {
        0
    }
}

} // verus!
