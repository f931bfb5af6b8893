//! What the user asks for.

use vstd::prelude::*;

use crate::size::{decimal, digit};
use crate::text::chars_of;

verus! {

/// How many threads download, unless the user says otherwise.
pub const DEFAULT_THREADS: usize = 4;

/// How many times a fetch is tried, unless the user says otherwise.
pub const DEFAULT_RETRY: u32 = 3;

/// How many seconds a connection may take to come about, unless the user says
/// otherwise.
pub const DEFAULT_TIMEOUT: u64 = 3;

/// How many seconds a request may take in all.
pub const REQUEST_TIMEOUT_SECS: u64 = 100;

/// What requests say they come from.
pub const APP_USER_AGENT: &'static str = "Chrome/147";

/// What the user asks for.
#[derive(Debug)]
pub struct RequestData {
    /// The directory in which the video is saved.
    pub save_path: String,
    /// Where the playlist is fetched from.
    pub m3u8_url: String,
    /// How many threads download.
    pub threads: usize,
    /// How many times a fetch is tried.
    pub retry: u32,
    /// How many seconds a connection may take to come about.
    pub timeout: u64,
    /// Whether the segments are converted to an MP4 file.
    pub is_convert: bool,
    /// Whether the segments are deleted once they are converted.
    pub is_delete_segment: bool,
}

/// A decimal digit.
pub open spec fn is_digit(c: char) -> bool {
    '0' <= c <= '9'
}

/// The number that digits stand for.
pub open spec fn digits_value(s: Seq<char>) -> nat
    decreases s.len(),
{
    if s.len() == 0 {
        0
    } else {
        digits_value(s.drop_last()) * 10 + (s.last() as u32 - '0' as u32) as nat
    }
}

/// A text without the plus sign that it may start with.
pub open spec fn unsigned_part(s: Seq<char>) -> Seq<char> {
    if s.len() > 0 && s[0] == '+' {
        s.subrange(1, s.len() as int)
    } else {
        s
    }
}

/// The number that a text stands for: digits, of which there is at least one,
/// after a plus sign or none. Other texts, and those that stand for a number
/// greater than `max`, stand for none.
pub open spec fn number(s: Seq<char>, max: nat) -> Option<nat> {
    let digits = unsigned_part(s);
    if digits.len() == 0 || !(forall|i: int|
        0 <= i < digits.len() ==> is_digit(#[trigger] digits[i])) || digits_value(digits) > max {
        None
    } else {
        Some(digits_value(digits))
    }
}

proof fn lemma_digits_value_grows(s: Seq<char>, i: int)
    requires
        0 <= i <= s.len(),
        forall|j: int| 0 <= j < s.len() ==> is_digit(#[trigger] s[j]),
    ensures
        digits_value(s.subrange(0, i)) <= digits_value(s),
    decreases s.len() - i,
{
    if i == s.len() {
        assert(s.subrange(0, i) == s);
    } else {
        assert(s.subrange(0, i + 1).drop_last() == s.subrange(0, i));
        assert(is_digit(s[i]));
        lemma_digits_value_grows(s, i + 1);
    }
}

/// The number that a text stands for, if it is at most `max`.
pub fn parse_number(s: &str, max: u64) -> (res: Option<u64>)
    ensures
        match res {
            Some(n) => number(s@, max as nat) == Some(n as nat),
            None => number(s@, max as nat) is None,
        },
        res matches Some(n) ==> n <= max,
        s@.len() == 0 ==> res is None,
{
    let chars = chars_of(s);
    let n: usize = chars.len();
    let start: usize = if n > 0 && chars[0] == '+' {
        1
    } else {
        0
    };
    let ghost digits = unsigned_part(s@);
    assert(digits == s@.subrange(start as int, n as int));
    if start == n {
        return None;
    }
    let mut value: u64 = 0;
    let mut i: usize = start;
    assert(digits.subrange(0, 0) == Seq::<char>::empty());
    while i < n
        invariant
            chars@ == s@,
            n == chars@.len(),
            start <= i <= n,
            digits == s@.subrange(start as int, n as int),
            digits == unsigned_part(s@),
            forall|j: int| 0 <= j < i - start ==> is_digit(#[trigger] digits[j]),
            value == digits_value(digits.subrange(0, i - start)),
            value <= max,
        decreases n - i,
    {
        let c = chars[i];
        assert(digits[i - start] == c);
        if !('0' <= c && c <= '9') {
            assert(!is_digit(digits[i - start]));
            return None;
        }
        let d: u64 = (c as u32 - 48) as u64;
        assert(digits.subrange(0, i + 1 - start).drop_last() == digits.subrange(0, i - start));
        assert(digits_value(digits.subrange(0, i + 1 - start)) == value * 10 + d);
        if value > max / 10 || d > max - value * 10 {
            proof {
                if forall|j: int| 0 <= j < digits.len() ==> is_digit(#[trigger] digits[j]) {
                    lemma_digits_value_grows(digits, i + 1 - start);
                }
            }
            return None;
        }
        value = value * 10 + d;
        i += 1;
    }
    assert(digits.subrange(0, n - start) == digits);
    Some(value)
}

/// The number that a text stands for, or else `default`.
pub open spec fn number_or(s: Seq<char>, max: nat, default: nat) -> nat {
    match number(s, max) {
        Some(n) => n,
        None => default,
    }
}

impl RequestData {
    /// The request that the entries of the window make. The connection timeout
    /// is the number entered for the attempts, too.
    pub fn new(
        save_path: String,
        m3u8_url: String,
        threads: &str,
        retry: &str,
        is_convert: bool,
        is_delete_segment: bool,
    ) -> (res: Self)
        ensures
            res.save_path == save_path,
            res.m3u8_url == m3u8_url,
            res.threads == number_or(threads@, usize::MAX as nat, DEFAULT_THREADS as nat),
            res.retry == number_or(retry@, u32::MAX as nat, DEFAULT_RETRY as nat),
            res.timeout == number_or(retry@, u64::MAX as nat, DEFAULT_TIMEOUT as nat),
            res.is_convert == is_convert,
            res.is_delete_segment == is_delete_segment,
            match number(threads@, usize::MAX as nat) {
                Some(n) => res.threads == n,
                None => res.threads == 4,
            },
            match number(retry@, u32::MAX as nat) {
                Some(n) => res.retry == n,
                None => res.retry == 3,
            },
            match number(retry@, u64::MAX as nat) {
                Some(n) => res.timeout == n,
                None => res.timeout == 3,
            },
    {
        let threads: usize = match parse_number(threads, usize::MAX as u64) {
            Some(n) => n as usize,
            None => DEFAULT_THREADS,
        };
        let attempts: u32 = match parse_number(retry, u32::MAX as u64) {
            Some(n) => n as u32,
            None => DEFAULT_RETRY,
        };
        let timeout: u64 = match parse_number(retry, u64::MAX) {
            Some(n) => n,
            None => DEFAULT_TIMEOUT,
        };
        RequestData {
            save_path,
            m3u8_url,
            threads,
            retry: attempts,
            timeout,
            is_convert,
            is_delete_segment,
        }
    }
}

// ---------------------------------------------------------------------------
// Laws
// ---------------------------------------------------------------------------
/// Digits are read from the left, each one making what stands before it ten times
/// as much. The ten digits are those of ASCII.
pub proof fn law_digits_are_read_in_tens(s: Seq<char>, c: char)
    ensures
        is_digit(c) <==> 48 <= c as u32 <= 57,
        digits_value(Seq::empty()) == 0,
        is_digit(c) ==> digits_value(s.push(c)) == 10 * digits_value(s) + (c as u32 - 48),
{
    assert(s.push(c).drop_last() == s);
}

/// A plus sign before a text does not count, but only one.
pub proof fn law_one_plus_sign_is_dropped(s: Seq<char>)
    ensures
        unsigned_part(seq!['+'] + s) == s,
        s.len() == 0 || s[0] != '+' ==> unsigned_part(s) == s,
{
    let signed = seq!['+'] + s;
    assert(signed.subrange(1, signed.len() as int) == s);
}

/// Digits stand for the number that they are read as, with a plus sign or without,
/// as long as it is not too great.
pub proof fn law_digits_stand_for_their_number(digits: Seq<char>, max: nat)
    requires
        digits.len() > 0,
        forall|i: int| 0 <= i < digits.len() ==> '0' <= #[trigger] digits[i] <= '9',
    ensures
        ({
            let value = digits_value(digits);
            let expected = if value <= max {
                Some(value)
            } else {
                None
            };
            number(digits, max) == expected && number(seq!['+'] + digits, max) == expected
        }),
{
    assert('0' <= digits[0] <= '9');
    law_one_plus_sign_is_dropped(digits);
    assert forall|i: int| 0 <= i < digits.len() implies is_digit(#[trigger] digits[i]) by {
        assert('0' <= digits[i] <= '9');
    }
}

/// A text stands for no number where nothing is left of it without a plus sign at
/// its start, or where anything but a digit is.
pub proof fn law_other_texts_stand_for_no_number(s: Seq<char>, i: int, max: nat)
    ensures
        number(Seq::empty(), max) is None,
        number(seq!['+'], max) is None,
        0 < i < s.len() && !('0' <= s[i] <= '9') ==> number(s, max) is None,
        s.len() > 0 && s[0] != '+' && !('0' <= s[0] <= '9') ==> number(s, max) is None,
{
    law_one_plus_sign_is_dropped(Seq::empty());
    assert(seq!['+'] + Seq::<char>::empty() == seq!['+']);
    let digits = unsigned_part(s);
    if 0 < i < s.len() && !('0' <= s[i] <= '9') {
        let k = if s[0] == '+' {
            i - 1
        } else {
            i
        };
        assert(digits[k] == s[i]);
        assert(!is_digit(digits[k]));
    }
    if s.len() > 0 && s[0] != '+' && !('0' <= s[0] <= '9') {
        assert(!is_digit(digits[0]));
    }
}

proof fn lemma_decimal_is_digits(n: nat)
    ensures
        decimal(n).len() > 0,
        forall|i: int| 0 <= i < decimal(n).len() ==> '0' <= #[trigger] decimal(n)[i] <= '9',
        digits_value(decimal(n)) == n,
    decreases n,
{
    if n < 10 {
        assert(decimal(n) == Seq::<char>::empty().push(digit(n)));
        assert(is_digit(digit(n)) && digit(n) as u32 == 48 + n);
        law_digits_are_read_in_tens(Seq::empty(), digit(n));
    } else {
        let first = decimal(n / 10);
        lemma_decimal_is_digits(n / 10);
        let last = digit(n % 10);
        assert(is_digit(last) && last as u32 == 48 + n % 10);
        law_digits_are_read_in_tens(first, last);
        assert forall|i: int| 0 <= i < decimal(n).len() implies '0' <= #[trigger] decimal(n)[i]
            <= '9' by {
            if i < first.len() {
                assert(decimal(n)[i] == first[i]);
            }
        }
    }
}

/// A number that is written down is read back, if it is not too great.
pub proof fn law_written_numbers_are_read_back(n: nat, max: nat)
    ensures
        n <= max ==> number(decimal(n), max) == Some(n),
        n > max ==> number(decimal(n), max) is None,
{
    lemma_decimal_is_digits(n);
    law_digits_stand_for_their_number(decimal(n), max);
}

/// What is entered counts where it is a number; otherwise it is as if the default
/// had been entered.
pub proof fn law_default_stands_in_for_no_number(s: Seq<char>, max: nat, default: nat)
    ensures
        number(s, max) matches Some(n) ==> number_or(s, max, default) == n && n <= max,
        number(s, max) is None ==> number_or(s, max, default) == default,
        default <= max ==> number_or(decimal(default), max, 0) == default,
{
    law_written_numbers_are_read_back(default, max);
}

/// Unless the user says otherwise, four threads download, a fetch is tried three
/// times, and a connection may take three seconds; a request may take a hundred.
pub proof fn law_defaults()
    ensures
        DEFAULT_THREADS == 4,
        DEFAULT_RETRY == 3,
        DEFAULT_TIMEOUT == 3,
        REQUEST_TIMEOUT_SECS == 100,
        APP_USER_AGENT@ == "Chrome/147"@,
{
}

} // verus!
