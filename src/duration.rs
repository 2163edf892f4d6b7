//! Retention durations and the parsing of their human-readable form.
use vstd::prelude::*;
use vstd::std_specs::iter::IteratorSpec;

verus! {

/// Nanoseconds in one second.
pub const NANOS_PER_SEC: u32 = 1_000_000_000;

/// The most decimal digits in one number of a duration text.
pub const MAX_NUMBER_DIGITS: usize = 10;

/// The most numbers in a duration text.
pub const MAX_NUMBERS: usize = 50;

/// Whether a character may be part of a unit name, which ends a number.
pub open spec fn is_unit_char(c: char) -> bool {
    ('a' <= c <= 'z') || ('A' <= c <= 'Z') || c == '\u{b5}'
}

/// Whether a character is one of the decimal digits `0` to `9`.
pub open spec fn is_decimal_digit(c: char) -> bool {
    '0' <= c <= '9'
}

/// Whether the rest of a duration text keeps within the bounds on numbers,
/// where the stretch since the last unit character holds `digits` digits and
/// `numbers` stretches so far hold any. A number (its whole and fractional
/// parts, which may hold spaces) lies between unit characters, so each is at
/// most `MAX_NUMBER_DIGITS` digits and there are at most `MAX_NUMBERS` of
/// them.
pub open spec fn numbers_fit_from(text: Seq<char>, digits: nat, numbers: nat) -> bool
    decreases text.len(),
{
    if text.len() == 0 {
        true
    } else if is_unit_char(text[0]) {
        numbers_fit_from(text.drop_first(), 0, numbers)
    } else if is_decimal_digit(text[0]) {
        let numbers2 = if digits == 0 { numbers + 1 } else { numbers };
        digits + 1 <= MAX_NUMBER_DIGITS && numbers2 <= MAX_NUMBERS && numbers_fit_from(
            text.drop_first(),
            digits + 1,
            numbers2,
        )
    } else {
        numbers_fit_from(text.drop_first(), digits, numbers)
    }
}

/// Whether a duration text has at most `MAX_NUMBERS` numbers of at most
/// `MAX_NUMBER_DIGITS` digits each. Each number then names less than 10^10
/// units of at most a year (31_557_600 seconds), plus a fraction of one, so
/// the total stays near 50 * 10^10 * 31_557_600 (about 1.58 * 10^19) seconds
/// at most, below 2^64.
pub open spec fn numbers_fit(text: Seq<char>) -> bool {
    numbers_fit_from(text, 0, 0)
}

/// Tests `numbers_fit` on a text.
fn numbers_fit_exec(text: &str) -> (r: bool)
    ensures
        r == numbers_fit(text@),
{
    let mut chars = text.chars();
    let mut digits: usize = 0;
    let mut numbers: usize = 0;
    loop
        invariant
            digits <= MAX_NUMBER_DIGITS,
            numbers <= MAX_NUMBERS,
            numbers_fit(text@) == numbers_fit_from(chars.remaining(), digits as nat, numbers as nat),
            chars.decrease() is Some,
        decreases chars.decrease()->0,
    {
        let ghost before = chars.remaining();
        match chars.next() {
            Some(c) => {
                assert(before[0] == c);
                if ('a' <= c && c <= 'z') || ('A' <= c && c <= 'Z') || c == '\u{b5}' {
                    digits = 0;
                } else if '0' <= c && c <= '9' {
                    if digits == 0 {
                        if numbers == MAX_NUMBERS {
                            return false;
                        }
                        numbers = numbers + 1;
                    }
                    if digits == MAX_NUMBER_DIGITS {
                        return false;
                    }
                    digits = digits + 1;
                }
            },
            None => {
                return true;
            },
        }
    }
}

/// A span of time: whole seconds plus a sub-second part in nanoseconds.
#[derive(Clone, Copy, Debug, PartialEq, Eq, Structural)]
pub struct RetentionDuration {
    pub secs: u64,
    pub nanos: u32,
}

/// What `humantime::parse_duration` makes of a text, as (seconds, nanoseconds):
/// `None` where the text is not a duration.
pub uninterp spec fn parsed_duration(text: Seq<char>) -> Option<(u64, u32)>;

/// Relies on `humantime::parse_duration` (reached through `humantime_serde::re`):
/// it reads the text alone, and a `std::time::Duration` keeps its
/// sub-second part below one second. The function panics where its running
/// total reaches `u64::MAX` seconds with one more second still to carry; the
/// bounds on numbers leave those texts out.
#[verifier::external_body]
fn humantime_parse(text: &str) -> (r: Option<(u64, u32)>)
    requires
        numbers_fit(text@),
    ensures
        r == parsed_duration(text@),
        r matches Some(p) ==> p.1 < NANOS_PER_SEC,
{
    match humantime_serde::re::humantime::parse_duration(text) {
        Ok(d) => Some((d.as_secs(), d.subsec_nanos())),
        Err(_) => None,
    }
}

impl RetentionDuration {
    /// A duration is well formed when its sub-second part is below one second.
    pub open spec fn wf(self) -> bool {
        self.nanos < NANOS_PER_SEC
    }

    /// The duration that a text reads as: none where its numbers do not fit
    /// the bounds of `numbers_fit`, else what `parsed_duration` gives.
    pub open spec fn parsed(text: Seq<char>) -> Option<RetentionDuration> {
        if !numbers_fit(text) {
            None
        } else {
            match parsed_duration(text) {
                Some(p) => Some(RetentionDuration { secs: p.0, nanos: p.1 }),
                None => None,
            }
        }
    }

    /// A whole number of seconds.
    pub fn from_secs(secs: u64) -> (r: RetentionDuration)
        ensures
            r.secs == secs,
            r.nanos == 0,
            r.wf(),
    {
        RetentionDuration { secs, nanos: 0 }
    }

    /// Parses a human-readable duration such as `"24h"`, `"30m"` or `"1h 30m"`.
    /// A text with more than `MAX_NUMBERS` numbers, or a number of more than
    /// `MAX_NUMBER_DIGITS` digits, is not taken as a duration.
    pub fn parse(text: &str) -> (r: Option<RetentionDuration>)
        ensures
            r == RetentionDuration::parsed(text@),
            r matches Some(d) ==> d.wf(),
    {
        if !numbers_fit_exec(text) {
            return None;
        }
        match humantime_parse(text) {
            Some(p) => Some(RetentionDuration { secs: p.0, nanos: p.1 }),
            None => None,
        }
    }
}

} // verus!
