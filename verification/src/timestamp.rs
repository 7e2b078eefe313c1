//! The moment a sweep started, and the chat description that states it.

use vstd::prelude::*;
use crate::text::{is_digit, lemma_decimal_digits, lemma_decimal_len, push_zero_padded, zero_padded};

verus! {

/// A local date and time of day, to the minute.
#[derive(Clone, Copy, Debug, PartialEq, Eq, Structural)]
pub struct Timestamp {
    pub year: i32,
    pub month: u32,
    pub day: u32,
    pub hour: u32,
    pub minute: u32,
}

impl Timestamp {
    /// The fields are those of a date of the years 0 to 9999 and of a time
    /// of day.
    pub open spec fn on_calendar(&self) -> bool {
        &&& 0 <= self.year <= 9999
        &&& 1 <= self.month <= 12
        &&& 1 <= self.day <= 31
        &&& self.hour <= 23
        &&& self.minute <= 59
    }
}

/// The text of a year: four digits for the years 0 to 9999; outside of
/// them a sign and at least four digits.
pub open spec fn year_text(year: int) -> Seq<char> {
    if 0 <= year <= 9999 {
        zero_padded(year as nat, 4)
    } else if year < 0 {
        "-"@ + zero_padded((-year) as nat, 4)
    } else {
        "+"@ + zero_padded(year as nat, 4)
    }
}

/// The chat description that states when the last check was made.
pub open spec fn description_text(started: Timestamp) -> Seq<char> {
    "마지막 확인: "@ + year_text(started.year as int) + "년 "@ + zero_padded(
        started.month as nat,
        2,
    ) + "월 "@ + zero_padded(started.day as nat, 2) + "일 "@ + zero_padded(
        started.hour as nat,
        2,
    ) + "시 "@ + zero_padded(started.minute as nat, 2) + "분"@
}

/// Exactly `width` characters, each a decimal digit.
pub open spec fn digits_of_width(s: Seq<char>, width: nat) -> bool {
    s.len() == width && forall|i: int| 0 <= i < s.len() ==> is_digit(#[trigger] s[i])
}

/// A number that fits into `width` digits is written with exactly that many.
proof fn lemma_zero_padded_width(n: nat, width: nat)
    requires
        (width == 2 && n < 100) || (width == 4 && n < 10000),
    ensures
        digits_of_width(zero_padded(n, width), width),
{
    lemma_decimal_digits(n);
    lemma_decimal_len(n);
}

/// For a time on the calendar the description has a fixed shape: the year
/// in four digits, and month, day, hour and minute in two digits each.
pub proof fn lemma_description_shape(started: Timestamp)
    requires
        started.on_calendar(),
    ensures
        digits_of_width(year_text(started.year as int), 4),
        digits_of_width(zero_padded(started.month as nat, 2), 2),
        digits_of_width(zero_padded(started.day as nat, 2), 2),
        digits_of_width(zero_padded(started.hour as nat, 2), 2),
        digits_of_width(zero_padded(started.minute as nat, 2), 2),
{
    lemma_zero_padded_width(started.year as nat, 4);
    lemma_zero_padded_width(started.month as nat, 2);
    lemma_zero_padded_width(started.day as nat, 2);
    lemma_zero_padded_width(started.hour as nat, 2);
    lemma_zero_padded_width(started.minute as nat, 2);
}

/// The chat description for a sweep that started at `started`: the words
/// for "last check", then year, month, day, hour and minute, each followed
/// by its unit.
pub fn chat_description(started: &Timestamp) -> (text: String)
    ensures
        text@ == description_text(*started),
{
    let mut text = String::from_str("마지막 확인: ");
    if 0 <= started.year && started.year <= 9999 {
        push_zero_padded(&mut text, started.year as u32, 4);
    } else if started.year < 0 {
        text.append("-");
        push_zero_padded(&mut text, (-(started.year as i64)) as u32, 4);
    } else {
        text.append("+");
        push_zero_padded(&mut text, started.year as u32, 4);
    }
    text.append("년 ");
    push_zero_padded(&mut text, started.month, 2);
    text.append("월 ");
    push_zero_padded(&mut text, started.day, 2);
    text.append("일 ");
    push_zero_padded(&mut text, started.hour, 2);
    text.append("시 ");
    push_zero_padded(&mut text, started.minute, 2);
    text.append("분");
    text
}

} // verus!
