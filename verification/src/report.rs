//! How a price moved, and the text that reports it to the chat.

use vstd::prelude::*;
use num_format::{Locale, ToFormattedString};
use crate::telegram::{escape, escaped};
use crate::text::{decimal, zero_padded};

verus! {

/// How the price seen now compares with the one seen before.
#[derive(Clone, Copy, Debug, PartialEq, Eq, Structural)]
pub enum Difference {
    /// There is a price now, but none to compare it with.
    Error,
    /// The price rose by this much.
    Up(u32),
    /// The price is the same, or there is no price now.
    Stay,
    /// The price fell by this much.
    Down(u32),
}

impl Difference {
    /// A rise or a fall is by more than nothing.
    pub open spec fn well_formed(&self) -> bool {
        match self {
            Difference::Up(n) => *n > 0,
            Difference::Down(n) => *n > 0,
            _ => true,
        }
    }

    /// By how much the price moved, whichever way: zero unless it rose or
    /// fell.
    pub open spec fn spec_magnitude(&self) -> u32 {
        match self {
            Difference::Up(n) => *n,
            Difference::Down(n) => *n,
            _ => 0,
        }
    }

    /// By how much the price moved, whichever way: zero unless it rose or
    /// fell.
    #[verifier::when_used_as_spec(spec_magnitude)]
    pub fn magnitude(&self) -> (n: u32)
        ensures
            n == self.spec_magnitude(),
    {
        match self {
            Difference::Up(n) => *n,
            Difference::Down(n) => *n,
            _ => 0,
        }
    }
}

/// The difference between an earlier price and the present one.
pub open spec fn difference_of(prev: Option<i32>, now: Option<i32>) -> Difference {
    match (prev, now) {
        (_, None) => Difference::Stay,
        (None, Some(_)) => Difference::Error,
        (Some(a), Some(b)) => if b > a {
            Difference::Up((b - a) as u32)
        } else if b < a {
            Difference::Down((a - b) as u32)
        } else {
            Difference::Stay
        },
    }
}

/// Compares the price seen now with the one seen before.
///
/// Without a price now nothing has moved. With a price now and none before
/// there is nothing to compare with. With both, the price rose or fell by
/// their distance, or stayed.
pub fn price_difference(prev: Option<i32>, now: Option<i32>) -> (difference: Difference)
    ensures
        difference == difference_of(prev, now),
        difference.well_formed(),
        prev matches Some(a) ==> (now matches Some(b) ==> difference == (if b > a {
            Difference::Up((b - a) as u32)
        } else if b < a {
            Difference::Down((a - b) as u32)
        } else {
            Difference::Stay
        })),
{
    match (prev, now) {
        (_, None) => Difference::Stay,
        (None, Some(_)) => Difference::Error,
        (Some(prev), Some(now)) => {
            let diff: i64 = now as i64 - prev as i64;
            if diff > 0 {
                Difference::Up(diff as u32)
            } else if diff < 0 {
                Difference::Down((-diff) as u32)
            } else {
                Difference::Stay
            }
        },
    }
}

/// The decimal numeral of `n` with a comma between each group of three
/// digits, counted from the right.
pub open spec fn grouped(n: nat) -> Seq<char>
    decreases n,
{
    if n < 1000 {
        decimal(n)
    } else {
        grouped(n / 1000) + seq![','] + zero_padded(n % 1000, 3)
    }
}

/// The numeral of `n` as the Korean locale writes it: a minus sign if `n` is
/// negative, then the digits in groups of three.
pub open spec fn korean_numeral(n: int) -> Seq<char> {
    if n < 0 {
        seq!['-'] + grouped((-n) as nat)
    } else {
        grouped(n as nat)
    }
}

/// Calls `ToFormattedString::to_formatted_string` of `num-format` on `n`
/// with `Locale::ko`. That locale groups digits in the standard way, in
/// threes, separates the groups with a comma and writes `-` for the minus
/// sign; the call cannot fail. The contract takes on trust that the result
/// is the numeral described by `korean_numeral`.
#[verifier::external_body]
fn to_korean_numeral(n: i64) -> (numeral: String)
    ensures
        numeral@ == korean_numeral(n as int),
{
    n.to_formatted_string(&Locale::ko)
}

/// What the report says in place of a price or a difference that is not
/// known.
pub open spec fn no_information() -> Seq<char> {
    "정보없음"@
}

/// The text of an amount of won.
pub open spec fn won_text(n: int) -> Seq<char> {
    korean_numeral(n) + "원"@
}

/// The text that reports a difference.
pub open spec fn difference_text(difference: Difference) -> Seq<char> {
    match difference {
        Difference::Error => no_information(),
        Difference::Stay => "-"@,
        Difference::Up(n) => "▲"@ + won_text(n as int),
        Difference::Down(n) => "▼"@ + won_text(n as int),
    }
}

/// The text that reports a price.
pub open spec fn price_text(price: Option<i32>) -> Seq<char> {
    match price {
        Some(n) => won_text(n as int),
        None => no_information(),
    }
}

/// The block that reports one product's change, given the texts of its
/// prices and of their differences: the escaped name as a link, then a line
/// for the card price and a line for the cash price.
pub open spec fn change_block(
    name: Seq<char>,
    url: Seq<char>,
    card_price: Seq<char>,
    card_diff: Seq<char>,
    cash_price: Seq<char>,
    cash_diff: Seq<char>,
) -> Seq<char> {
    "["@ + escaped(name) + "]("@ + url + ")%0D%0A`\\- 카드가: "@ + card_price + " ("@ + card_diff
        + ")`%0D%0A`\\- 현금가: "@ + cash_price + " ("@ + cash_diff + ")`%0D%0A"@
}

/// `out`, followed by the text of `n` won.
fn with_won(out: String, n: i64) -> (text: String)
    ensures
        text@ == out@ + won_text(n as int),
{
    let numeral = to_korean_numeral(n);
    out.concat(numeral.as_str()).concat("원")
}

/// Renders a difference: a rise as `▲` and the amount, a fall as `▼` and the
/// amount, no movement as `-`, and nothing to compare with as no
/// information. Amounts are in won, with thousands separators.
pub fn format_difference(difference: Difference) -> (text: String)
    ensures
        text@ == difference_text(difference),
{
    match difference {
        Difference::Error => String::from_str("정보없음"),
        Difference::Stay => String::from_str("-"),
        Difference::Up(n) => with_won(String::from_str("▲"), n as i64),
        Difference::Down(n) => with_won(String::from_str("▼"), n as i64),
    }
}

/// Renders a price: the amount in won, with thousands separators, or no
/// information where the price is unknown.
pub fn format_price(price: Option<i32>) -> (text: String)
    ensures
        text@ == price_text(price),
{
    match price {
        Some(n) => {
            let text = with_won(String::new(), n as i64);
            assert(Seq::<char>::empty() + won_text(n as int) =~= won_text(n as int));
            text
        },
        None => String::from_str("정보없음"),
    }
}

/// Renders the block that reports one product's change: the escaped name as
/// a link to `url`, then one line for the card price and one for the cash
/// price, each with its difference in brackets. Lines end in the line break
/// as an address holds it.
pub fn format_change_block(
    name: &str,
    url: &str,
    card_price_str: &str,
    card_diff: Difference,
    cash_price_str: &str,
    cash_diff: Difference,
) -> (block: String)
    ensures
        block@ == change_block(
            name@,
            url@,
            card_price_str@,
            difference_text(card_diff),
            cash_price_str@,
            difference_text(cash_diff),
        ),
{
    let name = escape(name);
    let card_diff = format_difference(card_diff);
    let cash_diff = format_difference(cash_diff);
    String::from_str("[").concat(name.as_str()).concat("](").concat(url).concat(
        ")%0D%0A`\\- 카드가: ",
    ).concat(card_price_str).concat(" (").concat(card_diff.as_str()).concat(
        ")`%0D%0A`\\- 현금가: ",
    ).concat(cash_price_str).concat(" (").concat(cash_diff.as_str()).concat(")`%0D%0A")
}

} // verus!
