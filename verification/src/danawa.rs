//! The product page of the aggregator: where it is, whether the server's
//! answer can be used, and what prices its text fields hold.

use vstd::prelude::*;
use crate::price::PriceData;
use crate::text::{decimal, decimal_digits, is_digit, push_chars};

verus! {

/// The text fields of a product page, each as it stands in the document,
/// or `None` where the document has no such field.
pub struct DanawaData {
    pub product_name: Option<String>,
    pub card_price: Option<String>,
    pub cash_price: Option<String>,
}

/// A product as observed on its page.
pub struct ProductInfo {
    pub product_name: String,
    pub url: String,
    pub price: PriceData,
}

/// Builds product addresses from a fixed prefix and reads product pages.
pub struct Searcher {
    url: String,
}

/// Why a product could not be observed.
#[derive(Debug)]
pub enum SearchError {
    /// The request failed in transport; the text describes the failure.
    Http(String),
    /// The server answered with this status, which is not a success.
    Server(u16),
    /// The page lacks a required field; the text describes what is missing.
    Parse(String),
}

/// `s` without its commas.
pub open spec fn without_commas(s: Seq<char>) -> Seq<char>
    decreases s.len(),
{
    if s.len() == 0 {
        Seq::empty()
    } else if s.last() == ',' {
        without_commas(s.drop_last())
    } else {
        without_commas(s.drop_last()).push(s.last())
    }
}

/// Every character of `s` is a decimal digit.
pub open spec fn all_digits(s: Seq<char>) -> bool {
    forall|i: int| 0 <= i < s.len() ==> is_digit(#[trigger] s[i])
}

/// The number that the digits of `s` write in base ten.
pub open spec fn digits_value(s: Seq<char>) -> nat
    decreases s.len(),
{
    if s.len() == 0 {
        0
    } else {
        (digits_value(s.drop_last()) * 10 + (s.last() as int - '0' as int)) as nat
    }
}

/// The 32-bit signed integer that `s` writes: an optional `+` or `-`, then
/// one or more decimal digits and nothing else, the value within range.
pub open spec fn parse_i32(s: Seq<char>) -> Option<i32> {
    let signed = s.len() > 0 && (s[0] == '-' || s[0] == '+');
    let negative = s.len() > 0 && s[0] == '-';
    let digits = if signed {
        s.skip(1)
    } else {
        s
    };
    let value = if negative {
        -(digits_value(digits) as int)
    } else {
        digits_value(digits) as int
    };
    if digits.len() > 0 && all_digits(digits) && i32::MIN <= value <= i32::MAX {
        Some(value as i32)
    } else {
        None
    }
}

/// The price that a price field's text states: its commas are removed and
/// the rest is read as a 32-bit signed integer; unknown if that fails.
pub open spec fn price_of(text: Seq<char>) -> Option<i32> {
    parse_i32(without_commas(text))
}

/// The price of an optional price field: unknown where the field is absent.
pub open spec fn field_price(field: Option<String>) -> Option<i32> {
    match field {
        Some(text) => price_of(text@),
        None => None,
    }
}

/// Whether `status` is an HTTP success status, 200 to 299.
pub open spec fn is_success(status: u16) -> bool {
    200 <= status < 300
}

/// The characters of `text` other than commas, in order.
fn strip_commas(text: &str) -> (kept: Vec<char>)
    ensures
        kept@ == without_commas(text@),
{
    let mut kept: Vec<char> = Vec::new();
    for c in it: text.chars()
        invariant
            it.seq() == text@,
            kept@ == without_commas(text@.take(it.index() as int)),
    {
        proof {
            let i = it.index() as int;
            assert(text@.take(i + 1).drop_last() =~= text@.take(i));
            assert(text@.take(i + 1).last() == c);
        }
        if c != ',' {
            kept.push(c);
        }
    }
    assert(text@.take(text@.len() as int) =~= text@);
    kept
}

/// One more digit makes the value ten times as large, plus the digit; the
/// value never shrinks.
proof fn lemma_digits_value_grows(s: Seq<char>)
    requires
        s.len() > 0,
        is_digit(s.last()),
    ensures
        digits_value(s) == digits_value(s.drop_last()) * 10 + (s.last() as int - '0' as int),
        digits_value(s) >= digits_value(s.drop_last()),
{
}

/// Reads `chars` as a 32-bit signed integer.
fn parse_chars(chars: &Vec<char>) -> (parsed: Option<i32>)
    ensures
        parsed == parse_i32(chars@),
{
    let n = chars.len();
    if n == 0 {
        return None;
    }
    let negative = chars[0] == '-';
    let start: usize = if chars[0] == '-' || chars[0] == '+' {
        1
    } else {
        0
    };
    let ghost digits = chars@.skip(start as int);
    if start == n {
        return None;
    }
    // The value read so far, or `limit + 1` once it has gone beyond `limit`.
    let limit: i64 = 2147483648;
    let mut magnitude: i64 = 0;
    let mut i: usize = start;
    while i < n
        invariant
            start <= i <= n,
            start < n,
            n == chars.len(),
            limit == 2147483648,
            negative == (chars@[0] == '-'),
            start == if chars@[0] == '-' || chars@[0] == '+' { 1int } else { 0int },
            digits == chars@.skip(start as int),
            all_digits(digits.take(i - start)),
            0 <= magnitude <= limit + 1,
            digits_value(digits.take(i - start)) <= limit ==> magnitude == digits_value(
                digits.take(i - start),
            ),
            digits_value(digits.take(i - start)) > limit ==> magnitude == limit + 1,
        decreases n - i,
    {
        let c = chars[i];
        if !('0' <= c && c <= '9') {
            assert(!is_digit(digits[i - start]));
            return None;
        }
        let d: i64 = (c as u32 - 48) as i64;
        proof {
            let next = digits.take(i - start + 1);
            assert(next.drop_last() =~= digits.take(i - start));
            assert(next.last() == c);
            lemma_digits_value_grows(next);
            assert(all_digits(next)) by {
                assert forall|k: int| 0 <= k < next.len() implies is_digit(#[trigger] next[k]) by {
                    if k < next.len() - 1 {
                        assert(digits.take(i - start)[k] == next[k]);
                    }
                }
            }
        }
        if magnitude <= limit {
            magnitude = magnitude * 10 + d;
            if magnitude > limit {
                magnitude = limit + 1;
            }
        }
        i = i + 1;
    }
    assert(digits.take(n - start) =~= digits);
    assert(chars@.skip(0) =~= chars@);
    if negative {
        if magnitude <= limit {
            Some((-magnitude) as i32)
        } else {
            None
        }
    } else {
        if magnitude < limit {
            Some(magnitude as i32)
        } else {
            None
        }
    }
}

/// The price that the text of a price field states.
///
/// Commas are thousands separators and are dropped. What is left must be a
/// 32-bit signed integer in decimal; if it is not, the price is unknown.
pub fn parse_price(text: &str) -> (price: Option<i32>)
    ensures
        price == price_of(text@),
{
    let kept = strip_commas(text);
    parse_chars(&kept)
}

fn parse_field(field: &Option<String>) -> (price: Option<i32>)
    ensures
        price == field_price(*field),
{
    match field {
        Some(text) => parse_price(text.as_str()),
        None => None,
    }
}

impl Searcher {
    /// The prefix that product addresses start with.
    pub closed spec fn prefix(&self) -> Seq<char> {
        self.url@
    }

    /// A searcher for the aggregator whose product addresses start with `url`.
    pub fn new(url: &str) -> (searcher: Searcher)
        ensures
            searcher.prefix() == url@,
    {
        Searcher { url: url.to_owned() }
    }

    /// The address of the page of `product_code`: the prefix, then the code,
    /// with nothing added or changed.
    pub fn product_url(&self, product_code: &str) -> (url: String)
        ensures
            url@ == self.prefix() + product_code@,
    {
        self.url.clone().concat(product_code)
    }

    /// Accepts the success statuses and refuses every other one, with the
    /// status in the error.
    pub fn check_status(status: u16) -> (checked: Result<(), SearchError>)
        ensures
            is_success(status) ==> checked is Ok,
            !is_success(status) ==> checked == Err::<(), SearchError>(SearchError::Server(status)),
    {
        if 200 <= status && status < 300 {
            Ok(())
        } else {
            Err(SearchError::Server(status))
        }
    }

    /// The product that the fields `data` of the page of `product_code`
    /// describe: its name as found, its address, and the prices that its
    /// price fields state.
    ///
    /// The name is required: a page without one is refused as unreadable. A
    /// price field that is missing, or that states no price, leaves that
    /// price unknown.
    pub fn get_product_info(&self, product_code: &str, data: DanawaData) -> (found: Result<
        ProductInfo,
        SearchError,
    >)
        ensures
            found is Ok <==> data.product_name is Some,
            found matches Ok(info) ==> {
                &&& info.product_name@ == data.product_name->0@
                &&& info.url@ == self.prefix() + product_code@
                &&& info.price == (PriceData {
                    card_price: field_price(data.card_price),
                    cash_price: field_price(data.cash_price),
                })
            },
            found matches Err(error) ==> error matches SearchError::Parse(reason) && reason@
                == "source not found"@,
    {
        match data.product_name {
            Some(product_name) => {
                let url = self.product_url(product_code);
                let card_price = parse_field(&data.card_price);
                let cash_price = parse_field(&data.cash_price);
                Ok(ProductInfo { product_name, url, price: PriceData { card_price, cash_price } })
            },
            None => Err(SearchError::Parse(String::from_str("source not found"))),
        }
    }
}

impl SearchError {
    /// The line that `message` produces.
    pub open spec fn message_text(&self) -> Seq<char> {
        match self {
            SearchError::Http(e) => "Error sending http request: "@ + e@,
            SearchError::Server(status) => "Server returned bad status: "@ + decimal(
                *status as nat,
            ),
            SearchError::Parse(e) => "Error parsing danawa: "@ + e@,
        }
    }

    /// A one-line description of the failure.
    pub fn message(&self) -> (text: String)
        ensures
            text@ == self.message_text(),
    {
        match self {
            SearchError::Http(e) => String::from_str("Error sending http request: ").concat(
                e.as_str(),
            ),
            SearchError::Server(status) => {
                let mut text = String::from_str("Server returned bad status: ");
                let digits = decimal_digits(*status as u32);
                push_chars(&mut text, &digits);
                text
            },
            SearchError::Parse(e) => String::from_str("Error parsing danawa: ").concat(e.as_str()),
        }
    }
}

} // verus!
