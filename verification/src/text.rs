//! Decimal rendering, and the one `String` operation the formatters need
//! beyond those that `vstd` already specifies.

use vstd::prelude::*;

verus! {

/// `String::push` of the standard library appends the given character to the
/// end of the string. This is taken on trust from its documentation: the view
/// afterwards is the old view with `ch` added at the end.
pub assume_specification[ String::push ](s: &mut String, ch: char)
    ensures
        final(s)@ == old(s)@.push(ch),
;

/// The character that writes the decimal digit `d`, for `0 <= d <= 9`.
pub open spec fn digit_char(d: int) -> char {
    ('0' as int + d) as char
}

/// The decimal numeral of `n`, without sign, padding or separators.
pub open spec fn decimal(n: nat) -> Seq<char>
    decreases n,
{
    if n < 10 {
        seq![digit_char(n as int)]
    } else {
        decimal(n / 10).push(digit_char((n % 10) as int))
    }
}

/// The decimal numeral of `n`, with zeros in front until it is at least
/// `width` characters long.
pub open spec fn zero_padded(n: nat, width: nat) -> Seq<char> {
    let digits = decimal(n);
    if digits.len() >= width {
        digits
    } else {
        Seq::new((width - digits.len()) as nat, |i: int| '0') + digits
    }
}

/// Whether `c` is one of `'0'` to `'9'`.
pub open spec fn is_digit(c: char) -> bool {
    '0' <= c && c <= '9'
}

/// Every character of a decimal numeral is a digit, and there is at least one.
pub proof fn lemma_decimal_digits(n: nat)
    ensures
        decimal(n).len() >= 1,
        forall|i: int| 0 <= i < decimal(n).len() ==> is_digit(#[trigger] decimal(n)[i]),
    decreases n,
{
    if n >= 10 {
        lemma_decimal_digits(n / 10);
    }
}

/// How many digits the numeral of a number below ten thousand has.
pub proof fn lemma_decimal_len(n: nat)
    ensures
        n < 10 ==> decimal(n).len() == 1,
        10 <= n < 100 ==> decimal(n).len() == 2,
        100 <= n < 1000 ==> decimal(n).len() == 3,
        1000 <= n < 10000 ==> decimal(n).len() == 4,
{
    reveal_with_fuel(decimal, 4);
}

/// The character that writes the digit `d`.
fn digit(d: u8) -> (c: char)
    requires
        d < 10,
    ensures
        c == digit_char(d as int),
{
    (48u8 + d) as char
}

/// The digits of `n`, most significant first.
pub fn decimal_digits(n: u32) -> (digits: Vec<char>)
    ensures
        digits@ == decimal(n as nat),
    decreases n,
{
    if n < 10 {
        let mut digits: Vec<char> = Vec::new();
        digits.push(digit(n as u8));
        assert(digits@ =~= seq![digit_char(n as int)]);
        digits
    } else {
        let mut digits = decimal_digits(n / 10);
        digits.push(digit((n % 10) as u8));
        digits
    }
}

/// Appends every character of `chars` to `out`, in order.
pub fn push_chars(out: &mut String, chars: &Vec<char>)
    ensures
        final(out)@ == old(out)@ + chars@,
{
    let mut i: usize = 0;
    while i < chars.len()
        invariant
            i <= chars.len(),
            out@ == old(out)@ + chars@.take(i as int),
        decreases chars.len() - i,
    {
        out.push(chars[i]);
        assert(chars@.take(i + 1) =~= chars@.take(i as int).push(chars@[i as int]));
        i = i + 1;
    }
    assert(chars@.take(chars.len() as int) =~= chars@);
}

/// Appends the decimal numeral of `n`, zero-padded to `width` characters.
pub fn push_zero_padded(out: &mut String, n: u32, width: usize)
    ensures
        final(out)@ == old(out)@ + zero_padded(n as nat, width as nat),
{
    let digits = decimal_digits(n);
    let mut len: usize = digits.len();
    while len < width
        invariant
            digits.len() <= len,
            len <= width || len == digits.len(),
            out@ == old(out)@ + Seq::new((len - digits.len()) as nat, |i: int| '0'),
        decreases width - len,
    {
        out.push('0');
        assert(Seq::new((len + 1 - digits.len()) as nat, |i: int| '0') =~= Seq::new(
            (len - digits.len()) as nat,
            |i: int| '0',
        ).push('0'));
        len = len + 1;
    }
    push_chars(out, &digits);
    assert(Seq::new(0, |i: int| '0') + digits@ =~= digits@);
}

} // verus!
