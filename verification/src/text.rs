//! Text: decimal renderings of prices, and the few `str` operations the
//! simulator needs.

use vstd::prelude::*;

verus! {

/// Largest magnitude of a mantissa that `rust_decimal::Decimal` can hold (2^96 - 1).
pub const DECIMAL_MANTISSA_MAX: i128 = 0xFFFF_FFFF_FFFF_FFFF_FFFF_FFFF;

/// Largest scale (number of fractional digits) of a `rust_decimal::Decimal`.
pub const DECIMAL_SCALE_MAX: u32 = 28;

/// Number of fractional digits of a price held in integer cents.
pub const CENT_SCALE: u32 = 2;

pub open spec fn abs(x: int) -> int {
    if x < 0 { -x } else { x }
}

pub open spec fn pow10(k: nat) -> nat
    decreases k,
{
    if k == 0 { 1 } else { 10 * pow10((k - 1) as nat) }
}

/// The ASCII digit for `d` in `0..10`.
pub open spec fn digit_char(d: int) -> char {
    (48 + d) as char
}

/// Decimal digits of `n`, without leading zeros (`"0"` for zero).
pub open spec fn nat_text(n: nat) -> Seq<char>
    decreases n,
{
    if n < 10 {
        seq![digit_char(n as int)]
    } else {
        nat_text(n / 10) + seq![digit_char((n % 10) as int)]
    }
}

/// The last `k` decimal digits of `n`, padded with leading zeros.
pub open spec fn padded_text(n: nat, k: nat) -> Seq<char>
    decreases k,
{
    if k == 0 {
        seq![]
    } else {
        padded_text(n / 10, (k - 1) as nat) + seq![digit_char((n % 10) as int)]
    }
}

/// How a decimal with mantissa `m` and scale `k` (value `m / 10^k`) is shown:
/// a `-` for a negative value, the whole part, and for a positive scale a point
/// followed by exactly `k` fractional digits.
pub open spec fn decimal_text(m: int, k: nat) -> Seq<char> {
    let a = abs(m) as nat;
    (if m < 0 { seq!['-'] } else { Seq::<char>::empty() }) + nat_text(a / pow10(k)) + (if k == 0 {
        Seq::<char>::empty()
    } else {
        seq!['.'] + padded_text(a % pow10(k), k)
    })
}

/// A price of `c` cents, as a dollar string such as `"100.00"` or `"-0.05"`.
pub open spec fn cents_text(c: int) -> Seq<char> {
    decimal_text(c, CENT_SCALE as nat)
}

/// What `rust_decimal` shows for the quotient of the decimal with mantissa `m`
/// and scale `scale`, divided by the integer `divisor`.
pub uninterp spec fn decimal_quotient_text(m: int, scale: int, divisor: int) -> Seq<char>;

/// The text of `Decimal::from_i128_with_scale(mantissa, scale)`, made by its
/// `Display` impl (through `to_string`).
///
/// Trusted: the contract claims that the text is `decimal_text(mantissa, scale)`,
/// which is what `rust_decimal`'s `to_str_internal` writes when no precision is
/// asked for: the digits of the mantissa with the point put `scale` digits from
/// the right, zeros padded in front of short fractions, and a sign for a
/// negative value. `from_i128_with_scale` panics beyond the mantissa and scale
/// limits, which `requires` leaves out.
#[verifier::external_body]
pub fn decimal_string(mantissa: i128, scale: u32) -> (s: String)
    requires
        -DECIMAL_MANTISSA_MAX <= mantissa <= DECIMAL_MANTISSA_MAX,
        scale <= DECIMAL_SCALE_MAX,
    ensures
        s@ == decimal_text(mantissa as int, scale as nat),
{
    rust_decimal::Decimal::from_i128_with_scale(mantissa, scale).to_string()
}

/// The text of `Decimal::from_i128_with_scale(mantissa, scale) / Decimal::from(divisor)`,
/// made by `rust_decimal`'s `Div` impl and its `Display` impl.
///
/// Trusted: the contract names the text `decimal_quotient_text` of the three
/// arguments; how `rust_decimal` rescales an inexact quotient is left unsaid.
/// The division panics on a zero divisor, and the constructor beyond the
/// mantissa and scale limits; `requires` leaves those out.
#[verifier::external_body]
pub fn decimal_quotient_string(mantissa: i128, scale: u32, divisor: i64) -> (s: String)
    requires
        -DECIMAL_MANTISSA_MAX <= mantissa <= DECIMAL_MANTISSA_MAX,
        scale <= DECIMAL_SCALE_MAX,
        divisor != 0,
    ensures
        s@ == decimal_quotient_text(mantissa as int, scale as int, divisor as int),
{
    (rust_decimal::Decimal::from_i128_with_scale(mantissa, scale) / rust_decimal::Decimal::from(
        divisor,
    )).to_string()
}

/// A price of `cents` cents as a dollar string with two fractional digits.
pub fn cents_string(cents: i128) -> (s: String)
    requires
        -DECIMAL_MANTISSA_MAX <= cents <= DECIMAL_MANTISSA_MAX,
    ensures
        s@ == cents_text(cents as int),
{
    decimal_string(cents, CENT_SCALE)
}

/// Unicode `White_Space`, the property that `str::trim` strips.
pub open spec fn is_white_space(c: char) -> bool {
    let u = c as int;
    ||| 0x09 <= u <= 0x0d
    ||| u == 0x20
    ||| u == 0x85
    ||| u == 0xa0
    ||| u == 0x1680
    ||| 0x2000 <= u <= 0x200a
    ||| u == 0x2028
    ||| u == 0x2029
    ||| u == 0x202f
    ||| u == 0x205f
    ||| u == 0x3000
}

/// `r` is `s` without its leading and trailing white space.
pub open spec fn is_trim_of(r: Seq<char>, s: Seq<char>) -> bool {
    exists|a: int, b: int|
        {
            &&& 0 <= a <= b <= s.len()
            &&& r == s.subrange(a, b)
            &&& forall|i: int| 0 <= i < a ==> is_white_space(#[trigger] s[i])
            &&& forall|i: int| b <= i < s.len() ==> is_white_space(#[trigger] s[i])
            &&& r.len() > 0 ==> !is_white_space(r[0]) && !is_white_space(r[r.len() - 1])
        }
}

/// `s` without leading and trailing white space, made by `str::trim`.
///
/// Trusted: the contract claims what `str::trim` documents: the result is the
/// part of `s` between its leading and its trailing run of Unicode `White_Space`.
#[verifier::external_body]
pub fn trim_str(s: &str) -> (r: &str)
    ensures
        is_trim_of(r@, s@),
{
    s.trim()
}

/// What `str::to_uppercase` makes of `s`.
pub uninterp spec fn upper_text(s: Seq<char>) -> Seq<char>;

/// `s` holds only ASCII characters.
pub open spec fn is_ascii_text(s: Seq<char>) -> bool {
    forall|i: int| 0 <= i < s.len() ==> (#[trigger] s[i] as int) < 128
}

/// The ASCII upper case of `c`: `a`..=`z` become `A`..=`Z`, all else stays.
pub open spec fn ascii_upper(c: char) -> char {
    if 'a' <= c && c <= 'z' {
        ((c as int) - 32) as char
    } else {
        c
    }
}

/// The uppercase equivalent of `s`, made by `str::to_uppercase`.
///
/// Trusted: the contract names the result `upper_text(s@)`, and claims that it
/// is empty exactly when `s` is, since the standard library maps every char to
/// one or more chars, and that an ASCII string has its letters `a`..=`z`
/// turned into `A`..=`Z` and nothing else changed. The Unicode case mapping of
/// other characters is left unsaid.
#[verifier::external_body]
pub fn uppercase(s: &str) -> (r: String)
    ensures
        r@ == upper_text(s@),
        r@.len() == 0 <==> s@.len() == 0,
        is_ascii_text(s@) ==> r@ == s@.map_values(|c: char| ascii_upper(c)),
{
    s.to_uppercase()
}

} // verus!
