//! Invoice amounts: exact decimals held as mantissa and scale, read and
//! written by rust_decimal.
use vstd::prelude::*;

verus! {

/// The largest mantissa a decimal can hold (96 bits).
pub const MAX_MANTISSA: i128 = 0xFFFF_FFFF_FFFF_FFFF_FFFF_FFFF;

/// The largest scale a decimal can hold.
pub const MAX_SCALE: u32 = 28;

/// An exact decimal amount: `mantissa / 10^scale`.
#[derive(Debug, Clone, Copy, PartialEq, Eq, Structural)]
pub struct Amount {
    pub mantissa: i128,
    pub scale: u32,
}

impl Amount {
    /// The amount lies in the range of a decimal.
    pub open spec fn wf(self) -> bool {
        -MAX_MANTISSA <= self.mantissa <= MAX_MANTISSA && self.scale <= MAX_SCALE
    }

    /// A whole amount.
    pub fn from_whole(n: i64) -> (r: Amount)
        ensures
            r.mantissa == n as i128,
            r.scale == 0,
            r.wf(),
    {
        Amount { mantissa: n as i128, scale: 0 }
    }
}

/// What rust_decimal's `Decimal::from_str_exact` reads from text, as
/// (mantissa, scale), or `None` where it returns an error.
pub uninterp spec fn decimal_parts(text: Seq<char>) -> Option<(i128, u32)>;

/// The text that rust_decimal's `Display` writes for a decimal.
pub uninterp spec fn decimal_text(mantissa: i128, scale: u32) -> Seq<char>;

/// The text that rust_decimal's `Display` writes for a decimal with two
/// places (`{:.2}`).
pub uninterp spec fn decimal_text_2dp(mantissa: i128, scale: u32) -> Seq<char>;

/// Relies on rust_decimal's `Decimal::from_str_exact`, `mantissa` and
/// `scale`; a decimal's mantissa fits 96 bits and its scale is at most 28.
#[verifier::external_body]
pub(crate) fn parse_amount(text: &str) -> (r: Option<Amount>)
    ensures
        r.is_some() == decimal_parts(text@).is_some(),
        r.is_some() ==> r.unwrap().wf() && (r.unwrap().mantissa, r.unwrap().scale) == decimal_parts(
            text@,
        ).unwrap(),
{
    rust_decimal::Decimal::from_str_exact(text).ok().map(
        |d| Amount { mantissa: d.mantissa(), scale: d.scale() },
    )
}

/// Relies on rust_decimal's `Decimal::try_from_i128_with_scale`, which
/// succeeds on every amount in range, and on its `Display`.
#[verifier::external_body]
pub(crate) fn amount_text(a: &Amount) -> (r: String)
    requires
        a.wf(),
    ensures
        r@ == decimal_text(a.mantissa, a.scale),
{
    match rust_decimal::Decimal::try_from_i128_with_scale(a.mantissa, a.scale) {
        Ok(d) => format!("{}", d),
        Err(_) => String::new(),
    }
}

/// Relies on rust_decimal's `Decimal::try_from_i128_with_scale`, which
/// succeeds on every amount in range, and on its `Display` with a precision.
#[verifier::external_body]
pub(crate) fn amount_text_2dp(a: &Amount) -> (r: String)
    requires
        a.wf(),
    ensures
        r@ == decimal_text_2dp(a.mantissa, a.scale),
{
    match rust_decimal::Decimal::try_from_i128_with_scale(a.mantissa, a.scale) {
        Ok(d) => format!("{:.2}", d),
        Err(_) => String::new(),
    }
}

} // verus!
