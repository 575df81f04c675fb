use vstd::prelude::*;

verus! {

/// The largest mantissa magnitude an exact decimal holds (96 bits).
pub const MAX_MANTISSA: i128 = 0xFFFF_FFFF_FFFF_FFFF_FFFF_FFFF;

/// The largest number of fractional digits.
pub const MAX_SCALE: u32 = 28;

/// An exact decimal amount: `mantissa / 10^scale`.
#[derive(Debug, Clone, Copy, PartialEq, Eq, Structural)]
pub struct Amount {
    pub mantissa: i128,
    pub scale: u32,
}

pub open spec fn pow10(n: nat) -> int
    decreases n,
{
    if n == 0 {
        1
    } else {
        10 * pow10((n - 1) as nat)
    }
}

impl Amount {
    pub open spec fn wf(&self) -> bool {
        &&& self.scale <= MAX_SCALE
        &&& -MAX_MANTISSA <= self.mantissa <= MAX_MANTISSA
    }

    /// The amount zero.
    pub fn zero() -> (r: Amount)
        ensures
            r.wf(),
            r.mantissa == 0,
            r.scale == 0,
    {
        Amount { mantissa: 0, scale: 0 }
    }
}

/// `a <= b` as numbers: `a.m / 10^a.s <= b.m / 10^b.s`.
pub open spec fn amount_le(a: Amount, b: Amount) -> bool {
    a.mantissa * pow10(b.scale as nat) <= b.mantissa * pow10(a.scale as nat)
}

/// Relies on rust_decimal's `Ord` for `Decimal`, which compares the exact values
/// of `Decimal::from_i128_with_scale` (that panics beyond 96 bits or 28 digits).
#[verifier::external_body]
fn decimal_le(a: Amount, b: Amount) -> (r: bool)
    requires
        a.wf(),
        b.wf(),
    ensures
        r == amount_le(a, b),
{
    rust_decimal::Decimal::from_i128_with_scale(a.mantissa, a.scale)
        <= rust_decimal::Decimal::from_i128_with_scale(b.mantissa, b.scale)
}

/// The balance accounting rule: `0 <= reserved <= total`.
pub open spec fn reservation_ok(total: Amount, reserved: Amount) -> bool {
    reserved.mantissa >= 0 && amount_le(reserved, total)
}

/// Checks the balance accounting rule on well-formed amounts.
pub fn check_reservation(total: Amount, reserved: Amount) -> (r: bool)
    requires
        total.wf(),
        reserved.wf(),
    ensures
        r == reservation_ok(total, reserved),
{
    reserved.mantissa >= 0 && decimal_le(reserved, total)
}

} // verus!
