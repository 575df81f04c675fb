use vstd::prelude::*;
use crate::amount::{Amount, reservation_ok, check_reservation};
use crate::user::fresh_id;

verus! {

/// Why a balance write was refused.
#[derive(Debug, Clone, Copy, PartialEq, Eq, Structural)]
pub enum BalanceError {
    /// An amount is beyond what an exact decimal holds.
    AmountOutOfRange,
    /// `reserved` is negative or exceeds `total`.
    ReservationOutOfRange,
}

/// A per-user, per-asset ledger row.
#[derive(Debug)]
pub struct Balance {
    pub id: u128,
    pub asset: String,
    pub total: Amount,
    pub reserved: Amount,
    pub user_id: u128,
    pub updated_at: i64,
}

impl Balance {
    /// The accounting rule every stored balance keeps.
    pub open spec fn wf(&self) -> bool {
        &&& self.total.wf()
        &&& self.reserved.wf()
        &&& reservation_ok(self.total, self.reserved)
    }

    /// A new balance row with nothing reserved, stamped at `now`.
    pub fn create(user_id: u128, asset: &str, total: Amount, now: i64) -> (r: Result<Balance, BalanceError>)
        ensures
            !total.wf() ==> r == Err::<Balance, BalanceError>(BalanceError::AmountOutOfRange),
            total.wf() && total.mantissa < 0 ==> r == Err::<Balance, BalanceError>(BalanceError::ReservationOutOfRange),
            total.wf() && total.mantissa >= 0 ==> (r matches Ok(b) && b.wf() && b.user_id == user_id && b.asset@ == asset@
                && b.total == total && b.reserved.mantissa == 0 && b.updated_at == now),
    {
        if total.scale > crate::amount::MAX_SCALE || total.mantissa > crate::amount::MAX_MANTISSA
            || total.mantissa < -crate::amount::MAX_MANTISSA {
            return Err(BalanceError::AmountOutOfRange);
        }
        if total.mantissa < 0 {
            return Err(BalanceError::ReservationOutOfRange);
        }
        let reserved = Amount::zero();
        assert(crate::amount::pow10(0) == 1);
        assert(reserved.mantissa * crate::amount::pow10(total.scale as nat) == 0);
        assert(total.mantissa * crate::amount::pow10(reserved.scale as nat) == total.mantissa);
        Ok(Balance { id: fresh_id(), asset: asset.to_string(), total, reserved, user_id, updated_at: now })
    }

    /// The same row with new amounts, stamped at `now`, where they keep the
    /// accounting rule; the row is not changed otherwise.
    pub fn update_amounts(&mut self, total: Amount, reserved: Amount, now: i64) -> (r: Result<(), BalanceError>)
        ensures
            !(total.wf() && reserved.wf()) ==> r == Err::<(), BalanceError>(BalanceError::AmountOutOfRange),
            total.wf() && reserved.wf() && !reservation_ok(total, reserved)
                ==> r == Err::<(), BalanceError>(BalanceError::ReservationOutOfRange),
            r is Err ==> *final(self) == *old(self),
            total.wf() && reserved.wf() && reservation_ok(total, reserved) ==> (r is Ok && final(self).wf()
                && final(self).total == total && final(self).reserved == reserved && final(self).updated_at == now
                && final(self).id == old(self).id && final(self).user_id == old(self).user_id
                && final(self).asset == old(self).asset),
    {
        match check_amounts(total, reserved) {
            Err(e) => return Err(e),
            Ok(()) => {},
        }
        self.total = total;
        self.reserved = reserved;
        self.updated_at = now;
        Ok(())
    }
}

/// Checks amounts before a balance write: both must be exact decimals, and
/// `0 <= reserved <= total`.
pub fn check_amounts(total: Amount, reserved: Amount) -> (r: Result<(), BalanceError>)
    ensures
        !(total.wf() && reserved.wf()) ==> r == Err::<(), BalanceError>(BalanceError::AmountOutOfRange),
        total.wf() && reserved.wf() && !reservation_ok(total, reserved)
            ==> r == Err::<(), BalanceError>(BalanceError::ReservationOutOfRange),
        total.wf() && reserved.wf() && reservation_ok(total, reserved) ==> r is Ok,
{
    if !(valid_amount(total) && valid_amount(reserved)) {
        return Err(BalanceError::AmountOutOfRange);
    }
    if !check_reservation(total, reserved) {
        return Err(BalanceError::ReservationOutOfRange);
    }
    Ok(())
}

/// Whether an amount is one an exact decimal holds.
pub fn valid_amount(a: Amount) -> (r: bool)
    ensures
        r == a.wf(),
{
    a.scale <= crate::amount::MAX_SCALE && -crate::amount::MAX_MANTISSA <= a.mantissa && a.mantissa <= crate::amount::MAX_MANTISSA
}

} // verus!
