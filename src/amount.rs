use vstd::prelude::*;

verus! {

/// Number of smallest units in one whole unit of currency: amounts carry four
/// fractional digits.
pub const UNITS_PER_WHOLE: i64 = 10000;

/// Whether an exact amount, counted in smallest units, can be represented.
pub open spec fn fits(v: int) -> bool {
    i64::MIN <= v <= i64::MAX
}

/// A fixed-point decimal amount, counted in ten-thousandths.
#[derive(Clone, Copy, Debug, PartialEq, Eq, Structural)]
pub struct Amount {
    /// The amount in smallest units (one ten-thousandth of a whole unit).
    pub units: i64,
}

impl Amount {
    /// The amount holding exactly `units` ten-thousandths.
    pub fn from_units(units: i64) -> (r: Amount)
        ensures
            r.units == units,
    {
        Amount { units }
    }

    /// The zero amount.
    pub fn zero() -> (r: Amount)
        ensures
            r.units == 0,
    {
        Amount { units: 0 }
    }
}

impl From<i32> for Amount {
    /// The amount of `whole` whole units, with no fractional part.
    fn from(whole: i32) -> (r: Amount)
        ensures
            r.units == whole as int * UNITS_PER_WHOLE,
    {
        assert(i32::MIN as int * 10000 <= whole as int * 10000 <= i32::MAX as int * 10000)
            by (nonlinear_arith);
        Amount { units: whole as i64 * UNITS_PER_WHOLE }
    }
}

impl vstd::std_specs::convert::FromSpecImpl<i32> for Amount {
    open spec fn obeys_from_spec() -> bool {
        true
    }

    open spec fn from_spec(whole: i32) -> Amount {
        Amount { units: (whole as int * UNITS_PER_WHOLE) as i64 }
    }
}

/// The funds of one account, split into two buckets: `available` funds the
/// client can use, and `held` funds that are frozen by open disputes.
///
/// The total is never stored: it is always `available + held`.
#[derive(Clone, Copy, Debug, PartialEq, Eq, Structural)]
pub struct Amounts {
    /// Funds that the client can use in transactions.
    pub available: Amount,
    /// Funds that are blocked because of pending disputes.
    pub held: Amount,
}

impl Amounts {
    /// The exact total of both buckets, in smallest units.
    pub open spec fn total_units(self) -> int {
        self.available.units + self.held.units
    }

    /// Deposits new funds, which increases the available amount.
    pub fn deposit(&mut self, amount: Amount)
        requires
            fits(old(self).available.units + amount.units),
        ensures
            final(self).available.units == old(self).available.units + amount.units,
            final(self).held == old(self).held,
    {
        self.available = Amount { units: self.available.units + amount.units };
    }

    /// Withdraws funds, which decreases the available amount.
    ///
    /// Where the amount exceeds the available funds nothing changes. Returns
    /// whether the withdrawal took place.
    pub fn withdraw(&mut self, amount: Amount) -> (ok: bool)
        requires
            old(self).available.units >= amount.units ==> fits(
                old(self).available.units - amount.units,
            ),
        ensures
            ok == (old(self).available.units >= amount.units),
            ok ==> final(self).available.units == old(self).available.units - amount.units,
            !ok ==> *final(self) == *old(self),
            final(self).held == old(self).held,
    {
        if self.available.units >= amount.units {
            self.available = Amount { units: self.available.units - amount.units };
            true
        } else {
            false
        }
    }

    /// Marks funds as held for a dispute: the available amount decreases
    /// and the held amount increases by the same value.
    pub fn hold(&mut self, amount: Amount)
        requires
            fits(old(self).available.units - amount.units),
            fits(old(self).held.units + amount.units),
        ensures
            final(self).available.units == old(self).available.units - amount.units,
            final(self).held.units == old(self).held.units + amount.units,
    {
        self.available = Amount { units: self.available.units - amount.units };
        self.held = Amount { units: self.held.units + amount.units };
    }

    /// Releases funds held for a dispute: the held amount decreases and the
    /// available amount increases by the same value.
    pub fn release(&mut self, amount: Amount)
        requires
            fits(old(self).held.units - amount.units),
            fits(old(self).available.units + amount.units),
        ensures
            final(self).held.units == old(self).held.units - amount.units,
            final(self).available.units == old(self).available.units + amount.units,
    {
        self.held = Amount { units: self.held.units - amount.units };
        self.available = Amount { units: self.available.units + amount.units };
    }

    /// Completes a chargeback: the held funds are removed from the account.
    pub fn chargeback(&mut self, amount: Amount)
        requires
            fits(old(self).held.units - amount.units),
        ensures
            final(self).held.units == old(self).held.units - amount.units,
            final(self).available == old(self).available,
    {
        self.held = Amount { units: self.held.units - amount.units };
    }

    /// The total of held and available funds.
    pub fn total(&self) -> (r: Amount)
        requires
            fits(self.total_units()),
        ensures
            r.units == self.total_units(),
    {
        Amount { units: self.available.units + self.held.units }
    }
}

impl Default for Amounts {
    /// Both buckets empty.
    fn default() -> (r: Amounts)
        ensures
            r.available.units == 0,
            r.held.units == 0,
    {
        Amounts { available: Amount::zero(), held: Amount::zero() }
    }
}

} // verus!
