use vstd::prelude::*;

verus! {

/// `a + b`, or `u64::MAX` where the sum would not fit.
pub open spec fn saturating_sum(a: u64, b: u64) -> u64 {
    if a + b > u64::MAX {
        u64::MAX
    } else {
        (a + b) as u64
    }
}

/// What a database insert reports having written.
#[derive(Debug, Clone, Copy, PartialEq, Eq, Structural)]
pub struct AddableQuantities {
    /// The number of uncompressed bytes.
    pub bytes: u64,
    /// The number of rows.
    pub rows: u64,
    /// The number of nonempty transactions.
    pub transactions: u64,
}

impl AddableQuantities {
    /// Nothing written.
    pub open spec fn spec_zero() -> AddableQuantities {
        AddableQuantities { bytes: 0, rows: 0, transactions: 0 }
    }

    /// The two counts summed field by field, saturating at `u64::MAX`.
    pub open spec fn plus(self, other: AddableQuantities) -> AddableQuantities {
        AddableQuantities {
            bytes: saturating_sum(self.bytes, other.bytes),
            rows: saturating_sum(self.rows, other.rows),
            transactions: saturating_sum(self.transactions, other.transactions),
        }
    }

    pub fn zero() -> (r: AddableQuantities)
        ensures
            r == AddableQuantities::spec_zero(),
    {
        AddableQuantities { bytes: 0, rows: 0, transactions: 0 }
    }

    /// The sum of `self` and `other`.
    pub fn sum(self, other: AddableQuantities) -> (r: AddableQuantities)
        ensures
            r == self.plus(other),
    {
        AddableQuantities {
            bytes: self.bytes.saturating_add(other.bytes),
            rows: self.rows.saturating_add(other.rows),
            transactions: self.transactions.saturating_add(other.transactions),
        }
    }

    /// Adds `other` to `self`.
    pub fn add_assign(&mut self, other: AddableQuantities)
        ensures
            *final(self) == old(self).plus(other),
    {
        *self = self.sum(other);
    }
}

impl Default for AddableQuantities {
    fn default() -> (r: AddableQuantities)
        ensures
            r == AddableQuantities::spec_zero(),
    {
        AddableQuantities::zero()
    }
}

/// Summing quantities is associative.
pub proof fn lemma_quantities_associative(
    a: AddableQuantities,
    b: AddableQuantities,
    c: AddableQuantities,
)
    ensures
        a.plus(b).plus(c) == a.plus(b.plus(c)),
{
}

/// Nothing written is the identity of the sum, on either side.
pub proof fn lemma_quantities_identity(a: AddableQuantities)
    ensures
        AddableQuantities::spec_zero().plus(a) == a,
        a.plus(AddableQuantities::spec_zero()) == a,
{
}

} // verus!
