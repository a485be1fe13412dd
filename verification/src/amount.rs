use vstd::bytes::{spec_u64_to_le_bytes, u64_to_le_bytes};
use vstd::prelude::*;

verus! {

/// A transaction amount or an account balance: an unsigned 64-bit quantity whose
/// arithmetic reports overflow and underflow instead of wrapping.
#[derive(Clone, Copy, Debug, PartialEq, Eq, Structural, PartialOrd, Ord, Hash)]
pub struct Amount(pub u64);

impl Amount {
    /// The eight bytes of the amount, least significant first.
    pub fn to_bytes_le(&self) -> (bytes: Vec<u8>)
        ensures
            bytes@ == spec_u64_to_le_bytes(self.0),
            bytes@.len() == 8,
    {
        u64_to_le_bytes(self.0)
    }

    /// The sum of two amounts, or `None` exactly when it does not fit in 64 bits.
    pub fn checked_add(self, other: Self) -> (sum: Option<Self>)
        ensures
            sum.is_some() <==> self.0 + other.0 <= u64::MAX,
            sum matches Some(s) ==> s.0 == self.0 + other.0,
    {
        if other.0 <= u64::MAX - self.0 {
            Some(Amount(self.0 + other.0))
        } else {
            None
        }
    }

    /// The difference of two amounts, or `None` exactly when `other` is the larger.
    pub fn checked_sub(self, other: Self) -> (difference: Option<Self>)
        ensures
            difference.is_some() <==> self.0 >= other.0,
            difference matches Some(d) ==> d.0 == self.0 - other.0,
    {
        if self.0 >= other.0 {
            Some(Amount(self.0 - other.0))
        } else {
            None
        }
    }
}

} // verus!
