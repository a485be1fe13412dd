use crate::amount::Amount;
use crate::signature::{public_key_bytes, public_key_encoding, AccountPublicKey};
use vstd::bytes::spec_u64_to_le_bytes;
use vstd::prelude::*;

verus! {

/// The identifier of an account: the slot of the account tree that holds its record.
#[derive(Clone, Copy, Debug, PartialEq, Eq, Structural, PartialOrd, Ord, Hash)]
pub struct AccountId(pub u8);

impl AccountId {
    /// The identifier as a single byte.
    pub fn to_bytes_le(&self) -> (bytes: Vec<u8>)
        ensures
            bytes@ == seq![self.0],
    {
        let mut bytes: Vec<u8> = Vec::new();
        bytes.push(self.0);
        assert(bytes@ =~= seq![self.0]);
        bytes
    }

    /// Moves on to the next identifier in place, or leaves the identifier as it is and
    /// returns `None` when it is already the largest one.
    pub fn checked_increment(&mut self) -> (moved: Option<()>)
        ensures
            moved.is_some() <==> old(self).0 < u8::MAX,
            moved.is_some() ==> final(self).0 == old(self).0 + 1,
            moved.is_none() ==> *final(self) == *old(self),
    {
        if self.0 < u8::MAX {
            self.0 = self.0 + 1;
            Some(())
        } else {
            None
        }
    }
}

/// The record of an account: the key that signs for it and its balance.
#[derive(Clone, Copy)]
pub struct AccountInformation {
    /// The key under which the account's transactions are signed.
    pub public_key: AccountPublicKey,
    /// The balance of the account.
    pub balance: Amount,
}

/// The bytes of the record of an account with the given key and balance: the
/// encoding of the key, then the balance, least significant byte first.
pub open spec fn record_of(public_key: AccountPublicKey, balance: Amount) -> Seq<u8> {
    public_key_encoding(public_key) + spec_u64_to_le_bytes(balance.0)
}

impl AccountInformation {
    /// The bytes of this record.
    pub open spec fn record(&self) -> Seq<u8> {
        record_of(self.public_key, self.balance)
    }

    /// The bytes of this record, as the account tree hashes them.
    pub fn to_bytes_le(&self) -> (bytes: Vec<u8>)
        ensures
            bytes@ == self.record(),
    {
        let mut bytes = public_key_bytes(&self.public_key);
        let mut balance = self.balance.to_bytes_le();
        bytes.append(&mut balance);
        bytes
    }
}

} // verus!
