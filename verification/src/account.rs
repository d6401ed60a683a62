//! Identities of the parties to an escrow.
use vstd::prelude::*;

verus! {

/// The number of characters in the text form of an account or a contract.
pub const STRKEY_LEN: usize = 56;

/// A party that can hold tokens and authorize calls: a Stellar account or a contract, named by
/// its text form (`G...` for an account, `C...` for a contract).
#[derive(Clone, Copy, Debug, PartialEq, Eq)]
pub struct Account {
    pub strkey: [u8; 56],
}

impl Account {
    pub fn new(strkey: [u8; 56]) -> (account: Account)
        ensures
            account.strkey == strkey,
    {
        Account { strkey }
    }

    /// Whether the two names are one and the same party.
    pub fn same(&self, other: &Account) -> (equal: bool)
        ensures
            equal == (*self == *other),
    {
        let mut i: usize = 0;
        while i < STRKEY_LEN
            invariant
                i <= STRKEY_LEN,
                forall|k: int| 0 <= k < i ==> self.strkey[k] == other.strkey[k],
            decreases STRKEY_LEN - i,
        {
            if self.strkey[i] != other.strkey[i] {
                return false;
            }
            i = i + 1;
        }
        assert(self.strkey =~= other.strkey);
        true
    }
}

} // verus!
