//! Account identifiers.

use vstd::bytes::{
    lemma_auto_spec_u128_to_from_le_bytes, spec_u128_from_le_bytes, spec_u128_to_le_bytes,
    u128_from_le_bytes, u128_to_le_bytes,
};
use vstd::prelude::*;
use vstd::slice::slice_subrange;

verus! {

/// Number of tokens held by an account, and the count of tokens ever minted.
pub type Balance = u64;

/// Identifies a participant. The registry only ever compares identifiers for
/// equality.
///
/// An identifier is a 256-bit value, kept as the two halves of its
/// little-endian reading: `lo` holds bytes 0 to 15 and `hi` bytes 16 to 31.
#[derive(Clone, Copy, Debug, PartialEq, Eq, Structural, Hash)]
pub struct AccountId {
    pub hi: u128,
    pub lo: u128,
}

impl AccountId {
    /// The identifier that a sequence of 32 bytes denotes.
    pub open spec fn spec_from_bytes(bytes: Seq<u8>) -> AccountId {
        AccountId {
            hi: spec_u128_from_le_bytes(bytes.subrange(16, 32)),
            lo: spec_u128_from_le_bytes(bytes.subrange(0, 16)),
        }
    }

    /// The 32 bytes that denote this identifier.
    pub open spec fn spec_to_bytes(self) -> Seq<u8> {
        spec_u128_to_le_bytes(self.lo) + spec_u128_to_le_bytes(self.hi)
    }

    /// The pair of integers under which the identifier is filed in ordered
    /// tables.
    pub open spec fn key(self) -> (u128, u128) {
        (self.hi, self.lo)
    }

    /// Reads an identifier from its 32 bytes.
    pub fn from_bytes(bytes: [u8; 32]) -> (id: AccountId)
        ensures
            id == AccountId::spec_from_bytes(bytes@),
            id.spec_to_bytes() == bytes@,
    {
        let all = bytes.as_slice();
        let lo = u128_from_le_bytes(slice_subrange(all, 0, 16));
        let hi = u128_from_le_bytes(slice_subrange(all, 16, 32));
        let id = AccountId { hi, lo };
        proof {
            AccountId::lemma_bytes_round_trip(id, bytes@);
        }
        id
    }

    /// Writes the identifier out as its 32 bytes.
    pub fn to_bytes(&self) -> (bytes: [u8; 32])
        ensures
            bytes@ == self.spec_to_bytes(),
            AccountId::spec_from_bytes(bytes@) == *self,
    {
        let lower = u128_to_le_bytes(self.lo);
        let upper = u128_to_le_bytes(self.hi);
        let mut bytes = [0u8; 32];
        let mut i: usize = 0;
        while i < 16
            invariant
                i <= 16,
                lower@.len() == 16,
                upper@.len() == 16,
                forall|j: int| 0 <= j < i ==> bytes@[j] == lower@[j],
                forall|j: int| 0 <= j < i ==> bytes@[16 + j] == upper@[j],
            decreases 16 - i,
        {
            bytes[i] = lower[i];
            bytes[i + 16] = upper[i];
            i += 1;
        }
        proof {
            assert(bytes@ =~= lower@ + upper@);
            AccountId::lemma_bytes_round_trip(*self, bytes@);
        }
        bytes
    }

    /// Writing an identifier out and reading it back gives the same
    /// identifier, and the other way round: identifiers and 32-byte strings
    /// correspond one to one.
    pub proof fn lemma_bytes_round_trip(id: AccountId, bytes: Seq<u8>)
        requires
            bytes.len() == 32,
        ensures
            id.spec_to_bytes().len() == 32,
            AccountId::spec_from_bytes(id.spec_to_bytes()) == id,
            AccountId::spec_from_bytes(bytes).spec_to_bytes() == bytes,
    {
        lemma_auto_spec_u128_to_from_le_bytes();
        let written = id.spec_to_bytes();
        assert(written.subrange(0, 16) =~= spec_u128_to_le_bytes(id.lo));
        assert(written.subrange(16, 32) =~= spec_u128_to_le_bytes(id.hi));
    }
}

impl From<[u8; 32]> for AccountId {
    /// Reads an identifier from its 32 bytes.
    fn from(bytes: [u8; 32]) -> (id: AccountId) {
        AccountId::from_bytes(bytes)
    }
}

impl vstd::std_specs::convert::FromSpecImpl<[u8; 32]> for AccountId {
    open spec fn obeys_from_spec() -> bool {
        true
    }

    open spec fn from_spec(bytes: [u8; 32]) -> AccountId {
        AccountId::spec_from_bytes(bytes@)
    }
}

} // verus!
