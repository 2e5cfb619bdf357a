//! Identities of depositors and administrators: 32-byte keys, of which the
//! all-zero key is reserved to mean "nobody".

use vstd::prelude::*;

verus! {

/// Length of a key in bytes.
pub const KEY_LEN: usize = 32;

/// Whether every byte of `bytes` is zero.
pub open spec fn all_zero(bytes: Seq<u8>) -> bool {
    forall|i: int| 0 <= i < bytes.len() ==> bytes[i] == 0
}

/// The key of somebody: 32 bytes that are not all zero.
#[derive(Clone, Copy, Debug, PartialEq, Eq)]
pub struct Identity {
    bytes: [u8; 32],
}

impl View for Identity {
    type V = Seq<u8>;

    closed spec fn view(&self) -> Seq<u8> {
        self.bytes@
    }
}

impl Identity {
    #[verifier::type_invariant]
    spec fn is_somebody(self) -> bool {
        !all_zero(self.bytes@)
    }

    /// Reads a key. The all-zero key names nobody.
    pub fn from_bytes(bytes: [u8; 32]) -> (id: Option<Identity>)
        ensures
            id is None <==> all_zero(bytes@),
            id matches Some(who) ==> who@ == bytes@,
    {
        let mut i: usize = 0;
        while i < KEY_LEN
            invariant
                i <= KEY_LEN,
                bytes@.len() == KEY_LEN,
                forall|j: int| 0 <= j < i ==> bytes@[j] == 0,
            decreases KEY_LEN - i,
        {
            if bytes[i] != 0 {
                return Some(Identity { bytes });
            }
            i += 1;
        }
        None
    }

    /// The key as bytes.
    pub fn to_bytes(&self) -> (bytes: [u8; 32])
        ensures
            bytes@ == self@,
            !all_zero(bytes@),
    {
        proof {
            use_type_invariant(self);
        }
        self.bytes
    }
}

/// The key that stands for `owner` in a stored record: the owner's own key,
/// or the all-zero key where there is none.
pub fn owner_bytes(owner: &Option<Identity>) -> (bytes: [u8; 32])
    ensures
        owner matches Some(who) ==> bytes@ == who@,
        owner is None <==> all_zero(bytes@),
{
    match owner {
        Some(who) => who.to_bytes(),
        None => [0u8; 32],
    }
}

/// Two identities with the same bytes are the same identity.
pub proof fn lemma_identity_by_bytes(a: Identity, b: Identity)
    requires
        a@ == b@,
    ensures
        a == b,
{
    assert(a.bytes =~= b.bytes);
}

} // verus!
