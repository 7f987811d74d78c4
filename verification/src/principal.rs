use vstd::prelude::*;

verus! {

/// The two kinds of principal the ledger knows.
#[derive(Clone, Copy, Debug, PartialEq, Eq, Structural)]
pub enum PrincipalKind {
    /// An account, identified by its public key.
    Account,
    /// A contract, identified by the hash of its identifier.
    Contract,
}

/// A principal: a company, a developer, a token, or a custody account.
///
/// Two principals denote the same principal exactly when kind and key agree.
#[derive(Clone, Copy, Debug, PartialEq, Eq)]
pub struct Principal {
    pub kind: PrincipalKind,
    pub key: [u8; 32],
}

impl Principal {
    /// The principal of the given kind and key.
    pub fn new(kind: PrincipalKind, key: [u8; 32]) -> (a: Principal)
        ensures
            a.kind == kind,
            a.key == key,
    {
        Principal { kind, key }
    }

    /// Whether `self` and `other` denote the same principal.
    pub fn same(&self, other: &Principal) -> (r: bool)
        ensures
            r == (*self == *other),
    {
        if self.kind != other.kind {
            return false;
        }
        let mut i: usize = 0;
        while i < 32
            invariant
                i <= 32,
                forall|j: int| 0 <= j < i ==> self.key@[j] == other.key@[j],
            decreases 32 - i,
        {
            if self.key[i] != other.key[i] {
                return false;
            }
            i += 1;
        }
        assert(self.key =~= other.key);
        true
    }
}

} // verus!
