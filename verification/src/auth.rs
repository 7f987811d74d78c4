use crate::principal::Principal;
use crate::records::Error;
use vstd::prelude::*;

verus! {

/// The authority an operation is performed with: the principals that have
/// signed for it. The host establishes it before the operation starts.
pub struct Authorization {
    signers: Vec<Principal>,
}

impl Authorization {
    /// The principals that have signed.
    pub closed spec fn view(self) -> Seq<Principal> {
        self.signers@
    }

    /// `principal` has signed for the operation.
    pub open spec fn covers(self, principal: Principal) -> bool {
        self@.contains(principal)
    }

    /// The authority of the given signers.
    pub fn new(signers: Vec<Principal>) -> (auth: Self)
        ensures
            auth@ == signers@,
    {
        Authorization { signers }
    }

    /// The authority of nobody.
    pub fn none() -> (auth: Self)
        ensures
            auth@ == Seq::<Principal>::empty(),
            forall|p: Principal| !auth.covers(p),
    {
        Authorization { signers: Vec::new() }
    }

    /// The authority of `principal` alone.
    pub fn of(principal: Principal) -> (auth: Self)
        ensures
            auth@ == seq![principal],
            forall|p: Principal| auth.covers(p) <==> p == principal,
    {
        let mut signers: Vec<Principal> = Vec::new();
        signers.push(principal);
        let auth = Authorization { signers };
        assert(auth@ =~= seq![principal]);
        assert(auth@[0] == principal);
        auth
    }

    /// Succeeds exactly when `principal` has signed for the operation.
    pub fn require_auth(&self, principal: &Principal) -> (r: Result<(), Error>)
        ensures
            r == (if self.covers(*principal) {
                Ok::<(), Error>(())
            } else {
                Err::<(), Error>(Error::Unauthorized)
            }),
    {
        let mut i: usize = 0;
        while i < self.signers.len()
            invariant
                i <= self.signers@.len(),
                forall|j: int| 0 <= j < i ==> self.signers@[j] != *principal,
            decreases self.signers@.len() - i,
        {
            if self.signers[i].same(principal) {
                return Ok(());
            }
            i += 1;
        }
        Err(Error::Unauthorized)
    }
}

} // verus!
