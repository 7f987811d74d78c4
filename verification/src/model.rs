use crate::auth::Authorization;
use crate::principal::Principal;
use crate::records::{Bounty, BountyStatus, DeveloperProfile, Error, Text, Transfer};
use vstd::prelude::*;

verus! {

/// The ledger as a mathematical value: what the platform has on record.
pub struct PlatformView {
    /// The platform's own account, which holds the escrowed funds.
    pub custody: Principal,
    /// The profile of each registered developer.
    pub developers: Map<Principal, DeveloperProfile>,
    /// Every bounty ever created, the bounty with identifier `n` at position `n - 1`.
    pub bounties: Seq<Bounty>,
    /// For each company, the identifiers of its bounties in the order of creation.
    pub company_bounties: Map<Principal, Seq<u64>>,
    /// For each developer, the identifiers of the bounties taken, in the order of assignment.
    pub developer_bounties: Map<Principal, Seq<u64>>,
}

/// The running average after one more rating: with `completed` completed
/// bounties, the old average counts for `completed - 1` samples and the new
/// rating for one; the quotient is rounded toward zero. With no completed
/// bounty the rating itself is the average.
pub open spec fn blended_rating(old_rating: u32, completed: u32, rating: u32) -> int {
    if completed > 0 {
        (old_rating * (completed - 1) + rating) / (completed as int)
    } else {
        rating as int
    }
}

impl PlatformView {
    /// The identifier given to the most recent bounty; 0 before the first.
    pub open spec fn bounty_counter(self) -> nat {
        self.bounties.len()
    }

    /// A bounty is on record under `id`.
    pub open spec fn has_bounty(self, id: u64) -> bool {
        1 <= id <= self.bounties.len()
    }

    /// The bounty on record under `id`.
    pub open spec fn bounty(self, id: u64) -> Option<Bounty> {
        if self.has_bounty(id) {
            Some(self.bounties[id - 1])
        } else {
            None
        }
    }

    /// The profile on record for `developer`.
    pub open spec fn developer(self, developer: Principal) -> Option<DeveloperProfile> {
        if self.developers.dom().contains(developer) {
            Some(self.developers[developer])
        } else {
            None
        }
    }

    /// The bounties that `company` has created, oldest first.
    pub open spec fn company_index(self, company: Principal) -> Seq<u64> {
        if self.company_bounties.dom().contains(company) {
            self.company_bounties[company]
        } else {
            Seq::empty()
        }
    }

    /// The bounties that `developer` has taken, oldest first.
    pub open spec fn developer_index(self, developer: Principal) -> Seq<u64> {
        if self.developer_bounties.dom().contains(developer) {
            self.developer_bounties[developer]
        } else {
            Seq::empty()
        }
    }

    /// Every bounty carries its own identifier and a consistent assignment,
    /// every assigned developer is registered, and every profile is filed
    /// under its own address.
    pub open spec fn records_valid(self) -> bool {
        &&& self.bounties.len() <= u64::MAX
        &&& forall|i: int|
            0 <= i < self.bounties.len() ==> {
                &&& (#[trigger] self.bounties[i]).id == i + 1
                &&& self.bounties[i].consistent()
                &&& (self.bounties[i].assigned_developer matches Some(d)
                    ==> self.developers.dom().contains(d))
            }
        &&& forall|p: Principal|
            self.developers.dom().contains(p) ==> (#[trigger] self.developers[p]).address == p
    }

    /// The index of a company lists exactly its bounties, in rising order.
    pub open spec fn company_indexed(self) -> bool {
        &&& forall|c: Principal, k: int|
            0 <= k < self.company_index(c).len() ==> {
                &&& self.has_bounty(#[trigger] self.company_index(c)[k])
                &&& self.bounties[self.company_index(c)[k] - 1].company == c
            }
        &&& forall|c: Principal, k: int, l: int|
            0 <= k < l < self.company_index(c).len() ==> #[trigger] self.company_index(c)[k]
                < #[trigger] self.company_index(c)[l]
        &&& forall|i: int|
            0 <= i < self.bounties.len() ==> self.company_index(
                (#[trigger] self.bounties[i]).company,
            ).contains((i + 1) as u64)
    }

    /// The index of a developer lists exactly the bounties assigned to that
    /// developer, each once.
    pub open spec fn developer_indexed(self) -> bool {
        &&& forall|d: Principal, k: int|
            0 <= k < self.developer_index(d).len() ==> {
                &&& self.has_bounty(#[trigger] self.developer_index(d)[k])
                &&& self.bounties[self.developer_index(d)[k] - 1].assigned_developer == Some(d)
            }
        &&& forall|d: Principal, k: int, l: int|
            0 <= k < l < self.developer_index(d).len() ==> #[trigger] self.developer_index(d)[k]
                != #[trigger] self.developer_index(d)[l]
        &&& forall|i: int|
            0 <= i < self.bounties.len() ==> ((#[trigger] self.bounties[i]).assigned_developer
                matches Some(d) ==> self.developer_index(d).contains((i + 1) as u64))
    }

    /// What holds of every ledger the platform can reach.
    pub open spec fn valid(self) -> bool {
        &&& self.records_valid()
        &&& self.company_indexed()
        &&& self.developer_indexed()
    }

    /// The ledger with `bounty` on record under the existing identifier `id`.
    pub open spec fn with_bounty(self, id: u64, bounty: Bounty) -> PlatformView {
        PlatformView { bounties: self.bounties.update(id - 1, bounty), ..self }
    }

    /// The ledger with the bounty `id` moved to `status`.
    pub open spec fn with_status(self, id: u64, status: BountyStatus) -> PlatformView {
        self.with_bounty(id, Bounty { status, ..self.bounties[id - 1] })
    }

    /// The ledger with `profile` on record for `developer`.
    pub open spec fn with_profile(self, developer: Principal, profile: DeveloperProfile)
        -> PlatformView {
        PlatformView { developers: self.developers.insert(developer, profile), ..self }
    }

    // ---- developer registry ----

    /// Why `register_developer` is refused, if it is.
    pub open spec fn register_refusal(self, auth: Authorization, developer: Principal) -> Option<
        Error,
    > {
        if !auth.covers(developer) {
            Some(Error::Unauthorized)
        } else {
            None
        }
    }

    /// The ledger after `developer` registered with `skills` and `bio`: a fresh
    /// profile, whatever was on record before.
    pub open spec fn registered(self, developer: Principal, skills: Vec<Text>, bio: Text)
        -> PlatformView {
        self.with_profile(
            developer,
            DeveloperProfile { address: developer, skills, bio, completed_bounties: 0, rating: 0 },
        )
    }

    /// Why `update_skills` is refused, if it is.
    pub open spec fn update_skills_refusal(self, auth: Authorization, developer: Principal)
        -> Option<Error> {
        if !auth.covers(developer) {
            Some(Error::Unauthorized)
        } else if !self.developers.dom().contains(developer) {
            Some(Error::NotRegistered)
        } else {
            None
        }
    }

    /// The ledger after `developer` replaced the skill list by `skills`.
    pub open spec fn skills_updated(self, developer: Principal, skills: Vec<Text>)
        -> PlatformView {
        self.with_profile(developer, DeveloperProfile { skills, ..self.developers[developer] })
    }

    // ---- creation ----

    /// Why `create_bounty` is refused before any funds are asked for, if it is.
    pub open spec fn create_refusal(self, auth: Authorization, company: Principal) -> Option<
        Error,
    > {
        if !auth.covers(company) {
            Some(Error::Unauthorized)
        } else {
            None
        }
    }

    /// The deposit that locks the payment of a new bounty in custody.
    pub open spec fn create_transfer(
        self,
        company: Principal,
        payment_amount: i128,
        payment_token: Principal,
    ) -> Transfer {
        Transfer { token: payment_token, from: company, to: self.custody, amount: payment_amount }
    }

    /// The bounty that `create_bounty` puts on record.
    pub open spec fn new_bounty(
        self,
        company: Principal,
        title: Text,
        description: Text,
        required_skills: Vec<Text>,
        payment_amount: i128,
        payment_token: Principal,
        deadline: u64,
        now: u64,
    ) -> Bounty {
        Bounty {
            id: (self.bounties.len() + 1) as u64,
            company,
            title,
            description,
            required_skills,
            payment_amount,
            payment_token,
            status: BountyStatus::Open,
            assigned_developer: None,
            created_at: now,
            deadline,
        }
    }

    /// The ledger after `bounty` was created: on record under the next
    /// identifier, which is appended to the index of its company.
    pub open spec fn created(self, bounty: Bounty) -> PlatformView {
        PlatformView {
            bounties: self.bounties.push(bounty),
            company_bounties: self.company_bounties.insert(
                bounty.company,
                self.company_index(bounty.company).push(bounty.id),
            ),
            ..self
        }
    }

    // ---- assignment and submission ----

    /// Why `assign_bounty` is refused, if it is.
    pub open spec fn assign_refusal(self, auth: Authorization, id: u64, developer: Principal)
        -> Option<Error> {
        if !auth.covers(developer) {
            Some(Error::Unauthorized)
        } else if !self.has_bounty(id) {
            Some(Error::NotFound)
        } else if self.bounties[id - 1].status != BountyStatus::Open {
            Some(Error::InvalidState)
        } else if !self.developers.dom().contains(developer) {
            Some(Error::NotRegistered)
        } else {
            None
        }
    }

    /// The ledger after `developer` took the bounty `id`.
    pub open spec fn assigned(self, id: u64, developer: Principal) -> PlatformView {
        PlatformView {
            bounties: self.bounties.update(
                id - 1,
                Bounty {
                    status: BountyStatus::Assigned,
                    assigned_developer: Some(developer),
                    ..self.bounties[id - 1]
                },
            ),
            developer_bounties: self.developer_bounties.insert(
                developer,
                self.developer_index(developer).push(id),
            ),
            ..self
        }
    }

    /// Why `submit_work` is refused, if it is.
    pub open spec fn submit_refusal(self, auth: Authorization, id: u64, developer: Principal)
        -> Option<Error> {
        if !auth.covers(developer) {
            Some(Error::Unauthorized)
        } else if !self.has_bounty(id) {
            Some(Error::NotFound)
        } else if self.bounties[id - 1].assigned_developer != Some(developer) {
            Some(Error::NotAssigned)
        } else if self.bounties[id - 1].status != BountyStatus::Assigned {
            Some(Error::InvalidState)
        } else {
            None
        }
    }

    /// The ledger after the work on the bounty `id` was handed in.
    pub open spec fn submitted(self, id: u64) -> PlatformView {
        self.with_status(id, BountyStatus::Submitted)
    }

    // ---- release ----

    /// Why `approve_and_release` is refused before any funds are asked for, if it is.
    pub open spec fn release_refusal(self, auth: Authorization, id: u64, company: Principal)
        -> Option<Error> {
        if !auth.covers(company) {
            Some(Error::Unauthorized)
        } else if !self.has_bounty(id) {
            Some(Error::NotFound)
        } else if self.bounties[id - 1].company != company {
            Some(Error::Unauthorized)
        } else if self.bounties[id - 1].status != BountyStatus::Submitted {
            Some(Error::InvalidState)
        } else {
            None
        }
    }

    /// The payout of the bounty `id` to its developer.
    pub open spec fn release_transfer(self, id: u64) -> Transfer {
        Transfer {
            token: self.bounties[id - 1].payment_token,
            from: self.custody,
            to: self.bounties[id - 1].assigned_developer->0,
            amount: self.bounties[id - 1].payment_amount,
        }
    }

    /// The ledger after the bounty `id` was approved and paid: it is completed
    /// and its developer has one more completed bounty.
    pub open spec fn released(self, id: u64) -> PlatformView {
        let developer = self.bounties[id - 1].assigned_developer->0;
        let profile = self.developers[developer];
        self.with_status(id, BountyStatus::Completed).with_profile(
            developer,
            DeveloperProfile {
                completed_bounties: (profile.completed_bounties + 1) as u32,
                ..profile
            },
        )
    }

    // ---- dispute ----

    /// Why `dispute_bounty` is refused, if it is.
    pub open spec fn dispute_refusal(self, auth: Authorization, id: u64, caller: Principal)
        -> Option<Error> {
        if !auth.covers(caller) {
            Some(Error::Unauthorized)
        } else if !self.has_bounty(id) {
            Some(Error::NotFound)
        } else if self.bounties[id - 1].company != caller && self.bounties[id
            - 1].assigned_developer != Some(caller) {
            Some(Error::Unauthorized)
        } else if self.bounties[id - 1].status != BountyStatus::Open && self.bounties[id
            - 1].status != BountyStatus::Assigned && self.bounties[id - 1].status
            != BountyStatus::Submitted {
            Some(Error::InvalidState)
        } else {
            None
        }
    }

    /// The ledger after the bounty `id` was disputed.
    pub open spec fn disputed(self, id: u64) -> PlatformView {
        self.with_status(id, BountyStatus::Disputed)
    }

    // ---- cancellation ----

    /// Why `cancel_bounty` is refused before any funds are asked for, if it is.
    pub open spec fn cancel_refusal(self, auth: Authorization, id: u64, company: Principal)
        -> Option<Error> {
        if !auth.covers(company) {
            Some(Error::Unauthorized)
        } else if !self.has_bounty(id) {
            Some(Error::NotFound)
        } else if self.bounties[id - 1].company != company {
            Some(Error::Unauthorized)
        } else if self.bounties[id - 1].status != BountyStatus::Open {
            Some(Error::InvalidState)
        } else {
            None
        }
    }

    /// The refund of the bounty `id` to its company.
    pub open spec fn cancel_transfer(self, id: u64) -> Transfer {
        Transfer {
            token: self.bounties[id - 1].payment_token,
            from: self.custody,
            to: self.bounties[id - 1].company,
            amount: self.bounties[id - 1].payment_amount,
        }
    }

    /// The ledger after the bounty `id` was cancelled and refunded.
    pub open spec fn cancelled(self, id: u64) -> PlatformView {
        self.with_status(id, BountyStatus::Cancelled)
    }

    // ---- rating ----

    /// Why `rate_developer` is refused, if it is.
    pub open spec fn rate_refusal(self, auth: Authorization, id: u64, company: Principal)
        -> Option<Error> {
        if !auth.covers(company) {
            Some(Error::Unauthorized)
        } else if !self.has_bounty(id) {
            Some(Error::NotFound)
        } else if self.bounties[id - 1].company != company {
            Some(Error::Unauthorized)
        } else if self.bounties[id - 1].status != BountyStatus::Completed {
            Some(Error::InvalidState)
        } else {
            None
        }
    }

    /// The ledger after the developer of the bounty `id` was rated: the rating
    /// is blended into the developer's running average.
    pub open spec fn rated(self, id: u64, rating: u32) -> PlatformView {
        let developer = self.bounties[id - 1].assigned_developer->0;
        let profile = self.developers[developer];
        self.with_profile(
            developer,
            DeveloperProfile {
                rating: blended_rating(profile.rating, profile.completed_bounties, rating) as u32,
                ..profile
            },
        )
    }

    // ---- validity is kept ----

    /// Putting a profile on record under its own address keeps the ledger valid.
    pub proof fn lemma_with_profile_valid(self, developer: Principal, profile: DeveloperProfile)
        requires
            self.valid(),
            profile.address == developer,
        ensures
            self.with_profile(developer, profile).valid(),
    {
        let post = self.with_profile(developer, profile);
        assert(post.records_valid()) by {
            assert forall|i: int| 0 <= i < post.bounties.len() implies {
                &&& (#[trigger] post.bounties[i]).id == i + 1
                &&& post.bounties[i].consistent()
                &&& (post.bounties[i].assigned_developer matches Some(d)
                    ==> post.developers.dom().contains(d))
            } by {
                assert(post.bounties[i] == self.bounties[i]);
            }
        }
        assert(post.company_indexed()) by {
            assert forall|c: Principal| post.company_index(c) == self.company_index(c) by {}
        }
        assert(post.developer_indexed()) by {
            assert forall|d: Principal| post.developer_index(d) == self.developer_index(d) by {}
        }
    }

    /// Replacing a bounty by one with the same identifier, company and
    /// developer keeps the ledger valid.
    pub proof fn lemma_with_bounty_valid(self, id: u64, bounty: Bounty)
        requires
            self.valid(),
            self.has_bounty(id),
            bounty.id == id,
            bounty.company == self.bounties[id - 1].company,
            bounty.assigned_developer == self.bounties[id - 1].assigned_developer,
            bounty.consistent(),
        ensures
            self.with_bounty(id, bounty).valid(),
    {
        let post = self.with_bounty(id, bounty);
        assert forall|i: int| 0 <= i < post.bounties.len() implies {
            &&& (#[trigger] post.bounties[i]).company == self.bounties[i].company
            &&& post.bounties[i].assigned_developer == self.bounties[i].assigned_developer
            &&& post.bounties[i].id == self.bounties[i].id
            &&& post.bounties[i].consistent()
        } by {
            if i != id - 1 {
                assert(post.bounties[i] == self.bounties[i]);
            }
        }
        assert forall|c: Principal| post.company_index(c) == self.company_index(c) by {}
        assert forall|d: Principal| post.developer_index(d) == self.developer_index(d) by {}
        assert(post.records_valid());
        assert(post.company_indexed()) by {
            assert forall|i: int| 0 <= i < post.bounties.len() implies post.company_index(
                (#[trigger] post.bounties[i]).company,
            ).contains((i + 1) as u64) by {
                assert(self.company_index(self.bounties[i].company).contains((i + 1) as u64));
            }
        }
        assert(post.developer_indexed()) by {
            assert forall|i: int| 0 <= i < post.bounties.len() implies ((
            #[trigger] post.bounties[i]).assigned_developer matches Some(d)
                ==> post.developer_index(d).contains((i + 1) as u64)) by {
                if let Some(d) = self.bounties[i].assigned_developer {
                    assert(self.developer_index(d).contains((i + 1) as u64));
                }
            }
        }
    }

    /// Creating an open, unassigned bounty under the next identifier keeps the
    /// ledger valid.
    pub proof fn lemma_created_valid(self, bounty: Bounty)
        requires
            self.valid(),
            self.bounties.len() < u64::MAX,
            bounty.id == self.bounties.len() + 1,
            bounty.status == BountyStatus::Open,
            bounty.assigned_developer is None,
        ensures
            self.created(bounty).valid(),
    {
        let post = self.created(bounty);
        let n = self.bounties.len() as int;
        let c0 = bounty.company;
        assert forall|i: int| 0 <= i < n implies #[trigger] post.bounties[i]
            == self.bounties[i] by {}
        assert(post.bounties[n] == bounty);
        assert forall|c: Principal| c != c0 implies post.company_index(c) == self.company_index(
            c,
        ) by {}
        assert(post.company_index(c0) == self.company_index(c0).push(bounty.id));
        assert forall|d: Principal| post.developer_index(d) == self.developer_index(d) by {}
        assert(post.records_valid());
        assert(post.company_indexed()) by {
            assert forall|c: Principal, k: int| 0 <= k < post.company_index(c).len() implies {
                &&& post.has_bounty(#[trigger] post.company_index(c)[k])
                &&& post.bounties[post.company_index(c)[k] - 1].company == c
            } by {
                if c == c0 && k == self.company_index(c0).len() {
                } else {
                    assert(post.company_index(c)[k] == self.company_index(c)[k]);
                    assert(self.has_bounty(self.company_index(c)[k]));
                }
            }
            assert forall|c: Principal, k: int, l: int|
                0 <= k < l < post.company_index(c).len() implies #[trigger] post.company_index(
                c,
            )[k] < #[trigger] post.company_index(c)[l] by {
                assert(post.company_index(c)[k] == self.company_index(c)[k]);
                assert(self.has_bounty(self.company_index(c)[k]));
                if c == c0 && l == self.company_index(c0).len() {
                } else {
                    assert(post.company_index(c)[l] == self.company_index(c)[l]);
                }
            }
            assert forall|i: int| 0 <= i < post.bounties.len() implies post.company_index(
                (#[trigger] post.bounties[i]).company,
            ).contains((i + 1) as u64) by {
                if i == n {
                    assert(post.company_index(c0)[self.company_index(c0).len() as int]
                        == bounty.id);
                } else {
                    let c = self.bounties[i].company;
                    assert(self.company_index(c).contains((i + 1) as u64));
                    let k = choose|k: int|
                        0 <= k < self.company_index(c).len() && self.company_index(c)[k] == (i
                            + 1) as u64;
                    assert(post.company_index(c)[k] == (i + 1) as u64);
                }
            }
        }
        assert(post.developer_indexed()) by {
            assert forall|d: Principal, k: int| 0 <= k < post.developer_index(d).len() implies {
                &&& post.has_bounty(#[trigger] post.developer_index(d)[k])
                &&& post.bounties[post.developer_index(d)[k] - 1].assigned_developer == Some(d)
            } by {
                assert(self.has_bounty(self.developer_index(d)[k]));
            }
            assert forall|i: int| 0 <= i < post.bounties.len() implies ((
            #[trigger] post.bounties[i]).assigned_developer matches Some(d)
                ==> post.developer_index(d).contains((i + 1) as u64)) by {
                if i < n {
                    if let Some(d) = self.bounties[i].assigned_developer {
                        assert(self.developer_index(d).contains((i + 1) as u64));
                    }
                }
            }
        }
    }

    /// Assigning an open bounty to a registered developer keeps the ledger valid.
    pub proof fn lemma_assigned_valid(self, id: u64, developer: Principal)
        requires
            self.valid(),
            self.has_bounty(id),
            self.bounties[id - 1].status == BountyStatus::Open,
            self.developers.dom().contains(developer),
        ensures
            self.assigned(id, developer).valid(),
    {
        let post = self.assigned(id, developer);
        let d0 = developer;
        let m = self.developer_index(d0).len() as int;
        assert(self.bounties[id - 1].consistent());
        assert forall|i: int| 0 <= i < post.bounties.len() && i != id - 1 implies
            #[trigger] post.bounties[i] == self.bounties[i] by {}
        assert forall|c: Principal| post.company_index(c) == self.company_index(c) by {}
        assert forall|d: Principal| d != d0 implies post.developer_index(d)
            == self.developer_index(d) by {}
        assert(post.developer_index(d0) == self.developer_index(d0).push(id));
        assert(post.records_valid()) by {
            assert forall|i: int| 0 <= i < post.bounties.len() implies {
                &&& (#[trigger] post.bounties[i]).id == i + 1
                &&& post.bounties[i].consistent()
                &&& (post.bounties[i].assigned_developer matches Some(d)
                    ==> post.developers.dom().contains(d))
            } by {
                if i != id - 1 {
                    assert(post.bounties[i] == self.bounties[i]);
                }
            }
        }
        assert(post.company_indexed()) by {
            assert forall|c: Principal, k: int| 0 <= k < post.company_index(c).len() implies {
                &&& post.has_bounty(#[trigger] post.company_index(c)[k])
                &&& post.bounties[post.company_index(c)[k] - 1].company == c
            } by {
                let j = self.company_index(c)[k];
                assert(self.has_bounty(j));
                assert(post.bounties[j - 1].company == self.bounties[j - 1].company);
            }
            assert forall|i: int| 0 <= i < post.bounties.len() implies post.company_index(
                (#[trigger] post.bounties[i]).company,
            ).contains((i + 1) as u64) by {
                assert(post.bounties[i].company == self.bounties[i].company);
                assert(self.company_index(self.bounties[i].company).contains((i + 1) as u64));
            }
        }
        assert(post.developer_indexed()) by {
            assert forall|d: Principal, k: int| 0 <= k < post.developer_index(d).len() implies {
                &&& post.has_bounty(#[trigger] post.developer_index(d)[k])
                &&& post.bounties[post.developer_index(d)[k] - 1].assigned_developer == Some(d)
            } by {
                if d == d0 && k == m {
                } else {
                    let j = self.developer_index(d)[k];
                    assert(post.developer_index(d)[k] == j);
                    assert(self.has_bounty(j));
                    assert(self.bounties[j - 1].assigned_developer == Some(d));
                    assert(j != id);
                    assert(post.bounties[j - 1] == self.bounties[j - 1]);
                }
            }
            assert forall|d: Principal, k: int, l: int|
                0 <= k < l < post.developer_index(d).len() implies #[trigger] post.developer_index(
                d,
            )[k] != #[trigger] post.developer_index(d)[l] by {
                let j = self.developer_index(d)[k];
                assert(post.developer_index(d)[k] == j);
                assert(self.has_bounty(j));
                assert(self.bounties[j - 1].assigned_developer == Some(d));
                if d == d0 && l == m {
                } else {
                    assert(post.developer_index(d)[l] == self.developer_index(d)[l]);
                }
            }
            assert forall|i: int| 0 <= i < post.bounties.len() implies ((
            #[trigger] post.bounties[i]).assigned_developer matches Some(d)
                ==> post.developer_index(d).contains((i + 1) as u64)) by {
                if i == id - 1 {
                    assert(post.developer_index(d0)[m] == id);
                } else {
                    if let Some(d) = self.bounties[i].assigned_developer {
                        assert(self.developer_index(d).contains((i + 1) as u64));
                        let k = choose|k: int|
                            0 <= k < self.developer_index(d).len() && self.developer_index(d)[k]
                                == (i + 1) as u64;
                        assert(post.developer_index(d)[k] == (i + 1) as u64);
                    }
                }
            }
        }
    }
}

} // verus!
