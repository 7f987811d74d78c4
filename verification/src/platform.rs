use crate::auth::Authorization;
use crate::model::{blended_rating, PlatformView};
use crate::principal::Principal;
use crate::records::{Bounty, BountyStatus, DeveloperProfile, Error, Text, Transfer};
use crate::snapshot::{check_company_index, check_developer_index, check_records, Snapshot};
use crate::table::{list_of, lists_of, Table};
use vstd::prelude::*;

verus! {

/// Appends `id` to the list of `key`, starting a list where there is none.
fn append_id(table: &mut Table<Vec<u64>>, key: Principal, id: u64)
    requires
        old(table).well_formed(),
    ensures
        final(table).well_formed(),
        lists_of(final(table)@) == lists_of(old(table)@).insert(
            key,
            list_of(old(table)@, key).push(id),
        ),
{
    let mut list = match table.take(&key) {
        Some(list) => list,
        None => Vec::new(),
    };
    list.push(id);
    table.set(key, list);
    assert(lists_of(table@) =~= lists_of(old(table)@).insert(
        key,
        list_of(old(table)@, key).push(id),
    ));
}

/// A copy of the list that `table` holds for `key`; empty where it holds none.
fn copy_ids(table: &Table<Vec<u64>>, key: &Principal) -> (ids: Vec<u64>)
    requires
        table.well_formed(),
    ensures
        ids@ == list_of(table@, *key),
{
    match table.get(key) {
        Some(list) => {
            let ids = list.clone();
            assert(ids@ =~= list@);
            ids
        },
        None => Vec::new(),
    }
}

/// The escrow-backed bounty ledger: developer profiles, bounties, and the
/// per-company and per-developer lists of bounty identifiers.
pub struct FreelanceBountyPlatform {
    custody: Principal,
    developers: Table<DeveloperProfile>,
    bounties: Vec<Bounty>,
    company_bounties: Table<Vec<u64>>,
    developer_bounties: Table<Vec<u64>>,
}

impl FreelanceBountyPlatform {
    /// What the platform has on record.
    pub closed spec fn view(self) -> PlatformView {
        PlatformView {
            custody: self.custody,
            developers: self.developers@,
            bounties: self.bounties@,
            company_bounties: lists_of(self.company_bounties@),
            developer_bounties: lists_of(self.developer_bounties@),
        }
    }

    /// The platform's tables are sound and its ledger is valid.
    pub closed spec fn well_formed(self) -> bool {
        &&& self.developers.well_formed()
        &&& self.company_bounties.well_formed()
        &&& self.developer_bounties.well_formed()
        &&& self@.valid()
    }

    /// A well-formed platform holds a valid ledger, so the laws of valid ledgers
    /// hold of it.
    pub proof fn lemma_well_formed_is_valid(self)
        requires
            self.well_formed(),
        ensures
            self@.valid(),
    {
    }

    /// An empty ledger whose escrowed funds will be held by `custody`.
    pub fn new(custody: Principal) -> (platform: Self)
        ensures
            platform.well_formed(),
            platform@.custody == custody,
            platform@.developers == Map::<Principal, DeveloperProfile>::empty(),
            platform@.bounties == Seq::<Bounty>::empty(),
            platform@.company_bounties == Map::<Principal, Seq<u64>>::empty(),
            platform@.developer_bounties == Map::<Principal, Seq<u64>>::empty(),
    {
        let platform = FreelanceBountyPlatform {
            custody,
            developers: Table::new(),
            bounties: Vec::new(),
            company_bounties: Table::new(),
            developer_bounties: Table::new(),
        };
        assert(platform@.company_bounties =~= Map::<Principal, Seq<u64>>::empty());
        assert(platform@.developer_bounties =~= Map::<Principal, Seq<u64>>::empty());
        platform
    }

    /// The platform that holds the ledger which `snapshot` describes, where it
    /// describes one.
    pub fn restore(snapshot: Snapshot) -> (restored: Option<Self>)
        ensures
            match restored {
                Some(platform) => {
                    &&& snapshot.sound()
                    &&& platform.well_formed()
                    &&& platform@ == snapshot@
                },
                None => !snapshot.sound(),
            },
    {
        let ghost view = snapshot@;
        let custody = snapshot.custody;
        let bounties = snapshot.bounties;
        let developers = match Table::from_rows(snapshot.developers) {
            Some(table) => table,
            None => {
                return None;
            },
        };
        let company_bounties = match Table::from_rows(snapshot.company_bounties) {
            Some(table) => table,
            None => {
                return None;
            },
        };
        let developer_bounties = match Table::from_rows(snapshot.developer_bounties) {
            Some(table) => table,
            None => {
                return None;
            },
        };
        if !check_records(&developers, &bounties, Ghost(view)) {
            return None;
        }
        if !check_company_index(&bounties, &company_bounties, Ghost(view)) {
            return None;
        }
        if !check_developer_index(&bounties, &developer_bounties, Ghost(view)) {
            return None;
        }
        Some(
            FreelanceBountyPlatform {
                custody,
                developers,
                bounties,
                company_bounties,
                developer_bounties,
            },
        )
    }

    /// The ledger written out as plain records; `restore` reads it back.
    pub fn into_snapshot(self) -> (snapshot: Snapshot)
        requires
            self.well_formed(),
        ensures
            snapshot.sound(),
            snapshot@ == self@,
    {
        Snapshot {
            custody: self.custody,
            developers: self.developers.into_rows(),
            bounties: self.bounties,
            company_bounties: self.company_bounties.into_rows(),
            developer_bounties: self.developer_bounties.into_rows(),
        }
    }

    /// The identifier given to the most recent bounty; 0 before the first.
    pub fn bounty_counter(&self) -> (counter: u64)
        ensures
            counter == self@.bounty_counter(),
    {
        self.bounties.len() as u64
    }

    /// The account that holds the escrowed funds.
    pub fn custody(&self) -> (custody: Principal)
        ensures
            custody == self@.custody,
    {
        self.custody
    }

    /// Registers `developer` with a fresh profile. A profile already on record
    /// is overwritten: its completed bounties and its rating start again at 0.
    pub fn register_developer(
        &mut self,
        auth: &Authorization,
        developer: Principal,
        skills: Vec<Text>,
        bio: Text,
    ) -> (r: Result<(), Error>)
        requires
            old(self).well_formed(),
        ensures
            final(self).well_formed(),
            match old(self)@.register_refusal(*auth, developer) {
                Some(e) => r == Err::<(), Error>(e) && final(self)@ == old(self)@,
                None => r == Ok::<(), Error>(()) && final(self)@ == old(self)@.registered(
                    developer,
                    skills,
                    bio,
                ),
            },
    {
        if auth.require_auth(&developer).is_err() {
            return Err(Error::Unauthorized);
        }
        let profile = DeveloperProfile {
            address: developer,
            skills,
            bio,
            completed_bounties: 0,
            rating: 0,
        };
        proof {
            self@.lemma_with_profile_valid(developer, profile);
        }
        self.developers.set(developer, profile);
        Ok(())
    }

    /// Replaces the skill list of `developer`; the rest of the profile stays.
    pub fn update_skills(&mut self, auth: &Authorization, developer: Principal, skills: Vec<Text>)
        -> (r: Result<(), Error>)
        requires
            old(self).well_formed(),
        ensures
            final(self).well_formed(),
            match old(self)@.update_skills_refusal(*auth, developer) {
                Some(e) => r == Err::<(), Error>(e) && final(self)@ == old(self)@,
                None => r == Ok::<(), Error>(()) && final(self)@ == old(self)@.skills_updated(
                    developer,
                    skills,
                ),
            },
    {
        if auth.require_auth(&developer).is_err() {
            return Err(Error::Unauthorized);
        }
        match self.developers.take(&developer) {
            None => {
                assert(self.developers@ =~= old(self).developers@);
                Err(Error::NotRegistered)
            },
            Some(profile) => {
                let updated = DeveloperProfile { skills, ..profile };
                proof {
                    old(self)@.lemma_with_profile_valid(developer, updated);
                }
                self.developers.set(developer, updated);
                assert(self.developers@ =~= old(self).developers@.insert(developer, updated));
                Ok(())
            },
        }
    }

    /// The profile on record for `developer`, if there is one.
    pub fn get_developer(&self, developer: &Principal) -> (profile: Option<&DeveloperProfile>)
        requires
            self.well_formed(),
        ensures
            profile == match self@.developer(*developer) {
                Some(p) => Some(&p),
                None => None,
            },
    {
        self.developers.get(developer)
    }

    /// Where the bounty `id` is kept, if it is on record.
    fn position(&self, id: u64) -> (found: Option<usize>)
        ensures
            match found {
                Some(i) => self@.has_bounty(id) && i == id - 1,
                None => !self@.has_bounty(id),
            },
    {
        if id == 0 || id > self.bounties.len() as u64 {
            None
        } else {
            Some((id - 1) as usize)
        }
    }

    /// The bounty on record under `bounty_id`, if there is one.
    pub fn get_bounty(&self, bounty_id: u64) -> (bounty: Option<&Bounty>)
        ensures
            bounty == match self@.bounty(bounty_id) {
                Some(b) => Some(&b),
                None => None,
            },
    {
        match self.position(bounty_id) {
            Some(i) => Some(&self.bounties[i]),
            None => None,
        }
    }

    /// The identifiers of the bounties that `company` has created, oldest
    /// first; empty for a company that has created none.
    pub fn get_company_bounties(&self, company: &Principal) -> (ids: Vec<u64>)
        requires
            self.well_formed(),
        ensures
            ids@ == self@.company_index(*company),
    {
        copy_ids(&self.company_bounties, company)
    }

    /// The identifiers of the bounties that `developer` has taken, oldest
    /// first; empty for a developer that has taken none.
    pub fn get_developer_bounties(&self, developer: &Principal) -> (ids: Vec<u64>)
        requires
            self.well_formed(),
        ensures
            ids@ == self@.developer_index(*developer),
    {
        copy_ids(&self.developer_bounties, developer)
    }

    /// Moves the bounty at position `i` to `status`.
    fn set_status(&mut self, i: usize, status: BountyStatus)
        requires
            old(self).well_formed(),
            i < old(self)@.bounties.len(),
            (Bounty { status, ..old(self)@.bounties[i as int] }).consistent(),
        ensures
            final(self).well_formed(),
            final(self)@ == old(self)@.with_status((i + 1) as u64, status),
    {
        proof {
            let id = (i + 1) as u64;
            self@.lemma_with_bounty_valid(id, Bounty { status, ..self@.bounties[i as int] });
        }
        self.bounties[i].status = status;
        assert(self.bounties@ =~= old(self).bounties@.update(
            i as int,
            Bounty { status, ..old(self).bounties@[i as int] },
        ));
    }

    /// `developer` takes the open bounty `bounty_id`. No funds move.
    pub fn assign_bounty(&mut self, auth: &Authorization, bounty_id: u64, developer: Principal)
        -> (r: Result<(), Error>)
        requires
            old(self).well_formed(),
        ensures
            final(self).well_formed(),
            match old(self)@.assign_refusal(*auth, bounty_id, developer) {
                Some(e) => r == Err::<(), Error>(e) && final(self)@ == old(self)@,
                None => r == Ok::<(), Error>(()) && final(self)@ == old(self)@.assigned(
                    bounty_id,
                    developer,
                ),
            },
    {
        if auth.require_auth(&developer).is_err() {
            return Err(Error::Unauthorized);
        }
        let i = match self.position(bounty_id) {
            Some(i) => i,
            None => {
                return Err(Error::NotFound);
            },
        };
        if self.bounties[i].status != BountyStatus::Open {
            return Err(Error::InvalidState);
        }
        if !self.developers.contains(&developer) {
            return Err(Error::NotRegistered);
        }
        proof {
            self@.lemma_assigned_valid(bounty_id, developer);
        }
        self.bounties[i].status = BountyStatus::Assigned;
        self.bounties[i].assigned_developer = Some(developer);
        append_id(&mut self.developer_bounties, developer, bounty_id);
        assert(self.bounties@ =~= old(self)@.assigned(bounty_id, developer).bounties);
        Ok(())
    }

    /// The assigned developer hands in the work on the bounty `bounty_id`. No
    /// funds move.
    pub fn submit_work(&mut self, auth: &Authorization, bounty_id: u64, developer: Principal) -> (r:
        Result<(), Error>)
        requires
            old(self).well_formed(),
        ensures
            final(self).well_formed(),
            match old(self)@.submit_refusal(*auth, bounty_id, developer) {
                Some(e) => r == Err::<(), Error>(e) && final(self)@ == old(self)@,
                None => r == Ok::<(), Error>(()) && final(self)@ == old(self)@.submitted(
                    bounty_id,
                ),
            },
    {
        if auth.require_auth(&developer).is_err() {
            return Err(Error::Unauthorized);
        }
        let i = match self.position(bounty_id) {
            Some(i) => i,
            None => {
                return Err(Error::NotFound);
            },
        };
        let is_assigned = match &self.bounties[i].assigned_developer {
            Some(assigned) => assigned.same(&developer),
            None => false,
        };
        if !is_assigned {
            return Err(Error::NotAssigned);
        }
        if self.bounties[i].status != BountyStatus::Assigned {
            return Err(Error::InvalidState);
        }
        self.set_status(i, BountyStatus::Submitted);
        Ok(())
    }

    /// The company or the assigned developer disputes the bounty `bounty_id`,
    /// which must not have reached a final status. The funds stay in custody.
    pub fn dispute_bounty(&mut self, auth: &Authorization, bounty_id: u64, caller: Principal) -> (r:
        Result<(), Error>)
        requires
            old(self).well_formed(),
        ensures
            final(self).well_formed(),
            match old(self)@.dispute_refusal(*auth, bounty_id, caller) {
                Some(e) => r == Err::<(), Error>(e) && final(self)@ == old(self)@,
                None => r == Ok::<(), Error>(()) && final(self)@ == old(self)@.disputed(
                    bounty_id,
                ),
            },
    {
        if auth.require_auth(&caller).is_err() {
            return Err(Error::Unauthorized);
        }
        let i = match self.position(bounty_id) {
            Some(i) => i,
            None => {
                return Err(Error::NotFound);
            },
        };
        let is_developer = match &self.bounties[i].assigned_developer {
            Some(assigned) => assigned.same(&caller),
            None => false,
        };
        if !self.bounties[i].company.same(&caller) && !is_developer {
            return Err(Error::Unauthorized);
        }
        let status = self.bounties[i].status;
        if status != BountyStatus::Open && status != BountyStatus::Assigned && status
            != BountyStatus::Submitted {
            return Err(Error::InvalidState);
        }
        self.set_status(i, BountyStatus::Disputed);
        Ok(())
    }

    // ---- operations that move funds ----

    /// The deposit that `create_bounty` asks for, or why the operation is
    /// refused.
    pub fn plan_create(
        &self,
        auth: &Authorization,
        company: Principal,
        payment_amount: i128,
        payment_token: Principal,
    ) -> (r: Result<Transfer, Error>)
        ensures
            r == match self@.create_refusal(*auth, company) {
                Some(e) => Err::<Transfer, Error>(e),
                None => Ok::<Transfer, Error>(
                    self@.create_transfer(company, payment_amount, payment_token),
                ),
            },
    {
        if auth.require_auth(&company).is_err() {
            return Err(Error::Unauthorized);
        }
        Ok(Transfer { token: payment_token, from: company, to: self.custody, amount: payment_amount })
    }

    /// Creates a bounty of `payment_amount` units of `payment_token`, funded by
    /// `company`, at the time `now`. The caller first carries out the deposit
    /// that `plan_create` names and says in `moved` whether it went through.
    /// Where it did, the bounty goes on record as open under the next
    /// identifier, which is returned and appended to the company's list; where
    /// it did not, nothing is recorded.
    pub fn create_bounty(
        &mut self,
        auth: &Authorization,
        company: Principal,
        title: Text,
        description: Text,
        required_skills: Vec<Text>,
        payment_amount: i128,
        payment_token: Principal,
        deadline: u64,
        now: u64,
        moved: bool,
    ) -> (r: Result<u64, Error>)
        requires
            old(self).well_formed(),
            moved && old(self)@.create_refusal(*auth, company) is None ==> old(
                self,
            )@.bounty_counter() < u64::MAX,
        ensures
            final(self).well_formed(),
            match old(self)@.create_refusal(*auth, company) {
                Some(e) => r == Err::<u64, Error>(e) && final(self)@ == old(self)@,
                None => if moved {
                    &&& r == Ok::<u64, Error>((old(self)@.bounty_counter() + 1) as u64)
                    &&& final(self)@ == old(self)@.created(
                        old(self)@.new_bounty(
                            company,
                            title,
                            description,
                            required_skills,
                            payment_amount,
                            payment_token,
                            deadline,
                            now,
                        ),
                    )
                } else {
                    r == Err::<u64, Error>(Error::TransferFailed) && final(self)@ == old(self)@
                },
            },
    {
        if auth.require_auth(&company).is_err() {
            return Err(Error::Unauthorized);
        }
        if !moved {
            return Err(Error::TransferFailed);
        }
        let bounty_id: u64 = self.bounties.len() as u64 + 1;
        let bounty = Bounty {
            id: bounty_id,
            company,
            title,
            description,
            required_skills,
            payment_amount,
            payment_token,
            status: BountyStatus::Open,
            assigned_developer: None,
            created_at: now,
            deadline,
        };
        proof {
            self@.lemma_created_valid(bounty);
        }
        self.bounties.push(bounty);
        append_id(&mut self.company_bounties, company, bounty_id);
        Ok(bounty_id)
    }

    /// The payout that `approve_and_release` asks for, or why the operation is
    /// refused.
    pub fn plan_release(&self, auth: &Authorization, bounty_id: u64, company: Principal) -> (r:
        Result<Transfer, Error>)
        requires
            self.well_formed(),
        ensures
            r == match self@.release_refusal(*auth, bounty_id, company) {
                Some(e) => Err::<Transfer, Error>(e),
                None => Ok::<Transfer, Error>(self@.release_transfer(bounty_id)),
            },
    {
        if auth.require_auth(&company).is_err() {
            return Err(Error::Unauthorized);
        }
        let i = match self.position(bounty_id) {
            Some(i) => i,
            None => {
                return Err(Error::NotFound);
            },
        };
        let bounty = &self.bounties[i];
        if !bounty.company.same(&company) {
            return Err(Error::Unauthorized);
        }
        if bounty.status != BountyStatus::Submitted {
            return Err(Error::InvalidState);
        }
        assert(bounty.consistent());
        match bounty.assigned_developer {
            Some(developer) => Ok(
                Transfer {
                    token: bounty.payment_token,
                    from: self.custody,
                    to: developer,
                    amount: bounty.payment_amount,
                },
            ),
            None => Err(Error::InvalidState),
        }
    }

    /// The counter of completed bounties of the developer of the bounty `id`
    /// can still be raised.
    pub open spec fn release_fits(view: PlatformView, id: u64) -> bool {
        view.has_bounty(id) && view.bounties[id - 1].assigned_developer is Some
            ==> view.developers[view.bounties[id - 1].assigned_developer->0].completed_bounties
            < u32::MAX
    }

    /// The company approves the submitted bounty `bounty_id`. The caller first
    /// carries out the payout that `plan_release` names and says in `moved`
    /// whether it went through. Where it did, the bounty is completed and the
    /// developer has one more completed bounty; where it did not, nothing
    /// changes.
    pub fn approve_and_release(
        &mut self,
        auth: &Authorization,
        bounty_id: u64,
        company: Principal,
        moved: bool,
    ) -> (r: Result<(), Error>)
        requires
            old(self).well_formed(),
            moved && old(self)@.release_refusal(*auth, bounty_id, company) is None
                ==> Self::release_fits(old(self)@, bounty_id),
        ensures
            final(self).well_formed(),
            match old(self)@.release_refusal(*auth, bounty_id, company) {
                Some(e) => r == Err::<(), Error>(e) && final(self)@ == old(self)@,
                None => if moved {
                    r == Ok::<(), Error>(()) && final(self)@ == old(self)@.released(bounty_id)
                } else {
                    r == Err::<(), Error>(Error::TransferFailed) && final(self)@ == old(self)@
                },
            },
    {
        let payout = match self.plan_release(auth, bounty_id, company) {
            Ok(payout) => payout,
            Err(e) => {
                return Err(e);
            },
        };
        if !moved {
            return Err(Error::TransferFailed);
        }
        let developer = payout.to;
        let i = match self.position(bounty_id) {
            Some(i) => i,
            None => {
                return Err(Error::NotFound);
            },
        };
        assert(self@.bounties[i as int].consistent());
        self.set_status(i, BountyStatus::Completed);
        let ghost completed = self@;
        match self.developers.take(&developer) {
            Some(profile) => {
                let updated = DeveloperProfile {
                    completed_bounties: profile.completed_bounties + 1,
                    ..profile
                };
                proof {
                    completed.lemma_with_profile_valid(developer, updated);
                }
                self.developers.set(developer, updated);
                assert(self.developers@ =~= old(self).developers@.insert(developer, updated));
                Ok(())
            },
            None => {
                assert(false);
                Err(Error::NotRegistered)
            },
        }
    }

    /// The refund that `cancel_bounty` asks for, or why the operation is
    /// refused.
    pub fn plan_cancel(&self, auth: &Authorization, bounty_id: u64, company: Principal) -> (r:
        Result<Transfer, Error>)
        ensures
            r == match self@.cancel_refusal(*auth, bounty_id, company) {
                Some(e) => Err::<Transfer, Error>(e),
                None => Ok::<Transfer, Error>(self@.cancel_transfer(bounty_id)),
            },
    {
        if auth.require_auth(&company).is_err() {
            return Err(Error::Unauthorized);
        }
        let i = match self.position(bounty_id) {
            Some(i) => i,
            None => {
                return Err(Error::NotFound);
            },
        };
        let bounty = &self.bounties[i];
        if !bounty.company.same(&company) {
            return Err(Error::Unauthorized);
        }
        if bounty.status != BountyStatus::Open {
            return Err(Error::InvalidState);
        }
        Ok(
            Transfer {
                token: bounty.payment_token,
                from: self.custody,
                to: bounty.company,
                amount: bounty.payment_amount,
            },
        )
    }

    /// The company withdraws the open bounty `bounty_id`. The caller first
    /// carries out the refund that `plan_cancel` names and says in `moved`
    /// whether it went through. Where it did, the bounty is cancelled; where it
    /// did not, nothing changes.
    pub fn cancel_bounty(
        &mut self,
        auth: &Authorization,
        bounty_id: u64,
        company: Principal,
        moved: bool,
    ) -> (r: Result<(), Error>)
        requires
            old(self).well_formed(),
        ensures
            final(self).well_formed(),
            match old(self)@.cancel_refusal(*auth, bounty_id, company) {
                Some(e) => r == Err::<(), Error>(e) && final(self)@ == old(self)@,
                None => if moved {
                    r == Ok::<(), Error>(()) && final(self)@ == old(self)@.cancelled(bounty_id)
                } else {
                    r == Err::<(), Error>(Error::TransferFailed) && final(self)@ == old(self)@
                },
            },
    {
        match self.plan_cancel(auth, bounty_id, company) {
            Ok(_) => {},
            Err(e) => {
                return Err(e);
            },
        }
        if !moved {
            return Err(Error::TransferFailed);
        }
        let i = match self.position(bounty_id) {
            Some(i) => i,
            None => {
                return Err(Error::NotFound);
            },
        };
        assert(self@.bounties[i as int].consistent());
        self.set_status(i, BountyStatus::Cancelled);
        Ok(())
    }

    // ---- rating ----

    /// The company rates the developer of its completed bounty `bounty_id`:
    /// `rating` is blended into the developer's running average. Rating a
    /// bounty again blends again.
    pub fn rate_developer(&mut self, auth: &Authorization, bounty_id: u64, company: Principal, rating: u32)
        -> (r: Result<(), Error>)
        requires
            old(self).well_formed(),
        ensures
            final(self).well_formed(),
            match old(self)@.rate_refusal(*auth, bounty_id, company) {
                Some(e) => r == Err::<(), Error>(e) && final(self)@ == old(self)@,
                None => r == Ok::<(), Error>(()) && final(self)@ == old(self)@.rated(
                    bounty_id,
                    rating,
                ),
            },
    {
        if auth.require_auth(&company).is_err() {
            return Err(Error::Unauthorized);
        }
        let i = match self.position(bounty_id) {
            Some(i) => i,
            None => {
                return Err(Error::NotFound);
            },
        };
        if !self.bounties[i].company.same(&company) {
            return Err(Error::Unauthorized);
        }
        if self.bounties[i].status != BountyStatus::Completed {
            return Err(Error::InvalidState);
        }
        assert(self.bounties@[i as int].consistent());
        let developer = match self.bounties[i].assigned_developer {
            Some(developer) => developer,
            None => {
                return Err(Error::InvalidState);
            },
        };
        match self.developers.take(&developer) {
            Some(profile) => {
                let blended = blend(profile.rating, profile.completed_bounties, rating);
                let updated = DeveloperProfile { rating: blended, ..profile };
                proof {
                    old(self)@.lemma_with_profile_valid(developer, updated);
                }
                self.developers.set(developer, updated);
                assert(self.developers@ =~= old(self).developers@.insert(developer, updated));
                Ok(())
            },
            None => {
                assert(false);
                Err(Error::NotRegistered)
            },
        }
    }
}

/// The running average after one more rating, as `blended_rating` defines it.
pub fn blend(old_rating: u32, completed: u32, rating: u32) -> (blended: u32)
    ensures
        blended == blended_rating(old_rating, completed, rating),
{
    if completed > 0 {
        let weight: u64 = (completed - 1) as u64;
        assert(old_rating * weight <= 0xffff_ffff * weight <= 0xffff_ffff * 0xffff_ffff)
            by (nonlinear_arith)
            requires
                0 <= old_rating <= 0xffff_ffff,
                0 <= weight <= 0xffff_ffff,
        ;
        let total: u64 = old_rating as u64 * weight + rating as u64;
        assert(0xffff_ffff * weight + 0xffff_ffff == 0xffff_ffff * (completed as int))
            by (nonlinear_arith)
            requires
                weight == completed - 1,
        ;
        let mean: u64 = total / completed as u64;
        assert(mean <= 0xffff_ffff) by (nonlinear_arith)
            requires
                mean == total / (completed as u64),
                completed > 0,
                total <= 0xffff_ffff * (completed as int),
        ;
        mean as u32
    } else {
        rating
    }
}

} // verus!
