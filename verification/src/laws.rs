use crate::auth::Authorization;
use crate::model::{blended_rating, PlatformView};
use crate::principal::Principal;
use crate::records::{Bounty, BountyStatus, DeveloperProfile, Error, Text, Transfer};
use vstd::prelude::*;

verus! {

/// A call of one of the platform's state-changing operations, with its arguments.
pub enum Operation {
    RegisterDeveloper { developer: Principal, skills: Vec<Text>, bio: Text },
    UpdateSkills { developer: Principal, skills: Vec<Text> },
    CreateBounty {
        company: Principal,
        title: Text,
        description: Text,
        required_skills: Vec<Text>,
        payment_amount: i128,
        payment_token: Principal,
        deadline: u64,
        now: u64,
    },
    AssignBounty { bounty_id: u64, developer: Principal },
    SubmitWork { bounty_id: u64, developer: Principal },
    ApproveAndRelease { bounty_id: u64, company: Principal },
    DisputeBounty { bounty_id: u64, caller: Principal },
    CancelBounty { bounty_id: u64, company: Principal },
    RateDeveloper { bounty_id: u64, company: Principal, rating: u32 },
}

impl Operation {
    /// The bounty whose funds the operation takes out of custody, if it takes any.
    pub open spec fn settles(self) -> Option<u64> {
        match self {
            Operation::ApproveAndRelease { bounty_id, .. } => Some(bounty_id),
            Operation::CancelBounty { bounty_id, .. } => Some(bounty_id),
            _ => None,
        }
    }
}

impl PlatformView {
    /// Why the platform refuses `op` when it is called with `auth`, if it does.
    pub open spec fn refusal(self, auth: Authorization, op: Operation) -> Option<Error> {
        match op {
            Operation::RegisterDeveloper { developer, .. } => self.register_refusal(
                auth,
                developer,
            ),
            Operation::UpdateSkills { developer, .. } => self.update_skills_refusal(
                auth,
                developer,
            ),
            Operation::CreateBounty { company, .. } => self.create_refusal(auth, company),
            Operation::AssignBounty { bounty_id, developer } => self.assign_refusal(
                auth,
                bounty_id,
                developer,
            ),
            Operation::SubmitWork { bounty_id, developer } => self.submit_refusal(
                auth,
                bounty_id,
                developer,
            ),
            Operation::ApproveAndRelease { bounty_id, company } => self.release_refusal(
                auth,
                bounty_id,
                company,
            ),
            Operation::DisputeBounty { bounty_id, caller } => self.dispute_refusal(
                auth,
                bounty_id,
                caller,
            ),
            Operation::CancelBounty { bounty_id, company } => self.cancel_refusal(
                auth,
                bounty_id,
                company,
            ),
            Operation::RateDeveloper { bounty_id, company, .. } => self.rate_refusal(
                auth,
                bounty_id,
                company,
            ),
        }
    }

    /// The movement of funds that `op` asks of the token once it is not
    /// refused; `None` for an operation that moves no funds.
    pub open spec fn requested_transfer(self, op: Operation) -> Option<Transfer> {
        match op {
            Operation::CreateBounty { company, payment_amount, payment_token, .. } => Some(
                self.create_transfer(company, payment_amount, payment_token),
            ),
            Operation::ApproveAndRelease { bounty_id, .. } => Some(
                self.release_transfer(bounty_id),
            ),
            Operation::CancelBounty { bounty_id, .. } => Some(self.cancel_transfer(bounty_id)),
            _ => None,
        }
    }

    /// The ledger after `op` has succeeded.
    pub open spec fn after(self, op: Operation) -> PlatformView {
        match op {
            Operation::RegisterDeveloper { developer, skills, bio } => self.registered(
                developer,
                skills,
                bio,
            ),
            Operation::UpdateSkills { developer, skills } => self.skills_updated(
                developer,
                skills,
            ),
            Operation::CreateBounty {
                company,
                title,
                description,
                required_skills,
                payment_amount,
                payment_token,
                deadline,
                now,
            } => self.created(
                self.new_bounty(
                    company,
                    title,
                    description,
                    required_skills,
                    payment_amount,
                    payment_token,
                    deadline,
                    now,
                ),
            ),
            Operation::AssignBounty { bounty_id, developer } => self.assigned(
                bounty_id,
                developer,
            ),
            Operation::SubmitWork { bounty_id, .. } => self.submitted(bounty_id),
            Operation::ApproveAndRelease { bounty_id, .. } => self.released(bounty_id),
            Operation::DisputeBounty { bounty_id, .. } => self.disputed(bounty_id),
            Operation::CancelBounty { bounty_id, .. } => self.cancelled(bounty_id),
            Operation::RateDeveloper { bounty_id, rating, .. } => self.rated(bounty_id, rating),
        }
    }

    /// `op`, called with `auth`, succeeds on this ledger and leaves `post`.
    pub open spec fn steps_to(self, auth: Authorization, op: Operation, post: PlatformView)
        -> bool {
        &&& self.valid()
        &&& self.bounties.len() < u64::MAX
        &&& self.refusal(auth, op) is None
        &&& post == self.after(op)
    }
}

/// `post` is what one successful operation makes of `pre`, or `pre` itself
/// (what a refused operation leaves).
pub open spec fn follows(pre: PlatformView, post: PlatformView) -> bool {
    post == pre || exists|auth: Authorization, op: Operation|
        #[trigger] pre.steps_to(auth, op, post)
}

/// Each ledger of `history` follows from the one before it.
pub open spec fn is_history(history: Seq<PlatformView>) -> bool {
    forall|i: int|
        0 <= i && i + 1 < history.len() ==> follows(#[trigger] history[i], history[i + 1])
}

/// Every successful operation leaves a valid ledger.
pub proof fn law_validity_is_kept(pre: PlatformView, auth: Authorization, op: Operation)
    requires
        pre.steps_to(auth, op, pre.after(op)),
    ensures
        pre.after(op).valid(),
{
    match op {
        Operation::RegisterDeveloper { developer, skills, bio } => {
            pre.lemma_with_profile_valid(
                developer,
                DeveloperProfile {
                    address: developer,
                    skills,
                    bio,
                    completed_bounties: 0,
                    rating: 0,
                },
            );
        },
        Operation::UpdateSkills { developer, skills } => {
            pre.lemma_with_profile_valid(
                developer,
                DeveloperProfile { skills, ..pre.developers[developer] },
            );
        },
        Operation::CreateBounty {
            company,
            title,
            description,
            required_skills,
            payment_amount,
            payment_token,
            deadline,
            now,
        } => {
            pre.lemma_created_valid(
                pre.new_bounty(
                    company,
                    title,
                    description,
                    required_skills,
                    payment_amount,
                    payment_token,
                    deadline,
                    now,
                ),
            );
        },
        Operation::AssignBounty { bounty_id, developer } => {
            pre.lemma_assigned_valid(bounty_id, developer);
        },
        Operation::SubmitWork { bounty_id, .. } => {
            let b = pre.bounties[bounty_id - 1];
            pre.lemma_with_bounty_valid(bounty_id, Bounty { status: BountyStatus::Submitted, ..b });
        },
        Operation::ApproveAndRelease { bounty_id, .. } => {
            let b = pre.bounties[bounty_id - 1];
            assert(b.consistent());
            pre.lemma_with_bounty_valid(bounty_id, Bounty { status: BountyStatus::Completed, ..b });
            let mid = pre.with_status(bounty_id, BountyStatus::Completed);
            let developer = b.assigned_developer->0;
            let profile = pre.developers[developer];
            mid.lemma_with_profile_valid(
                developer,
                DeveloperProfile {
                    completed_bounties: (profile.completed_bounties + 1) as u32,
                    ..profile
                },
            );
        },
        Operation::DisputeBounty { bounty_id, .. } => {
            let b = pre.bounties[bounty_id - 1];
            pre.lemma_with_bounty_valid(bounty_id, Bounty { status: BountyStatus::Disputed, ..b });
        },
        Operation::CancelBounty { bounty_id, .. } => {
            let b = pre.bounties[bounty_id - 1];
            assert(b.consistent());
            pre.lemma_with_bounty_valid(bounty_id, Bounty { status: BountyStatus::Cancelled, ..b });
        },
        Operation::RateDeveloper { bounty_id, rating, .. } => {
            let b = pre.bounties[bounty_id - 1];
            assert(b.consistent());
            let developer = b.assigned_developer->0;
            let profile = pre.developers[developer];
            pre.lemma_with_profile_valid(
                developer,
                DeveloperProfile {
                    rating: blended_rating(
                        profile.rating,
                        profile.completed_bounties,
                        rating,
                    ) as u32,
                    ..profile
                },
            );
        },
    }
}

/// What a bounty was created with never changes, and a bounty on record stays
/// on record: identifier, company, title, description, required skills,
/// payment, creation time and deadline are those of its creation.
pub proof fn law_terms_are_fixed(pre: PlatformView, post: PlatformView, id: u64)
    requires
        follows(pre, post),
        pre.has_bounty(id),
    ensures
        post.has_bounty(id),
        post.bounties[id - 1].id == pre.bounties[id - 1].id,
        post.bounties[id - 1].company == pre.bounties[id - 1].company,
        post.bounties[id - 1].title == pre.bounties[id - 1].title,
        post.bounties[id - 1].description == pre.bounties[id - 1].description,
        post.bounties[id - 1].required_skills == pre.bounties[id - 1].required_skills,
        post.bounties[id - 1].payment_amount == pre.bounties[id - 1].payment_amount,
        post.bounties[id - 1].payment_token == pre.bounties[id - 1].payment_token,
        post.bounties[id - 1].created_at == pre.bounties[id - 1].created_at,
        post.bounties[id - 1].deadline == pre.bounties[id - 1].deadline,
{
}

/// Once a developer is assigned to a bounty, the assignment stays as it is.
pub proof fn law_assignment_is_set_once(pre: PlatformView, post: PlatformView, id: u64)
    requires
        follows(pre, post),
        pre.has_bounty(id),
        pre.bounties[id - 1].assigned_developer is Some,
    ensures
        post.bounties[id - 1].assigned_developer == pre.bounties[id - 1].assigned_developer,
{
    if post != pre {
        let (auth, op) = choose|auth: Authorization, op: Operation|
            #[trigger] pre.steps_to(auth, op, post);
        assert(pre.bounties[id - 1].consistent());
    }
}

/// A bounty is assigned only while it is open.
pub proof fn law_assign_needs_open(
    pre: PlatformView,
    auth: Authorization,
    bounty_id: u64,
    developer: Principal,
)
    requires
        pre.assign_refusal(auth, bounty_id, developer) is None,
    ensures
        pre.has_bounty(bounty_id),
        pre.bounties[bounty_id - 1].status == BountyStatus::Open,
        pre.assigned(bounty_id, developer).bounties[bounty_id - 1].status
            == BountyStatus::Assigned,
        pre.assigned(bounty_id, developer).bounties[bounty_id - 1].assigned_developer == Some(
            developer,
        ),
{
}

/// A bounty that has left the open status does not return to it.
pub proof fn law_never_reopens(pre: PlatformView, post: PlatformView, id: u64)
    requires
        follows(pre, post),
        pre.has_bounty(id),
        pre.bounties[id - 1].status != BountyStatus::Open,
    ensures
        post.has_bounty(id),
        post.bounties[id - 1].status != BountyStatus::Open,
{
}

/// Along any history, a bounty that has left the open status stays out of it.
pub proof fn law_never_reopens_along(history: Seq<PlatformView>, i: int, j: int, id: u64)
    requires
        is_history(history),
        0 <= i <= j < history.len(),
        history[i].has_bounty(id),
        history[i].bounties[id - 1].status != BountyStatus::Open,
    ensures
        history[j].has_bounty(id),
        history[j].bounties[id - 1].status != BountyStatus::Open,
    decreases j - i,
{
    if i < j {
        law_never_reopens_along(history, i, j - 1, id);
        assert(follows(history[j - 1], history[j - 1 + 1]));
        law_never_reopens(history[j - 1], history[j], id);
    }
}

/// Cancellation is refused once a bounty has left the open status; for the
/// bounty's own company, acting with its authority, the reason is the state.
pub proof fn law_cancel_needs_open(
    pre: PlatformView,
    auth: Authorization,
    bounty_id: u64,
    company: Principal,
)
    requires
        pre.has_bounty(bounty_id),
        pre.bounties[bounty_id - 1].status != BountyStatus::Open,
    ensures
        pre.cancel_refusal(auth, bounty_id, company) is Some,
        auth.covers(company) && pre.bounties[bounty_id - 1].company == company
            ==> pre.cancel_refusal(auth, bounty_id, company) == Some(Error::InvalidState),
{
}

/// Along any history, a bounty that has been assigned can no longer be cancelled.
pub proof fn law_no_cancel_after_assignment(
    history: Seq<PlatformView>,
    i: int,
    j: int,
    bounty_id: u64,
    auth: Authorization,
    company: Principal,
)
    requires
        is_history(history),
        0 <= i <= j < history.len(),
        history[i].has_bounty(bounty_id),
        history[i].bounties[bounty_id - 1].status != BountyStatus::Open,
    ensures
        history[j].cancel_refusal(auth, bounty_id, company) is Some,
{
    law_never_reopens_along(history, i, j, bounty_id);
    law_cancel_needs_open(history[j], auth, bounty_id, company);
}

/// Work is handed in by the assigned developer only: for anyone else, the
/// bounty's company included, `submit_work` is refused, as not assigned where
/// the caller has signed and as unauthorized where not.
pub proof fn law_submit_needs_assignee(
    pre: PlatformView,
    auth: Authorization,
    bounty_id: u64,
    caller: Principal,
)
    requires
        pre.has_bounty(bounty_id),
        pre.bounties[bounty_id - 1].assigned_developer != Some(caller),
    ensures
        pre.submit_refusal(auth, bounty_id, caller) == Some(
            if auth.covers(caller) {
                Error::NotAssigned
            } else {
                Error::Unauthorized
            },
        ),
{
}

/// A profile read back after registration is the profile that was registered,
/// with no completed bounties and no rating.
pub proof fn law_register_then_get(
    pre: PlatformView,
    developer: Principal,
    skills: Vec<Text>,
    bio: Text,
)
    ensures
        pre.registered(developer, skills, bio).developer(developer) == Some(
            DeveloperProfile { address: developer, skills, bio, completed_bounties: 0, rating: 0 },
        ),
{
}

/// Updating the skills replaces the skill list of that developer and leaves
/// everything else on the ledger as it was.
pub proof fn law_update_skills_changes_only_skills(
    pre: PlatformView,
    auth: Authorization,
    developer: Principal,
    skills: Vec<Text>,
)
    requires
        pre.update_skills_refusal(auth, developer) is None,
    ensures
        ({
            let post = pre.skills_updated(developer, skills);
            let before = pre.developers[developer];
            let after = post.developers[developer];
            &&& post.developers.dom() == pre.developers.dom()
            &&& after.skills == skills
            &&& after.address == before.address
            &&& after.bio == before.bio
            &&& after.completed_bounties == before.completed_bounties
            &&& after.rating == before.rating
            &&& forall|other: Principal|
                other != developer ==> post.developer(other) == pre.developer(other)
            &&& post.bounties == pre.bounties
            &&& post.company_bounties == pre.company_bounties
            &&& post.developer_bounties == pre.developer_bounties
            &&& post.custody == pre.custody
        }),
{
    let post = pre.skills_updated(developer, skills);
    assert(post.developers.dom() =~= pre.developers.dom());
}

/// A blended rating lies between 0 and the larger of the old average and the
/// new rating; so ratings of at most 100 keep the average at most 100.
pub proof fn law_rating_stays_in_range(old_rating: u32, completed: u32, rating: u32)
    ensures
        0 <= blended_rating(old_rating, completed, rating),
        blended_rating(old_rating, completed, rating) <= old_rating || blended_rating(
            old_rating,
            completed,
            rating,
        ) <= rating,
        old_rating <= 100 && rating <= 100 ==> blended_rating(old_rating, completed, rating)
            <= 100,
{
    if completed > 0 {
        let n = completed as int;
        let total = old_rating * (n - 1) + rating;
        let top: int = if old_rating >= rating {
            old_rating as int
        } else {
            rating as int
        };
        assert(0 <= total <= top * n) by (nonlinear_arith)
            requires
                total == old_rating * (n - 1) + rating,
                0 <= old_rating <= top,
                0 <= rating <= top,
                n >= 1,
        ;
        assert(0 <= total / n <= top) by (nonlinear_arith)
            requires
                0 <= total <= top * n,
                n >= 1,
        ;
    }
}

/// With at most one completed bounty a rating replaces the average: what
/// was blended in before is forgotten.
pub proof fn law_single_sample_rating_overwrites(old_rating: u32, rating: u32)
    ensures
        blended_rating(old_rating, 1, rating) == rating,
        blended_rating(old_rating, 0, rating) == rating,
{
}

// ---- custody of funds ----

/// Creating a bounty asks for exactly one movement of funds, the deposit of
/// its payment from the company into custody, and puts exactly one new bounty
/// on record, open, under an identifier that was never used; the bounties
/// already on record are untouched.
pub proof fn law_funds_enter_custody_on_creation(
    pre: PlatformView,
    auth: Authorization,
    op: Operation,
    post: PlatformView,
)
    requires
        pre.steps_to(auth, op, post),
        op is CreateBounty,
    ensures
        pre.requested_transfer(op) == Some(
            Transfer {
                token: op->payment_token,
                from: op->CreateBounty_company,
                to: pre.custody,
                amount: op->payment_amount,
            },
        ),
        post.bounty_counter() == pre.bounty_counter() + 1,
        !pre.has_bounty(post.bounty_counter() as u64),
        post.bounties.last().id == post.bounty_counter(),
        post.bounties.last().company == op->CreateBounty_company,
        post.bounties.last().payment_amount == op->payment_amount,
        post.bounties.last().payment_token == op->payment_token,
        post.bounties.last().status == BountyStatus::Open,
        post.bounties.last().status.in_custody(),
        forall|id: u64| pre.has_bounty(id) ==> post.bounty(id) == pre.bounty(id),
{
}

/// Only creation puts a bounty on record; no operation takes one off.
pub proof fn law_identifiers_are_never_reused(pre: PlatformView, post: PlatformView)
    requires
        follows(pre, post),
    ensures
        post.bounty_counter() >= pre.bounty_counter(),
        post.bounty_counter() <= pre.bounty_counter() + 1,
{
}

/// The funds of a bounty leave custody exactly when an operation settles that
/// bounty. The operation then asks for exactly one movement: the bounty's full
/// payment, in its token, out of custody, to the developer where the bounty
/// becomes completed and to the company where it becomes cancelled. An
/// operation that neither creates nor settles a bounty asks for none.
pub proof fn law_funds_leave_custody_on_settlement(
    pre: PlatformView,
    auth: Authorization,
    op: Operation,
    post: PlatformView,
    id: u64,
)
    requires
        pre.steps_to(auth, op, post),
        pre.has_bounty(id),
    ensures
        post.has_bounty(id),
        (pre.bounties[id - 1].status.in_custody() && !post.bounties[id - 1].status.in_custody())
            <==> op.settles() == Some(id),
        op.settles() == Some(id) ==> {
            &&& pre.bounties[id - 1].status.in_custody()
            &&& post.bounties[id - 1].status == (if op is ApproveAndRelease {
                BountyStatus::Completed
            } else {
                BountyStatus::Cancelled
            })
            &&& pre.requested_transfer(op) == Some(
                Transfer {
                    token: pre.bounties[id - 1].payment_token,
                    from: pre.custody,
                    to: if op is ApproveAndRelease {
                        pre.bounties[id - 1].assigned_developer->0
                    } else {
                        pre.bounties[id - 1].company
                    },
                    amount: pre.bounties[id - 1].payment_amount,
                },
            )
        },
        op.settles() is None && !(op is CreateBounty) ==> pre.requested_transfer(op) is None,
{
}

/// A bounty whose funds have left custody is final: no operation changes it.
pub proof fn law_settled_bounty_is_final(pre: PlatformView, post: PlatformView, id: u64)
    requires
        follows(pre, post),
        pre.has_bounty(id),
        !pre.bounties[id - 1].status.in_custody(),
    ensures
        post.bounty(id) == pre.bounty(id),
{
}

/// Along any history, a bounty whose funds have left custody stays as it is:
/// its funds leave custody at most once.
pub proof fn law_funds_leave_custody_once(history: Seq<PlatformView>, i: int, j: int, id: u64)
    requires
        is_history(history),
        0 <= i <= j < history.len(),
        history[i].has_bounty(id),
        !history[i].bounties[id - 1].status.in_custody(),
    ensures
        history[j].bounty(id) == history[i].bounty(id),
    decreases j - i,
{
    if i < j {
        law_funds_leave_custody_once(history, i, j - 1, id);
        assert(follows(history[j - 1], history[j - 1 + 1]));
        law_settled_bounty_is_final(history[j - 1], history[j], id);
    }
}

/// What custody holds for `bounty` in `token`: its payment while its funds are
/// in custody and it is paid in `token`, nothing otherwise.
pub open spec fn held_for(bounty: Bounty, token: Principal) -> int {
    if bounty.payment_token == token && bounty.status.in_custody() {
        bounty.payment_amount as int
    } else {
        0
    }
}

/// What custody holds in `token` for all of `bounties` together.
pub open spec fn escrowed(bounties: Seq<Bounty>, token: Principal) -> int
    decreases bounties.len(),
{
    if bounties.len() == 0 {
        0
    } else {
        escrowed(bounties.drop_last(), token) + held_for(bounties.last(), token)
    }
}

proof fn lemma_escrowed_push(bounties: Seq<Bounty>, bounty: Bounty, token: Principal)
    ensures
        escrowed(bounties.push(bounty), token) == escrowed(bounties, token) + held_for(
            bounty,
            token,
        ),
{
    assert(bounties.push(bounty).drop_last() =~= bounties);
}

proof fn lemma_escrowed_update(bounties: Seq<Bounty>, i: int, bounty: Bounty, token: Principal)
    requires
        0 <= i < bounties.len(),
    ensures
        escrowed(bounties.update(i, bounty), token) == escrowed(bounties, token) - held_for(
            bounties[i],
            token,
        ) + held_for(bounty, token),
    decreases bounties.len(),
{
    let updated = bounties.update(i, bounty);
    if i == bounties.len() - 1 {
        assert(updated.drop_last() =~= bounties.drop_last());
    } else {
        lemma_escrowed_update(bounties.drop_last(), i, bounty, token);
        assert(updated.drop_last() =~= bounties.drop_last().update(i, bounty));
    }
}

/// Custody accounts for every movement of funds: what it holds in a token for
/// the bounties on record rises by the deposit when a bounty in that token is
/// created, falls by the payment when one is paid out or refunded, and is
/// otherwise left as it was.
pub proof fn law_custody_accounts_for_every_transfer(
    pre: PlatformView,
    auth: Authorization,
    op: Operation,
    post: PlatformView,
    token: Principal,
)
    requires
        pre.steps_to(auth, op, post),
    ensures
        escrowed(post.bounties, token) == escrowed(pre.bounties, token) + (match pre.requested_transfer(
            op,
        ) {
            Some(transfer) => if transfer.token != token {
                0
            } else if op is CreateBounty {
                transfer.amount as int
            } else {
                -(transfer.amount as int)
            },
            None => 0,
        }),
{
    match op {
        Operation::RegisterDeveloper { .. } => {},
        Operation::UpdateSkills { .. } => {},
        Operation::RateDeveloper { .. } => {},
        Operation::CreateBounty {
            company,
            title,
            description,
            required_skills,
            payment_amount,
            payment_token,
            deadline,
            now,
        } => {
            lemma_escrowed_push(
                pre.bounties,
                pre.new_bounty(
                    company,
                    title,
                    description,
                    required_skills,
                    payment_amount,
                    payment_token,
                    deadline,
                    now,
                ),
                token,
            );
        },
        Operation::AssignBounty { bounty_id, .. } => {
            lemma_escrowed_update(pre.bounties, bounty_id - 1, post.bounties[bounty_id - 1], token);
        },
        Operation::SubmitWork { bounty_id, .. } => {
            lemma_escrowed_update(pre.bounties, bounty_id - 1, post.bounties[bounty_id - 1], token);
        },
        Operation::DisputeBounty { bounty_id, .. } => {
            lemma_escrowed_update(pre.bounties, bounty_id - 1, post.bounties[bounty_id - 1], token);
        },
        Operation::ApproveAndRelease { bounty_id, .. } => {
            lemma_escrowed_update(pre.bounties, bounty_id - 1, post.bounties[bounty_id - 1], token);
        },
        Operation::CancelBounty { bounty_id, .. } => {
            lemma_escrowed_update(pre.bounties, bounty_id - 1, post.bounties[bounty_id - 1], token);
        },
    }
}

/// A disputed bounty is frozen: no operation changes it, and its funds stay
/// in custody.
pub proof fn law_disputed_bounty_is_frozen(pre: PlatformView, post: PlatformView, id: u64)
    requires
        follows(pre, post),
        pre.has_bounty(id),
        pre.bounties[id - 1].status == BountyStatus::Disputed,
    ensures
        post.bounty(id) == pre.bounty(id),
        post.bounties[id - 1].status.in_custody(),
{
}

/// The lists of bounty identifiers are append-only: an operation leaves a
/// list as it was or appends one identifier to it.
pub proof fn law_indexes_are_append_only(pre: PlatformView, post: PlatformView, who: Principal)
    requires
        follows(pre, post),
    ensures
        post.company_index(who) == pre.company_index(who) || exists|id: u64|
            post.company_index(who) == pre.company_index(who).push(id),
        post.developer_index(who) == pre.developer_index(who) || exists|id: u64|
            post.developer_index(who) == pre.developer_index(who).push(id),
{
    if post != pre {
        let (auth, op) = choose|auth: Authorization, op: Operation|
            #[trigger] pre.steps_to(auth, op, post);
        match op {
            Operation::CreateBounty { company, .. } => {
                if company == who {
                    let id = (pre.bounties.len() + 1) as u64;
                    assert(post.company_index(who) == pre.company_index(who).push(id));
                }
            },
            Operation::AssignBounty { bounty_id, developer } => {
                if developer == who {
                    assert(post.developer_index(who) == pre.developer_index(who).push(
                        bounty_id,
                    ));
                }
            },
            _ => {},
        }
    }
}

/// Payment is released for a submitted bounty only: in any other status
/// approval is refused; for the bounty's own company, acting with its
/// authority, the reason is the state.
pub proof fn law_release_needs_submitted(
    pre: PlatformView,
    auth: Authorization,
    bounty_id: u64,
    company: Principal,
)
    requires
        pre.has_bounty(bounty_id),
        pre.bounties[bounty_id - 1].status != BountyStatus::Submitted,
    ensures
        pre.release_refusal(auth, bounty_id, company) is Some,
        auth.covers(company) && pre.bounties[bounty_id - 1].company == company
            ==> pre.release_refusal(auth, bounty_id, company) == Some(Error::InvalidState),
{
}

/// Along any history, once the funds of a bounty have left custody, both
/// approval and cancellation of that bounty are refused: its funds are neither
/// paid out nor refunded a second time.
pub proof fn law_no_second_settlement(
    history: Seq<PlatformView>,
    i: int,
    j: int,
    bounty_id: u64,
    auth: Authorization,
    company: Principal,
)
    requires
        is_history(history),
        0 <= i <= j < history.len(),
        history[i].has_bounty(bounty_id),
        !history[i].bounties[bounty_id - 1].status.in_custody(),
    ensures
        history[j].has_bounty(bounty_id),
        history[j].release_refusal(auth, bounty_id, company) is Some,
        history[j].cancel_refusal(auth, bounty_id, company) is Some,
        auth.covers(company) && history[j].bounties[bounty_id - 1].company == company ==> {
            &&& history[j].release_refusal(auth, bounty_id, company) == Some(Error::InvalidState)
            &&& history[j].cancel_refusal(auth, bounty_id, company) == Some(Error::InvalidState)
        },
{
    law_funds_leave_custody_once(history, i, j, bounty_id);
    law_release_needs_submitted(history[j], auth, bounty_id, company);
    law_cancel_needs_open(history[j], auth, bounty_id, company);
}

/// `transfer` the other way round: the same amount of the same token, back
/// from the receiver to the sender.
pub open spec fn reversed(transfer: Transfer) -> Transfer {
    Transfer {
        token: transfer.token,
        from: transfer.to,
        to: transfer.from,
        amount: transfer.amount,
    }
}

/// No operation changes the account that holds the escrowed funds.
pub proof fn law_custody_account_is_fixed(pre: PlatformView, post: PlatformView)
    requires
        follows(pre, post),
    ensures
        post.custody == pre.custody,
{
}

/// Along any history, what leaves custody for a bounty is what entered it: the
/// refund of a cancellation is the bounty's deposit the other way round, and
/// the payout of an approval is the deposited amount of the deposited token,
/// out of the same custody account.
pub proof fn law_settlement_returns_the_deposit(
    history: Seq<PlatformView>,
    i: int,
    j: int,
    id: u64,
)
    requires
        is_history(history),
        0 <= i <= j < history.len(),
        history[i].has_bounty(id),
    ensures
        history[j].has_bounty(id),
        history[j].custody == history[i].custody,
        history[j].cancel_transfer(id) == reversed(
            history[i].create_transfer(
                history[i].bounties[id - 1].company,
                history[i].bounties[id - 1].payment_amount,
                history[i].bounties[id - 1].payment_token,
            ),
        ),
        history[j].release_transfer(id).token == history[i].bounties[id - 1].payment_token,
        history[j].release_transfer(id).amount == history[i].bounties[id - 1].payment_amount,
        history[j].release_transfer(id).from == history[i].custody,
    decreases j - i,
{
    if i < j {
        law_settlement_returns_the_deposit(history, i, j - 1, id);
        assert(follows(history[j - 1], history[j - 1 + 1]));
        law_terms_are_fixed(history[j - 1], history[j], id);
        law_custody_account_is_fixed(history[j - 1], history[j]);
    }
}

} // verus!
