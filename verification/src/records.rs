use crate::principal::Principal;
use vstd::prelude::*;

verus! {

/// Free-form text, kept byte for byte as it was handed in.
pub type Text = Vec<u8>;

/// Where a bounty stands in its lifecycle.
#[derive(Clone, Copy, Debug, PartialEq, Eq, Structural)]
pub enum BountyStatus {
    /// Funded and waiting for a developer.
    Open,
    /// A developer has taken the bounty.
    Assigned,
    /// The assigned developer has handed in the work.
    Submitted,
    /// The company approved the work and the developer was paid.
    Completed,
    /// The company or the assigned developer has raised a dispute.
    Disputed,
    /// The company withdrew the bounty and was refunded.
    Cancelled,
}

impl BountyStatus {
    /// The escrowed payment is still in custody: it has been neither paid out
    /// to a developer nor refunded to the company.
    pub open spec fn in_custody(self) -> bool {
        self != BountyStatus::Completed && self != BountyStatus::Cancelled
    }
}

/// Why an operation was refused. A refused operation leaves the ledger as it was.
#[derive(Clone, Copy, Debug, PartialEq, Eq, Structural)]
pub enum Error {
    /// The caller lacks the authority of the principal it acts for, or is not
    /// the principal the record designates.
    Unauthorized,
    /// No bounty is recorded under the given identifier.
    NotFound,
    /// The developer has no profile.
    NotRegistered,
    /// The caller is not the developer the bounty is assigned to.
    NotAssigned,
    /// The bounty's status does not admit the operation.
    InvalidState,
    /// The token did not move the funds.
    TransferFailed,
}

/// What the platform records about a developer.
#[derive(Debug, PartialEq, Eq)]
pub struct DeveloperProfile {
    pub address: Principal,
    pub skills: Vec<Text>,
    pub bio: Text,
    /// Number of bounties of this developer that were approved and paid.
    pub completed_bounties: u32,
    /// Running average of the ratings received, out of 100.
    pub rating: u32,
}

/// A funded unit of work posted by a company.
#[derive(Debug, PartialEq, Eq)]
pub struct Bounty {
    pub id: u64,
    pub company: Principal,
    pub title: Text,
    pub description: Text,
    pub required_skills: Vec<Text>,
    pub payment_amount: i128,
    pub payment_token: Principal,
    pub status: BountyStatus,
    pub assigned_developer: Option<Principal>,
    pub created_at: u64,
    pub deadline: u64,
}

impl Bounty {
    /// The status and the assignment agree: a bounty that was never taken has
    /// no developer, one that was taken has one.
    pub open spec fn consistent(self) -> bool {
        match self.status {
            BountyStatus::Open | BountyStatus::Cancelled => self.assigned_developer is None,
            BountyStatus::Assigned | BountyStatus::Submitted | BountyStatus::Completed =>
                self.assigned_developer is Some,
            BountyStatus::Disputed => true,
        }
    }

    /// Whether the status and the assignment agree.
    pub fn is_consistent(&self) -> (r: bool)
        ensures
            r == self.consistent(),
    {
        match self.status {
            BountyStatus::Open | BountyStatus::Cancelled => self.assigned_developer.is_none(),
            BountyStatus::Assigned | BountyStatus::Submitted | BountyStatus::Completed => {
                self.assigned_developer.is_some()
            },
            BountyStatus::Disputed => true,
        }
    }
}

/// A movement of `amount` units of `token` from one holder to another.
#[derive(Clone, Copy, Debug, PartialEq, Eq)]
pub struct Transfer {
    pub token: Principal,
    pub from: Principal,
    pub to: Principal,
    pub amount: i128,
}

} // verus!
