//! An escrow-backed ledger of freelance bounties.
//!
//! A company posts a bounty and its payment is locked in the platform's
//! custody; a registered developer takes the bounty and hands in the work; the
//! company approves and the payment is released to the developer, or the
//! company cancels an open bounty and is refunded. [`FreelanceBountyPlatform`]
//! holds the ledger and offers the operations, [`model::PlatformView`] says
//! what each operation does, and [`laws`] states what follows for every
//! ledger the platform can reach.
//!
//! The ledger moves no funds itself. For each operation that locks, releases
//! or refunds a payment it names the one transfer to be made (`plan_create`,
//! `plan_release`, `plan_cancel`); the caller makes it with the token and
//! tells the operation whether it went through.

pub mod auth;
pub mod laws;
pub mod model;
pub mod platform;
pub mod principal;
pub mod records;
pub mod snapshot;
pub mod table;

pub use crate::auth::Authorization;
pub use crate::platform::FreelanceBountyPlatform;
pub use crate::principal::{Principal, PrincipalKind};
pub use crate::records::{Bounty, BountyStatus, DeveloperProfile, Error, Text, Transfer};
pub use crate::snapshot::Snapshot;
pub use crate::table::Row;
