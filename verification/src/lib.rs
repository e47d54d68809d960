//! An escrow and reward-distribution engine for bounties, gigs and jobs.
//!
//! The engine keeps a requester's funds in escrow and releases them by the
//! ranks of a distribution table, in equal shares once a deadline has
//! passed, or milestone by milestone. It moves no funds itself: every
//! operation returns the transfers that the token service has to carry out.

pub mod bounty;
pub mod contract;
pub mod distribution;
pub mod events;
pub mod laws;
pub mod ledger;
pub mod project;
pub mod queries;
pub mod storage;
pub mod types;
pub mod utils;

pub use crate::bounty::{Bounty, BountyField};
pub use crate::contract::StallionContract;
pub use crate::distribution::{validate_distribution_sum, DistributionTable};
pub use crate::events::{Event, Events};
pub use crate::ledger::{FeePolicy, FeeTiming, Party, Transfer};
pub use crate::project::Project;
pub use crate::queries::{BountyFilter, ProjectFilter};
pub use crate::types::{
    Address, DataKey, Error, MilestoneData, MilestoneInfo, ProjectStatus, ProjectType, Status,
    Submission, Submissions,
};
