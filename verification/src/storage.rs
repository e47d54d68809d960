//! Keys of the persistent store: one entry for each piece of configuration
//! and one for each record, by its identifier.

use vstd::prelude::*;
use crate::types::DataKey;

verus! {

/// Key of the next bounty identifier to issue.
pub fn next_id_key() -> (k: DataKey)
    ensures
        k == DataKey::NextId,
{
    DataKey::NextId
}

/// Key of the bounty with the given identifier.
pub fn bounty_key(id: u32) -> (k: (DataKey, u32))
    ensures
        k == (DataKey::Bounty, id),
{
    (DataKey::Bounty, id)
}

/// Key of the administrator account.
pub fn admin_key() -> (k: DataKey)
    ensures
        k == DataKey::Admin,
{
    DataKey::Admin
}

/// Key of the account that collects fees.
pub fn fee_account_key() -> (k: DataKey)
    ensures
        k == DataKey::FeeAccount,
{
    DataKey::FeeAccount
}

/// Key of the next project identifier to issue.
pub fn next_project_id_key() -> (k: DataKey)
    ensures
        k == DataKey::NextProjectId,
{
    DataKey::NextProjectId
}

/// Key of the project with the given identifier.
pub fn project_key(id: u32) -> (k: (DataKey, u32))
    ensures
        k == (DataKey::Project, id),
{
    (DataKey::Project, id)
}

/// The identifier of the first bounty and of the first project.
pub const FIRST_ID: u32 = 1;

/// The identifier that is issued after `id`, or `None` once the identifiers
/// are used up. Identifiers grow by one and are never issued twice.
pub fn following_id(id: u32) -> (r: Option<u32>)
    ensures
        match r {
            Some(next) => next == id + 1,
            None => id == u32::MAX,
        },
{
    id.checked_add(1)
}

} // verus!
