//! The account profile.

use vstd::prelude::*;

verus! {

/// The profile of the account the archive belongs to.
#[derive(Debug, Clone)]
pub struct DUser {
    pub id: String,
    pub username: String,
    pub global_name: Option<String>,
    pub discriminator: u16,
    pub avatar_hash: Option<String>,
    pub payments: Vec<DPayment>,
    pub relationships: Vec<DRelationship>,
}

#[derive(Debug, Clone)]
pub struct DRelationship {
    pub user: DRelationshipUser,
}

#[derive(Debug, Clone)]
pub struct DRelationshipUser {
    pub id: String,
    pub username: String,
    pub global_name: Option<String>,
    pub discriminator: String,
    pub avatar: Option<String>,
}

/// A payment as the profile lists it. `amount` is in minor units.
#[derive(Debug, Clone)]
pub struct DPayment {
    pub status: i32,
    pub currency: String,
    pub amount: i64,
    pub created_at: String,
    pub description: String,
}

} // verus!
