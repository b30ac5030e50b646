//! A payment of the profile.

use vstd::prelude::*;

verus! {

/// A payment. `amount` is in minor units of `currency`; `created_at` is a
/// timestamp whose text order is the order in time.
#[derive(Debug, Clone)]
pub struct Payment {
    pub status: i32,
    pub currency: String,
    pub amount: i64,
    pub created_at: String,
    pub description: String,
}

} // verus!
