//! Entries of the two channel rankings.

use crate::ranking::Counted;
use vstd::prelude::*;

verus! {

/// A guild channel with the number of messages found in it.
#[derive(Debug, Clone)]
pub struct TopChannel {
    pub id: String,
    pub name: Option<String>,
    pub message_count: u32,
    pub guild_name: Option<String>,
    pub guild_id: Option<String>,
}

/// A direct conversation with the number of messages found in it.
#[derive(Debug, Clone)]
pub struct TopDM {
    pub id: String,
    pub dm_user_id: String,
    pub message_count: u32,
}

impl Counted for TopChannel {
    open spec fn tally(&self) -> u32 {
        self.message_count
    }

    fn count(&self) -> (c: u32) {
        self.message_count
    }
}

impl Counted for TopDM {
    open spec fn tally(&self) -> u32 {
        self.message_count
    }

    fn count(&self) -> (c: u32) {
        self.message_count
    }
}

} // verus!
