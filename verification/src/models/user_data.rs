//! The statistics report of one extraction.

use crate::models::channel::{TopChannel, TopDM};
use crate::models::discord_models::DGuild;
use crate::models::message::WordCount;
use crate::models::user::DUser;
use vstd::prelude::*;

verus! {

/// Number of buckets of the hourly histogram: one per hour of the day.
pub const HOURS: usize = 24;

/// What one extraction found: the profile, the rankings, the guilds, the
/// totals, the messages per hour of the day, and the most frequent words and
/// emotes.
#[derive(Debug, Clone)]
pub struct UserData {
    pub user: Option<DUser>,
    pub top_dms: Vec<TopDM>,
    pub top_channels: Vec<TopChannel>,
    pub guilds: Vec<DGuild>,
    pub dm_channel_count: u32,
    pub channel_count: u32,
    pub message_count: u32,
    pub character_count: u32,
    pub hours_values: Vec<u32>,
    pub favorite_words: Vec<WordCount>,
    pub favorite_emotes: Vec<WordCount>,
}

/// Sum of the first `n` buckets of a histogram.
pub open spec fn bucket_sum(hours: Seq<u32>, n: int) -> int
    decreases n,
{
    if n <= 0 || n > hours.len() {
        0
    } else {
        bucket_sum(hours, n - 1) + hours[n - 1]
    }
}

/// Sum of all buckets of a histogram.
pub open spec fn histogram_total(hours: Seq<u32>) -> int {
    bucket_sum(hours, hours.len() as int)
}

impl UserData {
    /// A report before anything was found: no profile, empty rankings, zero
    /// totals, and a histogram of 24 empty buckets.
    pub open spec fn is_blank(&self) -> bool {
        &&& self.user is None
        &&& self.top_dms@.len() == 0
        &&& self.top_channels@.len() == 0
        &&& self.guilds@.len() == 0
        &&& self.dm_channel_count == 0
        &&& self.channel_count == 0
        &&& self.message_count == 0
        &&& self.character_count == 0
        &&& self.hours_values@ == Seq::new(HOURS as nat, |i: int| 0u32)
        &&& self.favorite_words@.len() == 0
        &&& self.favorite_emotes@.len() == 0
    }
}

impl Default for UserData {
    fn default() -> (r: Self)
        ensures
            r.is_blank(),
    {
        let mut hours: Vec<u32> = Vec::new();
        while hours.len() < HOURS
            invariant
                hours@.len() <= HOURS,
                forall|i: int| 0 <= i < hours@.len() ==> hours@[i] == 0,
            decreases HOURS - hours@.len(),
        {
            hours.push(0);
        }
        assert(hours@ =~= Seq::new(HOURS as nat, |i: int| 0u32));
        UserData {
            user: None,
            top_dms: Vec::new(),
            top_channels: Vec::new(),
            guilds: Vec::new(),
            dm_channel_count: 0,
            channel_count: 0,
            message_count: 0,
            character_count: 0,
            hours_values: hours,
            favorite_words: Vec::new(),
            favorite_emotes: Vec::new(),
        }
    }
}

} // verus!
