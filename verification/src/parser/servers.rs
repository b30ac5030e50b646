//! The guilds of the account.

use crate::models::discord_models::DGuild;
use crate::models::user_data::UserData;
use crate::parser::Parser;
use vstd::prelude::*;

verus! {

/// What is announced before the guild index is read.
pub const SERVERS_ANNOUNCEMENT: &'static str = "Loading guild information...";

/// The path of the guild index under the servers root.
pub open spec fn guild_index_path_of(servers_root: Seq<char>) -> Seq<char> {
    servers_root + "/index.json"@
}

/// Whether `guilds` lists the entries of a guild index, one guild per entry
/// of id and name, in order.
pub open spec fn lists_index(guilds: Seq<DGuild>, index: Seq<(String, String)>) -> bool {
    &&& guilds.len() == index.len()
    &&& forall|i: int|
        0 <= i < index.len() ==> (#[trigger] guilds[i]).id == index[i].0 && guilds[i].name
            == index[i].1
}

/// Whether two reports differ in nothing but the guilds.
pub open spec fn same_but_guilds(before: UserData, after: UserData) -> bool {
    &&& after.user == before.user
    &&& after.top_dms == before.top_dms
    &&& after.top_channels == before.top_channels
    &&& after.dm_channel_count == before.dm_channel_count
    &&& after.channel_count == before.channel_count
    &&& after.message_count == before.message_count
    &&& after.character_count == before.character_count
    &&& after.hours_values == before.hours_values
    &&& after.favorite_words == before.favorite_words
    &&& after.favorite_emotes == before.favorite_emotes
}

impl<'a> Parser<'a> {
    /// The path of the guild index under the servers root.
    pub fn guild_index_path(servers_root: &str) -> (path: String)
        ensures
            path@ == guild_index_path_of(servers_root@),
    {
        let mut path = String::from_str(servers_root);
        path.append("/index.json");
        path
    }

    /// Puts the guilds of the decoded index into the report: one guild per
    /// entry of id and name, in the order of the entries. An index that is
    /// missing or did not decode leaves the report as it was. The number of
    /// guilds is the length of the list.
    pub fn load_servers(&self, extracted_data: &mut UserData, index: Option<Vec<(String, String)>>)
        ensures
            same_but_guilds(*old(extracted_data), *final(extracted_data)),
            match index {
                Some(entries) => lists_index(final(extracted_data).guilds@, entries@),
                None => final(extracted_data).guilds == old(extracted_data).guilds,
            },
    {
        match index {
            Some(entries) => {
                let mut guilds: Vec<DGuild> = Vec::new();
                let ghost all = entries@;
                for entry in it: entries
                    invariant
                        it.seq() == all,
                        lists_index(guilds@, all.take(it.index() as int)),
                {
                    let (id, name) = entry;
                    guilds.push(DGuild { id, name });
                }
                assert(all.take(all.len() as int) =~= all);
                extracted_data.guilds = guilds;
            },
            None => {},
        }
    }
}

} // verus!
