//! The profile of the account.

use crate::models::user::DUser;
use crate::models::user_data::UserData;
use crate::parser::Parser;
use vstd::prelude::*;

verus! {

/// What is announced before the profile is read.
pub const USER_ANNOUNCEMENT: &'static str = "Loading user information...";

/// The path of the profile under the profile root.
pub open spec fn user_path_of(user_root: Seq<char>) -> Seq<char> {
    user_root + "/user.json"@
}

/// Whether two reports differ in nothing but the profile.
pub open spec fn same_but_user(before: UserData, after: UserData) -> bool {
    &&& after.top_dms == before.top_dms
    &&& after.top_channels == before.top_channels
    &&& after.guilds == before.guilds
    &&& after.dm_channel_count == before.dm_channel_count
    &&& after.channel_count == before.channel_count
    &&& after.message_count == before.message_count
    &&& after.character_count == before.character_count
    &&& after.hours_values == before.hours_values
    &&& after.favorite_words == before.favorite_words
    &&& after.favorite_emotes == before.favorite_emotes
}

impl<'a> Parser<'a> {
    /// The path of the profile under the profile root.
    pub fn user_path(user_root: &str) -> (path: String)
        ensures
            path@ == user_path_of(user_root@),
    {
        let mut path = String::from_str(user_root);
        path.append("/user.json");
        path
    }

    /// Puts the decoded profile into the report. A profile that is missing
    /// or did not decode leaves the report as it was.
    pub fn load_user(&self, extracted_data: &mut UserData, decoded: Option<DUser>)
        ensures
            same_but_user(*old(extracted_data), *final(extracted_data)),
            final(extracted_data).user == match decoded {
                Some(user) => Some(user),
                None => old(extracted_data).user,
            },
    {
        match decoded {
            Some(user) => {
                extracted_data.user = Some(user);
            },
            None => {},
        }
    }
}

} // verus!
