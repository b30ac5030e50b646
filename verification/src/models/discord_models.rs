//! Records as the archive stores them, before any aggregation.

use vstd::prelude::*;

verus! {

/// Metadata of one channel.
#[derive(Debug, Clone)]
pub struct DChannel {
    pub id: String,
    pub name: Option<String>,
    /// Supplementary type tag; the recipient count decides what is a direct
    /// conversation, not this.
    pub type_tag: Option<String>,
    pub recipients: Option<Vec<String>>,
    pub guild: Option<DGuild>,
}

/// A guild: its id and name.
#[derive(Debug, Clone)]
pub struct DGuild {
    pub id: String,
    pub name: String,
}

/// One stored message: the columns `ID`, `Timestamp`, `Contents` and
/// `Attachments`.
#[derive(Debug, Clone)]
pub struct DMessage {
    pub id: u64,
    pub timestamp: String,
    pub contents: String,
    pub attachments: String,
}

/// The details an `application_command_used` event carries.
#[derive(Debug, Clone)]
pub struct DApplicationCommandUsed {
    pub application_id: String,
    pub command_id: String,
    pub command_name: Option<String>,
    pub command_description: Option<String>,
}

impl DChannel {
    /// A channel is a direct conversation exactly when it lists two
    /// recipients.
    pub open spec fn is_dm(&self) -> bool {
        self.recipients matches Some(r) && r@.len() == 2
    }
}

} // verus!
