//! The extraction pipeline: layout resolution, record decoding and the
//! aggregators, with cooperative cancellation.

pub mod analytics;
pub mod callback;
pub mod channels;
pub mod discovery;
pub mod layout;
pub mod messages;
pub mod pipeline;
pub mod servers;
pub mod stats;
pub mod user;
pub mod utils;

use crate::archive::ArchiveIndex;
use crate::error::ExtractError;
use std::sync::atomic::AtomicBool;
use std::sync::atomic::Ordering;
use std::sync::Arc;
use vstd::prelude::*;

pub use crate::parser::callback::{Callback, Step};

verus! {

/// One extraction: the index of the archive's members and the flag through
/// which cancellation is requested from outside.
pub struct Parser<'a> {
    pub file_index: ArchiveIndex,
    pub cancellation_token: &'a Arc<AtomicBool>,
}

impl<'a> Parser<'a> {
    /// An extraction that has not indexed any archive yet.
    pub fn new(cancellation_token: &'a Arc<AtomicBool>) -> (r: Self)
        ensures
            r.file_index.wf(),
            r.file_index.members().len() == 0,
            r.cancellation_token == cancellation_token,
    {
        Parser { file_index: ArchiveIndex::new(), cancellation_token }
    }

    /// What a checkpoint makes of the flag: an error exactly when
    /// cancellation was requested.
    pub fn cancellation_outcome(requested: bool) -> (r: Result<(), ExtractError>)
        ensures
            requested ==> r == Err::<(), ExtractError>(ExtractError::Cancelled),
            !requested ==> r is Ok,
    {
        if requested {
            Err(ExtractError::Cancelled)
        } else {
            Ok(())
        }
    }

    /// A checkpoint: reads the flag once. The flag is set from outside, so
    /// either outcome is possible at any call; the only error is
    /// cancellation.
    pub fn check_cancellation_token(&self) -> (r: Result<(), ExtractError>)
        ensures
            r is Err ==> r == Err::<(), ExtractError>(ExtractError::Cancelled),
    {
        Parser::cancellation_outcome(self.cancellation_token.load(Ordering::Relaxed))
    }

    /// Indexes the archive's members, given their names in archive order.
    pub fn index_members(&mut self, names: Vec<String>)
        ensures
            final(self).file_index.wf(),
            final(self).file_index.members() == crate::text::texts(names@),
            final(self).cancellation_token == old(self).cancellation_token,
    {
        self.file_index = ArchiveIndex::build(names);
    }
}

} // verus!
