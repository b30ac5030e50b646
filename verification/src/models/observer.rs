//! The notification sink and what is handed to it.

use crate::models::events::EventCount;
use crate::models::user_data::UserData;
use vstd::prelude::*;

verus! {

/// Receives progress, errors and the two results of an extraction. Nothing
/// is assumed of an implementation: a sink may do anything with what it is
/// handed.
pub trait ExtractObserver: Send + Sync {
    fn on_progress(&self, progress: OnProgress);

    fn on_error(&self, error: OnError);

    fn on_complete(&self, result: UserData);

    fn on_analytics_complete(&self, result: EventCount);
}

/// A progress notification: the phase and a message for the reader.
#[derive(Debug)]
pub struct OnProgress {
    pub step: String,
    pub message: String,
}

/// An error notification: the phase that failed, a message and a title.
#[derive(Debug)]
pub struct OnError {
    pub step: String,
    pub message: String,
    pub title: String,
}

} // verus!
