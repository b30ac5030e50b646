//! Notifications to the sink: which phase they name and what they carry.

use crate::models::events::EventCount;
use crate::models::observer::{ExtractObserver, OnError, OnProgress};
use crate::models::user_data::UserData;
use vstd::prelude::*;

verus! {

/// The phases of an extraction that notifications name.
#[derive(Debug, Clone, Copy, PartialEq, Eq, Structural)]
pub enum Step {
    Messages,
    Analytics,
    Scaffolding,
}

/// Hands notifications to one sink. The sink may be of any type that
/// receives notifications; where none is named it is a sink of a type that is
/// known only when the program runs.
pub struct Callback<O: ExtractObserver + ?Sized = dyn ExtractObserver> {
    observer: Box<O>,
}

impl Step {
    /// The phase's name as notifications spell it.
    pub open spec fn label(self) -> Seq<char> {
        match self {
            Step::Scaffolding => "scaffolding"@,
            Step::Messages => "messages"@,
            Step::Analytics => "analytics"@,
        }
    }

    /// The phase's name as notifications spell it.
    pub fn to_string(&self) -> (s: String)
        ensures
            s@ == self.label(),
    {
        match self {
            Step::Scaffolding => String::from_str("scaffolding"),
            Step::Messages => String::from_str("messages"),
            Step::Analytics => String::from_str("analytics"),
        }
    }
}

impl Callback {
    /// The progress notification for a phase and a message.
    pub fn progress_notice(step: Step, message: String) -> (notice: OnProgress)
        ensures
            notice.step@ == step.label(),
            notice.message == message,
    {
        OnProgress { step: step.to_string(), message }
    }

    /// The error notification for a phase, a message and a title.
    pub fn error_notice(step: Step, message: String, title: String) -> (notice: OnError)
        ensures
            notice.step@ == step.label(),
            notice.message == message,
            notice.title == title,
    {
        OnError { step: step.to_string(), message, title }
    }
}

impl<O: ExtractObserver + ?Sized> Callback<O> {
    /// The sink that notifications are handed to.
    pub closed spec fn sink(&self) -> Box<O> {
        self.observer
    }

    /// A callback that notifies `observer`.
    pub fn new(observer: Box<O>) -> (r: Self)
        ensures
            r.sink() == observer,
    {
        Callback { observer }
    }

    /// Reports progress of `step` to the sink.
    pub fn progress(&self, step: Step, message: String) {
        self.observer.on_progress(Callback::progress_notice(step, message));
    }

    /// Reports a failure of `step` to the sink.
    pub fn error(&self, step: Step, message: String, title: String) {
        self.observer.on_error(Callback::error_notice(step, message, title));
    }

    /// Hands an error notification to the sink as it is.
    pub fn report(&self, notice: OnError) {
        self.observer.on_error(notice);
    }

    /// Hands the statistics report to the sink.
    pub fn data_complete(&self, data: UserData) {
        self.observer.on_complete(data);
    }

    /// Hands the event report to the sink.
    pub fn analytics_complete(&self, data: EventCount) {
        self.observer.on_analytics_complete(data);
    }
}

} // verus!
