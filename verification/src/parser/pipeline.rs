//! The order of an extraction: resolving the layout, and what the sink is
//! told at the end of each phase.

use crate::error::ExtractError;
use crate::models::events::EventCount;
use crate::models::observer::OnError;
use crate::models::user_data::UserData;
use crate::parser::callback::{Callback, Step};
use crate::parser::utils::{root_outcome, MESSAGES_PATTERN, SERVERS_PATTERN, USER_PATTERN};
use crate::parser::Parser;
use crate::text::texts;
use vstd::prelude::*;

verus! {

/// What is announced when an extraction starts.
pub const STRUCTURE_ANNOUNCEMENT: &'static str = "Analyzing package structure...";

/// What is announced when the report is complete.
pub const FINAL_ANNOUNCEMENT: &'static str = "Finalizing extraction...";

/// What is announced when the event-log stage starts.
pub const ANALYTICS_ANNOUNCEMENT: &'static str = "Processing analytics...";

/// The title of the error notification of the statistics phase.
pub const DATA_ERROR_TITLE: &'static str = "Data extraction error";

/// The title of the error notification of the event-log phase.
pub const ANALYTICS_ERROR_TITLE: &'static str = "Analytics processing error";

/// The phases of the statistics stage, in their order.
#[derive(Debug, Clone, Copy, PartialEq, Eq, Structural)]
pub enum Phase {
    /// Indexing the archive and resolving its layout.
    Structure,
    /// Reading the profile.
    Profile,
    /// Discovering and aggregating the channels.
    Channels,
    /// Reading the guild index.
    Servers,
    /// Handing over the report.
    Finished,
}

/// The three roots of an archive.
pub struct Layout {
    pub messages_root: String,
    pub servers_root: String,
    pub user_root: String,
}

/// What the sink is told when the phases of an extraction have ended.
pub enum Notice {
    /// The statistics report.
    DataComplete(UserData),
    /// The event report.
    AnalyticsComplete(EventCount),
    /// A phase ended without a result.
    Failed(OnError),
}

impl Notice {
    /// Whether the notice ends the extraction: a failure does, so that the
    /// phases after it are not attempted.
    pub fn ends_extraction(&self) -> (b: bool)
        ensures
            b == (self is Failed),
    {
        match self {
            Notice::Failed(_) => true,
            _ => false,
        }
    }
}

/// How the two phases of an extraction ended. The event-log phase is not
/// attempted when the statistics phase gave no report.
pub enum Outcome {
    DataFailed(ExtractError),
    AnalyticsFailed(UserData, ExtractError),
    Completed(UserData, EventCount),
}

/// Whether `notice` tells of the failure `error` of the phase `step` under
/// `title`.
pub open spec fn tells_failure(
    notice: Notice,
    step: Step,
    error: ExtractError,
    title: Seq<char>,
) -> bool {
    notice matches Notice::Failed(report) && report.step@ == step.label() && report.message@
        == error.text() && report.title@ == title
}

/// Whether `notices` are what the sink is told for `outcome`: a report for
/// each phase that gave one, in the order of the phases, and one failure for
/// the phase that gave none, after which nothing follows.
pub open spec fn reports_outcome(notices: Seq<Notice>, outcome: Outcome) -> bool {
    match outcome {
        Outcome::DataFailed(error) => notices.len() == 1 && tells_failure(
            notices[0],
            Step::Messages,
            error,
            DATA_ERROR_TITLE@,
        ),
        Outcome::AnalyticsFailed(data, error) => notices.len() == 2 && notices[0]
            == Notice::DataComplete(data) && tells_failure(
            notices[1],
            Step::Analytics,
            error,
            ANALYTICS_ERROR_TITLE@,
        ),
        Outcome::Completed(data, events) => notices.len() == 2 && notices[0]
            == Notice::DataComplete(data) && notices[1] == Notice::AnalyticsComplete(events),
    }
}

/// How many of the first `n` of `notices` hand a report to the sink.
pub open spec fn completions(notices: Seq<Notice>, n: int) -> int
    decreases n,
{
    if n <= 0 || n > notices.len() {
        0
    } else {
        completions(notices, n - 1) + if notices[n - 1] is Failed {
            0int
        } else {
            1int
        }
    }
}

impl Phase {
    /// The phase that follows this one, if any follows.
    pub open spec fn following(self) -> Option<Phase> {
        match self {
            Phase::Structure => Some(Phase::Profile),
            Phase::Profile => Some(Phase::Channels),
            Phase::Channels => Some(Phase::Servers),
            Phase::Servers => Some(Phase::Finished),
            Phase::Finished => None,
        }
    }

    /// What is announced when the phase starts. The channels phase announces
    /// itself once it knows how many channels there are.
    pub open spec fn announced(self) -> Option<Seq<char>> {
        match self {
            Phase::Structure => Some(STRUCTURE_ANNOUNCEMENT@),
            Phase::Profile => Some(crate::parser::user::USER_ANNOUNCEMENT@),
            Phase::Channels => None,
            Phase::Servers => Some(crate::parser::servers::SERVERS_ANNOUNCEMENT@),
            Phase::Finished => Some(FINAL_ANNOUNCEMENT@),
        }
    }

    /// The phase an extraction starts with.
    pub fn first() -> (phase: Phase)
        ensures
            phase == Phase::Structure,
    {
        Phase::Structure
    }

    /// The phase that follows this one, if any follows.
    pub fn next(&self) -> (r: Option<Phase>)
        ensures
            r == self.following(),
    {
        match self {
            Phase::Structure => Some(Phase::Profile),
            Phase::Profile => Some(Phase::Channels),
            Phase::Channels => Some(Phase::Servers),
            Phase::Servers => Some(Phase::Finished),
            Phase::Finished => None,
        }
    }

    /// What is announced when the phase starts.
    pub fn announcement(&self) -> (r: Option<&'static str>)
        ensures
            match r {
                Some(text) => self.announced() == Some(text@),
                None => self.announced() is None,
            },
    {
        match self {
            Phase::Structure => Some(STRUCTURE_ANNOUNCEMENT),
            Phase::Profile => Some(crate::parser::user::USER_ANNOUNCEMENT),
            Phase::Channels => None,
            Phase::Servers => Some(crate::parser::servers::SERVERS_ANNOUNCEMENT),
            Phase::Finished => Some(FINAL_ANNOUNCEMENT),
        }
    }
}

/// What resolving the layout of the members `names` gives: the three roots,
/// looked for in the order messages, servers, profile, or the error of the
/// first search that fails, be it for a pattern that is not accepted or for
/// a layout that is missing.
pub open spec fn layout_outcome(names: Seq<Seq<char>>) -> Result<
    (Seq<char>, Seq<char>, Seq<char>),
    ExtractError,
> {
    match root_outcome(names, MESSAGES_PATTERN@, 2, crate::error::Area::Messages) {
        Err(e) => Err(e),
        Ok(messages_root) => match root_outcome(
            names,
            SERVERS_PATTERN@,
            2,
            crate::error::Area::Servers,
        ) {
            Err(e) => Err(e),
            Ok(servers_root) => match root_outcome(
                names,
                USER_PATTERN@,
                1,
                crate::error::Area::User,
            ) {
                Err(e) => Err(e),
                Ok(user_root) => Ok((messages_root, servers_root, user_root)),
            },
        },
    }
}

impl<'a> Parser<'a> {
    /// The three roots of the archive whose members are `files`, looked for
    /// in the order messages, servers, profile. The first root that is not
    /// found ends the search with the error that names it.
    pub fn resolve_layout(files: &Vec<String>) -> (r: Result<Layout, ExtractError>)
        ensures
            match r {
                Ok(layout) => layout_outcome(texts(files@)) == Ok::<
                    (Seq<char>, Seq<char>, Seq<char>),
                    ExtractError,
                >((layout.messages_root@, layout.servers_root@, layout.user_root@)),
                Err(e) => layout_outcome(texts(files@)) == Err::<
                    (Seq<char>, Seq<char>, Seq<char>),
                    ExtractError,
                >(e),
            },
    {
        let messages_root = match Parser::get_messages_root(files) {
            Ok(root) => root,
            Err(e) => {
                return Err(e);
            },
        };
        let servers_root = match Parser::get_servers_root(files) {
            Ok(root) => root,
            Err(e) => {
                return Err(e);
            },
        };
        let user_root = match Parser::get_user_root(files) {
            Ok(root) => root,
            Err(e) => {
                return Err(e);
            },
        };
        Ok(Layout { messages_root, servers_root, user_root })
    }

    /// The notification of a failed phase.
    pub fn failure_notice(step: Step, error: &ExtractError, title: &str) -> (notice: Notice)
        ensures
            tells_failure(notice, step, *error, title@),
    {
        Notice::Failed(Callback::error_notice(step, error.message(), String::from_str(title)))
    }

    /// What the sink is told when the statistics phase has ended: the
    /// report, or the failure of the phase.
    pub fn data_notice(result: Result<UserData, ExtractError>) -> (notice: Notice)
        ensures
            match result {
                Ok(data) => notice == Notice::DataComplete(data),
                Err(error) => tells_failure(notice, Step::Messages, error, DATA_ERROR_TITLE@),
            },
    {
        match result {
            Ok(data) => Notice::DataComplete(data),
            Err(error) => Parser::failure_notice(Step::Messages, &error, DATA_ERROR_TITLE),
        }
    }

    /// What the sink is told when the event-log phase has ended: the report,
    /// or the failure of the phase.
    pub fn analytics_notice(result: Result<EventCount, ExtractError>) -> (notice: Notice)
        ensures
            match result {
                Ok(events) => notice == Notice::AnalyticsComplete(events),
                Err(error) => tells_failure(
                    notice,
                    Step::Analytics,
                    error,
                    ANALYTICS_ERROR_TITLE@,
                ),
            },
    {
        match result {
            Ok(events) => Notice::AnalyticsComplete(events),
            Err(error) => Parser::failure_notice(Step::Analytics, &error, ANALYTICS_ERROR_TITLE),
        }
    }

    /// What the sink is told for the outcome of an extraction, phase by
    /// phase. A phase that ended without a result, be it by failure or by
    /// cancellation, is told as a failure and hands no report to the sink.
    pub fn notices_for(outcome: Outcome) -> (notices: Vec<Notice>)
        ensures
            reports_outcome(notices@, outcome),
            completions(notices@, notices@.len() as int) == match outcome {
                Outcome::DataFailed(_) => 0int,
                Outcome::AnalyticsFailed(_, _) => 1int,
                Outcome::Completed(_, _) => 2int,
            },
    {
        let mut notices: Vec<Notice> = Vec::new();
        match outcome {
            Outcome::DataFailed(error) => {
                notices.push(Parser::data_notice(Err(error)));
                assert(completions(notices@, 0) == 0);
            },
            Outcome::AnalyticsFailed(data, error) => {
                notices.push(Parser::data_notice(Ok(data)));
                notices.push(Parser::analytics_notice(Err(error)));
                assert(completions(notices@, 0) == 0);
                assert(completions(notices@, 1) == 1);
            },
            Outcome::Completed(data, events) => {
                notices.push(Parser::data_notice(Ok(data)));
                notices.push(Parser::analytics_notice(Ok(events)));
                assert(completions(notices@, 0) == 0);
                assert(completions(notices@, 1) == 1);
            },
        }
        notices
    }

    /// Hands one notice to the sink.
    pub fn tell(callback: &Callback, notice: Notice) {
        match notice {
            Notice::DataComplete(data) => callback.data_complete(data),
            Notice::AnalyticsComplete(events) => callback.analytics_complete(events),
            Notice::Failed(report) => callback.report(report),
        }
    }

    /// Hands notices to the sink, in order.
    pub fn deliver(callback: &Callback, notices: Vec<Notice>) {
        for notice in it: notices {
            Parser::tell(callback, notice);
        }
    }
}

/// An extraction that was cancelled in its first phase tells the sink of
/// one failure, whose message says so, and hands it no report.
pub proof fn lemma_cancelled_hands_nothing(notices: Seq<Notice>)
    requires
        reports_outcome(notices, Outcome::DataFailed(ExtractError::Cancelled)),
    ensures
        completions(notices, notices.len() as int) == 0,
        notices.len() == 1,
        notices[0] matches Notice::Failed(report) && report.message@
            == ExtractError::Cancelled.text(),
{
    assert(completions(notices, 0) == 0);
}

} // verus!
