//! The failures that scheduling reports.

use vstd::prelude::*;
use vstd::string::StringExecFns;

verus! {

/// Why a scheduling request was refused. None of these ends the service:
/// each is an answer to one request.
#[derive(Clone, Copy, Debug, PartialEq, Eq, Structural)]
pub enum SchedulerError {
    /// The date does not read `YYYY-MM-DD HH:MM`, names no minute of the
    /// calendar, or names a local time that the time zone skips or repeats.
    InvalidDateFormat,
    /// The date is not strictly after now.
    PastDate,
    /// No campaign has the name or id that was given.
    CampaignNotFound,
    /// No session has the id that was given.
    SessionNotFound,
    /// The session is in a status that the request cannot leave.
    InvalidState,
    /// The store cannot take the row: its id is in use or out of range, or
    /// no id is left for a new row.
    Persistence,
    /// The wall clock shows no minute of the years 0 to 9999, which are all
    /// that the pattern `YYYY-MM-DD HH:MM` can write.
    ClockOutOfRange,
}

/// What a user is told about a failure.
pub open spec fn error_message(error: SchedulerError) -> Seq<char> {
    match error {
        SchedulerError::InvalidDateFormat => "Invalid date format."@,
        SchedulerError::PastDate => "Scheduled date must be in the future."@,
        SchedulerError::CampaignNotFound => "Campaign not found."@,
        SchedulerError::SessionNotFound => "Session not found."@,
        SchedulerError::InvalidState => "The session is cancelled already."@,
        SchedulerError::Persistence => "The session could not be stored."@,
        SchedulerError::ClockOutOfRange => "The clock of the server cannot be used."@,
    }
}

impl SchedulerError {
    /// The sentence to tell the user.
    pub fn message(&self) -> (text: String)
        ensures
            text@ == error_message(*self),
    {
        match self {
            SchedulerError::InvalidDateFormat => String::from_str("Invalid date format."),
            SchedulerError::PastDate => String::from_str("Scheduled date must be in the future."),
            SchedulerError::CampaignNotFound => String::from_str("Campaign not found."),
            SchedulerError::SessionNotFound => String::from_str("Session not found."),
            SchedulerError::InvalidState => String::from_str("The session is cancelled already."),
            SchedulerError::Persistence => String::from_str("The session could not be stored."),
            SchedulerError::ClockOutOfRange => String::from_str(
                "The clock of the server cannot be used.",
            ),
        }
    }
}

} // verus!
