//! Sessions: one scheduled game each, as rows hold them and as they are shown.

use crate::campaign::{does_campaign_exist, has_id, CampaignRegistry};
use crate::error::SchedulerError;
use crate::stamp::{stamp_of_text, MinuteStamp};
use crate::status::{status_label, status_of_code, SessionStatus};
use vstd::prelude::*;

verus! {

/// One scheduled game of a campaign.
#[derive(Debug, PartialEq, Eq)]
pub struct Session {
    pub id: i64,
    pub campaign_id: i64,
    pub author_id: String,
    pub status: SessionStatus,
    pub created_at: MinuteStamp,
    pub scheduled_at: MinuteStamp,
}

/// What a session holds, with its text as a sequence of characters.
pub struct SessionView {
    pub id: i64,
    pub campaign_id: i64,
    pub author_id: Seq<char>,
    pub status: SessionStatus,
    pub created_at: MinuteStamp,
    pub scheduled_at: MinuteStamp,
}

impl View for Session {
    type V = SessionView;

    open spec fn view(&self) -> SessionView {
        SessionView {
            id: self.id,
            campaign_id: self.campaign_id,
            author_id: self.author_id@,
            status: self.status,
            created_at: self.created_at,
            scheduled_at: self.scheduled_at,
        }
    }
}

impl SessionView {
    /// Both stamps name minutes of the calendar.
    pub open spec fn wf(self) -> bool {
        self.created_at.wf() && self.scheduled_at.wf()
    }
}

impl Clone for Session {
    fn clone(&self) -> (copy: Session)
        ensures
            copy == *self,
    {
        Session {
            id: self.id,
            campaign_id: self.campaign_id,
            author_id: self.author_id.clone(),
            status: self.status,
            created_at: self.created_at,
            scheduled_at: self.scheduled_at,
        }
    }
}

impl Session {
    /// Both stamps name minutes of the calendar.
    pub open spec fn wf(&self) -> bool {
        self@.wf()
    }

    /// The session of a stored row: the status is decoded from its number
    /// and the two dates are read from their texts. The campaign of the row
    /// must be registered.
    pub fn new(
        registry: &CampaignRegistry,
        id: i64,
        campaign_id: i64,
        author_id: String,
        status: i64,
        created_date: &str,
        scheduled_date: &str,
    ) -> (r: Result<Session, SchedulerError>)
        ensures
            !has_id(registry@, campaign_id) ==> r == Err::<Session, _>(
                SchedulerError::CampaignNotFound,
            ),
            has_id(registry@, campaign_id) && (stamp_of_text(created_date@) is None
                || stamp_of_text(scheduled_date@) is None) ==> r == Err::<Session, _>(
                SchedulerError::InvalidDateFormat,
            ),
            has_id(registry@, campaign_id) && stamp_of_text(created_date@) is Some
                && stamp_of_text(scheduled_date@) is Some ==> r is Ok,
            r matches Ok(s) ==> s.wf() && s@ == (SessionView {
                id,
                campaign_id,
                author_id: author_id@,
                status: status_of_code(status as int),
                created_at: stamp_of_text(created_date@)->Some_0,
                scheduled_at: stamp_of_text(scheduled_date@)->Some_0,
            }),
    {
        if !does_campaign_exist(registry, campaign_id) {
            return Err(SchedulerError::CampaignNotFound);
        }
        let created_at = match MinuteStamp::parse(created_date) {
            Some(t) => t,
            None => { return Err(SchedulerError::InvalidDateFormat); },
        };
        let scheduled_at = match MinuteStamp::parse(scheduled_date) {
            Some(t) => t,
            None => { return Err(SchedulerError::InvalidDateFormat); },
        };
        Ok(
            Session {
                id,
                campaign_id,
                author_id,
                status: SessionStatus::from_code(status),
                created_at,
                scheduled_at,
            },
        )
    }

    /// Whether both stamps name minutes of the calendar.
    pub fn is_valid(&self) -> (valid: bool)
        ensures
            valid == self.wf(),
    {
        self.created_at.is_valid() && self.scheduled_at.is_valid()
    }

    /// The word shown for the session's status.
    pub fn status_translation(&self) -> (text: String)
        ensures
            text@ == status_label(self.status),
    {
        self.status.label()
    }
}

} // verus!
