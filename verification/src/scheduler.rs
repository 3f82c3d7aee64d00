//! Scheduling: creating, cancelling, clearing and listing sessions.

use crate::campaign::{
    campaign_named, get_id_from_name, has_name, id_of_name, CampaignRegistry, CampaignView,
};
use crate::clock::{local_instant, ClockReading, LocalInstant};
use crate::error::SchedulerError;
use crate::listing::{is_listing, is_listing_at_some_time, listing_of, upcoming};
use crate::page::{pages_of, render_pages};
use crate::pagination::{opened, ControllerView, PaginationController};
use crate::session::{Session, SessionView};
use crate::stamp::{lemma_stamp_writes_its_text, stamp_of_text, stamp_text, MinuteStamp};
use crate::status::SessionStatus;
use crate::store::{has_session, rows_with_status, session_views, session_with_id, SessionStore};
use vstd::prelude::*;

verus! {

/// The campaign that a listing is narrowed to: the id that the name
/// resolves to, or none where no name is given.
pub open spec fn listing_filter(cs: Seq<CampaignView>, campaign: Option<Seq<char>>) -> Option<
    i64,
> {
    match campaign {
        Some(name) => id_of_name(cs, name),
        None => None,
    }
}

/// The name of a listing's campaign as a sequence of characters.
pub open spec fn name_view(campaign: Option<&str>) -> Option<Seq<char>> {
    match campaign {
        Some(name) => Some(name@),
        None => None,
    }
}

/// Whether a listing can be made: the campaign, if one is named, is known.
pub open spec fn listing_allowed(cs: Seq<CampaignView>, campaign: Option<Seq<char>>) -> bool {
    campaign matches Some(name) ==> has_name(cs, name)
}

/// Resolves the campaign that a listing is narrowed to.
fn resolve_filter(registry: &CampaignRegistry, campaign: Option<&str>) -> (r: Result<
    Option<i64>,
    SchedulerError,
>)
    requires
        registry.wf(),
    ensures
        r is Ok <==> listing_allowed(registry@, name_view(campaign)),
        r matches Ok(filter) ==> filter == listing_filter(registry@, name_view(campaign)),
        r matches Err(e) ==> e == SchedulerError::CampaignNotFound,
{
    match campaign {
        Some(name) => match get_id_from_name(registry, name) {
            Ok(id) => Ok(Some(id)),
            Err(_) => Err(SchedulerError::CampaignNotFound),
        },
        None => Ok(None),
    }
}

/// The listing at the time `now`: the sessions scheduled after the local
/// minute of `now`, of the campaign called `campaign` if a name is given,
/// by ascending date. A name that no campaign has gives `CampaignNotFound`.
pub fn list_at(
    registry: &CampaignRegistry,
    store: &SessionStore,
    campaign: Option<&str>,
    now: &ClockReading,
) -> (r: Result<Vec<Session>, SchedulerError>)
    requires
        registry.wf(),
        store.wf(),
    ensures
        r is Ok <==> listing_allowed(registry@, name_view(campaign)),
        r matches Ok(list) ==> is_listing(
            session_views(list@),
            store@,
            listing_filter(registry@, name_view(campaign)),
            now.local,
        ) && session_views(list@) == listing_of(
            store@,
            listing_filter(registry@, name_view(campaign)),
            now.local,
        ) && forall|i: int| 0 <= i < list@.len() ==> (#[trigger] list@[i]).wf(),
        r matches Err(e) ==> e == SchedulerError::CampaignNotFound,
{
    match resolve_filter(registry, campaign) {
        Ok(filter) => Ok(upcoming(store, filter, &now.local)),
        Err(e) => Err(e),
    }
}

/// The seconds since the Unix epoch that a viewer counts from: the instant
/// of the reading, and zero for an instant before the epoch.
pub open spec fn viewer_seconds(now: ClockReading) -> int {
    if now.epoch_seconds < 0 {
        0
    } else {
        now.epoch_seconds as int
    }
}

/// Lists at the time `now` and opens a viewer on the pages of the listing,
/// for the user `owner_id` and the events that carry `correlation_id`. A
/// listing without sessions is shown as the placeholder page. A name that
/// no campaign has gives `CampaignNotFound`.
pub fn browse_at(
    registry: &CampaignRegistry,
    store: &SessionStore,
    campaign: Option<&str>,
    owner_id: &str,
    correlation_id: &str,
    now: &ClockReading,
) -> (r: Result<PaginationController, SchedulerError>)
    requires
        registry.wf(),
        store.wf(),
    ensures
        r is Ok <==> listing_allowed(registry@, name_view(campaign)),
        r matches Ok(viewer) ==> viewer.wf() && viewer@ == opened(
            owner_id@,
            correlation_id@,
            pages_of(
                listing_of(store@, listing_filter(registry@, name_view(campaign)), now.local),
            ),
            viewer_seconds(*now),
        ),
        r matches Err(e) ==> e == SchedulerError::CampaignNotFound,
{
    match list_at(registry, store, campaign, now) {
        Ok(list) => {
            let pages = render_pages(&list);
            let opened_at: u64 = if now.epoch_seconds < 0 {
                0
            } else {
                now.epoch_seconds as u64
            };
            Ok(
                PaginationController::new(
                    owner_id.to_owned(),
                    correlation_id.to_owned(),
                    pages,
                    opened_at,
                ),
            )
        },
        Err(e) => Err(e),
    }
}

/// The listing at the time that the wall clock shows. A name that no
/// campaign has gives `CampaignNotFound`, whatever the clock shows; a clock
/// beyond the years 0 to 9999 gives `ClockOutOfRange`.
pub fn list(registry: &CampaignRegistry, store: &SessionStore, campaign: Option<&str>) -> (r:
    Result<Vec<Session>, SchedulerError>)
    requires
        registry.wf(),
        store.wf(),
    ensures
        !listing_allowed(registry@, name_view(campaign)) ==> r == Err::<Vec<Session>, _>(
            SchedulerError::CampaignNotFound,
        ),
        listing_allowed(registry@, name_view(campaign)) ==> match r {
            Ok(list) => is_listing_at_some_time(
                session_views(list@),
                store@,
                listing_filter(registry@, name_view(campaign)),
            ),
            Err(e) => e == SchedulerError::ClockOutOfRange,
        },
        r matches Ok(list) ==> forall|i: int| 0 <= i < list@.len() ==> (#[trigger] list@[i]).wf(),
{
    match resolve_filter(registry, campaign) {
        Ok(filter) => match ClockReading::now() {
            Ok(now) => {
                let list = upcoming(store, filter, &now.local);
                assert(now.local.wf() && is_listing(
                    session_views(list@),
                    store@,
                    listing_filter(registry@, name_view(campaign)),
                    now.local,
                ));
                Ok(list)
            },
            Err(e) => Err(e),
        },
        Err(e) => Err(e),
    }
}

/// The viewer was opened on the listing at some reading of the clock.
pub open spec fn browsed_at_some_time(
    viewer: ControllerView,
    rows: Seq<SessionView>,
    campaign: Option<i64>,
    owner_id: Seq<char>,
    correlation_id: Seq<char>,
) -> bool {
    exists|now: ClockReading|
        now.wf() && viewer == #[trigger] opened(
            owner_id,
            correlation_id,
            pages_of(listing_of(rows, campaign, now.local)),
            viewer_seconds(now),
        )
}

/// Lists at the time that the wall clock shows and opens a viewer on the
/// pages of the listing: see [`browse_at`]. A name that no campaign has
/// gives `CampaignNotFound`, whatever the clock shows; a clock beyond the
/// years 0 to 9999 gives `ClockOutOfRange`.
pub fn browse(
    registry: &CampaignRegistry,
    store: &SessionStore,
    campaign: Option<&str>,
    owner_id: &str,
    correlation_id: &str,
) -> (r: Result<PaginationController, SchedulerError>)
    requires
        registry.wf(),
        store.wf(),
    ensures
        !listing_allowed(registry@, name_view(campaign)) ==> (r matches Err(e) && e
            == SchedulerError::CampaignNotFound),
        listing_allowed(registry@, name_view(campaign)) ==> match r {
            Ok(viewer) => viewer.wf() && browsed_at_some_time(
                viewer@,
                store@,
                listing_filter(registry@, name_view(campaign)),
                owner_id@,
                correlation_id@,
            ),
            Err(e) => e == SchedulerError::ClockOutOfRange,
        },
{
    match resolve_filter(registry, campaign) {
        Ok(_) => match ClockReading::now() {
            Ok(now) => {
                let r = browse_at(registry, store, campaign, owner_id, correlation_id, &now);
                assert(r matches Ok(viewer) && now.wf() && viewer@ == opened(
                    owner_id@,
                    correlation_id@,
                    pages_of(
                        listing_of(
                            store@,
                            listing_filter(registry@, name_view(campaign)),
                            now.local,
                        ),
                    ),
                    viewer_seconds(now),
                ));
                r
            },
            Err(e) => Err(e),
        },
        Err(e) => Err(e),
    }
}

/// The date lies strictly after now: its instant is later than the instant
/// of the reading, and its minute is later than the minute that the clock
/// shows. Where the clock and the time zone agree, the second follows from
/// the first; it is asked all the same, so that no session is created at
/// or after the minute it is scheduled for.
pub open spec fn is_future(scheduled: MinuteStamp, at: i64, now: ClockReading) -> bool {
    at > now.epoch_seconds && now.local.precedes(scheduled)
}

/// What scheduling decides, from what is known and what the clock and the
/// time zone said. In this order: a date that the zone does not show
/// exactly once is no date; a date not strictly after now is past; the
/// campaign must be known; an id must be left. Then the session is pending,
/// created now, and scheduled as asked.
pub open spec fn schedule_result(
    cs: Seq<CampaignView>,
    next_id: i64,
    campaign: Seq<char>,
    author_id: Seq<char>,
    scheduled: MinuteStamp,
    instant: LocalInstant,
    now: ClockReading,
) -> Result<SessionView, SchedulerError> {
    match instant {
        LocalInstant::Single(at) => if !is_future(scheduled, at, now) {
            Err(SchedulerError::PastDate)
        } else if !has_name(cs, campaign) {
            Err(SchedulerError::CampaignNotFound)
        } else if next_id == i64::MAX {
            Err(SchedulerError::Persistence)
        } else {
            Ok(
                SessionView {
                    id: next_id,
                    campaign_id: campaign_named(cs, campaign).id,
                    author_id,
                    status: SessionStatus::Pending,
                    created_at: now.local,
                    scheduled_at: scheduled,
                },
            )
        },
        _ => Err(SchedulerError::InvalidDateFormat),
    }
}

/// The rows after a request with the given outcome: one row more after a
/// success, the same rows after a failure.
pub open spec fn rows_after(rows: Seq<SessionView>, outcome: Result<SessionView, SchedulerError>)
    -> Seq<SessionView> {
    match outcome {
        Ok(row) => rows.push(row),
        Err(_) => rows,
    }
}

/// The outcome of a request, with the session as its view.
pub open spec fn outcome_view(r: Result<Session, SchedulerError>) -> Result<
    SessionView,
    SchedulerError,
> {
    match r {
        Ok(s) => Ok(s@),
        Err(e) => Err(e),
    }
}

/// The request ended as scheduling decides for some answer of the time
/// zone and some reading of the clock.
pub open spec fn scheduled_at_some_time(
    cs: Seq<CampaignView>,
    next_id: i64,
    campaign: Seq<char>,
    author_id: Seq<char>,
    scheduled: MinuteStamp,
    outcome: Result<SessionView, SchedulerError>,
) -> bool {
    exists|instant: LocalInstant, now: ClockReading|
        now.wf() && outcome == #[trigger] schedule_result(
            cs,
            next_id,
            campaign,
            author_id,
            scheduled,
            instant,
            now,
        )
}

/// Schedules a session of the campaign called `campaign` for the minute
/// `scheduled`, which the local time zone shows at `instant`, at the time
/// `now`. What it returns and what it stores is what [`schedule_result`]
/// decides.
pub fn schedule(
    registry: &CampaignRegistry,
    store: &mut SessionStore,
    campaign: &str,
    author_id: &str,
    scheduled: MinuteStamp,
    instant: LocalInstant,
    now: &ClockReading,
) -> (r: Result<Session, SchedulerError>)
    requires
        registry.wf(),
        old(store).wf(),
        scheduled.wf(),
        now.wf(),
    ensures
        final(store).wf(),
        outcome_view(r) == schedule_result(
            registry@,
            old(store).next_id,
            campaign@,
            author_id@,
            scheduled,
            instant,
            *now,
        ),
        final(store)@ == rows_after(old(store)@, outcome_view(r)),
        final(store).next_id == if r is Ok {
            (old(store).next_id + 1) as i64
        } else {
            old(store).next_id
        },
{
    let at = match instant {
        LocalInstant::Single(at) => at,
        _ => { return Err(SchedulerError::InvalidDateFormat); },
    };
    if at <= now.epoch_seconds || !now.local.is_before(&scheduled) {
        return Err(SchedulerError::PastDate);
    }
    let campaign_id = match get_id_from_name(registry, campaign) {
        Ok(id) => id,
        Err(_) => { return Err(SchedulerError::CampaignNotFound); },
    };
    store.insert(campaign_id, author_id.to_owned(), now.local, scheduled)
}

/// Creates a session of the campaign called `campaign`, scheduled for the
/// date that `scheduled_date` gives in the pattern `YYYY-MM-DD HH:MM` and
/// the local time zone. A text that names no minute of the calendar is
/// refused whatever the clock shows, and nothing is stored. For a text that
/// names one, the clock is read and the time zone is asked, and
/// [`schedule`] decides; a clock beyond the years 0 to 9999 gives
/// `ClockOutOfRange`.
pub fn create(
    registry: &CampaignRegistry,
    store: &mut SessionStore,
    campaign: &str,
    author_id: &str,
    scheduled_date: &str,
) -> (r: Result<Session, SchedulerError>)
    requires
        registry.wf(),
        old(store).wf(),
    ensures
        final(store).wf(),
        final(store)@ == rows_after(old(store)@, outcome_view(r)),
        final(store).next_id == if r is Ok {
            (old(store).next_id + 1) as i64
        } else {
            old(store).next_id
        },
        match stamp_of_text(scheduled_date@) {
            None => r == Err::<Session, _>(SchedulerError::InvalidDateFormat),
            Some(scheduled) => r == Err::<Session, _>(SchedulerError::ClockOutOfRange)
                || scheduled_at_some_time(
                registry@,
                old(store).next_id,
                campaign@,
                author_id@,
                scheduled,
                outcome_view(r),
            ),
        },
{
    let scheduled = match MinuteStamp::parse(scheduled_date) {
        Some(t) => t,
        None => { return Err(SchedulerError::InvalidDateFormat); },
    };
    let now = match ClockReading::now() {
        Ok(now) => now,
        Err(e) => { return Err(e); },
    };
    let instant = local_instant(&scheduled);
    let ghost next_id = store.next_id;
    let r = schedule(registry, store, campaign, author_id, scheduled, instant, &now);
    assert(now.wf() && outcome_view(r) == schedule_result(
        registry@,
        next_id,
        campaign@,
        author_id@,
        scheduled,
        instant,
        now,
    ));
    r
}

/// A date that reads in the pattern and lies strictly after now, for a
/// campaign that is known, is scheduled: the session is pending, created
/// now, and scheduled for the date as it was written, so that writing its
/// date gives the text back.
pub proof fn lemma_future_date_is_scheduled(
    cs: Seq<CampaignView>,
    next_id: i64,
    campaign: Seq<char>,
    author_id: Seq<char>,
    text: Seq<char>,
    at: i64,
    now: ClockReading,
)
    requires
        has_name(cs, campaign),
        stamp_of_text(text) is Some,
        is_future(stamp_of_text(text)->Some_0, at, now),
        next_id < i64::MAX,
    ensures
        schedule_result(
            cs,
            next_id,
            campaign,
            author_id,
            stamp_of_text(text)->Some_0,
            LocalInstant::Single(at),
            now,
        ) matches Ok(row) && row.status == SessionStatus::Pending && row.id == next_id
            && row.author_id == author_id && row.created_at == now.local && row.scheduled_at
            == stamp_of_text(text)->Some_0 && stamp_text(row.scheduled_at) == text && id_of_name(
            cs,
            campaign,
        ) == Some(row.campaign_id),
{
    lemma_stamp_writes_its_text(text);
}

/// A session that scheduling creates is scheduled strictly after the minute
/// of its creation.
pub proof fn lemma_created_before_scheduled(
    cs: Seq<CampaignView>,
    next_id: i64,
    campaign: Seq<char>,
    author_id: Seq<char>,
    scheduled: MinuteStamp,
    instant: LocalInstant,
    now: ClockReading,
)
    ensures
        schedule_result(cs, next_id, campaign, author_id, scheduled, instant, now) matches Ok(row)
            ==> row.created_at.precedes(row.scheduled_at) && row.status == SessionStatus::Pending
            && has_name(cs, campaign),
{
}

/// A session that was just created is in every listing of the time of its
/// creation that is not narrowed to another campaign.
pub proof fn lemma_new_session_is_listed(
    rows: Seq<SessionView>,
    row: SessionView,
    list: Seq<SessionView>,
    campaign: Option<i64>,
    now: ClockReading,
)
    requires
        now.local.precedes(row.scheduled_at),
        campaign matches Some(id) ==> row.campaign_id == id,
        is_listing(list, rows_after(rows, Ok(row)), campaign, now.local),
    ensures
        list.contains(row),
{
    let after = rows.push(row);
    assert(after[rows.len() as int] == row);
}

/// A date that is not strictly after now is refused as past, whatever the
/// campaign, and a failure stores nothing.
pub proof fn lemma_past_date_is_refused(
    cs: Seq<CampaignView>,
    rows: Seq<SessionView>,
    next_id: i64,
    campaign: Seq<char>,
    author_id: Seq<char>,
    scheduled: MinuteStamp,
    at: i64,
    now: ClockReading,
)
    requires
        !is_future(scheduled, at, now),
    ensures
        schedule_result(
            cs,
            next_id,
            campaign,
            author_id,
            scheduled,
            LocalInstant::Single(at),
            now,
        ) == Err::<SessionView, _>(SchedulerError::PastDate),
        rows_after(
            rows,
            schedule_result(
                cs,
                next_id,
                campaign,
                author_id,
                scheduled,
                LocalInstant::Single(at),
                now,
            ),
        ) == rows,
{
}

/// Calls off the session with the id `session_id`: an update of its status
/// to `Cancelled`. A session that is cancelled already stays as it is and
/// the request fails with `InvalidState`; an id that no session has gives
/// `SessionNotFound`. Only the status of that one session changes.
pub fn cancel(store: &mut SessionStore, session_id: i64) -> (r: Result<(), SchedulerError>)
    requires
        old(store).wf(),
    ensures
        final(store).wf(),
        final(store).next_id == old(store).next_id,
        r == cancel_result(old(store)@, session_id),
        final(store)@ == if r is Ok {
            rows_with_status(old(store)@, session_id, SessionStatus::Cancelled)
        } else {
            old(store)@
        },
{
    store.set_status(session_id, SessionStatus::Cancelled)
}

/// What cancelling decides.
pub open spec fn cancel_result(rows: Seq<SessionView>, session_id: i64) -> Result<
    (),
    SchedulerError,
> {
    if !has_session(rows, session_id) {
        Err(SchedulerError::SessionNotFound)
    } else if session_with_id(rows, session_id).status == SessionStatus::Cancelled {
        Err(SchedulerError::InvalidState)
    } else {
        Ok(())
    }
}

/// Deletes every session and says how many there were.
pub fn clear_all(store: &mut SessionStore) -> (count: usize)
    requires
        old(store).wf(),
    ensures
        final(store).wf(),
        final(store)@ == Seq::<SessionView>::empty(),
        final(store).next_id == old(store).next_id,
        count == old(store)@.len(),
{
    store.delete_all()
}

} // verus!
