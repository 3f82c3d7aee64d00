//! The paged viewer: a list of pages of which one is shown, steered by the
//! `next` and `previous` events of the one user who asked for it, until no
//! such event has come for 180 seconds.
//!
//! The controller decides; it neither waits nor sends. Whoever runs it hands
//! in each event with the time at which it came, and does what the outcome
//! says.

use crate::page::{page_views, placeholder_page, render_placeholder, Page, PageView};
use crate::text::same_text;
use vstd::arithmetic::div_mod::{lemma_add_mod_noop, lemma_small_mod};
use vstd::prelude::*;

verus! {

/// The seconds without an accepted event after which a viewer expires.
pub const IDLE_LIMIT_SECONDS: u64 = 180;

/// Which way an event turns the pages.
#[derive(Clone, Copy, Debug, PartialEq, Eq, Structural)]
pub enum Direction {
    Next,
    Previous,
}

/// A press of one of the two buttons: the viewer it was made on, the user
/// who made it, and the button.
#[derive(Debug, PartialEq, Eq)]
pub struct NavigationEvent {
    pub correlation_id: String,
    pub user_id: String,
    pub direction: Direction,
}

/// What an event holds, with its texts as sequences of characters.
pub struct EventView {
    pub correlation_id: Seq<char>,
    pub user_id: Seq<char>,
    pub direction: Direction,
}

impl View for NavigationEvent {
    type V = EventView;

    open spec fn view(&self) -> EventView {
        EventView {
            correlation_id: self.correlation_id@,
            user_id: self.user_id@,
            direction: self.direction,
        }
    }
}

/// What is to be done after an event or a look at the time.
#[derive(Clone, Copy, Debug, PartialEq, Eq, Structural)]
pub enum Outcome {
    /// Nothing: the viewer is as it was.
    Ignored,
    /// Replace what is shown, in place, by the page with this index.
    Show(usize),
    /// The viewer has just expired: stop listening and release it.
    Expired,
}

/// The two states of a viewer.
#[derive(Clone, Copy, Debug, PartialEq, Eq, Structural)]
pub enum ViewerState {
    /// It takes events and shows the page with this index.
    Active(usize),
    /// It has expired and takes nothing any more.
    Expired,
}

/// A viewer: who owns it, which events are meant for it, its pages, the
/// page that is shown, and the times that its lifetime is counted from.
#[derive(Debug)]
pub struct PaginationController {
    pub owner_id: String,
    pub correlation_id: String,
    pub pages: Vec<Page>,
    pub current_index: usize,
    pub created_at: u64,
    pub last_accepted_at: u64,
    pub navigable: bool,
    pub expired: bool,
}

/// What a viewer holds, with its texts and pages as sequences.
pub struct ControllerView {
    pub owner_id: Seq<char>,
    pub correlation_id: Seq<char>,
    pub pages: Seq<PageView>,
    pub current_index: int,
    pub created_at: int,
    pub last_accepted_at: int,
    pub navigable: bool,
    pub expired: bool,
}

impl View for PaginationController {
    type V = ControllerView;

    open spec fn view(&self) -> ControllerView {
        ControllerView {
            owner_id: self.owner_id@,
            correlation_id: self.correlation_id@,
            pages: page_views(self.pages@),
            current_index: self.current_index as int,
            created_at: self.created_at as int,
            last_accepted_at: self.last_accepted_at as int,
            navigable: self.navigable,
            expired: self.expired,
        }
    }
}

/// The number of pages that a viewer of `n` results has: a listing without
/// results is shown as one page.
pub open spec fn page_count_for(n: int) -> int {
    if n <= 0 {
        1
    } else {
        n
    }
}

/// The index after `next`, which follows the last page by the first.
pub open spec fn next_index(index: int, count: int) -> int {
    (index + 1) % count
}

/// The index after `previous`, which goes from the first page to the last.
pub open spec fn previous_index(index: int, count: int) -> int {
    (index - 1 + count) % count
}

/// The index after an event in the direction `direction`.
pub open spec fn turned_index(index: int, count: int, direction: Direction) -> int {
    match direction {
        Direction::Next => next_index(index, count),
        Direction::Previous => previous_index(index, count),
    }
}

impl ControllerView {
    /// There is a page, and the index is that of a page.
    pub open spec fn wf(self) -> bool {
        &&& self.pages.len() >= 1
        &&& 0 <= self.current_index < self.pages.len()
        &&& 0 <= self.created_at
        &&& 0 <= self.last_accepted_at
    }

    /// At `now` no event has been accepted for the idle limit or longer.
    pub open spec fn idle_too_long(self, now: int) -> bool {
        now - self.last_accepted_at >= IDLE_LIMIT_SECONDS as int
    }

    /// The event is for this viewer and from its owner, and the viewer has
    /// pages to turn.
    pub open spec fn accepts(self, event: EventView) -> bool {
        self.navigable && event.correlation_id == self.correlation_id && event.user_id
            == self.owner_id
    }
}

/// The viewer that is made for `pages` at the time `now`: it shows the
/// first page. Without pages it shows the placeholder and cannot be turned.
pub open spec fn opened(
    owner_id: Seq<char>,
    correlation_id: Seq<char>,
    pages: Seq<PageView>,
    now: int,
) -> ControllerView {
    ControllerView {
        owner_id,
        correlation_id,
        pages: if pages.len() == 0 {
            seq![placeholder_page()]
        } else {
            pages
        },
        current_index: 0,
        created_at: now,
        last_accepted_at: now,
        navigable: pages.len() > 0,
        expired: false,
    }
}

/// The viewer after the time `now` was looked at: expired, if it was active
/// and idle too long.
pub open spec fn timed(c: ControllerView, now: int) -> (ControllerView, Outcome) {
    if !c.expired && c.idle_too_long(now) {
        (ControllerView { expired: true, ..c }, Outcome::Expired)
    } else {
        (c, Outcome::Ignored)
    }
}

/// The viewer after `event` came at the time `now`, and what is to be done.
/// An expired viewer ignores everything. An active one expires if it was
/// idle too long; else it ignores an event that it does not accept, and
/// turns the page on one that it accepts, counting its idle time anew.
pub open spec fn step(c: ControllerView, event: EventView, now: int) -> (ControllerView, Outcome) {
    if c.expired {
        (c, Outcome::Ignored)
    } else if c.idle_too_long(now) {
        (ControllerView { expired: true, ..c }, Outcome::Expired)
    } else if !c.accepts(event) {
        (c, Outcome::Ignored)
    } else {
        let index = turned_index(c.current_index, c.pages.len() as int, event.direction);
        (
            ControllerView { current_index: index, last_accepted_at: now, ..c },
            Outcome::Show(index as usize),
        )
    }
}

impl PaginationController {
    /// There is a page, and the index is that of a page.
    pub open spec fn wf(&self) -> bool {
        self@.wf()
    }

    /// Opens a viewer for `pages` at the time `now`, in seconds.
    pub fn new(owner_id: String, correlation_id: String, pages: Vec<Page>, now: u64) -> (c:
        PaginationController)
        ensures
            c.wf(),
            c@ == opened(owner_id@, correlation_id@, page_views(pages@), now as int),
            c@.pages.len() == page_count_for(pages@.len() as int),
    {
        let navigable = pages.len() > 0;
        let mut pages = pages;
        if !navigable {
            pages.push(render_placeholder());
            assert(page_views(pages@) =~= seq![placeholder_page()]);
        }
        PaginationController {
            owner_id,
            correlation_id,
            pages,
            current_index: 0,
            created_at: now,
            last_accepted_at: now,
            navigable,
            expired: false,
        }
    }

    /// Whether there is a page and the index is that of a page: the test
    /// of [`Self::wf`] for a viewer that was put together by hand.
    pub fn is_valid(&self) -> (valid: bool)
        ensures
            valid == self.wf(),
    {
        self.pages.len() >= 1 && self.current_index < self.pages.len()
    }

    /// The number of pages.
    pub fn page_count(&self) -> (n: usize)
        ensures
            n == self@.pages.len(),
    {
        self.pages.len()
    }

    /// The page that is shown.
    pub fn current_page(&self) -> (page: &Page)
        requires
            self.wf(),
        ensures
            page@ == self@.pages[self@.current_index],
    {
        &self.pages[self.current_index]
    }

    /// The state of the viewer.
    pub fn state(&self) -> (state: ViewerState)
        ensures
            state == if self@.expired {
                ViewerState::Expired
            } else {
                ViewerState::Active(self.current_index)
            },
    {
        if self.expired {
            ViewerState::Expired
        } else {
            ViewerState::Active(self.current_index)
        }
    }

    /// Whether the viewer has expired.
    pub fn is_expired(&self) -> (b: bool)
        ensures
            b == self@.expired,
    {
        self.expired
    }

    /// Whether at `now` no event has been accepted for the idle limit.
    fn idle_too_long(&self, now: u64) -> (b: bool)
        ensures
            b == self@.idle_too_long(now as int),
    {
        now >= self.last_accepted_at && now - self.last_accepted_at >= IDLE_LIMIT_SECONDS
    }

    /// The seconds from `now` until the viewer expires if no event is
    /// accepted: the longest that may be waited for the next event.
    pub fn seconds_left(&self, now: u64) -> (left: u64)
        ensures
            left as int == if self@.expired || self@.idle_too_long(now as int) {
                0
            } else if now < self@.last_accepted_at {
                IDLE_LIMIT_SECONDS as int
            } else {
                self@.last_accepted_at + IDLE_LIMIT_SECONDS - now
            },
    {
        if self.expired || self.idle_too_long(now) {
            0
        } else if now < self.last_accepted_at {
            IDLE_LIMIT_SECONDS
        } else {
            IDLE_LIMIT_SECONDS - (now - self.last_accepted_at)
        }
    }

    /// Looks at the time `now`: the viewer expires if it was idle too long.
    pub fn tick(&mut self, now: u64) -> (outcome: Outcome)
        requires
            old(self).wf(),
        ensures
            final(self).wf(),
            (final(self)@, outcome) == timed(old(self)@, now as int),
    {
        if !self.expired && self.idle_too_long(now) {
            self.expired = true;
            Outcome::Expired
        } else {
            Outcome::Ignored
        }
    }

    /// Takes the event that came at the time `now` and says what is to be
    /// done: see [`step`].
    pub fn handle(&mut self, event: &NavigationEvent, now: u64) -> (outcome: Outcome)
        requires
            old(self).wf(),
        ensures
            final(self).wf(),
            (final(self)@, outcome) == step(old(self)@, event@, now as int),
    {
        if self.expired {
            return Outcome::Ignored;
        }
        if self.idle_too_long(now) {
            self.expired = true;
            return Outcome::Expired;
        }
        if !self.navigable || !same_text(
            event.correlation_id.as_str(),
            self.correlation_id.as_str(),
        ) || !same_text(event.user_id.as_str(), self.owner_id.as_str()) {
            return Outcome::Ignored;
        }
        let count = self.pages.len();
        let index = match event.direction {
            Direction::Next => if self.current_index + 1 == count {
                0
            } else {
                self.current_index + 1
            },
            Direction::Previous => if self.current_index == 0 {
                count - 1
            } else {
                self.current_index - 1
            },
        };
        proof {
            lemma_turned_index(self.current_index as int, count as int, event.direction);
        }
        self.current_index = index;
        self.last_accepted_at = now;
        Outcome::Show(index)
    }
}

/// Turning a page stays among the pages: `next` goes one up and from the
/// last page to the first, `previous` one down and from the first to the last.
pub proof fn lemma_turned_index(index: int, count: int, direction: Direction)
    requires
        0 <= index < count,
    ensures
        0 <= turned_index(index, count, direction) < count,
        next_index(index, count) == if index + 1 == count {
            0
        } else {
            index + 1
        },
        previous_index(index, count) == if index == 0 {
            count - 1
        } else {
            index - 1
        },
{
    if index + 1 == count {
        assert((index + 1) % count == 0) by (nonlinear_arith)
            requires
                index + 1 == count,
                count > 0,
        ;
    } else {
        assert((index + 1) % count == index + 1) by (nonlinear_arith)
            requires
                0 <= index + 1 < count,
        ;
    }
    if index == 0 {
        assert((index - 1 + count) % count == count - 1) by (nonlinear_arith)
            requires
                index == 0,
                count > 0,
        ;
    } else {
        assert((index - 1 + count) % count == index - 1) by (nonlinear_arith)
            requires
                0 < index < count,
        ;
    }
}

/// The press of the button `direction` by the owner of the viewer `c`.
pub open spec fn owner_event(c: ControllerView, direction: Direction) -> EventView {
    EventView { correlation_id: c.correlation_id, user_id: c.owner_id, direction }
}

/// The viewer after its owner pressed the button `direction` once at each
/// of the times `times`, in their order.
pub open spec fn after_presses(c: ControllerView, direction: Direction, times: Seq<int>)
    -> ControllerView
    decreases times.len(),
{
    if times.len() == 0 {
        c
    } else {
        step(
            after_presses(c, direction, times.drop_last()),
            owner_event(c, direction),
            times.last(),
        ).0
    }
}

/// Each of the times comes before the idle limit has passed since the one
/// before it, the first of them since `last`.
pub open spec fn presses_in_time(last: int, times: Seq<int>) -> bool {
    forall|k: int|
        0 <= k < times.len() ==> 0 <= #[trigger] times[k] && times[k] - (if k == 0 {
            last
        } else {
            times[k - 1]
        }) < IDLE_LIMIT_SECONDS as int
}

/// Counting one up modulo `n` from the remainder of `x` gives the
/// remainder of `x + 1`.
proof fn lemma_count_up_mod(x: int, n: int)
    requires
        0 <= x,
        1 <= n,
    ensures
        next_index(x % n, n) == (x + 1) % n,
{
    lemma_add_mod_noop(x, 1, n);
    if n > 1 {
        lemma_small_mod(1, n as nat);
    }
}

/// The times but the last are in time if all of them are.
proof fn lemma_earlier_presses_in_time(last: int, times: Seq<int>)
    requires
        times.len() > 0,
        presses_in_time(last, times),
    ensures
        presses_in_time(last, times.drop_last()),
        0 <= times.last(),
        times.last() - (if times.len() == 1 {
            last
        } else {
            times[times.len() - 2]
        }) < IDLE_LIMIT_SECONDS as int,
{
    let earlier = times.drop_last();
    assert forall|k: int| 0 <= k < earlier.len() implies 0 <= #[trigger] earlier[k] && earlier[k]
        - (if k == 0 {
        last
    } else {
        earlier[k - 1]
    }) < IDLE_LIMIT_SECONDS as int by {
        assert(earlier[k] == times[k]);
    }
    let k = times.len() - 1;
    assert(0 <= times[k] && times[k] - (if k == 0 {
        last
    } else {
        times[k - 1]
    }) < IDLE_LIMIT_SECONDS as int);
}

/// Each press of `next` by the owner, made in time, moves the index one up
/// and round: after `k` presses it is `k` further, counted modulo the
/// number of pages. Nothing else of the viewer changes but the time of the
/// last accepted event.
pub proof fn lemma_next_presses_count_round(c: ControllerView, times: Seq<int>)
    requires
        c.wf(),
        c.navigable,
        !c.expired,
        presses_in_time(c.last_accepted_at, times),
    ensures
        after_presses(c, Direction::Next, times) == (ControllerView {
            current_index: (c.current_index + times.len()) % (c.pages.len() as int),
            last_accepted_at: if times.len() == 0 {
                c.last_accepted_at
            } else {
                times.last()
            },
            ..c
        }),
    decreases times.len(),
{
    let n = c.pages.len() as int;
    if times.len() == 0 {
        lemma_small_mod(c.current_index as nat, n as nat);
    } else {
        let earlier = times.drop_last();
        lemma_earlier_presses_in_time(c.last_accepted_at, times);
        lemma_next_presses_count_round(c, earlier);
        let d = after_presses(c, Direction::Next, earlier);
        let event = owner_event(c, Direction::Next);
        let x = c.current_index + earlier.len();
        assert(d.current_index == x % n);
        assert(d.last_accepted_at == if earlier.len() == 0 {
            c.last_accepted_at
        } else {
            earlier.last()
        });
        assert(!d.expired && d.pages == c.pages);
        assert(!d.idle_too_long(times.last()));
        assert(d.accepts(event));
        lemma_count_up_mod(x, n);
        assert(step(d, event, times.last()).0 == (ControllerView {
            current_index: (x + 1) % n,
            last_accepted_at: times.last(),
            ..d
        }));
    }
}

/// Pressing `next` from the first page comes back to the first page after
/// exactly as many presses as there are pages: not before, and then it does.
pub proof fn lemma_next_wraps_after_page_count(c: ControllerView, times: Seq<int>)
    requires
        c.wf(),
        c.navigable,
        !c.expired,
        c.current_index == 0,
        presses_in_time(c.last_accepted_at, times),
    ensures
        times.len() == c.pages.len() ==> after_presses(c, Direction::Next, times).current_index
            == 0,
        0 < times.len() < c.pages.len() ==> after_presses(c, Direction::Next, times).current_index
            == times.len(),
{
    lemma_next_presses_count_round(c, times);
    let n = c.pages.len() as int;
    if times.len() == n {
        assert(n % n == 0) by (nonlinear_arith)
            requires
                n > 0,
        ;
    } else if times.len() < n {
        lemma_small_mod(times.len(), n as nat);
    }
}

/// `previous` from the first page lands on the last page, and `next` from
/// the last page on the first.
pub proof fn lemma_previous_wraps_to_last(c: ControllerView, now: int)
    requires
        c.wf(),
        c.navigable,
        !c.expired,
        !c.idle_too_long(now),
    ensures
        c.current_index == 0 ==> step(
            c,
            owner_event(c, Direction::Previous),
            now,
        ).0.current_index == c.pages.len() - 1,
        c.current_index == c.pages.len() - 1 ==> step(
            c,
            owner_event(c, Direction::Next),
            now,
        ).0.current_index == 0,
{
    lemma_turned_index(c.current_index, c.pages.len() as int, Direction::Previous);
}

/// `next` and `previous` undo each other.
pub proof fn lemma_next_and_previous_undo(index: int, count: int)
    requires
        0 <= index < count,
    ensures
        previous_index(next_index(index, count), count) == index,
        next_index(previous_index(index, count), count) == index,
{
    lemma_turned_index(index, count, Direction::Next);
    lemma_turned_index(next_index(index, count), count, Direction::Next);
    lemma_turned_index(previous_index(index, count), count, Direction::Next);
}

/// A viewer that has been idle for the limit expires at the next event,
/// whoever sent it, and shows the page that it showed.
pub proof fn lemma_idle_viewer_expires(c: ControllerView, event: EventView, now: int)
    requires
        !c.expired,
        c.idle_too_long(now),
    ensures
        step(c, event, now) == ((ControllerView { expired: true, ..c }, Outcome::Expired)),
        timed(c, now) == ((ControllerView { expired: true, ..c }, Outcome::Expired)),
{
}

/// An expired viewer stays as it is, whatever comes and whenever.
pub proof fn lemma_expired_viewer_ignores(c: ControllerView, event: EventView, now: int)
    requires
        c.expired,
    ensures
        step(c, event, now) == ((c, Outcome::Ignored)),
        timed(c, now) == ((c, Outcome::Ignored)),
{
}

/// Once a viewer has been idle for the limit, the event that comes expires
/// it, and no event after that turns its page, whenever it comes.
pub proof fn lemma_no_turn_after_the_limit(
    c: ControllerView,
    late: EventView,
    now: int,
    later: EventView,
    then: int,
)
    requires
        !c.expired,
        c.idle_too_long(now),
    ensures
        step(c, late, now).0.expired,
        step(c, late, now).0.current_index == c.current_index,
        step(step(c, late, now).0, later, then) == ((step(c, late, now).0, Outcome::Ignored)),
{
}

/// An event of another user, or one meant for another viewer, never turns
/// the page, and does not count as activity.
pub proof fn lemma_stranger_cannot_turn(c: ControllerView, event: EventView, now: int)
    requires
        event.user_id != c.owner_id || event.correlation_id != c.correlation_id,
    ensures
        step(c, event, now).0.current_index == c.current_index,
        step(c, event, now).0.last_accepted_at == c.last_accepted_at,
        step(c, event, now).1 != Outcome::Show(step(c, event, now).0.current_index as usize),
{
}

/// A viewer without results has one page and never turns it.
pub proof fn lemma_placeholder_cannot_turn(
    owner_id: Seq<char>,
    correlation_id: Seq<char>,
    opened_at: int,
    event: EventView,
    now: int,
)
    ensures
        opened(owner_id, correlation_id, Seq::<PageView>::empty(), opened_at).pages.len() == 1,
        step(
            opened(owner_id, correlation_id, Seq::<PageView>::empty(), opened_at),
            event,
            now,
        ).0.current_index == 0,
{
}

} // verus!
