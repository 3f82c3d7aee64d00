//! The pages that a listing is shown as: one page for each session.

use crate::session::{Session, SessionView};
use crate::stamp::{stamp_text, MinuteStamp};
use crate::status::{status_label, SessionStatus};
use crate::store::session_views;
use vstd::prelude::*;
use vstd::string::StringExecFns;

verus! {

/// One rendered view: a title and a body.
#[derive(Debug, PartialEq, Eq)]
pub struct Page {
    pub title: String,
    pub body: String,
}

/// What a page shows, as sequences of characters.
pub struct PageView {
    pub title: Seq<char>,
    pub body: Seq<char>,
}

impl View for Page {
    type V = PageView;

    open spec fn view(&self) -> PageView {
        PageView { title: self.title@, body: self.body@ }
    }
}

impl Clone for Page {
    fn clone(&self) -> (copy: Page)
        ensures
            copy == *self,
    {
        Page { title: self.title.clone(), body: self.body.clone() }
    }
}

/// The views of a list of pages.
pub open spec fn page_views(pages: Seq<Page>) -> Seq<PageView> {
    pages.map_values(|p: Page| p@)
}

/// The page for a status and a date: the date as the title, the word for
/// the status as the body.
pub open spec fn page_for(status: SessionStatus, scheduled_at: MinuteStamp) -> PageView {
    PageView { title: stamp_text(scheduled_at), body: status_label(status) }
}

/// The page of a session: the page for its status and its date.
pub open spec fn page_of(s: SessionView) -> PageView {
    page_for(s.status, s.scheduled_at)
}

/// The pages of a list of sessions, one for each, in their order.
pub open spec fn pages_of(sessions: Seq<SessionView>) -> Seq<PageView> {
    sessions.map_values(|s: SessionView| page_of(s))
}

/// The page that stands for a listing without sessions.
pub open spec fn placeholder_page() -> PageView {
    PageView { title: "No results"@, body: "No upcoming sessions."@ }
}

/// Renders the page for a status and a date.
pub fn render(status: SessionStatus, scheduled_at: &MinuteStamp) -> (page: Page)
    requires
        scheduled_at.wf(),
    ensures
        page@ == page_for(status, *scheduled_at),
{
    Page { title: scheduled_at.to_text(), body: status.label() }
}

/// Renders the page of a session.
pub fn render_page(session: &Session) -> (page: Page)
    requires
        session.wf(),
    ensures
        page@ == page_of(session@),
{
    render(session.status, &session.scheduled_at)
}

/// Renders one page for each session, in their order.
pub fn render_pages(sessions: &Vec<Session>) -> (pages: Vec<Page>)
    requires
        forall|i: int| 0 <= i < sessions@.len() ==> (#[trigger] sessions@[i]).wf(),
    ensures
        page_views(pages@) == pages_of(session_views(sessions@)),
{
    let mut pages: Vec<Page> = Vec::new();
    let mut i: usize = 0;
    while i < sessions.len()
        invariant
            i <= sessions.len(),
            forall|k: int| 0 <= k < sessions@.len() ==> (#[trigger] sessions@[k]).wf(),
            pages@.len() == i,
            forall|k: int| 0 <= k < i ==> (#[trigger] pages@[k])@ == page_of(sessions@[k]@),
        decreases sessions.len() - i,
    {
        pages.push(render_page(&sessions[i]));
        i += 1;
    }
    assert(page_views(pages@) =~= pages_of(session_views(sessions@)));
    pages
}

/// Renders the page that stands for a listing without sessions.
pub fn render_placeholder() -> (page: Page)
    ensures
        page@ == placeholder_page(),
{
    Page { title: String::from_str("No results"), body: String::from_str("No upcoming sessions.") }
}

} // verus!
