//! The store of sessions: rows with ids of their own, which can be read,
//! added, updated and deleted all at once.

use crate::error::SchedulerError;
use crate::session::{Session, SessionView};
use crate::stamp::MinuteStamp;
use crate::status::{can_become, SessionStatus};
use vstd::prelude::*;

verus! {

/// The views of a list of sessions.
pub open spec fn session_views(rows: Seq<Session>) -> Seq<SessionView> {
    rows.map_values(|s: Session| s@)
}

/// The rows are well formed, their ids are positive, different from each
/// other and below `next_id`, the id that the next new row gets.
pub open spec fn rows_wf(rows: Seq<SessionView>, next_id: i64) -> bool {
    &&& next_id >= 1
    &&& forall|i: int|
        0 <= i < rows.len() ==> (#[trigger] rows[i]).wf() && 0 < rows[i].id < next_id
    &&& forall|i: int, j: int|
        0 <= i < j < rows.len() ==> (#[trigger] rows[i]).id != (#[trigger] rows[j]).id
}

/// Some row has the id `id`.
pub open spec fn has_session(rows: Seq<SessionView>, id: i64) -> bool {
    exists|i: int| 0 <= i < rows.len() && (#[trigger] rows[i]).id == id
}

/// The row with the id `id`, where there is one.
pub open spec fn session_with_id(rows: Seq<SessionView>, id: i64) -> SessionView {
    rows[choose|i: int| 0 <= i < rows.len() && (#[trigger] rows[i]).id == id]
}

/// `row` with another status and nothing else changed.
pub open spec fn with_status(row: SessionView, status: SessionStatus) -> SessionView {
    SessionView { status, ..row }
}

/// The rows after the row with the id `id` got the status `status`: every
/// other row, and every other field of that row, is as before.
pub open spec fn rows_with_status(rows: Seq<SessionView>, id: i64, status: SessionStatus) -> Seq<
    SessionView,
> {
    Seq::new(
        rows.len(),
        |i: int|
            if rows[i].id == id {
                with_status(rows[i], status)
            } else {
                rows[i]
            },
    )
}

/// What an update of the status decides: the row must be there, and its
/// status must allow the new one.
pub open spec fn update_result(rows: Seq<SessionView>, id: i64, status: SessionStatus) -> Result<
    (),
    SchedulerError,
> {
    if !has_session(rows, id) {
        Err(SchedulerError::SessionNotFound)
    } else if !can_become(session_with_id(rows, id).status, status) {
        Err(SchedulerError::InvalidState)
    } else {
        Ok(())
    }
}

/// The rows after an update of the status with the given outcome.
pub open spec fn rows_updated(
    rows: Seq<SessionView>,
    id: i64,
    status: SessionStatus,
    outcome: Result<(), SchedulerError>,
) -> Seq<SessionView> {
    if outcome is Ok {
        rows_with_status(rows, id, status)
    } else {
        rows
    }
}

/// Among rows with ids of their own an id belongs to one row only.
pub proof fn lemma_session_id_is_unique(rows: Seq<SessionView>, next_id: i64, i: int)
    requires
        rows_wf(rows, next_id),
        0 <= i < rows.len(),
    ensures
        has_session(rows, rows[i].id),
        session_with_id(rows, rows[i].id) == rows[i],
{
    let id = rows[i].id;
    let j = choose|j: int| 0 <= j < rows.len() && (#[trigger] rows[j]).id == id;
    assert(i == j) by {
        if i < j {
            assert(rows[i].id != rows[j].id);
        } else if j < i {
            assert(rows[j].id != rows[i].id);
        }
    }
}

/// The sessions that are kept, and the id of the next one.
#[derive(Debug)]
pub struct SessionStore {
    pub rows: Vec<Session>,
    pub next_id: i64,
}

impl View for SessionStore {
    type V = Seq<SessionView>;

    open spec fn view(&self) -> Seq<SessionView> {
        session_views(self.rows@)
    }
}

impl SessionStore {
    /// The store's invariant: see [`rows_wf`].
    pub open spec fn wf(&self) -> bool {
        rows_wf(self@, self.next_id)
    }

    /// A store without rows, whose first row will get the id 1.
    pub fn new() -> (store: SessionStore)
        ensures
            store.wf(),
            store@ == Seq::<SessionView>::empty(),
            store.next_id == 1,
    {
        let store = SessionStore { rows: Vec::new(), next_id: 1 };
        assert(store@ =~= Seq::<SessionView>::empty());
        store
    }

    /// The number of rows.
    pub fn len(&self) -> (n: usize)
        ensures
            n == self@.len(),
    {
        self.rows.len()
    }

    /// Whether the store's invariant holds: the test of [`Self::wf`] for a
    /// store that was put together by hand.
    pub fn is_valid(&self) -> (valid: bool)
        ensures
            valid == self.wf(),
    {
        if self.next_id < 1 {
            return false;
        }
        let n = self.rows.len();
        let mut j: usize = 0;
        while j < n
            invariant
                j <= n,
                n == self.rows.len(),
                self.next_id >= 1,
                forall|a: int|
                    0 <= a < j ==> (#[trigger] self@[a]).wf() && 0 < self@[a].id < self.next_id,
                forall|a: int, b: int|
                    0 <= a < b < j ==> (#[trigger] self@[a]).id != (#[trigger] self@[b]).id,
            decreases n - j,
        {
            let row = &self.rows[j];
            assert(row@ == self@[j as int]);
            if !row.created_at.is_valid() || !row.scheduled_at.is_valid() || row.id <= 0 || row.id
                >= self.next_id {
                assert(!(self@[j as int].wf() && 0 < self@[j as int].id < self.next_id));
                return false;
            }
            let mut i: usize = 0;
            while i < j
                invariant
                    i <= j,
                    j < n,
                    n == self.rows.len(),
                    forall|a: int| 0 <= a < i ==> (#[trigger] self@[a]).id != self@[j as int].id,
                decreases j - i,
            {
                if self.rows[i].id == self.rows[j].id {
                    assert(self@[i as int].id == self@[j as int].id);
                    return false;
                }
                i += 1;
            }
            j += 1;
        }
        true
    }

    /// The position of the row with the id `id`.
    fn position_of(&self, id: i64) -> (at: Option<usize>)
        ensures
            at is Some <==> has_session(self@, id),
            at matches Some(i) ==> i < self@.len() && self@[i as int].id == id,
    {
        let mut i: usize = 0;
        while i < self.rows.len()
            invariant
                i <= self.rows.len(),
                forall|k: int| 0 <= k < i ==> (#[trigger] self@[k]).id != id,
            decreases self.rows.len() - i,
        {
            if self.rows[i].id == id {
                assert(self@[i as int].id == id);
                return Some(i);
            }
            i += 1;
        }
        None
    }

    /// Reads the row with the id `id`.
    pub fn get(&self, id: i64) -> (r: Result<&Session, SchedulerError>)
        requires
            self.wf(),
        ensures
            r is Ok <==> has_session(self@, id),
            r matches Ok(s) ==> s@ == session_with_id(self@, id) && s.wf(),
            r matches Err(e) ==> e == SchedulerError::SessionNotFound,
    {
        match self.position_of(id) {
            Some(i) => {
                proof {
                    assert(self@[i as int] == self.rows@[i as int]@);
                    lemma_session_id_is_unique(self@, self.next_id, i as int);
                }
                Ok(&self.rows[i])
            },
            None => Err(SchedulerError::SessionNotFound),
        }
    }

    /// Adds a new pending session and gives it the next id. Fails with
    /// `Persistence`, and adds nothing, when no id is left.
    pub fn insert(
        &mut self,
        campaign_id: i64,
        author_id: String,
        created_at: MinuteStamp,
        scheduled_at: MinuteStamp,
    ) -> (r: Result<Session, SchedulerError>)
        requires
            old(self).wf(),
            created_at.wf(),
            scheduled_at.wf(),
        ensures
            final(self).wf(),
            old(self).next_id == i64::MAX ==> r == Err::<Session, _>(SchedulerError::Persistence)
                && final(self)@ == old(self)@ && final(self).next_id == old(self).next_id,
            old(self).next_id < i64::MAX ==> r is Ok && final(self).next_id == old(self).next_id
                + 1,
            r matches Ok(s) ==> s@ == (SessionView {
                id: old(self).next_id,
                campaign_id,
                author_id: author_id@,
                status: SessionStatus::Pending,
                created_at,
                scheduled_at,
            }) && final(self)@ == old(self)@.push(s@),
    {
        if self.next_id == i64::MAX {
            return Err(SchedulerError::Persistence);
        }
        let session = Session {
            id: self.next_id,
            campaign_id,
            author_id,
            status: SessionStatus::Pending,
            created_at,
            scheduled_at,
        };
        let stored = session.clone();
        let ghost before = self@;
        self.rows.push(stored);
        self.next_id = self.next_id + 1;
        proof {
            assert(self@ =~= before.push(session@));
            assert forall|i: int| 0 <= i < self@.len() implies (#[trigger] self@[i]).wf() && 0
                < self@[i].id < self.next_id by {
                if i < before.len() {
                    assert(self@[i] == before[i]);
                }
            }
            assert forall|i: int, j: int| 0 <= i < j < self@.len() implies (#[trigger] self@[i]).id
                != (#[trigger] self@[j]).id by {
                assert(self@[i] == before[i]);
                if j < before.len() {
                    assert(self@[j] == before[j]);
                }
            }
        }
        Ok(session)
    }

    /// Takes over a row that has an id already, as when the rows of a
    /// database are read. Fails with `Persistence`, and adds nothing, when
    /// a stamp of the row names no minute, when the id is not from 1 to
    /// `i64::MAX - 1`, or when a row of the store has the id.
    pub fn restore(&mut self, session: Session) -> (r: Result<(), SchedulerError>)
        requires
            old(self).wf(),
        ensures
            final(self).wf(),
            r is Ok <==> session.wf() && 0 < session.id < i64::MAX && !has_session(
                old(self)@,
                session.id,
            ),
            r is Ok ==> final(self)@ == old(self)@.push(session@) && final(self).next_id == (
            if old(self).next_id > session.id {
                old(self).next_id
            } else {
                (session.id + 1) as i64
            }),
            r matches Err(e) ==> e == SchedulerError::Persistence && final(self)@ == old(self)@
                && final(self).next_id == old(self).next_id,
    {
        if !session.created_at.is_valid() || !session.scheduled_at.is_valid() {
            return Err(SchedulerError::Persistence);
        }
        if session.id <= 0 || session.id == i64::MAX {
            return Err(SchedulerError::Persistence);
        }
        if self.position_of(session.id).is_some() {
            return Err(SchedulerError::Persistence);
        }
        let ghost before = self@;
        let ghost added = session@;
        if self.next_id <= session.id {
            self.next_id = session.id + 1;
        }
        self.rows.push(session);
        proof {
            assert(self@ =~= before.push(added));
            assert forall|i: int| 0 <= i < self@.len() implies (#[trigger] self@[i]).wf() && 0
                < self@[i].id < self.next_id by {
                if i < before.len() {
                    assert(self@[i] == before[i]);
                }
            }
            assert forall|i: int, j: int| 0 <= i < j < self@.len() implies (#[trigger] self@[i]).id
                != (#[trigger] self@[j]).id by {
                assert(self@[i] == before[i]);
                if j < before.len() {
                    assert(self@[j] == before[j]);
                }
            }
        }
        Ok(())
    }

    /// Gives the row with the id `id` the status `status` and leaves the
    /// rest of the row, and every other row, as it is. Fails with
    /// `SessionNotFound` when no row has the id, and with `InvalidState`
    /// when the row is cancelled or `status` is `Unknown`; then nothing
    /// changes.
    pub fn set_status(&mut self, id: i64, status: SessionStatus) -> (r: Result<
        (),
        SchedulerError,
    >)
        requires
            old(self).wf(),
        ensures
            final(self).wf(),
            final(self).next_id == old(self).next_id,
            r == update_result(old(self)@, id, status),
            final(self)@ == rows_updated(old(self)@, id, status, r),
    {
        let i = match self.position_of(id) {
            Some(i) => i,
            None => { return Err(SchedulerError::SessionNotFound); },
        };
        let ghost before = self@;
        proof {
            assert(before[i as int] == self.rows@[i as int]@);
            lemma_session_id_is_unique(before, self.next_id, i as int);
        }
        let current = &self.rows[i];
        if !current.status.allows(status) {
            return Err(SchedulerError::InvalidState);
        }
        let updated = Session {
            id: current.id,
            campaign_id: current.campaign_id,
            author_id: current.author_id.clone(),
            status,
            created_at: current.created_at,
            scheduled_at: current.scheduled_at,
        };
        self.rows.set(i, updated);
        proof {
            assert forall|k: int| 0 <= k < before.len() implies #[trigger] self@[k] == (
            if before[k].id == id {
                with_status(before[k], status)
            } else {
                before[k]
            }) by {
                if k != i as int {
                    if k < i {
                        assert(before[k].id != before[i as int].id);
                    } else {
                        assert(before[i as int].id != before[k].id);
                    }
                }
            }
            assert(self@ =~= rows_with_status(before, id, status));
            assert forall|k: int| 0 <= k < self@.len() implies (#[trigger] self@[k]).wf() && 0
                < self@[k].id < self.next_id by {
                assert(before[k].wf());
            }
            assert forall|a: int, b: int| 0 <= a < b < self@.len() implies (#[trigger] self@[a]).id
                != (#[trigger] self@[b]).id by {
                assert(before[a].id != before[b].id);
            }
        }
        Ok(())
    }

    /// Deletes every row and says how many there were. Ids are not given
    /// out a second time.
    pub fn delete_all(&mut self) -> (count: usize)
        requires
            old(self).wf(),
        ensures
            final(self).wf(),
            final(self)@ == Seq::<SessionView>::empty(),
            final(self).next_id == old(self).next_id,
            count == old(self)@.len(),
    {
        let count = self.rows.len();
        self.rows.clear();
        assert(self@ =~= Seq::<SessionView>::empty());
        count
    }
}

/// A cancelled session stays cancelled: no update changes it, and none
/// changes anything else when it is asked to.
pub proof fn lemma_cancelled_is_terminal(
    rows: Seq<SessionView>,
    next_id: i64,
    id: i64,
    status: SessionStatus,
)
    requires
        rows_wf(rows, next_id),
        has_session(rows, id),
        session_with_id(rows, id).status == SessionStatus::Cancelled,
    ensures
        update_result(rows, id, status) == Err::<(), _>(SchedulerError::InvalidState),
        rows_updated(rows, id, status, update_result(rows, id, status)) == rows,
{
}

/// An update that succeeds changes the status of the one row and nothing
/// else: the other rows, and the other fields of that row, are as before.
pub proof fn lemma_update_changes_one_status(
    rows: Seq<SessionView>,
    next_id: i64,
    id: i64,
    status: SessionStatus,
    k: int,
)
    requires
        rows_wf(rows, next_id),
        update_result(rows, id, status) is Ok,
        0 <= k < rows.len(),
    ensures
        rows_with_status(rows, id, status).len() == rows.len(),
        rows[k].id != id ==> rows_with_status(rows, id, status)[k] == rows[k],
        rows[k].id == id ==> rows_with_status(rows, id, status)[k] == with_status(rows[k], status),
        with_status(rows[k], status).id == rows[k].id,
        with_status(rows[k], status).campaign_id == rows[k].campaign_id,
        with_status(rows[k], status).author_id == rows[k].author_id,
        with_status(rows[k], status).created_at == rows[k].created_at,
        with_status(rows[k], status).scheduled_at == rows[k].scheduled_at,
        rows_wf(rows_with_status(rows, id, status), next_id),
{
    let after = rows_with_status(rows, id, status);
    assert forall|i: int| 0 <= i < after.len() implies (#[trigger] after[i]).wf() && 0
        < after[i].id < next_id by {
        assert(rows[i].wf());
    }
    assert forall|i: int, j: int| 0 <= i < j < after.len() implies (#[trigger] after[i]).id != (
    #[trigger] after[j]).id by {
        assert(rows[i].id != rows[j].id);
    }
}

} // verus!
