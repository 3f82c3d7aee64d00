//! The listing of a store: the sessions that are still to come, by
//! ascending date.

use crate::session::{Session, SessionView};
use crate::stamp::{lemma_precedes_is_lexicographic, MinuteStamp};
use crate::store::{rows_wf, session_views, SessionStore};
use vstd::prelude::*;

verus! {

/// A session is listed if it is scheduled after `now` and, where a campaign
/// is asked for, belongs to it.
pub open spec fn is_listed(s: SessionView, campaign: Option<i64>, now: MinuteStamp) -> bool {
    now.precedes(s.scheduled_at) && (campaign matches Some(id) ==> s.campaign_id == id)
}

/// `a` stands before `b` in a listing: the earlier date first, and at the
/// same date the lower id.
pub open spec fn listed_before(a: SessionView, b: SessionView) -> bool {
    a.scheduled_at.precedes(b.scheduled_at) || (a.scheduled_at == b.scheduled_at && a.id < b.id)
}

/// The list ascends strictly in the order of listings.
pub open spec fn ascending(list: Seq<SessionView>) -> bool {
    forall|i: int, j: int|
        0 <= i < j < list.len() ==> listed_before(#[trigger] list[i], #[trigger] list[j])
}

/// `list` is the listing of `rows`: it ascends strictly, each of its
/// entries is a listed row, and each listed row is among its entries.
pub open spec fn is_listing(
    list: Seq<SessionView>,
    rows: Seq<SessionView>,
    campaign: Option<i64>,
    now: MinuteStamp,
) -> bool {
    &&& ascending(list)
    &&& forall|i: int|
        0 <= i < list.len() ==> rows.contains(#[trigger] list[i]) && is_listed(
            list[i],
            campaign,
            now,
        )
    &&& forall|k: int|
        0 <= k < rows.len() && is_listed(#[trigger] rows[k], campaign, now) ==> list.contains(
            rows[k],
        )
}

/// `list` is the listing of `rows` at some minute of the calendar.
pub open spec fn is_listing_at_some_time(
    list: Seq<SessionView>,
    rows: Seq<SessionView>,
    campaign: Option<i64>,
) -> bool {
    exists|now: MinuteStamp| now.wf() && #[trigger] is_listing(list, rows, campaign, now)
}

/// The listing of `rows`. Rows with ids of their own have exactly one: see
/// [`lemma_listing_is_unique`].
pub open spec fn listing_of(rows: Seq<SessionView>, campaign: Option<i64>, now: MinuteStamp) -> Seq<
    SessionView,
> {
    choose|list: Seq<SessionView>| is_listing(list, rows, campaign, now)
}

/// Whether `row` is listed.
fn listed(row: &Session, campaign: Option<i64>, now: &MinuteStamp) -> (b: bool)
    ensures
        b == is_listed(row@, campaign, *now),
{
    if !now.is_before(&row.scheduled_at) {
        return false;
    }
    match campaign {
        Some(id) => row.campaign_id == id,
        None => true,
    }
}

/// Whether `a` stands before `b` in a listing.
fn stands_before(a: &Session, b: &Session) -> (b_: bool)
    ensures
        b_ == listed_before(a@, b@),
{
    let ka = a.scheduled_at.sort_key();
    let kb = b.scheduled_at.sort_key();
    proof {
        lemma_precedes_is_lexicographic(a.scheduled_at, b.scheduled_at);
    }
    ka < kb || (ka == kb && a.id < b.id)
}

/// Putting `row` into an ascending list, behind the entries that stand
/// before it and in front of the others, leaves the list ascending.
proof fn lemma_insert_keeps_order(before: Seq<SessionView>, p: int, row: SessionView)
    requires
        0 <= p <= before.len(),
        ascending(before),
        forall|x: int| 0 <= x < p ==> listed_before(#[trigger] before[x], row),
        p < before.len() ==> !listed_before(before[p], row),
        forall|x: int| 0 <= x < before.len() ==> (#[trigger] before[x]).id != row.id,
    ensures
        ascending(before.insert(p, row)),
{
    let after = before.insert(p, row);
    assert forall|a: int, b: int| 0 <= a < b < after.len() implies listed_before(
        #[trigger] after[a],
        #[trigger] after[b],
    ) by {
        if b < p {
            assert(after[a] == before[a] && after[b] == before[b]);
        } else if b == p {
            assert(after[a] == before[a] && after[b] == row);
        } else if a < p {
            assert(after[a] == before[a] && after[b] == before[b - 1]);
        } else if a == p {
            assert(after[a] == row && after[b] == before[b - 1]);
            lemma_precedes_is_lexicographic(before[p].scheduled_at, row.scheduled_at);
            assert(listed_before(row, before[p]));
            if b - 1 > p {
                assert(listed_before(before[p], before[b - 1]));
            }
        } else {
            assert(after[a] == before[a - 1] && after[b] == before[b - 1]);
        }
    }
}

/// What a list holds after `v` was put in at `p`: what it held, and `v`.
proof fn lemma_insert_contains<A>(s: Seq<A>, p: int, v: A, x: A)
    requires
        0 <= p <= s.len(),
    ensures
        s.insert(p, v).contains(x) <==> s.contains(x) || x == v,
{
    let t = s.insert(p, v);
    if t.contains(x) {
        let a = choose|a: int| 0 <= a < t.len() && t[a] == x;
        if a < p {
            assert(s[a] == x);
        } else if a > p {
            assert(s[a - 1] == x);
        }
    }
    if s.contains(x) {
        let a = choose|a: int| 0 <= a < s.len() && s[a] == x;
        if a < p {
            assert(t[a] == x);
        } else {
            assert(t[a + 1] == x);
        }
    }
    if x == v {
        assert(t[p] == x);
    }
}

/// Puts a copy of `row` into the ascending `list` at its place, and says
/// where that is.
fn place(list: &mut Vec<Session>, row: &Session) -> (p: usize)
    requires
        ascending(session_views(old(list)@)),
        forall|x: int|
            0 <= x < old(list)@.len() ==> (#[trigger] session_views(old(list)@)[x]).id != row@.id,
    ensures
        p <= old(list)@.len(),
        session_views(final(list)@) == session_views(old(list)@).insert(p as int, row@),
        ascending(session_views(final(list)@)),
{
    let mut p: usize = 0;
    while p < list.len() && stands_before(&list[p], row)
        invariant
            p <= list.len(),
            forall|a: int| 0 <= a < p ==> listed_before(#[trigger] session_views(list@)[a], row@),
        decreases list.len() - p,
    {
        assert(session_views(list@)[p as int] == list@[p as int]@);
        p += 1;
    }
    let ghost before = session_views(list@);
    proof {
        if p < list.len() {
            assert(before[p as int] == list@[p as int]@);
        }
        lemma_insert_keeps_order(before, p as int, row@);
    }
    list.insert(p, row.clone());
    assert(session_views(list@) =~= before.insert(p as int, row@));
    p
}

/// The sessions of `store` that are scheduled after `now`, of the campaign
/// `campaign` if one is given, by ascending date.
pub fn upcoming(store: &SessionStore, campaign: Option<i64>, now: &MinuteStamp) -> (list: Vec<
    Session,
>)
    requires
        store.wf(),
    ensures
        is_listing(session_views(list@), store@, campaign, *now),
        session_views(list@) == listing_of(store@, campaign, *now),
        forall|i: int| 0 <= i < list@.len() ==> (#[trigger] list@[i]).wf(),
{
    let mut list: Vec<Session> = Vec::new();
    let mut i: usize = 0;
    while i < store.rows.len()
        invariant
            store.wf(),
            i <= store.rows.len(),
            ascending(session_views(list@)),
            forall|a: int|
                0 <= a < list.len() ==> store@.take(i as int).contains(
                    #[trigger] session_views(list@)[a],
                ) && is_listed(session_views(list@)[a], campaign, *now),
            forall|k: int|
                0 <= k < i && is_listed(#[trigger] store@[k], campaign, *now) ==> session_views(
                    list@,
                ).contains(store@[k]),
        decreases store.rows.len() - i,
    {
        let row = &store.rows[i];
        let ghost before = session_views(list@);
        let ghost seen = store@.take(i as int);
        assert(row@ == store@[i as int]);
        assert(store@.take(i + 1) =~= seen.push(row@));
        if listed(row, campaign, now) {
            proof {
                assert forall|x: int| 0 <= x < before.len() implies (#[trigger] before[x]).id
                    != row@.id by {
                    let k = choose|k: int| 0 <= k < seen.len() && seen[k] == before[x];
                    assert(store@[k].id != store@[i as int].id);
                }
            }
            let p = place(&mut list, row);
            proof {
                let after = session_views(list@);
                assert forall|a: int| 0 <= a < after.len() implies store@.take(i + 1).contains(
                    #[trigger] after[a],
                ) && is_listed(after[a], campaign, *now) by {
                    lemma_insert_contains(before, p as int, row@, after[a]);
                    if after[a] == row@ {
                        assert(seen.push(row@)[i as int] == row@);
                    } else {
                        let b = choose|b: int| 0 <= b < before.len() && before[b] == after[a];
                        let k = choose|k: int| 0 <= k < seen.len() && seen[k] == before[b];
                        assert(seen.push(row@)[k] == after[a]);
                    }
                }
                assert forall|k: int|
                    0 <= k < i + 1 && is_listed(
                        #[trigger] store@[k],
                        campaign,
                        *now,
                    ) implies after.contains(store@[k]) by {
                    lemma_insert_contains(before, p as int, row@, store@[k]);
                }
            }
        } else {
            proof {
                assert forall|a: int| 0 <= a < before.len() implies store@.take(i + 1).contains(
                    #[trigger] before[a],
                ) by {
                    let k = choose|k: int| 0 <= k < seen.len() && seen[k] == before[a];
                    assert(seen.push(row@)[k] == before[a]);
                }
            }
        }
        i += 1;
    }
    proof {
        let views = session_views(list@);
        assert(store@.take(i as int) =~= store@);
        assert(is_listing(views, store@, campaign, *now));
        lemma_listing_is_unique(
            views,
            listing_of(store@, campaign, *now),
            store@,
            store.next_id,
            campaign,
            *now,
        );
        assert forall|a: int| 0 <= a < list@.len() implies (#[trigger] list@[a]).wf() by {
            assert(store@.contains(views[a]));
        }
    }
    list
}

/// Two ascending lists with the same entries are the same list, where an
/// id belongs to one entry only.
proof fn lemma_ascending_same_entries(a: Seq<SessionView>, b: Seq<SessionView>)
    requires
        ascending(a),
        ascending(b),
        forall|x: SessionView| a.contains(x) <==> b.contains(x),
        forall|i: int, j: int|
            0 <= i < a.len() && 0 <= j < b.len() && (#[trigger] a[i]).id == (#[trigger] b[j]).id
                ==> a[i] == b[j],
    ensures
        a == b,
    decreases a.len(),
{
    if a.len() == 0 {
        if b.len() > 0 {
            assert(b.contains(b[0]));
        }
        assert(a =~= b);
    } else {
        if b.len() == 0 {
            assert(a.contains(a[0]));
        }
        let la = a.last();
        let lb = b.last();
        assert(a.contains(la));
        assert(b.contains(lb));
        let i = choose|i: int| 0 <= i < a.len() && a[i] == lb;
        let j = choose|j: int| 0 <= j < b.len() && b[j] == la;
        if i < a.len() - 1 {
            assert(listed_before(a[i], a[a.len() - 1]));
            if j < b.len() - 1 {
                assert(listed_before(b[j], b[b.len() - 1]));
            }
        }
        assert(la == lb);
        let a1 = a.drop_last();
        let b1 = b.drop_last();
        assert forall|x: SessionView| a1.contains(x) <==> b1.contains(x) by {
            if a1.contains(x) {
                let k = choose|k: int| 0 <= k < a1.len() && a1[k] == x;
                assert(listed_before(a[k], a[a.len() - 1]));
                assert(a.contains(x));
                let m = choose|m: int| 0 <= m < b.len() && b[m] == x;
                assert(b1[m] == x);
            }
            if b1.contains(x) {
                let k = choose|k: int| 0 <= k < b1.len() && b1[k] == x;
                assert(listed_before(b[k], b[b.len() - 1]));
                assert(b.contains(x));
                let m = choose|m: int| 0 <= m < a.len() && a[m] == x;
                assert(a1[m] == x);
            }
        }
        assert(ascending(a1)) by {
            assert forall|x: int, y: int| 0 <= x < y < a1.len() implies listed_before(
                #[trigger] a1[x],
                #[trigger] a1[y],
            ) by {
                assert(listed_before(a[x], a[y]));
            }
        }
        assert(ascending(b1)) by {
            assert forall|x: int, y: int| 0 <= x < y < b1.len() implies listed_before(
                #[trigger] b1[x],
                #[trigger] b1[y],
            ) by {
                assert(listed_before(b[x], b[y]));
            }
        }
        assert forall|x: int, y: int|
            0 <= x < a1.len() && 0 <= y < b1.len() && (#[trigger] a1[x]).id == (
            #[trigger] b1[y]).id implies a1[x] == b1[y] by {
            assert(a[x].id == b[y].id);
        }
        lemma_ascending_same_entries(a1, b1);
        assert(a =~= a1.push(la));
        assert(b =~= b1.push(lb));
    }
}

/// A store has one listing only: what a listing holds, and in which order,
/// is decided by the rows, the campaign and the time.
pub proof fn lemma_listing_is_unique(
    a: Seq<SessionView>,
    b: Seq<SessionView>,
    rows: Seq<SessionView>,
    next_id: i64,
    campaign: Option<i64>,
    now: MinuteStamp,
)
    requires
        rows_wf(rows, next_id),
        is_listing(a, rows, campaign, now),
        is_listing(b, rows, campaign, now),
    ensures
        a == b,
{
    assert forall|x: SessionView| a.contains(x) <==> b.contains(x) by {
        if a.contains(x) {
            let i = choose|i: int| 0 <= i < a.len() && a[i] == x;
            assert(rows.contains(a[i]));
            let k = choose|k: int| 0 <= k < rows.len() && rows[k] == x;
            assert(b.contains(rows[k]));
        }
        if b.contains(x) {
            let i = choose|i: int| 0 <= i < b.len() && b[i] == x;
            assert(rows.contains(b[i]));
            let k = choose|k: int| 0 <= k < rows.len() && rows[k] == x;
            assert(a.contains(rows[k]));
        }
    }
    assert forall|i: int, j: int|
        0 <= i < a.len() && 0 <= j < b.len() && (#[trigger] a[i]).id == (
        #[trigger] b[j]).id implies a[i] == b[j] by {
        assert(rows.contains(a[i]));
        assert(rows.contains(b[j]));
        let k = choose|k: int| 0 <= k < rows.len() && rows[k] == a[i];
        let m = choose|m: int| 0 <= m < rows.len() && rows[m] == b[j];
        if k < m {
            assert(rows[k].id != rows[m].id);
        } else if m < k {
            assert(rows[m].id != rows[k].id);
        }
    }
    lemma_ascending_same_entries(a, b);
}

/// The place of `row` in the ascending `list`: behind the entries that
/// stand before it.
spec fn place_of(list: Seq<SessionView>, row: SessionView) -> int
    decreases list.len(),
{
    if list.len() == 0 {
        0
    } else if listed_before(list.last(), row) {
        list.len() as int
    } else {
        place_of(list.drop_last(), row)
    }
}

/// The entries in front of the place of `row` stand before it, and the
/// entry at its place does not.
proof fn lemma_place_of(list: Seq<SessionView>, row: SessionView)
    requires
        ascending(list),
    ensures
        0 <= place_of(list, row) <= list.len(),
        forall|x: int| 0 <= x < place_of(list, row) ==> listed_before(#[trigger] list[x], row),
        place_of(list, row) < list.len() ==> !listed_before(list[place_of(list, row)], row),
    decreases list.len(),
{
    if list.len() == 0 {
    } else if listed_before(list.last(), row) {
        assert forall|x: int| 0 <= x < list.len() implies listed_before(
            #[trigger] list[x],
            row,
        ) by {
            if x < list.len() - 1 {
                assert(listed_before(list[x], list[list.len() - 1]));
            }
        }
    } else {
        let front = list.drop_last();
        assert(ascending(front)) by {
            assert forall|x: int, y: int| 0 <= x < y < front.len() implies listed_before(
                #[trigger] front[x],
                #[trigger] front[y],
            ) by {
                assert(listed_before(list[x], list[y]));
            }
        }
        lemma_place_of(front, row);
        let p = place_of(front, row);
        assert forall|x: int| 0 <= x < p implies listed_before(#[trigger] list[x], row) by {
            assert(front[x] == list[x]);
        }
        if p < front.len() {
            assert(front[p] == list[p]);
        }
    }
}

/// Rows with ids of their own have a listing, for every campaign and time;
/// [`listing_of`] is that listing.
pub proof fn lemma_listing_exists(
    rows: Seq<SessionView>,
    next_id: i64,
    campaign: Option<i64>,
    now: MinuteStamp,
)
    requires
        rows_wf(rows, next_id),
    ensures
        is_listing(listing_of(rows, campaign, now), rows, campaign, now),
    decreases rows.len(),
{
    if rows.len() == 0 {
        assert(is_listing(Seq::<SessionView>::empty(), rows, campaign, now));
    } else {
        let front = rows.drop_last();
        let row = rows.last();
        assert(rows_wf(front, next_id)) by {
            assert forall|i: int| 0 <= i < front.len() implies (#[trigger] front[i]).wf() && 0
                < front[i].id < next_id by {
                assert(front[i] == rows[i]);
            }
            assert forall|i: int, j: int| 0 <= i < j < front.len() implies (
            #[trigger] front[i]).id != (#[trigger] front[j]).id by {
                assert(front[i] == rows[i] && front[j] == rows[j]);
            }
        }
        lemma_listing_exists(front, next_id, campaign, now);
        let before = listing_of(front, campaign, now);
        assert(rows =~= front.push(row));
        if is_listed(row, campaign, now) {
            lemma_place_of(before, row);
            let p = place_of(before, row);
            assert forall|x: int| 0 <= x < before.len() implies (#[trigger] before[x]).id
                != row.id by {
                assert(front.contains(before[x]));
                let k = choose|k: int| 0 <= k < front.len() && front[k] == before[x];
                assert(rows[k].id != rows[rows.len() - 1].id);
            }
            lemma_insert_keeps_order(before, p, row);
            let after = before.insert(p, row);
            assert forall|a: int| 0 <= a < after.len() implies rows.contains(#[trigger] after[a])
                && is_listed(after[a], campaign, now) by {
                lemma_insert_contains(before, p, row, after[a]);
                if after[a] == row {
                    assert(rows[rows.len() - 1] == row);
                } else {
                    let b = choose|b: int| 0 <= b < before.len() && before[b] == after[a];
                    assert(front.contains(before[b]));
                    let k = choose|k: int| 0 <= k < front.len() && front[k] == before[b];
                    assert(rows[k] == after[a]);
                }
            }
            assert forall|k: int|
                0 <= k < rows.len() && is_listed(
                    #[trigger] rows[k],
                    campaign,
                    now,
                ) implies after.contains(rows[k]) by {
                lemma_insert_contains(before, p, row, rows[k]);
                if k < front.len() {
                    assert(front[k] == rows[k]);
                }
            }
            assert(is_listing(after, rows, campaign, now));
        } else {
            assert forall|a: int| 0 <= a < before.len() implies rows.contains(
                #[trigger] before[a],
            ) by {
                assert(front.contains(before[a]));
                let k = choose|k: int| 0 <= k < front.len() && front[k] == before[a];
                assert(rows[k] == before[a]);
            }
            assert forall|k: int|
                0 <= k < rows.len() && is_listed(
                    #[trigger] rows[k],
                    campaign,
                    now,
                ) implies before.contains(rows[k]) by {
                assert(front[k] == rows[k]);
            }
            assert(is_listing(before, rows, campaign, now));
        }
    }
}

/// Nothing is listed from a store without rows: its listing is empty,
/// whatever the campaign and the time.
pub proof fn lemma_empty_store_lists_nothing(
    list: Seq<SessionView>,
    campaign: Option<i64>,
    now: MinuteStamp,
)
    requires
        is_listing(list, Seq::<SessionView>::empty(), campaign, now),
    ensures
        list == Seq::<SessionView>::empty(),
        listing_of(Seq::<SessionView>::empty(), campaign, now) == Seq::<SessionView>::empty(),
{
    let none = Seq::<SessionView>::empty();
    if list.len() > 0 {
        assert(none.contains(list[0]));
    }
    assert(list =~= none);
    let chosen = listing_of(none, campaign, now);
    assert(is_listing(chosen, none, campaign, now));
    if chosen.len() > 0 {
        assert(none.contains(chosen[0]));
    }
    assert(chosen =~= none);
}

} // verus!
