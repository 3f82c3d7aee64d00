use dnd_sessions::campaign::{Campaign, CampaignRegistry};
use dnd_sessions::error::SchedulerError;
use dnd_sessions::session::Session;
use dnd_sessions::stamp::MinuteStamp;
use dnd_sessions::status::SessionStatus;
use dnd_sessions::store::SessionStore;

fn stamp(text: &str) -> MinuteStamp {
    MinuteStamp::parse(text).unwrap()
}

fn registry() -> CampaignRegistry {
    let mut registry = CampaignRegistry::new();
    registry
        .add(Campaign {
            id: 1,
            dm_id: String::from("178"),
            name: String::from("Curse of Strahd"),
            description: String::new(),
        })
        .unwrap();
    registry
}

fn row(id: i64, status: SessionStatus, scheduled: &str) -> Session {
    Session {
        id,
        campaign_id: 1,
        author_id: String::from("42"),
        status,
        created_at: stamp("2024-01-01 00:00"),
        scheduled_at: stamp(scheduled),
    }
}

#[test]
fn status_codes_decode() {
    assert_eq!(SessionStatus::from_code(0), SessionStatus::Pending);
    assert_eq!(SessionStatus::from_code(1), SessionStatus::Accepted);
    assert_eq!(SessionStatus::from_code(2), SessionStatus::Cancelled);
    assert_eq!(SessionStatus::from_code(3), SessionStatus::Unknown);
    assert_eq!(SessionStatus::from_code(-1), SessionStatus::Unknown);
    assert_eq!(SessionStatus::from_code(i64::MAX), SessionStatus::Unknown);
    assert_eq!(SessionStatus::from_code(i64::MIN), SessionStatus::Unknown);
}

#[test]
fn status_codes_encode() {
    assert_eq!(SessionStatus::Pending.code(), Some(0));
    assert_eq!(SessionStatus::Accepted.code(), Some(1));
    assert_eq!(SessionStatus::Cancelled.code(), Some(2));
    assert_eq!(SessionStatus::Unknown.code(), None);
    for status in [SessionStatus::Pending, SessionStatus::Accepted, SessionStatus::Cancelled] {
        assert_eq!(SessionStatus::from_code(status.code().unwrap()), status);
    }
}

#[test]
fn status_labels() {
    assert_eq!(SessionStatus::Pending.label(), "Pending");
    assert_eq!(SessionStatus::Accepted.label(), "Accepted");
    assert_eq!(SessionStatus::Cancelled.label(), "Cancelled");
    assert_eq!(SessionStatus::Unknown.label(), "Unknown");
    assert_eq!(row(1, SessionStatus::from_code(9), "2999-01-01 10:00").status_translation(), "Unknown");
    assert_eq!(row(1, SessionStatus::Accepted, "2999-01-01 10:00").status_translation(), "Accepted");
}

#[test]
fn only_cancelled_is_terminal() {
    assert!(SessionStatus::Cancelled.is_terminal());
    assert!(!SessionStatus::Pending.is_terminal());
    assert!(!SessionStatus::Accepted.is_terminal());
    assert!(!SessionStatus::Unknown.is_terminal());
}

#[test]
fn a_row_becomes_a_session() {
    let session = Session::new(
        &registry(),
        5,
        1,
        String::from("42"),
        1,
        "2024-01-01 00:00",
        "2999-01-01 10:00",
    );
    assert_eq!(session, Ok(row(5, SessionStatus::Accepted, "2999-01-01 10:00")));
}

#[test]
fn a_row_with_a_strange_status_is_unknown() {
    let session =
        Session::new(&registry(), 5, 1, String::from("42"), 17, "2024-01-01 00:00", "2999-01-01 10:00")
            .unwrap();
    assert_eq!(session.status, SessionStatus::Unknown);
}

#[test]
fn a_row_of_an_unknown_campaign_is_refused() {
    let session = Session::new(
        &registry(),
        5,
        2,
        String::from("42"),
        0,
        "2024-01-01 00:00",
        "2999-01-01 10:00",
    );
    assert_eq!(session, Err(SchedulerError::CampaignNotFound));
    let session = Session::new(&registry(), 5, 2, String::from("42"), 0, "never", "2999-01-01 10:00");
    assert_eq!(session, Err(SchedulerError::CampaignNotFound));
}

#[test]
fn a_row_with_an_unreadable_date_is_refused() {
    let r = registry();
    assert_eq!(
        Session::new(&r, 5, 1, String::from("42"), 0, "2024-01-01", "2999-01-01 10:00"),
        Err(SchedulerError::InvalidDateFormat)
    );
    assert_eq!(
        Session::new(&r, 5, 1, String::from("42"), 0, "2024-01-01 00:00", "2999-02-30 10:00"),
        Err(SchedulerError::InvalidDateFormat)
    );
    assert_eq!(
        Session::new(&r, 5, 1, String::from("42"), 0, "2024-01-01 00:00:00", "2999-01-01 10:00:00"),
        Err(SchedulerError::InvalidDateFormat)
    );
}

#[test]
fn a_new_store_is_empty() {
    let store = SessionStore::new();
    assert_eq!(store.len(), 0);
    assert_eq!(store.next_id, 1);
    assert_eq!(store.get(1), Err(SchedulerError::SessionNotFound));
}

#[test]
fn inserted_rows_get_ids_in_turn() {
    let mut store = SessionStore::new();
    let a = store
        .insert(1, String::from("42"), stamp("2024-01-01 00:00"), stamp("2999-01-01 10:00"))
        .unwrap();
    let b = store
        .insert(1, String::from("43"), stamp("2024-01-01 00:00"), stamp("2998-01-01 10:00"))
        .unwrap();
    assert_eq!(a, row(1, SessionStatus::Pending, "2999-01-01 10:00"));
    assert_eq!(b.id, 2);
    assert_eq!(b.author_id, "43");
    assert_eq!(b.status, SessionStatus::Pending);
    assert_eq!(store.len(), 2);
    assert_eq!(store.next_id, 3);
    assert_eq!(store.get(1), Ok(&a));
    assert_eq!(store.get(2), Ok(&b));
    assert_eq!(store.get(3), Err(SchedulerError::SessionNotFound));
    assert_eq!(store.rows, vec![a, b]);
}

#[test]
fn a_full_store_takes_no_new_row() {
    let mut store = SessionStore::new();
    assert_eq!(store.restore(row(i64::MAX - 1, SessionStatus::Pending, "2999-01-01 10:00")), Ok(()));
    assert_eq!(store.next_id, i64::MAX);
    assert_eq!(
        store.insert(1, String::from("42"), stamp("2024-01-01 00:00"), stamp("2999-01-01 10:00")),
        Err(SchedulerError::Persistence)
    );
    assert_eq!(store.len(), 1);
    assert_eq!(store.next_id, i64::MAX);
}

#[test]
fn restored_rows_keep_their_ids() {
    let mut store = SessionStore::new();
    assert_eq!(store.restore(row(10, SessionStatus::Accepted, "2999-01-01 10:00")), Ok(()));
    assert_eq!(store.restore(row(3, SessionStatus::Cancelled, "2998-01-01 10:00")), Ok(()));
    assert_eq!(store.next_id, 11);
    assert_eq!(store.len(), 2);
    assert_eq!(store.get(10).unwrap().status, SessionStatus::Accepted);
    assert_eq!(store.get(3).unwrap().status, SessionStatus::Cancelled);
    let next = store
        .insert(1, String::from("42"), stamp("2024-01-01 00:00"), stamp("2999-01-01 10:00"))
        .unwrap();
    assert_eq!(next.id, 11);
}

#[test]
fn a_row_that_cannot_be_kept_is_not_restored() {
    let mut store = SessionStore::new();
    assert_eq!(store.restore(row(4, SessionStatus::Pending, "2999-01-01 10:00")), Ok(()));
    for bad in [
        row(4, SessionStatus::Accepted, "2998-01-01 10:00"),
        row(0, SessionStatus::Pending, "2999-01-01 10:00"),
        row(-3, SessionStatus::Pending, "2999-01-01 10:00"),
        row(i64::MAX, SessionStatus::Pending, "2999-01-01 10:00"),
        Session {
            scheduled_at: MinuteStamp { year: 2999, month: 2, day: 30, hour: 0, minute: 0 },
            ..row(5, SessionStatus::Pending, "2999-01-01 10:00")
        },
        Session {
            created_at: MinuteStamp { year: 2999, month: 1, day: 1, hour: 24, minute: 0 },
            ..row(5, SessionStatus::Pending, "2999-01-01 10:00")
        },
    ] {
        assert_eq!(store.restore(bad), Err(SchedulerError::Persistence));
        assert_eq!(store.len(), 1);
        assert_eq!(store.next_id, 5);
        assert_eq!(store.get(4).unwrap().status, SessionStatus::Pending);
    }
}

#[test]
fn a_status_is_set_on_one_row_only() {
    let mut store = SessionStore::new();
    store.restore(row(1, SessionStatus::Pending, "2999-01-01 10:00")).unwrap();
    store.restore(row(2, SessionStatus::Pending, "2998-01-01 10:00")).unwrap();
    assert_eq!(store.set_status(2, SessionStatus::Accepted), Ok(()));
    assert_eq!(store.get(1), Ok(&row(1, SessionStatus::Pending, "2999-01-01 10:00")));
    assert_eq!(store.get(2), Ok(&row(2, SessionStatus::Accepted, "2998-01-01 10:00")));
    assert_eq!(store.set_status(3, SessionStatus::Accepted), Err(SchedulerError::SessionNotFound));
    assert_eq!(store.len(), 2);
    assert_eq!(store.next_id, 3);
}

#[test]
fn a_status_follows_the_lifecycle() {
    let mut store = SessionStore::new();
    store.restore(row(1, SessionStatus::Pending, "2999-01-01 10:00")).unwrap();
    store.restore(row(2, SessionStatus::Unknown, "2998-01-01 10:00")).unwrap();
    assert_eq!(store.set_status(1, SessionStatus::Unknown), Err(SchedulerError::InvalidState));
    assert_eq!(store.set_status(1, SessionStatus::Accepted), Ok(()));
    assert_eq!(store.set_status(1, SessionStatus::Pending), Ok(()));
    assert_eq!(store.set_status(1, SessionStatus::Pending), Ok(()));
    assert_eq!(store.set_status(2, SessionStatus::Pending), Ok(()));
    assert_eq!(store.set_status(1, SessionStatus::Cancelled), Ok(()));
    for status in [
        SessionStatus::Pending,
        SessionStatus::Accepted,
        SessionStatus::Cancelled,
        SessionStatus::Unknown,
    ] {
        assert_eq!(store.set_status(1, status), Err(SchedulerError::InvalidState));
        assert_eq!(store.get(1), Ok(&row(1, SessionStatus::Cancelled, "2999-01-01 10:00")));
    }
    assert_eq!(store.set_status(9, SessionStatus::Unknown), Err(SchedulerError::SessionNotFound));
    assert_eq!(store.get(2), Ok(&row(2, SessionStatus::Pending, "2998-01-01 10:00")));
}

#[test]
fn a_status_allows_what_the_lifecycle_allows() {
    let all = [
        SessionStatus::Pending,
        SessionStatus::Accepted,
        SessionStatus::Cancelled,
        SessionStatus::Unknown,
    ];
    for from in all {
        for to in all {
            let expected = from != SessionStatus::Cancelled && to != SessionStatus::Unknown;
            assert_eq!(from.allows(to), expected);
        }
    }
}

#[test]
fn deleting_all_counts_the_rows() {
    let mut store = SessionStore::new();
    assert_eq!(store.delete_all(), 0);
    store.restore(row(1, SessionStatus::Pending, "2999-01-01 10:00")).unwrap();
    store.restore(row(2, SessionStatus::Cancelled, "2998-01-01 10:00")).unwrap();
    assert_eq!(store.delete_all(), 2);
    assert_eq!(store.len(), 0);
    assert_eq!(store.next_id, 3);
    assert_eq!(store.get(1), Err(SchedulerError::SessionNotFound));
    assert_eq!(store.delete_all(), 0);
}

#[test]
fn a_copy_of_a_session_is_equal_to_it() {
    let a = row(1, SessionStatus::Pending, "2999-01-01 10:00");
    assert_eq!(a.clone(), a);
}

#[test]
fn a_store_put_together_by_hand_can_be_tested() {
    let good = SessionStore {
        rows: vec![
            row(2, SessionStatus::Pending, "2999-01-01 10:00"),
            row(1, SessionStatus::Pending, "2999-01-01 10:00"),
        ],
        next_id: 3,
    };
    assert!(good.is_valid());
    assert!(SessionStore::new().is_valid());
    let twice = SessionStore {
        rows: vec![
            row(2, SessionStatus::Pending, "2999-01-01 10:00"),
            row(1, SessionStatus::Pending, "2999-01-01 10:00"),
            row(2, SessionStatus::Accepted, "2998-01-01 10:00"),
        ],
        next_id: 3,
    };
    assert!(!twice.is_valid());
    let beyond = SessionStore { rows: vec![row(3, SessionStatus::Pending, "2999-01-01 10:00")], next_id: 3 };
    assert!(!beyond.is_valid());
    let zero = SessionStore { rows: vec![row(0, SessionStatus::Pending, "2999-01-01 10:00")], next_id: 3 };
    assert!(!zero.is_valid());
    let no_next = SessionStore { rows: vec![], next_id: 0 };
    assert!(!no_next.is_valid());
    let bad_date = SessionStore {
        rows: vec![Session {
            scheduled_at: MinuteStamp { year: 2999, month: 2, day: 30, hour: 0, minute: 0 },
            ..row(1, SessionStatus::Pending, "2999-01-01 10:00")
        }],
        next_id: 2,
    };
    assert!(!bad_date.is_valid());
    assert!(!bad_date.rows[0].is_valid());
    assert!(good.rows[0].is_valid());
}
