use dnd_sessions::page::{render_placeholder, Page};
use dnd_sessions::pagination::{
    Direction, NavigationEvent, Outcome, PaginationController, ViewerState, IDLE_LIMIT_SECONDS,
};

fn pages(n: usize) -> Vec<Page> {
    (0..n).map(|i| Page { title: format!("page {}", i), body: String::from("Pending") }).collect()
}

fn viewer(n: usize) -> PaginationController {
    PaginationController::new(String::from("owner"), String::from("viewer-1"), pages(n), 1000)
}

fn press(user: &str, viewer: &str, direction: Direction) -> NavigationEvent {
    NavigationEvent {
        correlation_id: String::from(viewer),
        user_id: String::from(user),
        direction,
    }
}

fn next() -> NavigationEvent {
    press("owner", "viewer-1", Direction::Next)
}

fn previous() -> NavigationEvent {
    press("owner", "viewer-1", Direction::Previous)
}

#[test]
fn a_viewer_has_as_many_pages_as_results_but_at_least_one() {
    for n in 0..10usize {
        let c = viewer(n);
        assert_eq!(c.page_count(), n.max(1));
        assert_eq!(c.current_index, 0);
        assert!(!c.is_expired());
        assert_eq!(c.navigable, n > 0);
        assert_eq!(c.created_at, 1000);
        assert_eq!(c.last_accepted_at, 1000);
        assert_eq!(c.owner_id, "owner");
        assert_eq!(c.correlation_id, "viewer-1");
    }
    assert_eq!(viewer(3).pages, pages(3));
}

#[test]
fn a_viewer_without_results_shows_the_placeholder() {
    let mut c = viewer(0);
    assert_eq!(c.pages, vec![render_placeholder()]);
    assert_eq!(c.current_page(), &render_placeholder());
    assert_eq!(c.handle(&next(), 1001), Outcome::Ignored);
    assert_eq!(c.handle(&previous(), 1002), Outcome::Ignored);
    assert_eq!(c.current_index, 0);
    assert_eq!(c.last_accepted_at, 1000);
    assert!(!c.is_expired());
}

#[test]
fn next_comes_back_to_the_first_page_after_as_many_presses_as_pages() {
    for n in 1..8usize {
        let mut c = viewer(n);
        for k in 1..=n {
            let outcome = c.handle(&next(), 1000 + k as u64);
            assert_eq!(outcome, Outcome::Show(k % n));
            assert_eq!(c.current_index, k % n);
            if k < n {
                assert_ne!(c.current_index, 0);
            }
        }
        assert_eq!(c.current_index, 0);
    }
}

#[test]
fn previous_from_the_first_page_shows_the_last() {
    for n in 1..8usize {
        let mut c = viewer(n);
        assert_eq!(c.handle(&previous(), 1001), Outcome::Show(n - 1));
        assert_eq!(c.current_index, n - 1);
        assert_eq!(c.current_page(), &pages(n)[n - 1]);
        assert_eq!(c.handle(&next(), 1002), Outcome::Show(0));
    }
}

#[test]
fn previous_goes_round_the_other_way() {
    let mut c = viewer(4);
    let mut seen = Vec::new();
    for k in 0..4u64 {
        c.handle(&previous(), 1001 + k);
        seen.push(c.current_index);
    }
    assert_eq!(seen, vec![3, 2, 1, 0]);
}

#[test]
fn next_and_previous_undo_each_other() {
    let mut c = viewer(5);
    c.handle(&next(), 1001);
    c.handle(&next(), 1002);
    assert_eq!(c.current_index, 2);
    c.handle(&previous(), 1003);
    assert_eq!(c.current_index, 1);
    c.handle(&next(), 1004);
    assert_eq!(c.current_index, 2);
    assert_eq!(c.current_page(), &pages(5)[2]);
}

#[test]
fn a_single_page_turns_onto_itself() {
    let mut c = viewer(1);
    assert_eq!(c.handle(&next(), 1001), Outcome::Show(0));
    assert_eq!(c.handle(&previous(), 1002), Outcome::Show(0));
    assert_eq!(c.last_accepted_at, 1002);
}

#[test]
fn another_user_cannot_turn_the_page() {
    let mut c = viewer(3);
    c.handle(&next(), 1001);
    for user in ["stranger", "", "Owner", "owner ", "owne"] {
        assert_eq!(c.handle(&press(user, "viewer-1", Direction::Next), 1002), Outcome::Ignored);
        assert_eq!(c.handle(&press(user, "viewer-1", Direction::Previous), 1002), Outcome::Ignored);
        assert_eq!(c.current_index, 1);
        assert_eq!(c.last_accepted_at, 1001);
    }
}

#[test]
fn an_event_for_another_viewer_is_ignored() {
    let mut c = viewer(3);
    assert_eq!(c.handle(&press("owner", "viewer-2", Direction::Next), 1001), Outcome::Ignored);
    assert_eq!(c.handle(&press("owner", "", Direction::Previous), 1001), Outcome::Ignored);
    assert_eq!(c.current_index, 0);
    assert_eq!(c.last_accepted_at, 1000);
}

#[test]
fn an_ignored_event_does_not_count_as_activity() {
    let mut c = viewer(3);
    assert_eq!(c.handle(&press("stranger", "viewer-1", Direction::Next), 1100), Outcome::Ignored);
    assert_eq!(c.seconds_left(1100), 80);
    assert_eq!(c.handle(&next(), 1180), Outcome::Expired);
}

#[test]
fn a_viewer_expires_after_the_idle_limit() {
    assert_eq!(IDLE_LIMIT_SECONDS, 180);
    let mut c = viewer(3);
    assert_eq!(c.handle(&next(), 1179), Outcome::Show(1));
    assert_eq!(c.handle(&next(), 1179 + 179), Outcome::Show(2));
    assert_eq!(c.handle(&next(), 1358 + 180), Outcome::Expired);
    assert!(c.is_expired());
    assert_eq!(c.current_index, 2);
    assert_eq!(c.last_accepted_at, 1358);
}

#[test]
fn an_expired_viewer_ignores_everything() {
    let mut c = viewer(3);
    c.handle(&next(), 1001);
    assert_eq!(c.tick(1181), Outcome::Expired);
    assert!(c.is_expired());
    for now in [1181, 1182, 5000, 0, 1001] {
        assert_eq!(c.handle(&next(), now), Outcome::Ignored);
        assert_eq!(c.handle(&previous(), now), Outcome::Ignored);
        assert_eq!(c.tick(now), Outcome::Ignored);
        assert_eq!(c.current_index, 1);
        assert_eq!(c.last_accepted_at, 1001);
        assert!(c.is_expired());
        assert_eq!(c.seconds_left(now), 0);
    }
}

#[test]
fn a_viewer_expires_at_any_event_that_comes_too_late() {
    let mut c = viewer(3);
    assert_eq!(c.handle(&press("stranger", "viewer-9", Direction::Next), 1180), Outcome::Expired);
    assert!(c.is_expired());
    let mut empty = viewer(0);
    assert_eq!(empty.handle(&next(), 1180), Outcome::Expired);
    assert!(empty.is_expired());
}

#[test]
fn tick_expires_only_an_idle_viewer() {
    let mut c = viewer(2);
    assert_eq!(c.tick(1000), Outcome::Ignored);
    assert_eq!(c.tick(1179), Outcome::Ignored);
    assert_eq!(c.tick(0), Outcome::Ignored);
    assert!(!c.is_expired());
    assert_eq!(c.tick(1180), Outcome::Expired);
    assert!(c.is_expired());
    assert_eq!(c.tick(1180), Outcome::Ignored);
    assert_eq!(c.current_index, 0);
}

#[test]
fn the_wait_is_counted_from_the_last_accepted_event() {
    let mut c = viewer(2);
    assert_eq!(c.seconds_left(1000), 180);
    assert_eq!(c.seconds_left(1001), 179);
    assert_eq!(c.seconds_left(1179), 1);
    assert_eq!(c.seconds_left(1180), 0);
    assert_eq!(c.seconds_left(9999), 0);
    assert_eq!(c.seconds_left(500), 180);
    c.handle(&next(), 1100);
    assert_eq!(c.seconds_left(1100), 180);
    assert_eq!(c.seconds_left(1279), 1);
    assert_eq!(c.seconds_left(1280), 0);
}

#[test]
fn the_first_page_is_shown_first() {
    let c = viewer(3);
    assert_eq!(c.current_page(), &pages(3)[0]);
    assert_eq!(c.current_page().clone(), pages(3)[0]);
}

#[test]
fn a_viewer_is_active_until_it_expires() {
    let mut c = viewer(3);
    assert_eq!(c.state(), ViewerState::Active(0));
    c.handle(&next(), 1001);
    assert_eq!(c.state(), ViewerState::Active(1));
    c.handle(&press("stranger", "viewer-1", Direction::Next), 1002);
    assert_eq!(c.state(), ViewerState::Active(1));
    c.tick(1181);
    assert_eq!(c.state(), ViewerState::Expired);
    c.handle(&next(), 1182);
    assert_eq!(c.state(), ViewerState::Expired);
    assert_eq!(viewer(0).state(), ViewerState::Active(0));
}

#[test]
fn a_viewer_put_together_by_hand_can_be_tested() {
    let mut c = viewer(2);
    assert!(c.is_valid());
    c.current_index = 2;
    assert!(!c.is_valid());
    c.current_index = 1;
    assert!(c.is_valid());
    c.pages.clear();
    assert!(!c.is_valid());
    assert!(viewer(0).is_valid());
}
