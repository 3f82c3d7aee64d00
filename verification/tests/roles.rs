use dnd_sessions::moderation::{purge, purge_messages, PurgePlan, DEFAULT_PURGE_AMOUNT};
use dnd_sessions::config::{
    author_is_staff, has_role, may_use_commands, welcome, Data, WelcomeDecision,
};

fn data() -> Data {
    Data { welcome_role: 10, staff_role: 20, dnd_role: 30, general_channel: 40 }
}

#[test]
fn a_role_is_held_if_it_is_among_the_roles() {
    assert!(has_role(&vec![1, 2, 3], 2));
    assert!(has_role(&vec![1, 2, 3], 3));
    assert!(!has_role(&vec![1, 2, 3], 4));
    assert!(!has_role(&vec![], 0));
}

#[test]
fn staff_hold_the_staff_role() {
    assert!(author_is_staff(&data(), &vec![10, 20]));
    assert!(!author_is_staff(&data(), &vec![10, 30]));
    assert!(!author_is_staff(&data(), &vec![]));
}

#[test]
fn commands_ask_for_the_welcome_role() {
    assert!(may_use_commands(&data(), &vec![10]));
    assert!(!may_use_commands(&data(), &vec![20, 30]));
}

#[test]
fn a_welcome_is_decided() {
    assert_eq!(welcome(&data(), true, &vec![]), WelcomeDecision::IsBot);
    assert_eq!(welcome(&data(), true, &vec![10]), WelcomeDecision::IsBot);
    assert_eq!(welcome(&data(), false, &vec![20, 10]), WelcomeDecision::AlreadyWelcomed);
    assert_eq!(welcome(&data(), false, &vec![20]), WelcomeDecision::GrantRole(10));
    assert_eq!(welcome(&data(), false, &vec![]), WelcomeDecision::GrantRole(10));
}

#[test]
fn a_purge_deletes_what_is_asked_for() {
    assert_eq!(DEFAULT_PURGE_AMOUNT, 100);
    assert_eq!(purge(None, None), PurgePlan::Latest(100));
    assert_eq!(purge(Some(7), None), PurgePlan::Latest(7));
    assert_eq!(purge(Some(7), Some(false)), PurgePlan::Latest(7));
    assert_eq!(purge(Some(7), Some(true)), PurgePlan::Everything);
    assert_eq!(purge(None, Some(true)), PurgePlan::Everything);
    assert_eq!(purge(None, Some(false)), PurgePlan::Latest(100));
    assert_eq!(purge_messages(5, "."), 6);
    assert_eq!(purge_messages(5, "/"), 5);
    assert_eq!(purge_messages(5, ""), 5);
    assert_eq!(purge_messages(5, ".."), 5);
    assert_eq!(purge_messages(usize::MAX, "."), usize::MAX);
}
