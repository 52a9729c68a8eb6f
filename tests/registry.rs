use modern_auth_service::task_manager::{TaskAction, TaskManager, TaskMessage, IDLE_TIMEOUT_MS};

const KEY: &str = "Process NameMicrosoftDeviceCodeFlow";

fn check(m: &mut TaskManager, now: u64) -> bool {
    match m.handle(TaskMessage::Check(KEY.to_string()), now) {
        TaskAction::Reply(b) => b,
        _ => panic!("check must reply"),
    }
}

fn login(m: &mut TaskManager, id: u64, now: u64) -> Vec<u64> {
    let mut cancelled = Vec::new();
    if check(m, now) {
        if let TaskAction::Cancel(old) = m.handle(TaskMessage::Abort(KEY.to_string()), now) {
            cancelled.push(old);
        }
    }
    if let TaskAction::Cancel(x) = m.handle(TaskMessage::Add(KEY.to_string(), id), now) {
        cancelled.push(x);
    }
    cancelled
}

#[test]
fn check_is_true_between_add_and_done() {
    let mut m = TaskManager::new(0);
    assert!(!check(&mut m, 1));
    assert!(matches!(m.handle(TaskMessage::Add(KEY.to_string(), 7), 2), TaskAction::Nothing));
    assert!(check(&mut m, 3));
    assert!(matches!(m.handle(TaskMessage::PollingDone(KEY.to_string(), 7), 4), TaskAction::Nothing));
    assert!(!check(&mut m, 5));
    assert_eq!(m.len(), 0);
}

#[test]
fn abort_cancels_the_registered_session() {
    let mut m = TaskManager::new(0);
    m.handle(TaskMessage::Add(KEY.to_string(), 7), 1);
    assert!(matches!(m.handle(TaskMessage::Abort(KEY.to_string()), 2), TaskAction::Cancel(7)));
    assert!(!check(&mut m, 3));
    assert!(matches!(m.handle(TaskMessage::Abort(KEY.to_string()), 4), TaskAction::Nothing));
}

#[test]
fn add_does_not_replace_a_running_session() {
    let mut m = TaskManager::new(0);
    m.handle(TaskMessage::Add(KEY.to_string(), 1), 1);
    assert!(matches!(m.handle(TaskMessage::Add(KEY.to_string(), 2), 2), TaskAction::Cancel(2)));
    assert!(matches!(m.handle(TaskMessage::Abort(KEY.to_string()), 3), TaskAction::Cancel(1)));
}

#[test]
fn done_of_a_replaced_session_keeps_the_new_one() {
    let mut m = TaskManager::new(0);
    m.handle(TaskMessage::Add(KEY.to_string(), 1), 1);
    m.handle(TaskMessage::Abort(KEY.to_string()), 2);
    m.handle(TaskMessage::Add(KEY.to_string(), 2), 3);
    m.handle(TaskMessage::PollingDone(KEY.to_string(), 1), 4);
    assert!(check(&mut m, 5));
}

#[test]
fn two_logins_leave_one_session() {
    let mut m = TaskManager::new(0);
    assert!(login(&mut m, 1, 1).is_empty());
    assert_eq!(login(&mut m, 2, 2), vec![1]);
    assert_eq!(m.len(), 1);
    assert!(matches!(m.handle(TaskMessage::Abort(KEY.to_string()), 3), TaskAction::Cancel(2)));
}

#[test]
fn overlapping_logins_leave_one_session() {
    let mut m = TaskManager::new(0);
    assert!(!check(&mut m, 1));
    assert!(!check(&mut m, 1));
    assert!(matches!(m.handle(TaskMessage::Add(KEY.to_string(), 1), 2), TaskAction::Nothing));
    assert!(matches!(m.handle(TaskMessage::Add(KEY.to_string(), 2), 2), TaskAction::Cancel(2)));
    assert_eq!(m.len(), 1);
}

#[test]
fn events_are_forwarded_and_quit_stops() {
    let mut m = TaskManager::new(0);
    match m.handle(TaskMessage::SendEvent("token.ready".to_string(), "{}".to_string()), 1) {
        TaskAction::Publish(t, p) => {
            assert_eq!(t, "token.ready");
            assert_eq!(p, "{}");
        }
        _ => panic!("event must be published"),
    }
    assert!(matches!(m.handle(TaskMessage::Quit, 2), TaskAction::Stop));
}

#[test]
fn idle_empty_registry_stops() {
    let mut m = TaskManager::new(1_000);
    assert_eq!(m.deadline(), 1_000 + IDLE_TIMEOUT_MS);
    assert!(!m.on_idle_deadline(1_000 + IDLE_TIMEOUT_MS - 1));
    assert!(m.on_idle_deadline(1_000 + IDLE_TIMEOUT_MS));
}

#[test]
fn idle_with_sessions_keeps_running() {
    let mut m = TaskManager::new(0);
    m.handle(TaskMessage::Add(KEY.to_string(), 1), 0);
    assert!(!m.on_idle_deadline(IDLE_TIMEOUT_MS));
    assert_eq!(m.deadline(), 2 * IDLE_TIMEOUT_MS);
    m.handle(TaskMessage::PollingDone(KEY.to_string(), 1), 2 * IDLE_TIMEOUT_MS);
    assert!(m.on_idle_deadline(3 * IDLE_TIMEOUT_MS));
}

#[test]
fn activity_moves_the_deadline() {
    let mut m = TaskManager::new(0);
    m.handle(TaskMessage::ResetInactivityTimer, 500);
    assert_eq!(m.deadline(), 500 + IDLE_TIMEOUT_MS);
    assert!(!m.on_idle_deadline(IDLE_TIMEOUT_MS));
    let mut late = TaskManager::new(u64::MAX - 5);
    assert_eq!(late.deadline(), u64::MAX);
    assert!(!late.on_idle_deadline(u64::MAX));
}

#[test]
fn check_follows_the_history_of_a_key() {
    let mut m = TaskManager::new(0);
    m.handle(TaskMessage::Add(KEY.to_string(), 1), 1);
    m.handle(TaskMessage::Add("other".to_string(), 2), 2);
    m.handle(TaskMessage::PollingDone("other".to_string(), 2), 3);
    assert!(check(&mut m, 4));
    m.handle(TaskMessage::PollingDone(KEY.to_string(), 1), 5);
    assert!(!check(&mut m, 6));
    m.handle(TaskMessage::Add(KEY.to_string(), 3), 7);
    assert!(check(&mut m, 8));
    m.handle(TaskMessage::Abort(KEY.to_string()), 9);
    assert!(!check(&mut m, 10));
}
