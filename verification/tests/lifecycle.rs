use capstone::error::ErrorCode;
use capstone::issue_book::Issue;
use capstone::records::EventRecords;
use capstone::registry::Registry;

fn issue(issue_id: u64, points: u64) -> Issue {
    Issue { issue_id, resolved_status: false, contributor: None, points, resolved_at: None }
}

fn event(maintainer: u64) -> EventRecords {
    EventRecords::new(7, "launch week".to_string(), 0, 100, maintainer, [5000, 3000, 2000], Some(9))
}

#[test]
fn create_event_is_callable_at_most_once() {
    let mut reg = Registry::new();
    let r = reg.create_event(1, "a".to_string(), 0, 10, 42, [5000, 3000, 2000], Some(9), 1000);
    assert_eq!(r, Ok(()));
    let again = reg.create_event(1, "b".to_string(), 5, 20, 43, [100, 100, 100], None, 5);
    assert_eq!(again, Err(ErrorCode::InvalidEventId));
    assert_eq!(reg.events.len(), 1);
    let other = reg.create_event(2, "c".to_string(), 0, 10, 42, [5000, 3000, 2000], None, 7);
    assert_eq!(other, Ok(()));
    assert_eq!(reg.events.len(), 2);
}

#[test]
fn create_event_initializes_all_records() {
    let mut reg = Registry::new();
    let r = reg.create_event(9, "ev".to_string(), 3, 90, 42, [1000, 2000, 3000], Some(5), 250);
    assert_eq!(r, Ok(()));
    let e = &reg.events[0];
    assert_eq!(e.event.event_id, 9);
    assert_eq!(e.event.event_name, "ev");
    assert_eq!(e.event.maintainer, 42);
    assert_eq!(e.event.start_date, 3);
    assert_eq!(e.event.end_date, 90);
    assert_eq!(e.event.rewards_split_percentage, [1000, 2000, 3000]);
    assert_eq!(e.event.collectible_id, Some(5));
    assert!(e.issue_book.issues.is_empty());
    assert!(e.leaderboard.entries.is_empty());
    assert_eq!(e.leaderboard.last_updated, 3);
    assert!(e.winners.is_none());
    assert_eq!(e.escrow.balance, 250);
    assert!(e.escrow.collectible_held);
}

#[test]
fn create_event_without_collectible_leaves_holding_empty() {
    let mut reg = Registry::new();
    let r = reg.create_event(9, "ev".to_string(), 3, 90, 42, [1000, 2000, 3000], None, 250);
    assert_eq!(r, Ok(()));
    assert!(!reg.events[0].escrow.collectible_held);
}

#[test]
fn find_event_reports_position() {
    let mut reg = Registry::new();
    reg.create_event(4, "x".to_string(), 0, 1, 1, [0, 0, 0], None, 0).unwrap();
    reg.create_event(6, "y".to_string(), 0, 1, 1, [0, 0, 0], None, 0).unwrap();
    assert_eq!(reg.find_event(6), Some(1));
    assert_eq!(reg.find_event(5), None);
    assert!(reg.contains_event(4));
    assert!(!reg.contains_event(5));
}

#[test]
fn added_issues_start_unresolved_whatever_the_caller_sent() {
    let mut rec = event(42);
    let preset = Issue {
        issue_id: 1,
        resolved_status: true,
        contributor: Some(99),
        points: 10,
        resolved_at: Some(77),
    };
    assert_eq!(rec.add_issue(42, vec![preset, issue(2, 7)]), Ok(()));
    assert_eq!(rec.issue_book.issues.len(), 2);
    let stored = &rec.issue_book.issues[0];
    assert_eq!(stored.issue_id, 1);
    assert_eq!(stored.points, 10);
    assert!(!stored.resolved_status);
    assert_eq!(stored.contributor, None);
    assert_eq!(stored.resolved_at, None);
}

#[test]
fn add_issue_requires_the_maintainer() {
    let mut rec = event(42);
    assert_eq!(rec.add_issue(41, vec![issue(1, 10)]), Err(ErrorCode::UnauthorizedMaintainer));
    assert!(rec.issue_book.issues.is_empty());
}

#[test]
fn add_issue_rejects_duplicate_ids_whole() {
    let mut rec = event(42);
    assert_eq!(rec.add_issue(42, vec![issue(1, 10)]), Ok(()));
    assert_eq!(
        rec.add_issue(42, vec![issue(2, 5), issue(1, 3)]),
        Err(ErrorCode::InvalidIssueId)
    );
    assert_eq!(
        rec.add_issue(42, vec![issue(3, 5), issue(3, 3)]),
        Err(ErrorCode::InvalidIssueId)
    );
    assert_eq!(rec.issue_book.issues.len(), 1);
}

#[test]
fn resolve_marks_the_issue_and_credits_the_contributor() {
    let mut rec = event(42);
    rec.add_issue(42, vec![issue(1, 10), issue(2, 7)]).unwrap();
    assert_eq!(rec.resolve_issue(42, 1, 100, 55), Ok(()));
    let done = &rec.issue_book.issues[0];
    assert!(done.resolved_status);
    assert_eq!(done.contributor, Some(100));
    assert_eq!(done.resolved_at, Some(55));
    assert_eq!(rec.leaderboard.entries.len(), 1);
    assert_eq!(rec.leaderboard.entries[0].contributor, 100);
    assert_eq!(rec.leaderboard.entries[0].points, 10);
    assert_eq!(rec.resolve_issue(42, 2, 100, 56), Ok(()));
    assert_eq!(rec.leaderboard.entries.len(), 1);
    assert_eq!(rec.leaderboard.entries[0].points, 17);
}

#[test]
fn resolve_twice_fails_and_never_double_credits() {
    let mut rec = event(42);
    rec.add_issue(42, vec![issue(1, 10)]).unwrap();
    assert_eq!(rec.resolve_issue(42, 1, 100, 55), Ok(()));
    assert_eq!(rec.resolve_issue(42, 1, 200, 56), Err(ErrorCode::InvalidIssueId));
    assert_eq!(rec.leaderboard.entries.len(), 1);
    assert_eq!(rec.leaderboard.entries[0].points, 10);
}

#[test]
fn resolve_unknown_id_fails() {
    let mut rec = event(42);
    rec.add_issue(42, vec![issue(1, 10)]).unwrap();
    assert_eq!(rec.resolve_issue(42, 9, 100, 55), Err(ErrorCode::InvalidIssueId));
}

#[test]
fn resolve_requires_the_maintainer() {
    let mut rec = event(42);
    rec.add_issue(42, vec![issue(1, 10)]).unwrap();
    assert_eq!(rec.resolve_issue(41, 1, 100, 55), Err(ErrorCode::InvalidMaintainer));
    assert!(!rec.issue_book.issues[0].resolved_status);
}

#[test]
fn point_overflow_fails_the_whole_resolution() {
    let mut rec = event(42);
    rec.add_issue(42, vec![issue(1, u64::MAX), issue(2, 1)]).unwrap();
    assert_eq!(rec.resolve_issue(42, 1, 100, 55), Ok(()));
    assert_eq!(rec.resolve_issue(42, 2, 100, 56), Err(ErrorCode::Overflow));
    assert!(!rec.issue_book.issues[1].resolved_status);
    assert_eq!(rec.leaderboard.entries[0].points, u64::MAX);
    assert_eq!(rec.resolve_issue(42, 2, 200, 57), Ok(()));
    assert_eq!(rec.leaderboard.entries.len(), 2);
}

#[test]
fn leaderboard_total_equals_resolved_issue_points() {
    let mut rec = event(42);
    rec.add_issue(42, vec![issue(1, 10), issue(2, 7), issue(3, 3), issue(4, 5)]).unwrap();
    rec.resolve_issue(42, 1, 100, 50).unwrap();
    rec.resolve_issue(42, 2, 200, 51).unwrap();
    rec.resolve_issue(42, 3, 100, 52).unwrap();
    assert_eq!(rec.distribute_rewards(42, 100), Ok(20));
    rec.resolve_issue(42, 4, 300, 53).unwrap();
    assert_eq!(rec.distribute_rewards(42, 100), Ok(25));
}

#[test]
fn distribute_rewards_guards_caller_and_time() {
    let mut rec = event(42);
    rec.add_issue(42, vec![issue(1, 10)]).unwrap();
    rec.resolve_issue(42, 1, 100, 50).unwrap();
    assert_eq!(rec.distribute_rewards(41, 100), Err(ErrorCode::UnauthorizedMaintainer));
    assert_eq!(rec.distribute_rewards(42, 99), Err(ErrorCode::EventNotEnded));
    assert_eq!(rec.distribute_rewards(42, 100), Ok(10));
}

#[test]
fn deposits_accumulate_and_respect_the_owner() {
    let mut rec = event(42);
    assert_eq!(rec.deposit_rewards(41, 10), Err(ErrorCode::UnauthorizedMaintainer));
    assert_eq!(rec.deposit_rewards(42, 10), Ok(()));
    assert_eq!(rec.deposit_rewards(42, 5), Ok(()));
    assert_eq!(rec.escrow.balance, 15);
    assert_eq!(rec.deposit_rewards(42, u64::MAX), Err(ErrorCode::Overflow));
    assert_eq!(rec.escrow.balance, 15);
}

#[test]
fn collectible_deposit_takes_exactly_one_unit() {
    let mut rec = event(42);
    assert_eq!(rec.deposit_nft(41), Err(ErrorCode::UnauthorizedMaintainer));
    assert_eq!(rec.deposit_nft(42), Ok(()));
    assert!(rec.escrow.collectible_held);
    assert_eq!(rec.deposit_nft(42), Err(ErrorCode::EventAlreadyStarted));
}

#[test]
fn collectible_deposit_needs_a_configured_collectible() {
    let mut rec =
        EventRecords::new(7, "bare".to_string(), 0, 100, 42, [5000, 3000, 2000], None);
    assert_eq!(rec.deposit_nft(42), Err(ErrorCode::InvalidEventId));
    assert!(!rec.escrow.collectible_held);
}
