use capstone::error::ErrorCode;
use capstone::escrow::Payout;
use capstone::issue_book::Issue;
use capstone::records::EventRecords;

fn issue(issue_id: u64, points: u64) -> Issue {
    Issue { issue_id, resolved_status: false, contributor: None, points, resolved_at: None }
}

fn funded_event(split: [u16; 3], amount: u64) -> EventRecords {
    let mut rec = EventRecords::new(7, "launch week".to_string(), 0, 100, 42, split, Some(9));
    rec.deposit_rewards(42, amount).unwrap();
    rec.deposit_nft(42).unwrap();
    rec
}

/// Three issues worth 10, 7 and 3 points resolved to contributors
/// 100, 200 and 300.
fn with_three_contributors(split: [u16; 3], amount: u64) -> EventRecords {
    let mut rec = funded_event(split, amount);
    rec.add_issue(42, vec![issue(1, 10), issue(2, 7), issue(3, 3)]).unwrap();
    rec.resolve_issue(42, 1, 100, 50).unwrap();
    rec.resolve_issue(42, 2, 200, 51).unwrap();
    rec.resolve_issue(42, 3, 300, 52).unwrap();
    rec
}

#[test]
fn finish_fails_until_strictly_after_the_end_date() {
    let mut rec = with_three_contributors([5000, 3000, 2000], 1000);
    assert_eq!(rec.finish_event(42, 7, 99), Err(ErrorCode::EventNotEnded));
    assert_eq!(rec.finish_event(42, 7, 100), Err(ErrorCode::EventNotEnded));
    assert!(rec.winners.is_none());
    assert_eq!(rec.finish_event(42, 7, 101), Ok(()));
}

#[test]
fn finish_requires_the_maintainer_and_the_event_id() {
    let mut rec = with_three_contributors([5000, 3000, 2000], 1000);
    assert_eq!(rec.finish_event(41, 7, 101), Err(ErrorCode::InvalidMaintainer));
    assert_eq!(rec.finish_event(42, 8, 101), Err(ErrorCode::InvalidEventId));
    assert!(rec.winners.is_none());
}

#[test]
fn finish_needs_three_distinct_contributors() {
    let mut rec = funded_event([5000, 3000, 2000], 1000);
    rec.add_issue(42, vec![issue(1, 10), issue(2, 7), issue(3, 3)]).unwrap();
    rec.resolve_issue(42, 1, 100, 50).unwrap();
    rec.resolve_issue(42, 2, 200, 51).unwrap();
    rec.resolve_issue(42, 3, 200, 52).unwrap();
    assert_eq!(rec.finish_event(42, 7, 101), Err(ErrorCode::NotEnoughEntries));
    assert!(rec.winners.is_none());
}

#[test]
fn finish_ranks_by_descending_points() {
    let mut rec = with_three_contributors([5000, 3000, 2000], 1000);
    assert_eq!(rec.finish_event(42, 7, 101), Ok(()));
    let w = rec.winners.unwrap();
    assert_eq!(w.event_id, 7);
    assert_eq!(w.winner, 100);
    assert_eq!(w.runner_up, 200);
    assert_eq!(w.third_place, 300);
    assert_eq!(w.total_rewards, 1000);
    assert!(!w.winner_claimed && !w.runner_up_claimed && !w.third_claimed);
}

#[test]
fn finish_breaks_ties_by_contributor_identity_ascending() {
    let mut rec = funded_event([5000, 3000, 2000], 1000);
    rec.add_issue(42, vec![issue(1, 5), issue(2, 5), issue(3, 5), issue(4, 9)]).unwrap();
    rec.resolve_issue(42, 1, 300, 50).unwrap();
    rec.resolve_issue(42, 2, 100, 51).unwrap();
    rec.resolve_issue(42, 3, 200, 52).unwrap();
    rec.resolve_issue(42, 4, 500, 53).unwrap();
    assert_eq!(rec.finish_event(42, 7, 101), Ok(()));
    let w = rec.winners.unwrap();
    assert_eq!(w.winner, 500);
    assert_eq!(w.runner_up, 100);
    assert_eq!(w.third_place, 200);
}

#[test]
fn finish_succeeds_exactly_once() {
    let mut rec = with_three_contributors([5000, 3000, 2000], 1000);
    assert_eq!(rec.finish_event(42, 7, 101), Ok(()));
    assert_eq!(rec.finish_event(42, 7, 102), Err(ErrorCode::EventAlreadyEnded));
}

#[test]
fn deposits_are_closed_once_finalized() {
    let mut rec = with_three_contributors([5000, 3000, 2000], 1000);
    rec.finish_event(42, 7, 101).unwrap();
    assert_eq!(rec.deposit_rewards(42, 5), Err(ErrorCode::EventAlreadyEnded));
    assert_eq!(rec.escrow.balance, 1000);
}

#[test]
fn claim_fails_before_the_end_and_without_a_snapshot() {
    let mut rec = with_three_contributors([5000, 3000, 2000], 1000);
    assert_eq!(rec.claim_rewards(100, 100), Err(ErrorCode::EventNotEnded));
    assert_eq!(rec.claim_rewards(100, 101), Err(ErrorCode::EventNotEnded));
    rec.finish_event(42, 7, 101).unwrap();
    assert_eq!(rec.claim_rewards(100, 100), Err(ErrorCode::EventNotEnded));
}

#[test]
fn claim_by_a_non_winner_fails() {
    let mut rec = with_three_contributors([5000, 3000, 2000], 1000);
    rec.finish_event(42, 7, 101).unwrap();
    assert_eq!(rec.claim_rewards(999, 101), Err(ErrorCode::InvalidContributor));
    assert_eq!(rec.escrow.balance, 1000);
}

#[test]
fn winner_claim_pays_the_share_of_the_fixed_total_plus_the_collectible() {
    let mut rec = with_three_contributors([5000, 3000, 2000], 1000);
    rec.finish_event(42, 7, 101).unwrap();
    assert_eq!(
        rec.claim_rewards(100, 101),
        Ok(Payout { reward: 500, collectible: true })
    );
    assert_eq!(rec.escrow.balance, 500);
    assert!(!rec.escrow.collectible_held);
}

#[test]
fn shares_come_from_the_total_captured_at_finish_not_the_residual() {
    let mut rec = with_three_contributors([5000, 3000, 2000], 1000);
    rec.finish_event(42, 7, 101).unwrap();
    assert_eq!(
        rec.claim_rewards(200, 101),
        Ok(Payout { reward: 300, collectible: false })
    );
    assert_eq!(
        rec.claim_rewards(100, 102),
        Ok(Payout { reward: 500, collectible: true })
    );
    assert_eq!(
        rec.claim_rewards(300, 103),
        Ok(Payout { reward: 200, collectible: false })
    );
    assert_eq!(rec.escrow.balance, 0);
}

#[test]
fn exact_split_scenario_loses_nothing_to_rounding() {
    let mut rec = with_three_contributors([5000, 3000, 2000], 1000);
    assert_eq!(rec.finish_event(42, 7, 101), Ok(()));
    let w = rec.winners.unwrap();
    assert_eq!((w.winner, w.runner_up, w.third_place), (100, 200, 300));
    let a = rec.claim_rewards(100, 101).unwrap();
    let b = rec.claim_rewards(200, 102).unwrap();
    let c = rec.claim_rewards(300, 103).unwrap();
    assert_eq!(a.reward, 500);
    assert_eq!(b.reward, 300);
    assert_eq!(c.reward, 200);
    assert_eq!(a.reward + b.reward + c.reward, 1000);
    assert_eq!(rec.escrow.balance, 0);
    assert!(a.collectible && !b.collectible && !c.collectible);
}

#[test]
fn reclaiming_after_a_successful_claim_fails() {
    let mut rec = with_three_contributors([5000, 3000, 2000], 1000);
    rec.finish_event(42, 7, 101).unwrap();
    assert!(rec.claim_rewards(100, 101).is_ok());
    assert_eq!(rec.claim_rewards(100, 102), Err(ErrorCode::InvalidContributor));
    assert_eq!(rec.escrow.balance, 500);
    assert!(rec.claim_rewards(200, 103).is_ok());
    assert_eq!(rec.claim_rewards(200, 104), Err(ErrorCode::InvalidContributor));
}

#[test]
fn an_over_sized_split_is_clipped_to_the_remaining_balance() {
    let mut rec = with_three_contributors([10000, 10000, 0], 1000);
    rec.finish_event(42, 7, 101).unwrap();
    assert_eq!(
        rec.claim_rewards(100, 101),
        Ok(Payout { reward: 1000, collectible: true })
    );
    assert_eq!(
        rec.claim_rewards(200, 102),
        Ok(Payout { reward: 0, collectible: false })
    );
    assert_eq!(
        rec.claim_rewards(300, 103),
        Ok(Payout { reward: 0, collectible: false })
    );
    assert_eq!(rec.escrow.balance, 0);
}

#[test]
fn share_arithmetic_rounds_down() {
    let mut rec = with_three_contributors([3333, 3333, 3333], 1000);
    rec.finish_event(42, 7, 101).unwrap();
    assert_eq!(
        rec.claim_rewards(100, 101),
        Ok(Payout { reward: 333, collectible: true })
    );
    assert_eq!(
        rec.claim_rewards(200, 102),
        Ok(Payout { reward: 333, collectible: false })
    );
    assert_eq!(
        rec.claim_rewards(300, 103),
        Ok(Payout { reward: 333, collectible: false })
    );
    assert_eq!(rec.escrow.balance, 1);
}
