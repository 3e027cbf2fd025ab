//! The record set of one event and every transition over it.

use vstd::prelude::*;
use crate::error::ErrorCode;
use crate::escrow::Escrow;
use crate::escrow::Payout;
use crate::escrow::compute_share;
use crate::escrow::paid_amount;
use crate::event::Event;
use crate::event::split_valid;
use crate::issue_book::Issue;
use crate::issue_book::IssueBook;
use crate::issue_book::batch_ids_fresh;
use crate::issue_book::fresh_issue;
use crate::issue_book::has_issue_id;
use crate::issue_book::has_unresolved;
use crate::issue_book::ids_unique;
use crate::issue_book::lemma_resolved_points_push;
use crate::issue_book::lemma_resolved_points_update;
use crate::issue_book::lemma_unresolved_index_unique;
use crate::issue_book::resolved_issue;
use crate::issue_book::resolved_points;
use crate::issue_book::unresolved_index;
use crate::leaderboard::Entry;
use crate::leaderboard::Leaderboard;
use crate::leaderboard::credit_overflows;
use crate::leaderboard::entries_total;
use crate::leaderboard::has_contributor;
use crate::winners::Winners;
use crate::winners::best_entry;
use crate::winners::left_out;
use crate::winners::top_among;

verus! {

/// The four persistent records of one event, handled as one unit: the
/// configuration, the issue ledger, the leaderboard, the optional
/// winner snapshot, and the escrow holdings. Every transition either
/// applies completely or fails with no change at all.
#[derive(Debug)]
pub struct EventRecords {
    /// Write-once configuration.
    pub event: Event,
    /// Append-only issue ledger.
    pub issue_book: IssueBook,
    /// Per-contributor point totals.
    pub leaderboard: Leaderboard,
    /// The one-time snapshot; absent until the event is finished.
    pub winners: Option<Winners>,
    /// Event-scoped value and collectible holdings.
    pub escrow: Escrow,
}

/// Whether a resolution request is accepted: the caller owns the
/// event, an unresolved issue carries the id, and crediting its points
/// does not overflow the contributor's accumulator.
pub open spec fn resolve_accepted(
    pre: EventRecords,
    caller: u64,
    issue_id: u64,
    contributor: u64,
) -> bool {
    &&& caller == pre.event.maintainer
    &&& has_unresolved(pre.issue_book.issues@, issue_id)
    &&& !credit_overflows(
        pre.leaderboard.entries@,
        contributor,
        pre.issue_book.issues@[unresolved_index(pre.issue_book.issues@, issue_id)].points,
    )
}

impl EventRecords {
    /// Well-formedness of one event's record set. The child records
    /// name the owning event; issue ids and leaderboard contributors
    /// are distinct; the leaderboard total equals the points of all
    /// resolved issues; the split weights are basis points; a held
    /// collectible belongs to a configured one; and a snapshot, once
    /// present, names three distinct contributors.
    pub open spec fn wf(self) -> bool {
        &&& self.issue_book.event_id == self.event.event_id
        &&& self.leaderboard.event_id == self.event.event_id
        &&& self.escrow.event_id == self.event.event_id
        &&& self.issue_book.wf()
        &&& self.leaderboard.wf()
        &&& entries_total(self.leaderboard.entries@) == resolved_points(self.issue_book.issues@)
        &&& split_valid(self.event.rewards_split_percentage)
        &&& (self.escrow.collectible_held ==> self.event.collectible_id is Some)
        &&& (self.winners matches Some(w) ==> {
            &&& w.event_id == self.event.event_id
            &&& w.winner != w.runner_up
            &&& w.winner != w.third_place
            &&& w.runner_up != w.third_place
        })
    }

    /// Create the event configuration, an empty issue ledger, an empty
    /// leaderboard and an empty escrow as one unit. No snapshot exists
    /// and nothing is deposited yet.
    pub fn new(
        event_id: u64,
        name: String,
        start_date: i64,
        end_date: i64,
        maintainer: u64,
        rewards_split_percentage: [u16; 3],
        collectible_id: Option<u64>,
    ) -> (r: EventRecords)
        requires
            split_valid(rewards_split_percentage),
        ensures
            r.wf(),
            r.event.event_id == event_id,
            r.event.event_name == name,
            r.event.maintainer == maintainer,
            r.event.start_date == start_date,
            r.event.end_date == end_date,
            r.event.rewards_split_percentage == rewards_split_percentage,
            r.event.collectible_id == collectible_id,
            r.issue_book.issues@.len() == 0,
            r.leaderboard.entries@.len() == 0,
            r.leaderboard.last_updated == start_date,
            r.winners is None,
            r.escrow.balance == 0,
            !r.escrow.collectible_held,
    {
        EventRecords {
            event: Event {
                event_id,
                event_name: name,
                maintainer,
                start_date,
                end_date,
                rewards_split_percentage,
                collectible_id,
            },
            issue_book: IssueBook { event_id, issues: Vec::new() },
            leaderboard: Leaderboard { event_id, last_updated: start_date, entries: Vec::new() },
            winners: None,
            escrow: Escrow { event_id, balance: 0, collectible_held: false },
        }
    }

    /// Move `amount` of fungible value from the maintainer into the
    /// escrow holding. Only the maintainer may deposit, deposits are
    /// cumulative, and no replenishment path exists once the event is
    /// finalized.
    pub fn deposit_rewards(&mut self, caller: u64, amount: u64) -> (r: Result<(), ErrorCode>)
        requires
            old(self).wf(),
        ensures
            final(self).wf(),
            r is Err ==> *final(self) == *old(self),
            caller != old(self).event.maintainer ==> r == Err::<(), ErrorCode>(
                ErrorCode::UnauthorizedMaintainer,
            ),
            caller == old(self).event.maintainer && old(self).winners is Some ==> r == Err::<
                (),
                ErrorCode,
            >(ErrorCode::EventAlreadyEnded),
            caller == old(self).event.maintainer && old(self).winners is None && old(
                self,
            ).escrow.balance + amount > u64::MAX ==> r == Err::<(), ErrorCode>(ErrorCode::Overflow),
            r is Ok <==> {
                &&& caller == old(self).event.maintainer
                &&& old(self).winners is None
                &&& old(self).escrow.balance + amount <= u64::MAX
            },
            r is Ok ==> {
                &&& final(self).escrow.balance == old(self).escrow.balance + amount
                &&& final(self).escrow.collectible_held == old(self).escrow.collectible_held
                &&& final(self).escrow.event_id == old(self).escrow.event_id
                &&& final(self).event == old(self).event
                &&& final(self).issue_book == old(self).issue_book
                &&& final(self).leaderboard == old(self).leaderboard
                &&& final(self).winners == old(self).winners
            },
    {
        if caller != self.event.maintainer {
            return Err(ErrorCode::UnauthorizedMaintainer);
        }
        if self.winners.is_some() {
            return Err(ErrorCode::EventAlreadyEnded);
        }
        match self.escrow.balance.checked_add(amount) {
            Some(new_balance) => {
                self.escrow.balance = new_balance;
                Ok(())
            },
            None => Err(ErrorCode::Overflow),
        }
    }

    /// Move the one collectible unit into the escrow's collectible
    /// holding. Only the maintainer may deposit it, the event must
    /// reference a collectible, the holding takes exactly one unit,
    /// and nothing can enter once the event is finalized.
    pub fn deposit_nft(&mut self, caller: u64) -> (r: Result<(), ErrorCode>)
        requires
            old(self).wf(),
        ensures
            final(self).wf(),
            r is Err ==> *final(self) == *old(self),
            caller != old(self).event.maintainer ==> r == Err::<(), ErrorCode>(
                ErrorCode::UnauthorizedMaintainer,
            ),
            caller == old(self).event.maintainer && old(self).winners is Some ==> r == Err::<
                (),
                ErrorCode,
            >(ErrorCode::EventAlreadyEnded),
            caller == old(self).event.maintainer && old(self).winners is None && old(
                self,
            ).event.collectible_id is None ==> r == Err::<(), ErrorCode>(ErrorCode::InvalidEventId),
            caller == old(self).event.maintainer && old(self).winners is None && old(
                self,
            ).event.collectible_id is Some && old(self).escrow.collectible_held ==> r == Err::<
                (),
                ErrorCode,
            >(ErrorCode::EventAlreadyStarted),
            r is Ok <==> {
                &&& caller == old(self).event.maintainer
                &&& old(self).winners is None
                &&& old(self).event.collectible_id is Some
                &&& !old(self).escrow.collectible_held
            },
            r is Ok ==> {
                &&& final(self).escrow.collectible_held
                &&& final(self).escrow.balance == old(self).escrow.balance
                &&& final(self).escrow.event_id == old(self).escrow.event_id
                &&& final(self).event == old(self).event
                &&& final(self).issue_book == old(self).issue_book
                &&& final(self).leaderboard == old(self).leaderboard
                &&& final(self).winners == old(self).winners
            },
    {
        if caller != self.event.maintainer {
            return Err(ErrorCode::UnauthorizedMaintainer);
        }
        if self.winners.is_some() {
            return Err(ErrorCode::EventAlreadyEnded);
        }
        if self.event.collectible_id.is_none() {
            return Err(ErrorCode::InvalidEventId);
        }
        if self.escrow.collectible_held {
            return Err(ErrorCode::EventAlreadyStarted);
        }
        self.escrow.collectible_held = true;
        Ok(())
    }

    /// Append a batch of issues to the ledger. Only the maintainer may
    /// append; each issue enters unresolved with its resolution fields
    /// cleared, whatever the caller supplied; a batch whose ids are
    /// not fresh is rejected whole, keeping ids unique within the
    /// book.
    pub fn add_issue(&mut self, caller: u64, issues: Vec<Issue>) -> (r: Result<(), ErrorCode>)
        requires
            old(self).wf(),
        ensures
            final(self).wf(),
            r is Err ==> *final(self) == *old(self),
            caller != old(self).event.maintainer ==> r == Err::<(), ErrorCode>(
                ErrorCode::UnauthorizedMaintainer,
            ),
            caller == old(self).event.maintainer && !batch_ids_fresh(
                old(self).issue_book.issues@,
                issues@,
            ) ==> r == Err::<(), ErrorCode>(ErrorCode::InvalidIssueId),
            r is Ok <==> {
                &&& caller == old(self).event.maintainer
                &&& batch_ids_fresh(old(self).issue_book.issues@, issues@)
            },
            r is Ok ==> {
                &&& final(self).issue_book.issues@.len() == old(self).issue_book.issues@.len()
                    + issues@.len()
                &&& (forall|j: int|
                    0 <= j < old(self).issue_book.issues@.len() ==> final(self).issue_book.issues@[j]
                        == old(self).issue_book.issues@[j])
                &&& (forall|j: int|
                    0 <= j < issues@.len() ==> final(self).issue_book.issues@[old(
                        self,
                    ).issue_book.issues@.len() + j] == fresh_issue(issues@[j]))
                &&& final(self).issue_book.event_id == old(self).issue_book.event_id
                &&& final(self).event == old(self).event
                &&& final(self).leaderboard == old(self).leaderboard
                &&& final(self).winners == old(self).winners
                &&& final(self).escrow == old(self).escrow
            },
    {
        if caller != self.event.maintainer {
            return Err(ErrorCode::UnauthorizedMaintainer);
        }
        let n = issues.len();
        let mut i: usize = 0;
        while i < n
            invariant
                0 <= i <= n,
                n == issues@.len(),
                *self == *old(self),
                self.wf(),
                caller == old(self).event.maintainer,
                forall|a: int| 0 <= a < i ==> !has_issue_id(self.issue_book.issues@, issues@[a].issue_id),
                forall|a: int, b: int| 0 <= a < b < i ==> issues@[a].issue_id != issues@[b].issue_id,
            decreases n - i,
        {
            if self.issue_book.contains_id(issues[i].issue_id) {
                return Err(ErrorCode::InvalidIssueId);
            }
            let mut j: usize = 0;
            while j < i
                invariant
                    0 <= j <= i < n,
                    n == issues@.len(),
                    *self == *old(self),
                    self.wf(),
                    caller == old(self).event.maintainer,
                    forall|a: int| 0 <= a < j ==> issues@[a].issue_id != issues@[i as int].issue_id,
                decreases i - j,
            {
                if issues[j].issue_id == issues[i].issue_id {
                    return Err(ErrorCode::InvalidIssueId);
                }
                j += 1;
            }
            i += 1;
        }
        let ghost pre = self.issue_book.issues@;
        let mut k: usize = 0;
        while k < n
            invariant
                0 <= k <= n,
                n == issues@.len(),
                batch_ids_fresh(pre, issues@),
                self.issue_book.issues@.len() == pre.len() + k,
                forall|j: int| 0 <= j < pre.len() ==> self.issue_book.issues@[j] == pre[j],
                forall|j: int|
                    0 <= j < k ==> self.issue_book.issues@[pre.len() + j] == fresh_issue(
                        issues@[j],
                    ),
                ids_unique(self.issue_book.issues@),
                resolved_points(self.issue_book.issues@) == resolved_points(pre),
                self.issue_book.event_id == old(self).issue_book.event_id,
                self.event == old(self).event,
                self.leaderboard == old(self).leaderboard,
                self.winners == old(self).winners,
                self.escrow == old(self).escrow,
                pre == old(self).issue_book.issues@,
            decreases n - k,
        {
            let x = issues[k];
            let entering = Issue {
                issue_id: x.issue_id,
                resolved_status: false,
                contributor: None,
                points: x.points,
                resolved_at: None,
            };
            let ghost before_push = self.issue_book.issues@;
            self.issue_book.issues.push(entering);
            proof {
                lemma_resolved_points_push(before_push, entering);
                assert forall|a: int, b: int|
                    0 <= a < b < self.issue_book.issues@.len() implies self.issue_book.issues@[a].issue_id
                    != self.issue_book.issues@[b].issue_id by {
                    if b < before_push.len() {
                        assert(before_push[a].issue_id != before_push[b].issue_id);
                    } else {
                        if a < pre.len() {
                            assert(!has_issue_id(pre, issues@[k as int].issue_id));
                            assert(pre[a].issue_id != issues@[k as int].issue_id);
                        } else {
                            assert(issues@[a - pre.len()].issue_id != issues@[k as int].issue_id);
                        }
                    }
                }
            }
            k += 1;
        }
        Ok(())
    }

    /// Resolve the unresolved issue carrying `issue_id` and credit its
    /// points to `contributor` atomically: either the issue
    /// transitions and the leaderboard is credited, or nothing
    /// changes. After a success no unresolved issue with that id
    /// remains, so a repeated resolution fails and the leaderboard is
    /// never credited twice for one issue.
    pub fn resolve_issue(
        &mut self,
        caller: u64,
        issue_id: u64,
        contributor: u64,
        now: i64,
    ) -> (r: Result<(), ErrorCode>)
        requires
            old(self).wf(),
        ensures
            final(self).wf(),
            r is Err ==> *final(self) == *old(self),
            r is Ok <==> resolve_accepted(*old(self), caller, issue_id, contributor),
            caller != old(self).event.maintainer ==> r == Err::<(), ErrorCode>(
                ErrorCode::InvalidMaintainer,
            ),
            caller == old(self).event.maintainer && !has_unresolved(
                old(self).issue_book.issues@,
                issue_id,
            ) ==> r == Err::<(), ErrorCode>(ErrorCode::InvalidIssueId),
            r is Err && caller == old(self).event.maintainer && has_unresolved(
                old(self).issue_book.issues@,
                issue_id,
            ) ==> r == Err::<(), ErrorCode>(ErrorCode::Overflow),
            r is Ok ==> ({
                let b = old(self).issue_book.issues@;
                let i = unresolved_index(b, issue_id);
                let p = b[i].points;
                let pre_entries = old(self).leaderboard.entries@;
                let post_entries = final(self).leaderboard.entries@;
                &&& final(self).issue_book.issues@ == b.update(
                    i,
                    resolved_issue(b[i], contributor, now),
                )
                &&& !has_unresolved(final(self).issue_book.issues@, issue_id)
                &&& entries_total(post_entries) == entries_total(pre_entries) + p
                &&& has_contributor(post_entries, contributor)
                &&& (if has_contributor(pre_entries, contributor) {
                    exists|k: int|
                        0 <= k < pre_entries.len() && pre_entries[k].contributor == contributor
                            && post_entries == pre_entries.update(
                            k,
                            (Entry { contributor, points: (pre_entries[k].points + p) as u64 }),
                        )
                } else {
                    post_entries == pre_entries.push(Entry { contributor, points: p })
                })
                &&& final(self).issue_book.event_id == old(self).issue_book.event_id
                &&& final(self).leaderboard.event_id == old(self).leaderboard.event_id
                &&& final(self).leaderboard.last_updated == old(self).leaderboard.last_updated
                &&& final(self).event == old(self).event
                &&& final(self).winners == old(self).winners
                &&& final(self).escrow == old(self).escrow
            }),
    {
        if caller != self.event.maintainer {
            return Err(ErrorCode::InvalidMaintainer);
        }
        let idx = match self.issue_book.find_unresolved(issue_id) {
            None => {
                return Err(ErrorCode::InvalidIssueId);
            },
            Some(i) => i,
        };
        proof {
            lemma_unresolved_index_unique(self.issue_book.issues@, issue_id, idx as int);
        }
        let points = self.issue_book.issues[idx].points;
        match self.leaderboard.credit(contributor, points) {
            Err(e) => {
                return Err(e);
            },
            Ok(()) => {},
        }
        let cur = self.issue_book.issues[idx];
        let marked = Issue {
            issue_id: cur.issue_id,
            resolved_status: true,
            contributor: Some(contributor),
            points: cur.points,
            resolved_at: Some(now),
        };
        self.issue_book.issues[idx] = marked;
        proof {
            let pre = old(self).issue_book.issues@;
            lemma_resolved_points_update(pre, idx as int, marked);
            assert forall|a: int, b: int|
                0 <= a < b < self.issue_book.issues@.len() implies self.issue_book.issues@[a].issue_id
                != self.issue_book.issues@[b].issue_id by {
                assert(pre[a].issue_id != pre[b].issue_id);
            }
            assert forall|j: int|
                0 <= j < self.issue_book.issues@.len() implies !(self.issue_book.issues@[j].issue_id
                == issue_id && !self.issue_book.issues@[j].resolved_status) by {
                if j != idx as int {
                    if j < idx as int {
                        assert(pre[j].issue_id != pre[idx as int].issue_id);
                    } else {
                        assert(pre[idx as int].issue_id != pre[j].issue_id);
                    }
                }
            }
        }
        Ok(())
    }

    /// Compute the winner snapshot exactly once. The current time must
    /// lie strictly after the end date, the caller must own the event,
    /// the id must match, no snapshot may exist yet, and the
    /// leaderboard must hold at least three entries. The top three
    /// contributors by descending points — ties broken by contributor
    /// identity ascending — become winner, runner-up and third place,
    /// and the escrow balance is captured as the fixed payout total.
    pub fn finish_event(&mut self, caller: u64, event_id: u64, now: i64) -> (r: Result<
        (),
        ErrorCode,
    >)
        requires
            old(self).wf(),
        ensures
            final(self).wf(),
            r is Err ==> *final(self) == *old(self),
            now <= old(self).event.end_date ==> r == Err::<(), ErrorCode>(ErrorCode::EventNotEnded),
            now > old(self).event.end_date && caller != old(self).event.maintainer ==> r == Err::<
                (),
                ErrorCode,
            >(ErrorCode::InvalidMaintainer),
            now > old(self).event.end_date && caller == old(self).event.maintainer && event_id
                != old(self).event.event_id ==> r == Err::<(), ErrorCode>(ErrorCode::InvalidEventId),
            now > old(self).event.end_date && caller == old(self).event.maintainer && event_id
                == old(self).event.event_id && old(self).winners is Some ==> r == Err::<
                (),
                ErrorCode,
            >(ErrorCode::EventAlreadyEnded),
            now > old(self).event.end_date && caller == old(self).event.maintainer && event_id
                == old(self).event.event_id && old(self).winners is None && old(
                self,
            ).leaderboard.entries@.len() < 3 ==> r == Err::<(), ErrorCode>(
                ErrorCode::NotEnoughEntries,
            ),
            r is Ok <==> {
                &&& now > old(self).event.end_date
                &&& caller == old(self).event.maintainer
                &&& event_id == old(self).event.event_id
                &&& old(self).winners is None
                &&& old(self).leaderboard.entries@.len() >= 3
            },
            r is Ok ==> ({
                let lb = old(self).leaderboard.entries@;
                &&& final(self).event == old(self).event
                &&& final(self).issue_book == old(self).issue_book
                &&& final(self).leaderboard == old(self).leaderboard
                &&& final(self).escrow == old(self).escrow
                &&& final(self).winners matches Some(w) && ({
                    &&& w.event_id == old(self).event.event_id
                    &&& w.total_rewards == old(self).escrow.balance
                    &&& !w.winner_claimed
                    &&& !w.runner_up_claimed
                    &&& !w.third_claimed
                    &&& w.winner != w.runner_up
                    &&& w.winner != w.third_place
                    &&& w.runner_up != w.third_place
                    &&& exists|i: int, j: int, k: int|
                        #![trigger top_among(lb, i, None, None), top_among(lb, j, Some(lb[i].contributor), None), top_among(lb, k, Some(lb[i].contributor), Some(lb[j].contributor))]
                        {
                            &&& top_among(lb, i, None, None)
                            &&& w.winner == lb[i].contributor
                            &&& top_among(lb, j, Some(lb[i].contributor), None)
                            &&& w.runner_up == lb[j].contributor
                            &&& top_among(
                                lb,
                                k,
                                Some(lb[i].contributor),
                                Some(lb[j].contributor),
                            )
                            &&& w.third_place == lb[k].contributor
                        }
                })
            }),
    {
        if now <= self.event.end_date {
            return Err(ErrorCode::EventNotEnded);
        }
        if caller != self.event.maintainer {
            return Err(ErrorCode::InvalidMaintainer);
        }
        if event_id != self.event.event_id {
            return Err(ErrorCode::InvalidEventId);
        }
        if self.winners.is_some() {
            return Err(ErrorCode::EventAlreadyEnded);
        }
        if self.leaderboard.entries.len() < 3 {
            return Err(ErrorCode::NotEnoughEntries);
        }
        let ghost lb = self.leaderboard.entries@;
        let i0 = match best_entry(&self.leaderboard.entries, None, None) {
            Some(i) => i,
            None => {
                proof {
                    assert(left_out(lb[0].contributor, None, None));
                }
                return Err(ErrorCode::NotEnoughEntries);
            },
        };
        let c0 = self.leaderboard.entries[i0].contributor;
        let i1 = match best_entry(&self.leaderboard.entries, Some(c0), None) {
            Some(i) => i,
            None => {
                proof {
                    assert(lb[0].contributor != lb[1].contributor);
                    assert(left_out(lb[0].contributor, Some(c0), None));
                    assert(left_out(lb[1].contributor, Some(c0), None));
                }
                return Err(ErrorCode::NotEnoughEntries);
            },
        };
        let c1 = self.leaderboard.entries[i1].contributor;
        let i2 = match best_entry(&self.leaderboard.entries, Some(c0), Some(c1)) {
            Some(i) => i,
            None => {
                proof {
                    assert(lb[0].contributor != lb[1].contributor);
                    assert(lb[0].contributor != lb[2].contributor);
                    assert(lb[1].contributor != lb[2].contributor);
                    assert(left_out(lb[0].contributor, Some(c0), Some(c1)));
                    assert(left_out(lb[1].contributor, Some(c0), Some(c1)));
                    assert(left_out(lb[2].contributor, Some(c0), Some(c1)));
                }
                return Err(ErrorCode::NotEnoughEntries);
            },
        };
        let c2 = self.leaderboard.entries[i2].contributor;
        self.winners = Some(
            Winners {
                event_id: self.event.event_id,
                winner: c0,
                runner_up: c1,
                third_place: c2,
                total_rewards: self.escrow.balance,
                winner_claimed: false,
                runner_up_claimed: false,
                third_claimed: false,
            },
        );
        proof {
            assert(top_among(lb, i0 as int, None, None));
            assert(top_among(lb, i1 as int, Some(lb[i0 as int].contributor), None));
            assert(top_among(
                lb,
                i2 as int,
                Some(lb[i0 as int].contributor),
                Some(lb[i1 as int].contributor),
            ));
        }
        Ok(())
    }

    /// Pay out the caller's share of the escrow. The current time must
    /// lie strictly after the end date and the snapshot must exist; a
    /// caller matching no unclaimed winner slot is rejected. A
    /// matching slot is paid its share of the total captured at finish
    /// — clipped to the remaining balance — and marked claimed, so a
    /// repeated claim fails; the winner additionally receives the
    /// collectible unit while the escrow still holds it.
    pub fn claim_rewards(&mut self, caller: u64, now: i64) -> (r: Result<Payout, ErrorCode>)
        requires
            old(self).wf(),
        ensures
            final(self).wf(),
            r is Err ==> *final(self) == *old(self),
            now <= old(self).event.end_date ==> r == Err::<Payout, ErrorCode>(
                ErrorCode::EventNotEnded,
            ),
            now > old(self).event.end_date && old(self).winners is None ==> r == Err::<
                Payout,
                ErrorCode,
            >(ErrorCode::EventNotEnded),
            old(self).winners matches Some(w) ==> now > old(self).event.end_date ==> ({
                let split = old(self).event.rewards_split_percentage;
                let bal = old(self).escrow.balance;
                if caller == w.winner && !w.winner_claimed {
                    &&& r matches Ok(p) && p.reward == paid_amount(w.total_rewards, split[0], bal)
                        && p.collectible == old(self).escrow.collectible_held
                    &&& final(self).escrow.balance == bal - paid_amount(
                        w.total_rewards,
                        split[0],
                        bal,
                    )
                    &&& !final(self).escrow.collectible_held
                    &&& final(self).winners == Some(Winners { winner_claimed: true, ..w })
                    &&& final(self).escrow.event_id == old(self).escrow.event_id
                    &&& final(self).event == old(self).event
                    &&& final(self).issue_book == old(self).issue_book
                    &&& final(self).leaderboard == old(self).leaderboard
                } else if caller == w.runner_up && !w.runner_up_claimed {
                    &&& r matches Ok(p) && p.reward == paid_amount(w.total_rewards, split[1], bal)
                        && !p.collectible
                    &&& final(self).escrow.balance == bal - paid_amount(
                        w.total_rewards,
                        split[1],
                        bal,
                    )
                    &&& final(self).escrow.collectible_held == old(self).escrow.collectible_held
                    &&& final(self).winners == Some(Winners { runner_up_claimed: true, ..w })
                    &&& final(self).escrow.event_id == old(self).escrow.event_id
                    &&& final(self).event == old(self).event
                    &&& final(self).issue_book == old(self).issue_book
                    &&& final(self).leaderboard == old(self).leaderboard
                } else if caller == w.third_place && !w.third_claimed {
                    &&& r matches Ok(p) && p.reward == paid_amount(w.total_rewards, split[2], bal)
                        && !p.collectible
                    &&& final(self).escrow.balance == bal - paid_amount(
                        w.total_rewards,
                        split[2],
                        bal,
                    )
                    &&& final(self).escrow.collectible_held == old(self).escrow.collectible_held
                    &&& final(self).winners == Some(Winners { third_claimed: true, ..w })
                    &&& final(self).escrow.event_id == old(self).escrow.event_id
                    &&& final(self).event == old(self).event
                    &&& final(self).issue_book == old(self).issue_book
                    &&& final(self).leaderboard == old(self).leaderboard
                } else {
                    r == Err::<Payout, ErrorCode>(ErrorCode::InvalidContributor) && *final(self)
                        == *old(self)
                }
            }),
    {
        if now <= self.event.end_date {
            return Err(ErrorCode::EventNotEnded);
        }
        let w = match self.winners {
            None => {
                return Err(ErrorCode::EventNotEnded);
            },
            Some(w) => w,
        };
        if caller == w.winner && !w.winner_claimed {
            let share = compute_share(w.total_rewards, self.event.rewards_split_percentage[0]);
            let reward = if share <= self.escrow.balance {
                share
            } else {
                self.escrow.balance
            };
            self.escrow.balance = self.escrow.balance - reward;
            let had_collectible = self.escrow.collectible_held;
            self.escrow.collectible_held = false;
            self.winners = Some(Winners { winner_claimed: true, ..w });
            Ok(Payout { reward, collectible: had_collectible })
        } else if caller == w.runner_up && !w.runner_up_claimed {
            let share = compute_share(w.total_rewards, self.event.rewards_split_percentage[1]);
            let reward = if share <= self.escrow.balance {
                share
            } else {
                self.escrow.balance
            };
            self.escrow.balance = self.escrow.balance - reward;
            self.winners = Some(Winners { runner_up_claimed: true, ..w });
            Ok(Payout { reward, collectible: false })
        } else if caller == w.third_place && !w.third_claimed {
            let share = compute_share(w.total_rewards, self.event.rewards_split_percentage[2]);
            let reward = if share <= self.escrow.balance {
                share
            } else {
                self.escrow.balance
            };
            self.escrow.balance = self.escrow.balance - reward;
            self.winners = Some(Winners { third_claimed: true, ..w });
            Ok(Payout { reward, collectible: false })
        } else {
            Err(ErrorCode::InvalidContributor)
        }
    }

    /// The leaderboard total a distribution would be based on. Only
    /// the maintainer may ask, and only once the end date has been
    /// reached.
    pub fn distribute_rewards(&self, caller: u64, now: i64) -> (r: Result<u64, ErrorCode>)
        ensures
            caller != self.event.maintainer ==> r == Err::<u64, ErrorCode>(
                ErrorCode::UnauthorizedMaintainer,
            ),
            caller == self.event.maintainer && now < self.event.end_date ==> r == Err::<
                u64,
                ErrorCode,
            >(ErrorCode::EventNotEnded),
            caller == self.event.maintainer && now >= self.event.end_date && entries_total(
                self.leaderboard.entries@,
            ) > u64::MAX ==> r == Err::<u64, ErrorCode>(ErrorCode::Overflow),
            r is Ok <==> {
                &&& caller == self.event.maintainer
                &&& now >= self.event.end_date
                &&& entries_total(self.leaderboard.entries@) <= u64::MAX
            },
            r matches Ok(t) ==> t == entries_total(self.leaderboard.entries@),
    {
        if caller != self.event.maintainer {
            return Err(ErrorCode::UnauthorizedMaintainer);
        }
        if now < self.event.end_date {
            return Err(ErrorCode::EventNotEnded);
        }
        match self.leaderboard.total_points() {
            Some(total) => Ok(total),
            None => Err(ErrorCode::Overflow),
        }
    }
}

} // verus!
