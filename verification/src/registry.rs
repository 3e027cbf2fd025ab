//! Create-once storage of event record sets, keyed by event id.

use vstd::prelude::*;
use crate::error::ErrorCode;
use crate::event::split_valid;
use crate::records::EventRecords;

verus! {

/// Some record set in `s` belongs to the event id.
pub open spec fn has_event(s: Seq<EventRecords>, event_id: u64) -> bool {
    exists|i: int| 0 <= i < s.len() && s[i].event.event_id == event_id
}

/// All event record sets, each well formed, with pairwise distinct
/// event ids. The child records of an event are addressed by the
/// event id alone, so an id names at most one event across all
/// maintainers, and creation at a taken id fails.
pub struct Registry {
    /// The record sets, in order of creation.
    pub events: Vec<EventRecords>,
}

impl Registry {
    /// Every record set is well formed and event ids are distinct.
    pub open spec fn wf(self) -> bool {
        &&& forall|i: int| 0 <= i < self.events@.len() ==> (#[trigger] self.events@[i]).wf()
        &&& forall|i: int, j: int|
            0 <= i < j < self.events@.len() ==> self.events@[i].event.event_id
                != self.events@[j].event.event_id
    }

    /// An empty registry.
    pub fn new() -> (r: Registry)
        ensures
            r.wf(),
            r.events@.len() == 0,
    {
        Registry { events: Vec::new() }
    }

    /// Whether a record set with the event id exists.
    pub fn contains_event(&self, event_id: u64) -> (found: bool)
        ensures
            found == has_event(self.events@, event_id),
    {
        let n = self.events.len();
        let mut i: usize = 0;
        while i < n
            invariant
                0 <= i <= n,
                n == self.events@.len(),
                forall|j: int| 0 <= j < i ==> self.events@[j].event.event_id != event_id,
            decreases n - i,
        {
            if self.events[i].event.event_id == event_id {
                return true;
            }
            i += 1;
        }
        false
    }

    /// The position of the record set with the event id, if one
    /// exists.
    pub fn find_event(&self, event_id: u64) -> (found: Option<usize>)
        ensures
            match found {
                Some(i) => {
                    &&& 0 <= i < self.events@.len()
                    &&& self.events@[i as int].event.event_id == event_id
                },
                None => !has_event(self.events@, event_id),
            },
    {
        let n = self.events.len();
        let mut i: usize = 0;
        while i < n
            invariant
                0 <= i <= n,
                n == self.events@.len(),
                forall|j: int| 0 <= j < i ==> self.events@[j].event.event_id != event_id,
            decreases n - i,
        {
            if self.events[i].event.event_id == event_id {
                return Some(i);
            }
            i += 1;
        }
        None
    }

    /// Create an event: its configuration, an empty issue ledger, an
    /// empty leaderboard and the escrow come into being as one atomic
    /// unit, funded with `amount` and — when the event references a
    /// collectible — the one collectible unit. Creation is callable
    /// at most once per event id: a second call fails and changes
    /// nothing.
    pub fn create_event(
        &mut self,
        event_id: u64,
        name: String,
        start_date: i64,
        end_date: i64,
        maintainer: u64,
        rewards_split_percentage: [u16; 3],
        collectible_id: Option<u64>,
        amount: u64,
    ) -> (r: Result<(), ErrorCode>)
        requires
            old(self).wf(),
            split_valid(rewards_split_percentage),
        ensures
            final(self).wf(),
            r is Err <==> has_event(old(self).events@, event_id),
            r is Err ==> r == Err::<(), ErrorCode>(ErrorCode::InvalidEventId) && *final(self)
                == *old(self),
            r is Ok ==> {
                &&& final(self).events@.len() == old(self).events@.len() + 1
                &&& (forall|i: int|
                    0 <= i < old(self).events@.len() ==> final(self).events@[i] == old(
                        self,
                    ).events@[i])
                &&& has_event(final(self).events@, event_id)
                &&& ({
                    let e = final(self).events@.last();
                    &&& e.event.event_id == event_id
                    &&& e.event.event_name == name
                    &&& e.event.maintainer == maintainer
                    &&& e.event.start_date == start_date
                    &&& e.event.end_date == end_date
                    &&& e.event.rewards_split_percentage == rewards_split_percentage
                    &&& e.event.collectible_id == collectible_id
                    &&& e.issue_book.issues@.len() == 0
                    &&& e.leaderboard.entries@.len() == 0
                    &&& e.winners is None
                    &&& e.escrow.balance == amount
                    &&& e.escrow.collectible_held == (collectible_id is Some)
                })
            },
    {
        if self.contains_event(event_id) {
            return Err(ErrorCode::InvalidEventId);
        }
        let mut records = EventRecords::new(
            event_id,
            name,
            start_date,
            end_date,
            maintainer,
            rewards_split_percentage,
            collectible_id,
        );
        records.deposit_rewards(maintainer, amount)?;
        if records.event.collectible_id.is_some() {
            records.deposit_nft(maintainer)?;
        }
        let ghost pre = self.events@;
        self.events.push(records);
        proof {
            assert forall|i: int, j: int|
                0 <= i < j < self.events@.len() implies self.events@[i].event.event_id
                != self.events@[j].event.event_id by {
                if j < pre.len() {
                    assert(pre[i].event.event_id != pre[j].event.event_id);
                } else {
                    assert(pre[i].event.event_id != event_id);
                }
            }
        }
        Ok(())
    }
}

} // verus!
