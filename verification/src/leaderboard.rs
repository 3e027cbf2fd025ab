//! Per-contributor point accumulation of one event.

use vstd::prelude::*;
use crate::error::ErrorCode;

verus! {

/// Accumulated points of one contributor.
#[derive(Clone, Copy, Debug, PartialEq, Eq, Structural)]
pub struct Entry {
    /// The contributor identity.
    pub contributor: u64,
    /// Accumulated non-negative total; monotonically non-decreasing
    /// for the life of the event.
    pub points: u64,
}

/// The leaderboard of one event: at most one entry per contributor.
#[derive(Debug)]
pub struct Leaderboard {
    /// The owning event.
    pub event_id: u64,
    /// The instant the board was last touched at creation time.
    pub last_updated: i64,
    /// The entries, in order of first credit.
    pub entries: Vec<Entry>,
}

/// Contributor identities are pairwise distinct.
pub open spec fn contributors_unique(s: Seq<Entry>) -> bool {
    forall|i: int, j: int| 0 <= i < j < s.len() ==> s[i].contributor != s[j].contributor
}

/// Some entry in `s` belongs to the contributor.
pub open spec fn has_contributor(s: Seq<Entry>, contributor: u64) -> bool {
    exists|i: int| 0 <= i < s.len() && s[i].contributor == contributor
}

/// Sum of the points of all entries in `s`.
pub open spec fn entries_total(s: Seq<Entry>) -> int
    decreases s.len(),
{
    if s.len() == 0 {
        0
    } else {
        entries_total(s.drop_last()) + s.last().points as int
    }
}

/// Crediting `points` to the contributor would overflow its unsigned
/// accumulator.
pub open spec fn credit_overflows(s: Seq<Entry>, contributor: u64, points: u64) -> bool {
    exists|k: int|
        0 <= k < s.len() && s[k].contributor == contributor && s[k].points + points > u64::MAX
}

pub proof fn lemma_entries_total_push(s: Seq<Entry>, x: Entry)
    ensures
        entries_total(s.push(x)) == entries_total(s) + x.points,
{
    assert(s.push(x).drop_last() =~= s);
}

pub proof fn lemma_entries_total_update(s: Seq<Entry>, i: int, x: Entry)
    requires
        0 <= i < s.len(),
    ensures
        entries_total(s.update(i, x)) == entries_total(s) - s[i].points + x.points,
    decreases s.len(),
{
    if i == s.len() - 1 {
        assert(s.update(i, x).drop_last() =~= s.drop_last());
    } else {
        assert(s.update(i, x).drop_last() =~= s.drop_last().update(i, x));
        lemma_entries_total_update(s.drop_last(), i, x);
    }
}

pub proof fn lemma_entries_total_take_step(s: Seq<Entry>, i: int)
    requires
        0 <= i < s.len(),
    ensures
        entries_total(s.take(i + 1)) == entries_total(s.take(i)) + s[i].points,
{
    assert(s.take(i + 1).drop_last() =~= s.take(i));
    assert(s.take(i + 1).last() == s[i]);
}

pub proof fn lemma_entries_total_take_le(s: Seq<Entry>, i: int)
    requires
        0 <= i <= s.len(),
    ensures
        entries_total(s.take(i)) <= entries_total(s),
    decreases s.len() - i,
{
    if i == s.len() {
        assert(s.take(i) =~= s);
    } else {
        lemma_entries_total_take_step(s, i);
        lemma_entries_total_take_le(s, i + 1);
    }
}

impl Leaderboard {
    /// The board is well formed when its contributors are distinct.
    pub open spec fn wf(self) -> bool {
        contributors_unique(self.entries@)
    }

    /// The position of the contributor's entry, if one exists.
    pub fn find_contributor(&self, contributor: u64) -> (found: Option<usize>)
        ensures
            match found {
                Some(i) => {
                    &&& 0 <= i < self.entries@.len()
                    &&& self.entries@[i as int].contributor == contributor
                },
                None => !has_contributor(self.entries@, contributor),
            },
    {
        let n = self.entries.len();
        let mut i: usize = 0;
        while i < n
            invariant
                0 <= i <= n,
                n == self.entries@.len(),
                forall|j: int| 0 <= j < i ==> self.entries@[j].contributor != contributor,
            decreases n - i,
        {
            if self.entries[i].contributor == contributor {
                return Some(i);
            }
            i += 1;
        }
        None
    }

    /// Credit `points` to the contributor: create an entry when none
    /// exists, add to the existing one otherwise. Invoked only by
    /// issue resolution; an overflow fails the whole credit with no
    /// change.
    pub(crate) fn credit(&mut self, contributor: u64, points: u64) -> (r: Result<(), ErrorCode>)
        requires
            old(self).wf(),
        ensures
            final(self).wf(),
            final(self).event_id == old(self).event_id,
            final(self).last_updated == old(self).last_updated,
            r is Err <==> credit_overflows(old(self).entries@, contributor, points),
            r is Err ==> r == Err::<(), ErrorCode>(ErrorCode::Overflow) && *final(self) == *old(
                self,
            ),
            r is Ok ==> entries_total(final(self).entries@) == entries_total(old(self).entries@)
                + points,
            r is Ok ==> has_contributor(final(self).entries@, contributor),
            r is Ok ==> if has_contributor(old(self).entries@, contributor) {
                exists|k: int|
                    0 <= k < old(self).entries@.len() && old(self).entries@[k].contributor
                        == contributor && final(self).entries@ == old(self).entries@.update(
                        k,
                        (Entry {
                            contributor,
                            points: (old(self).entries@[k].points + points) as u64,
                        }),
                    )
            } else {
                final(self).entries@ == old(self).entries@.push(Entry { contributor, points })
            },
    {
        let ghost pre = self.entries@;
        match self.find_contributor(contributor) {
            Some(k) => {
                let have = self.entries[k].points;
                match have.checked_add(points) {
                    Some(bumped) => {
                        self.entries[k] = Entry { contributor, points: bumped };
                        proof {
                            lemma_entries_total_update(
                                pre,
                                k as int,
                                Entry { contributor, points: bumped },
                            );
                            assert forall|i: int, j: int|
                                0 <= i < j < self.entries@.len() implies self.entries@[i].contributor
                                != self.entries@[j].contributor by {
                                assert(pre[i].contributor != pre[j].contributor);
                            }
                        }
                        Ok(())
                    },
                    None => {
                        assert(credit_overflows(pre, contributor, points));
                        Err(ErrorCode::Overflow)
                    },
                }
            },
            None => {
                self.entries.push(Entry { contributor, points });
                proof {
                    lemma_entries_total_push(pre, Entry { contributor, points });
                    assert forall|i: int, j: int|
                        0 <= i < j < self.entries@.len() implies self.entries@[i].contributor
                        != self.entries@[j].contributor by {
                        if j < pre.len() {
                            assert(pre[i].contributor != pre[j].contributor);
                        } else {
                            assert(pre[i].contributor != contributor);
                        }
                    }
                }
                Ok(())
            },
        }
    }

    /// The total points across all entries, or nothing when the sum
    /// does not fit in sixty-four bits.
    pub fn total_points(&self) -> (r: Option<u64>)
        ensures
            match r {
                Some(t) => t == entries_total(self.entries@),
                None => entries_total(self.entries@) > u64::MAX,
            },
    {
        let n = self.entries.len();
        let mut acc: u64 = 0;
        let mut i: usize = 0;
        proof {
            assert(self.entries@.take(0) =~= Seq::<Entry>::empty());
        }
        while i < n
            invariant
                0 <= i <= n,
                n == self.entries@.len(),
                acc == entries_total(self.entries@.take(i as int)),
            decreases n - i,
        {
            proof {
                lemma_entries_total_take_step(self.entries@, i as int);
            }
            match acc.checked_add(self.entries[i].points) {
                Some(next) => {
                    acc = next;
                },
                None => {
                    proof {
                        lemma_entries_total_take_le(self.entries@, i as int + 1);
                    }
                    return None;
                },
            }
            i += 1;
        }
        proof {
            assert(self.entries@.take(n as int) =~= self.entries@);
        }
        Some(acc)
    }
}

} // verus!
