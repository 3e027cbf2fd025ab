//! The one-time winner snapshot and its ranking rule.

use vstd::prelude::*;
use crate::leaderboard::Entry;
use crate::leaderboard::contributors_unique;

verus! {

/// Immutable top-three ranking computed once at event close, together
/// with the escrow total captured at the same instant and one claim
/// flag per slot.
#[derive(Clone, Copy, Debug, PartialEq, Eq, Structural)]
pub struct Winners {
    /// The owning event.
    pub event_id: u64,
    /// Highest-ranked contributor.
    pub winner: u64,
    /// Second-ranked contributor.
    pub runner_up: u64,
    /// Third-ranked contributor.
    pub third_place: u64,
    /// The escrow value balance at snapshot time; every share is
    /// computed against this fixed total, never against the shrinking
    /// residual balance.
    pub total_rewards: u64,
    /// Whether the winner's share was already paid out.
    pub winner_claimed: bool,
    /// Whether the runner-up's share was already paid out.
    pub runner_up_claimed: bool,
    /// Whether the third place's share was already paid out.
    pub third_claimed: bool,
}

/// The ranking order: more points rank first; equal points break the
/// tie by contributor identity ascending, so the ranking is
/// deterministic.
pub open spec fn ranks_before(a: Entry, b: Entry) -> bool {
    a.points > b.points || (a.points == b.points && a.contributor < b.contributor)
}

/// Whether the contributor is one of the identities a selection round
/// leaves out.
pub open spec fn left_out(c: u64, ex1: Option<u64>, ex2: Option<u64>) -> bool {
    ||| (ex1 matches Some(x) && x == c)
    ||| (ex2 matches Some(x) && x == c)
}

/// The entry at `i` ranks before every other entry of `s` that is not
/// left out, and is itself not left out.
pub open spec fn top_among(s: Seq<Entry>, i: int, ex1: Option<u64>, ex2: Option<u64>) -> bool {
    &&& 0 <= i < s.len()
    &&& !left_out(s[i].contributor, ex1, ex2)
    &&& forall|j: int|
        0 <= j < s.len() && j != i && !left_out(s[j].contributor, ex1, ex2) ==> ranks_before(
            s[i],
            s[j],
        )
}

/// Whether the contributor is left out of a selection round.
fn is_left_out(c: u64, ex1: Option<u64>, ex2: Option<u64>) -> (r: bool)
    ensures
        r == left_out(c, ex1, ex2),
{
    let first = match ex1 {
        Some(x) => x == c,
        None => false,
    };
    let second = match ex2 {
        Some(x) => x == c,
        None => false,
    };
    first || second
}

/// The position of the best-ranked entry among those not left out, or
/// nothing when every entry is left out.
pub fn best_entry(entries: &Vec<Entry>, ex1: Option<u64>, ex2: Option<u64>) -> (found: Option<
    usize,
>)
    requires
        contributors_unique(entries@),
    ensures
        match found {
            Some(i) => top_among(entries@, i as int, ex1, ex2),
            None => forall|j: int|
                0 <= j < entries@.len() ==> left_out(entries@[j].contributor, ex1, ex2),
        },
{
    let n = entries.len();
    let mut best: Option<usize> = None;
    let mut i: usize = 0;
    while i < n
        invariant
            0 <= i <= n,
            n == entries@.len(),
            contributors_unique(entries@),
            match best {
                Some(b) => {
                    &&& 0 <= b < i
                    &&& !left_out(entries@[b as int].contributor, ex1, ex2)
                    &&& forall|j: int|
                        0 <= j < i && j != b && !left_out(entries@[j].contributor, ex1, ex2)
                            ==> ranks_before(entries@[b as int], entries@[j])
                },
                None => forall|j: int| 0 <= j < i ==> left_out(entries@[j].contributor, ex1, ex2),
            },
        decreases n - i,
    {
        let e = entries[i];
        if !is_left_out(e.contributor, ex1, ex2) {
            match best {
                None => {
                    best = Some(i);
                },
                Some(b) => {
                    let cur = entries[b];
                    if e.points > cur.points || (e.points == cur.points && e.contributor
                        < cur.contributor) {
                        best = Some(i);
                    } else {
                        proof {
                            assert(entries@[b as int].contributor != entries@[i as int].contributor);
                        }
                    }
                },
            }
        }
        i += 1;
    }
    best
}

} // verus!
