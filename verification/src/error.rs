//! Error taxonomy shared by every operation.

use vstd::prelude::*;

verus! {

/// Why a request was rejected. Every error is terminal for the current
/// request: a rejected operation leaves all records unchanged.
#[derive(Clone, Copy, Debug, PartialEq, Eq, Structural)]
pub enum ErrorCode {
    /// The caller is not the maintainer recorded on the event
    /// (issue resolution and winner snapshot).
    InvalidMaintainer,
    /// The caller is not the maintainer recorded on the event
    /// (issue appending, deposits and totals).
    UnauthorizedMaintainer,
    /// No unresolved issue with the requested id exists: the id is
    /// absent, or the issue was already resolved (the two cases are
    /// indistinguishable by design, since resolved issues are excluded
    /// from the search).
    InvalidIssueId,
    /// The event id does not match the targeted event, an event with
    /// this id already exists, or the event references no collectible.
    InvalidEventId,
    /// The event schedule has not elapsed yet, or no winner snapshot
    /// exists to claim against.
    EventNotEnded,
    /// The event is already finalized: the winner snapshot exists.
    EventAlreadyEnded,
    /// The escrow already holds its one collectible unit.
    EventAlreadyStarted,
    /// Fewer than three contributors hold leaderboard entries.
    NotEnoughEntries,
    /// The caller matches no claimable winner slot: it is none of the
    /// three snapshot winners, or its slot was already claimed
    /// (claimed slots are excluded by design, like resolved issues).
    InvalidContributor,
    /// Unsigned accumulation would overflow; the whole operation fails
    /// rather than wrap.
    Overflow,
}

} // verus!
