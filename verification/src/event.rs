//! The event configuration record.

use vstd::prelude::*;

verus! {

/// Write-once event configuration. Identities and instants are plain
/// values: an identity is the number a verified caller proved control
/// of, an instant is a timestamp handed in by the caller's clock.
#[derive(Debug)]
pub struct Event {
    /// Unique event identity. The issue ledger and leaderboard records
    /// are addressed by the event id alone, so an id names at most one
    /// event across all maintainers.
    pub event_id: u64,
    /// Display name recorded at creation.
    pub event_name: String,
    /// The owning identity; every mutating operation checks its caller
    /// against this field.
    pub maintainer: u64,
    /// Scheduled start instant.
    pub start_date: i64,
    /// Scheduled end instant; the snapshot and claims require the
    /// current time to lie strictly after it.
    pub end_date: i64,
    /// Basis-point weights for winner, runner-up and third place.
    /// Each weight is at most 10000 (one hundred percent).
    pub rewards_split_percentage: [u16; 3],
    /// The collectible awarded to the winner, if the event has one.
    pub collectible_id: Option<u64>,
}

/// Every split weight is a basis-point value: at most 10000.
pub open spec fn split_valid(split: [u16; 3]) -> bool {
    &&& split[0] <= 10000
    &&& split[1] <= 10000
    &&& split[2] <= 10000
}

} // verus!
