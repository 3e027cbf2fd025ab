//! A contribution-reward event library.
//!
//! A maintainer creates an event with a schedule and a three-way reward
//! split, funds an escrow with fungible value and one collectible, and
//! tracks issues that contributors resolve for points. After the event
//! ends, a one-time winner snapshot ranks the top three contributors,
//! and each winner claims a fixed share of the escrow total captured at
//! snapshot time; the top earner also receives the collectible.
//!
//! Persistent keyed storage, caller signature verification and the
//! actual value and token transfer primitives are external
//! collaborators: the library works on plain record values and tells
//! its caller which transfers to perform.

pub mod error;
pub mod event;
pub mod issue_book;
pub mod leaderboard;
pub mod winners;
pub mod escrow;
pub mod records;
pub mod registry;
