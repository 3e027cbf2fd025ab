//! The event-scoped escrow and the exact-integer share arithmetic.

use vstd::prelude::*;
use vstd::arithmetic::div_mod::lemma_div_is_ordered;
use vstd::arithmetic::div_mod::lemma_div_multiples_vanish;
use vstd::arithmetic::div_mod::lemma_fundamental_div_mod;
use vstd::arithmetic::div_mod::lemma_mod_bound;
use vstd::arithmetic::mul::lemma_mul_inequality;
use vstd::arithmetic::mul::lemma_mul_nonnegative;

verus! {

/// Event-scoped holdings: a fungible-value balance and at most one
/// collectible unit, both controlled by the event itself rather than a
/// human-held key. The balance decreases only through authorized
/// payouts.
#[derive(Clone, Copy, Debug, PartialEq, Eq, Structural)]
pub struct Escrow {
    /// The owning event.
    pub event_id: u64,
    /// Deposited fungible value still held.
    pub balance: u64,
    /// Whether the one collectible unit is still held.
    pub collectible_held: bool,
}

/// What was released by one successful claim: the caller receives
/// `reward` units of fungible value, and the one collectible unit when
/// `collectible` is set.
#[derive(Clone, Copy, Debug, PartialEq, Eq, Structural)]
pub struct Payout {
    /// Fungible value released to the caller.
    pub reward: u64,
    /// Whether the collectible unit goes to the caller as well.
    pub collectible: bool,
}

/// A winner slot's share of a fixed total: `weight` basis points of
/// `total`, rounded down.
pub open spec fn share_amount(total: u64, weight: u16) -> int {
    (total * weight) / 10000
}

/// The value a claim actually releases: the slot's share of the fixed
/// total, clipped to what the escrow still holds.
pub open spec fn paid_amount(total: u64, weight: u16, balance: u64) -> int {
    if share_amount(total, weight) <= balance {
        share_amount(total, weight)
    } else {
        balance as int
    }
}

/// A basis-point share never exceeds the total it is taken of.
pub proof fn lemma_share_le_total(total: u64, weight: u16)
    requires
        weight <= 10000,
    ensures
        0 <= share_amount(total, weight) <= total,
{
    lemma_mul_nonnegative(total as int, weight as int);
    lemma_mul_inequality(weight as int, 10000, total as int);
    lemma_div_is_ordered(total as int * weight as int, 10000 * total as int, 10000);
    lemma_div_multiples_vanish(total as int, 10000);
    lemma_div_is_ordered(0, total as int * weight as int, 10000);
}

/// Shares are computed against one fixed total, so whenever the three
/// split weights sum to at most one hundred percent, the three shares
/// together never exceed that total: sequential claims cannot exhaust
/// the escrow early, whatever order the winners claim in.
pub proof fn lemma_shares_within_total(total: u64, split: [u16; 3])
    requires
        split[0] + split[1] + split[2] <= 10000,
    ensures
        share_amount(total, split[0]) + share_amount(total, split[1]) + share_amount(
            total,
            split[2],
        ) <= total,
{
    let t = total as int;
    let s0 = t * split[0];
    let s1 = t * split[1];
    let s2 = t * split[2];
    lemma_fundamental_div_mod(s0, 10000);
    lemma_fundamental_div_mod(s1, 10000);
    lemma_fundamental_div_mod(s2, 10000);
    lemma_mod_bound(s0, 10000);
    lemma_mod_bound(s1, 10000);
    lemma_mod_bound(s2, 10000);
    assert(t * split[0] + t * split[1] + t * split[2] == t * (split[0] + split[1] + split[2]))
        by (nonlinear_arith);
    lemma_mul_inequality(split[0] + split[1] + split[2], 10000, t);
}

/// The slot's share of the fixed total, as executable arithmetic. The
/// product is widened so the multiplication cannot overflow, and the
/// result fits because a basis-point share never exceeds its total.
pub fn compute_share(total: u64, weight: u16) -> (r: u64)
    requires
        weight <= 10000,
    ensures
        r == share_amount(total, weight),
{
    proof {
        lemma_share_le_total(total, weight);
    }
    let wide: u128 = (total as u128) * (weight as u128) / 10000;
    wide as u64
}

} // verus!
