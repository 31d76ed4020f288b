//! The accounting argument behind the ledger: one (address, category)
//! balance, watched across any sequence of operations, never pays out more
//! than was put in.
//!
//! A [`ClaimOp`] is the effect one successful operation has on one such
//! balance, exactly as the operations' contracts state it: `add_claim` and
//! `add_claims` grow it by the deposited amount, `remove_claim` and
//! `remove_claims` shrink it by an amount they may not overdraw, and
//! `harvest_claim` pays the whole balance out and zeroes it.

use vstd::prelude::*;

verus! {

/// The effect of one successful operation on one (address, category)
/// balance.
#[derive(Clone, Copy, Debug, PartialEq, Eq, Structural)]
pub enum ClaimOp {
    /// A deposit of the given amount.
    Add(u128),
    /// A removal of the given amount; invalid when it exceeds the balance.
    Remove(u128),
    /// A harvest of the whole balance.
    Harvest,
}

/// Runs a sequence of operations on a balance: the balance afterwards, or
/// nothing when some removal overdraws.
pub open spec fn run_claim_ops(balance: nat, ops: Seq<ClaimOp>) -> Option<nat>
    decreases ops.len(),
{
    if ops.len() == 0 {
        Some(balance)
    } else {
        match ops[0] {
            ClaimOp::Add(x) => run_claim_ops((balance + x) as nat, ops.drop_first()),
            ClaimOp::Remove(x) => if x <= balance {
                run_claim_ops((balance - x) as nat, ops.drop_first())
            } else {
                None
            },
            ClaimOp::Harvest => run_claim_ops(0, ops.drop_first()),
        }
    }
}

/// Everything the sequence deposits.
pub open spec fn added_total(ops: Seq<ClaimOp>) -> nat
    decreases ops.len(),
{
    if ops.len() == 0 {
        0
    } else {
        (match ops[0] {
            ClaimOp::Add(x) => x as nat,
            ClaimOp::Remove(_) => 0,
            ClaimOp::Harvest => 0,
        }) + added_total(ops.drop_first())
    }
}

/// Everything the sequence pays out of a balance: the removed amounts plus
/// whatever each harvest finds.
pub open spec fn withdrawn_total(balance: nat, ops: Seq<ClaimOp>) -> nat
    decreases ops.len(),
{
    if ops.len() == 0 {
        0
    } else {
        match ops[0] {
            ClaimOp::Add(x) => withdrawn_total((balance + x) as nat, ops.drop_first()),
            ClaimOp::Remove(x) => if x <= balance {
                (x + withdrawn_total((balance - x) as nat, ops.drop_first())) as nat
            } else {
                0
            },
            ClaimOp::Harvest => balance + withdrawn_total(0, ops.drop_first()),
        }
    }
}

/// Conservation: across any valid sequence of operations, what was paid
/// out plus what remains equals the starting balance plus what was put in.
pub proof fn lemma_claims_conservation(balance: nat, ops: Seq<ClaimOp>)
    requires
        run_claim_ops(balance, ops) is Some,
    ensures
        withdrawn_total(balance, ops) + run_claim_ops(balance, ops)->0 == balance + added_total(
            ops,
        ),
    decreases ops.len(),
{
    if ops.len() > 0 {
        match ops[0] {
            ClaimOp::Add(x) => {
                lemma_claims_conservation((balance + x) as nat, ops.drop_first());
            },
            ClaimOp::Remove(x) => {
                lemma_claims_conservation((balance - x) as nat, ops.drop_first());
            },
            ClaimOp::Harvest => {
                lemma_claims_conservation(0, ops.drop_first());
            },
        }
    }
}

/// Starting from an empty balance, no valid sequence of operations ever
/// pays out more than the sum of its deposits.
pub proof fn lemma_no_over_withdrawal(ops: Seq<ClaimOp>)
    requires
        run_claim_ops(0, ops) is Some,
    ensures
        withdrawn_total(0, ops) <= added_total(ops),
{
    lemma_claims_conservation(0, ops);
}

} // verus!
