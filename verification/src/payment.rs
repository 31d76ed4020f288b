//! Plain-value forms of the host's payment primitives: incoming fungible
//! token transfers, incoming third-party deposits, and the outgoing
//! transfers an operation asks the host to execute.

use vstd::prelude::*;

verus! {

/// One incoming fungible-token transfer. A `nonce` of zero marks a fungible
/// token; any other value marks a non-fungible or semi-fungible one.
#[derive(Clone, Copy, Debug, PartialEq, Eq, Structural)]
pub struct EsdtPayment {
    pub token: u64,
    pub nonce: u64,
    pub amount: u128,
}

/// The asset of an outgoing transfer: the native currency or a fungible
/// token.
#[derive(Clone, Copy, Debug, PartialEq, Eq, Structural)]
pub enum PayoutToken {
    Egld,
    Esdt(u64),
}

/// One outgoing transfer the host must execute on behalf of a successful
/// operation.
#[derive(Clone, Copy, Debug, PartialEq, Eq, Structural)]
pub struct Payout {
    pub to: u64,
    pub token: PayoutToken,
    pub amount: u128,
}

/// The value attached to a third-party deposit: either native currency or a
/// batch of token transfers, never both in one call.
#[derive(Clone, Debug, PartialEq, Eq)]
pub enum ThirdPartyPayment {
    Egld(u128),
    Esdt(Vec<EsdtPayment>),
}

} // verus!
