//! Claims accounting engine: a per-address, per-category ledger of reserved
//! token balances, a parallel third-party royalty ledger with a basis-point
//! tax split, role-based authorization and a pause gate for withdrawals.
//!
//! The host environment (token transfers, timestamps, caller identity and
//! cross-contract queries) is kept outside: every operation receives the
//! caller, the current timestamp and any collaborator-supplied values as
//! plain arguments, and reports the transfers the host must execute as
//! [`Payout`](payment::Payout) values.

use vstd::prelude::*;

pub mod accounting;
pub mod data_nft;
pub mod ledger;
pub mod payment;
pub mod requirements;
pub mod storage;
pub mod views;

use crate::ledger::addr_list_contains;
use crate::ledger::addr_list_insert;
use crate::ledger::addr_list_remove;
use crate::payment::EsdtPayment;
use crate::payment::Payout;
use crate::payment::PayoutToken;
use crate::payment::ThirdPartyPayment;
use crate::requirements::has_deposit_rights;
use crate::requirements::is_authorized_third_party;
use crate::requirements::is_privileged;
use crate::requirements::ClaimsError;
use crate::requirements::RequirementsModule;
use crate::storage::claim_amount;
use crate::storage::claim_date;
use crate::storage::claim_total;
use crate::storage::ClaimType;
use crate::storage::ClaimsContract;
use crate::storage::CreatorEntry;
use crate::storage::StorageModule;
use crate::views::EsdtClaim;

verus! {

/// Upper bound on how many line items one bulk operation may carry.
pub const MAX_NUMBER_OF_CLAIMS_PER_OPERATION: usize = 200;

/// Upper bound on the size of the privileged-operator set.
pub const MAX_NUMBER_OF_PRIVILEGED_ADDRESSES: usize = 2;

/// Whether the claims ledger is the same in both states.
pub open spec fn same_claims(a: &ClaimsContract, b: &ClaimsContract) -> bool {
    a.claims@ == b.claims@
}

/// Whether both third-party ledgers are the same in both states.
pub open spec fn same_third_party(a: &ClaimsContract, b: &ClaimsContract) -> bool {
    a.egld_claims@ == b.egld_claims@ && a.token_claims@ == b.token_claims@
}

/// Whether the three role sets are the same in both states.
pub open spec fn same_roles(a: &ClaimsContract, b: &ClaimsContract) -> bool {
    a.privileged_addresses@ == b.privileged_addresses@ && a.depositor_addresses@
        == b.depositor_addresses@ && a.authorized_third_parties@ == b.authorized_third_parties@
}

/// Whether the configuration singletons are the same in both states.
pub open spec fn same_config(a: &ClaimsContract, b: &ClaimsContract) -> bool {
    a.owner == b.owner && a.claim_token == b.claim_token && a.paused == b.paused
        && a.factory_address == b.factory_address
}

/// Whether the creator records are the same in both states.
pub open spec fn same_creators(a: &ClaimsContract, b: &ClaimsContract) -> bool {
    a.data_nft_creators@ == b.data_nft_creators@
}

/// Whether nothing observable about the contract state differs: a rejected
/// call must leave the state in this relation to its pre-state.
pub open spec fn unchanged(a: &ClaimsContract, b: &ClaimsContract) -> bool {
    same_config(a, b) && same_roles(a, b) && same_claims(a, b) && same_third_party(a, b)
        && same_creators(a, b)
}

/// The bound on every address's category total carries over between states
/// with the same claims ledger.
proof fn lemma_totals_carry_over(a: &ClaimsContract, b: &ClaimsContract)
    requires
        a.claims@ == b.claims@,
        forall|x: u64| #[trigger] a.claim_total_spec(x) <= u128::MAX,
    ensures
        forall|x: u64| #[trigger] b.claim_total_spec(x) <= u128::MAX,
{
    assert forall|x: u64| #[trigger] b.claim_total_spec(x) <= u128::MAX by {
        assert(a.claim_total_spec(x) <= u128::MAX);
    }
}

impl ClaimsContract {
    /// Designates the token all claims are denominated in. Owner-only and
    /// set-once.
    pub fn set_claim_token(&mut self, caller: u64, token: u64) -> (r: Result<(), ClaimsError>)
        requires
            old(self).wf(),
        ensures
            final(self).wf(),
            r == (if caller != old(self).owner_spec() {
                Err::<(), ClaimsError>(ClaimsError::NotAuthorized)
            } else if old(self).claim_token_spec() is Some {
                Err(ClaimsError::TokenAlreadySet)
            } else {
                Ok(())
            }),
            r is Ok ==> final(self).claim_token_spec() == Some(token),
            r is Err ==> unchanged(final(self), old(self)),
            final(self).owner == old(self).owner,
            final(self).paused == old(self).paused,
            final(self).factory_address == old(self).factory_address,
            same_roles(final(self), old(self)),
            same_claims(final(self), old(self)),
            same_third_party(final(self), old(self)),
            same_creators(final(self), old(self)),
    {
        if caller != self.owner() {
            return Err(ClaimsError::NotAuthorized);
        }
        if self.claim_token().is_some() {
            return Err(ClaimsError::TokenAlreadySet);
        }
        self.claim_token = Some(token);
        proof {
            lemma_totals_carry_over(old(self), self);
        }
        Ok(())
    }

    /// Points the contract at the factory collaborator that supplies the
    /// tax rate and treasury address. Owner-only.
    pub fn set_factory_address(&mut self, caller: u64, factory: u64) -> (r: Result<(), ClaimsError>)
        requires
            old(self).wf(),
        ensures
            final(self).wf(),
            r == (if caller != old(self).owner_spec() {
                Err::<(), ClaimsError>(ClaimsError::NotAuthorized)
            } else {
                Ok(())
            }),
            r is Ok ==> final(self).factory_address_spec() == Some(factory),
            r is Err ==> unchanged(final(self), old(self)),
            final(self).owner == old(self).owner,
            final(self).paused == old(self).paused,
            final(self).claim_token == old(self).claim_token,
            same_roles(final(self), old(self)),
            same_claims(final(self), old(self)),
            same_third_party(final(self), old(self)),
            same_creators(final(self), old(self)),
    {
        if caller != self.owner() {
            return Err(ClaimsError::NotAuthorized);
        }
        self.factory_address = Some(factory);
        proof {
            lemma_totals_carry_over(old(self), self);
        }
        Ok(())
    }

    /// Pauses public harvesting. Callable by the owner or any privileged
    /// address; fails when already paused.
    pub fn pause(&mut self, caller: u64) -> (r: Result<(), ClaimsError>)
        requires
            old(self).wf(),
        ensures
            final(self).wf(),
            r == (if !is_privileged(old(self), caller) {
                Err::<(), ClaimsError>(ClaimsError::NotAuthorized)
            } else if old(self).is_paused_spec() {
                Err(ClaimsError::AlreadyPaused)
            } else {
                Ok(())
            }),
            r is Ok ==> final(self).is_paused_spec(),
            r is Err ==> unchanged(final(self), old(self)),
            final(self).owner == old(self).owner,
            final(self).claim_token == old(self).claim_token,
            final(self).factory_address == old(self).factory_address,
            same_roles(final(self), old(self)),
            same_claims(final(self), old(self)),
            same_third_party(final(self), old(self)),
            same_creators(final(self), old(self)),
    {
        self.require_address_is_privileged(caller)?;
        if self.is_paused() {
            return Err(ClaimsError::AlreadyPaused);
        }
        self.paused = true;
        proof {
            lemma_totals_carry_over(old(self), self);
        }
        Ok(())
    }

    /// Resumes public harvesting. Owner-only; fails when already unpaused.
    pub fn unpause(&mut self, caller: u64) -> (r: Result<(), ClaimsError>)
        requires
            old(self).wf(),
        ensures
            final(self).wf(),
            r == (if caller != old(self).owner_spec() {
                Err::<(), ClaimsError>(ClaimsError::NotAuthorized)
            } else if !old(self).is_paused_spec() {
                Err(ClaimsError::AlreadyUnpaused)
            } else {
                Ok(())
            }),
            r is Ok ==> !final(self).is_paused_spec(),
            r is Err ==> unchanged(final(self), old(self)),
            final(self).owner == old(self).owner,
            final(self).claim_token == old(self).claim_token,
            final(self).factory_address == old(self).factory_address,
            same_roles(final(self), old(self)),
            same_claims(final(self), old(self)),
            same_third_party(final(self), old(self)),
            same_creators(final(self), old(self)),
    {
        if caller != self.owner() {
            return Err(ClaimsError::NotAuthorized);
        }
        if !self.is_paused() {
            return Err(ClaimsError::AlreadyUnpaused);
        }
        self.paused = false;
        proof {
            lemma_totals_carry_over(old(self), self);
        }
        Ok(())
    }

    /// Grants privileged-operator rights. Owner-only; rejects the owner
    /// itself, duplicates, and growth beyond the configured maximum.
    pub fn add_privileged_address(&mut self, caller: u64, address: u64) -> (r: Result<
        (),
        ClaimsError,
    >)
        requires
            old(self).wf(),
        ensures
            final(self).wf(),
            r == (if caller != old(self).owner_spec() {
                Err::<(), ClaimsError>(ClaimsError::NotAuthorized)
            } else if address == old(self).owner_spec() {
                Err(ClaimsError::OwnerNotAllowed)
            } else if old(self).privileged_addresses_spec().contains(address) {
                Err(ClaimsError::AddressAlreadyPrivileged)
            } else if old(self).privileged_addresses_spec().len()
                >= MAX_NUMBER_OF_PRIVILEGED_ADDRESSES {
                Err(ClaimsError::MaxPrivilegedExceeded)
            } else {
                Ok(())
            }),
            r is Ok ==> final(self).privileged_addresses_spec() == old(self).privileged_addresses_spec().push(address),
            r is Err ==> unchanged(final(self), old(self)),
            same_config(final(self), old(self)),
            same_claims(final(self), old(self)),
            same_third_party(final(self), old(self)),
            same_creators(final(self), old(self)),
            final(self).depositor_addresses == old(self).depositor_addresses,
            final(self).authorized_third_parties == old(self).authorized_third_parties,
    {
        if caller != self.owner() {
            return Err(ClaimsError::NotAuthorized);
        }
        if address == self.owner() {
            return Err(ClaimsError::OwnerNotAllowed);
        }
        if addr_list_contains(&self.privileged_addresses, address) {
            return Err(ClaimsError::AddressAlreadyPrivileged);
        }
        if self.privileged_addresses.len() >= MAX_NUMBER_OF_PRIVILEGED_ADDRESSES {
            return Err(ClaimsError::MaxPrivilegedExceeded);
        }
        addr_list_insert(&mut self.privileged_addresses, address);
        proof {
            lemma_totals_carry_over(old(self), self);
        }
        Ok(())
    }

    /// Revokes privileged-operator rights. Owner-only; the address must be
    /// in the set.
    pub fn remove_privileged_address(&mut self, caller: u64, address: u64) -> (r: Result<
        (),
        ClaimsError,
    >)
        requires
            old(self).wf(),
        ensures
            final(self).wf(),
            r == (if caller != old(self).owner_spec() {
                Err::<(), ClaimsError>(ClaimsError::NotAuthorized)
            } else if !old(self).privileged_addresses_spec().contains(address) {
                Err(ClaimsError::AddressNotPrivileged)
            } else {
                Ok(())
            }),
            r is Ok ==> !final(self).privileged_addresses_spec().contains(address) && forall|
                x: u64,
            |
                x != address ==> (final(self).privileged_addresses_spec().contains(x) <==> old(self).privileged_addresses_spec().contains(x)),
            r is Ok ==> final(self).privileged_addresses_spec().len() == old(self).privileged_addresses_spec().len() - 1,
            r is Err ==> unchanged(final(self), old(self)),
            same_config(final(self), old(self)),
            same_claims(final(self), old(self)),
            same_third_party(final(self), old(self)),
            same_creators(final(self), old(self)),
            final(self).depositor_addresses == old(self).depositor_addresses,
            final(self).authorized_third_parties == old(self).authorized_third_parties,
    {
        if caller != self.owner() {
            return Err(ClaimsError::NotAuthorized);
        }
        if !addr_list_contains(&self.privileged_addresses, address) {
            return Err(ClaimsError::AddressNotPrivileged);
        }
        addr_list_remove(&mut self.privileged_addresses, address);
        proof {
            lemma_totals_carry_over(old(self), self);
        }
        Ok(())
    }

    /// Grants depositor rights. Owner-only; rejects the owner itself and
    /// duplicates. The depositor set has no size cap.
    pub fn add_depositor_address(&mut self, caller: u64, address: u64) -> (r: Result<
        (),
        ClaimsError,
    >)
        requires
            old(self).wf(),
        ensures
            final(self).wf(),
            r == (if caller != old(self).owner_spec() {
                Err::<(), ClaimsError>(ClaimsError::NotAuthorized)
            } else if address == old(self).owner_spec() {
                Err(ClaimsError::OwnerNotAllowed)
            } else if old(self).depositor_addresses_spec().contains(address) {
                Err(ClaimsError::AddressAlreadyDepositor)
            } else {
                Ok(())
            }),
            r is Ok ==> final(self).depositor_addresses_spec() == old(self).depositor_addresses_spec().push(address),
            r is Err ==> unchanged(final(self), old(self)),
            same_config(final(self), old(self)),
            same_claims(final(self), old(self)),
            same_third_party(final(self), old(self)),
            same_creators(final(self), old(self)),
            final(self).privileged_addresses == old(self).privileged_addresses,
            final(self).authorized_third_parties == old(self).authorized_third_parties,
    {
        if caller != self.owner() {
            return Err(ClaimsError::NotAuthorized);
        }
        if address == self.owner() {
            return Err(ClaimsError::OwnerNotAllowed);
        }
        if addr_list_contains(&self.depositor_addresses, address) {
            return Err(ClaimsError::AddressAlreadyDepositor);
        }
        addr_list_insert(&mut self.depositor_addresses, address);
        proof {
            lemma_totals_carry_over(old(self), self);
        }
        Ok(())
    }

    /// Revokes depositor rights. Owner-only; the address must be in the
    /// set.
    pub fn remove_depositor_address(&mut self, caller: u64, address: u64) -> (r: Result<
        (),
        ClaimsError,
    >)
        requires
            old(self).wf(),
        ensures
            final(self).wf(),
            r == (if caller != old(self).owner_spec() {
                Err::<(), ClaimsError>(ClaimsError::NotAuthorized)
            } else if !old(self).depositor_addresses_spec().contains(address) {
                Err(ClaimsError::AddressNotDepositor)
            } else {
                Ok(())
            }),
            r is Ok ==> !final(self).depositor_addresses_spec().contains(address) && forall|x: u64|
                x != address ==> (final(self).depositor_addresses_spec().contains(x) <==> old(self).depositor_addresses_spec().contains(x)),
            r is Err ==> unchanged(final(self), old(self)),
            same_config(final(self), old(self)),
            same_claims(final(self), old(self)),
            same_third_party(final(self), old(self)),
            same_creators(final(self), old(self)),
            final(self).privileged_addresses == old(self).privileged_addresses,
            final(self).authorized_third_parties == old(self).authorized_third_parties,
    {
        if caller != self.owner() {
            return Err(ClaimsError::NotAuthorized);
        }
        if !addr_list_contains(&self.depositor_addresses, address) {
            return Err(ClaimsError::AddressNotDepositor);
        }
        addr_list_remove(&mut self.depositor_addresses, address);
        proof {
            lemma_totals_carry_over(old(self), self);
        }
        Ok(())
    }

    /// Authorizes a third party to deposit royalties. Owner-only; rejects
    /// the owner itself and duplicates.
    pub fn authorize_third_party_address(&mut self, caller: u64, address: u64) -> (r: Result<
        (),
        ClaimsError,
    >)
        requires
            old(self).wf(),
        ensures
            final(self).wf(),
            r == (if caller != old(self).owner_spec() {
                Err::<(), ClaimsError>(ClaimsError::NotAuthorized)
            } else if address == old(self).owner_spec() {
                Err(ClaimsError::OwnerNotAllowed)
            } else if old(self).authorized_third_parties_spec().contains(address) {
                Err(ClaimsError::ThirdPartyAlreadyAuthorized)
            } else {
                Ok(())
            }),
            r is Ok ==> final(self).authorized_third_parties_spec() == old(self).authorized_third_parties_spec().push(address),
            r is Err ==> unchanged(final(self), old(self)),
            same_config(final(self), old(self)),
            same_claims(final(self), old(self)),
            same_third_party(final(self), old(self)),
            same_creators(final(self), old(self)),
            final(self).privileged_addresses == old(self).privileged_addresses,
            final(self).depositor_addresses == old(self).depositor_addresses,
    {
        if caller != self.owner() {
            return Err(ClaimsError::NotAuthorized);
        }
        if address == self.owner() {
            return Err(ClaimsError::OwnerNotAllowed);
        }
        if addr_list_contains(&self.authorized_third_parties, address) {
            return Err(ClaimsError::ThirdPartyAlreadyAuthorized);
        }
        addr_list_insert(&mut self.authorized_third_parties, address);
        proof {
            lemma_totals_carry_over(old(self), self);
        }
        Ok(())
    }

    /// Withdraws a third party's authorization. Owner-only; the address
    /// must be in the set.
    pub fn unauthorize_third_party_address(&mut self, caller: u64, address: u64) -> (r: Result<
        (),
        ClaimsError,
    >)
        requires
            old(self).wf(),
        ensures
            final(self).wf(),
            r == (if caller != old(self).owner_spec() {
                Err::<(), ClaimsError>(ClaimsError::NotAuthorized)
            } else if !old(self).authorized_third_parties_spec().contains(address) {
                Err(ClaimsError::ThirdPartyNotAuthorized)
            } else {
                Ok(())
            }),
            r is Ok ==> !final(self).authorized_third_parties_spec().contains(address) && forall|
                x: u64,
            |
                x != address ==> (final(self).authorized_third_parties_spec().contains(x) <==> old(self).authorized_third_parties_spec().contains(x)),
            r is Err ==> unchanged(final(self), old(self)),
            same_config(final(self), old(self)),
            same_claims(final(self), old(self)),
            same_third_party(final(self), old(self)),
            same_creators(final(self), old(self)),
            final(self).privileged_addresses == old(self).privileged_addresses,
            final(self).depositor_addresses == old(self).depositor_addresses,
    {
        if caller != self.owner() {
            return Err(ClaimsError::NotAuthorized);
        }
        if !addr_list_contains(&self.authorized_third_parties, address) {
            return Err(ClaimsError::ThirdPartyNotAuthorized);
        }
        addr_list_remove(&mut self.authorized_third_parties, address);
        proof {
            lemma_totals_carry_over(old(self), self);
        }
        Ok(())
    }
}

impl ClaimsContract {
    /// Sum of one address's four category balances.
    fn claim_total_of(&self, address: u64) -> (r: u128)
        requires
            self.claim_total_spec(address) <= u128::MAX,
        ensures
            r == self.claim_total_spec(address),
    {
        let reward = self.claim(address, ClaimType::Reward);
        let airdrop = self.claim(address, ClaimType::Airdrop);
        let allocation = self.claim(address, ClaimType::Allocation);
        let royalty = self.claim(address, ClaimType::Royalty);
        reward + airdrop + allocation + royalty
    }

    /// Reserves `payment` for `address` under `claim_type`. The caller
    /// needs deposit rights, the payment must be the designated claim
    /// token, and its amount must be positive; the balance grows by
    /// exactly the payment amount.
    pub fn add_claim(
        &mut self,
        caller: u64,
        now: u64,
        address: u64,
        claim_type: ClaimType,
        payment: EsdtPayment,
    ) -> (r: Result<(), ClaimsError>)
        requires
            old(self).wf(),
        ensures
            final(self).wf(),
            r == (if !has_deposit_rights(old(self), caller) {
                Err::<(), ClaimsError>(ClaimsError::NotAuthorized)
            } else if old(self).claim_token_spec() is None {
                Err(ClaimsError::TokenNotSet)
            } else if old(self).claim_token_spec() != Some(payment.token) {
                Err(ClaimsError::WrongToken)
            } else if payment.amount == 0 {
                Err(ClaimsError::ZeroValue)
            } else if old(self).claim_total_spec(address) + payment.amount > u128::MAX {
                Err(ClaimsError::AmountOverflow)
            } else {
                Ok(())
            }),
            r is Ok ==> final(self).claim_spec(address, claim_type) == old(self).claim_spec(
                address,
                claim_type,
            ) + payment.amount && final(self).claim_modify_date_spec(address, claim_type) == now,
            r is Ok ==> forall|a: u64, c: ClaimType|
                !(a == address && c == claim_type) ==> final(self).claim_spec(a, c) == old(self).claim_spec(a, c) && final(self).claim_modify_date_spec(a, c) == old(self).claim_modify_date_spec(a, c),
            r is Err ==> unchanged(final(self), old(self)),
            same_config(final(self), old(self)),
            same_roles(final(self), old(self)),
            same_third_party(final(self), old(self)),
            same_creators(final(self), old(self)),
    {
        self.require_address_has_deposit_rights(caller)?;
        self.require_claim_token_is_set()?;
        self.require_token_is_correct(payment.token)?;
        self.require_value_not_zero(payment.amount)?;
        let total = self.claim_total_of(address);
        if payment.amount > u128::MAX - total {
            return Err(ClaimsError::AmountOverflow);
        }
        let current = self.claim(address, claim_type);
        self.set_claim(address, claim_type, current + payment.amount, now);
        proof {
            assert forall|a: u64| #[trigger] final(self).claim_total_spec(a) <= u128::MAX by {
                assert(old(self).claim_total_spec(a) <= u128::MAX);
                if a != address {
                    assert(final(self).claim_total_spec(a) == old(self).claim_total_spec(a));
                }
            }
        }
        Ok(())
    }

    /// Releases `amount` from `address`'s claim under `claim_type` back to
    /// the owner. Owner-only; the amount must be positive and within the
    /// current balance, which shrinks by exactly that amount. The released
    /// tokens are returned to the owner in one transfer.
    pub fn remove_claim(
        &mut self,
        caller: u64,
        now: u64,
        address: u64,
        claim_type: ClaimType,
        amount: u128,
    ) -> (r: Result<Payout, ClaimsError>)
        requires
            old(self).wf(),
        ensures
            final(self).wf(),
            r == (if caller != old(self).owner_spec() {
                Err::<Payout, ClaimsError>(ClaimsError::NotAuthorized)
            } else if old(self).claim_token_spec() is None {
                Err(ClaimsError::TokenNotSet)
            } else if amount == 0 {
                Err(ClaimsError::ZeroValue)
            } else if amount > old(self).claim_spec(address, claim_type) {
                Err(ClaimsError::MoreThanClaim)
            } else {
                Ok(
                    Payout {
                        to: old(self).owner_spec(),
                        token: PayoutToken::Esdt(old(self).claim_token_spec()->0),
                        amount,
                    },
                )
            }),
            r is Ok ==> final(self).claim_spec(address, claim_type) == old(self).claim_spec(
                address,
                claim_type,
            ) - amount && final(self).claim_modify_date_spec(address, claim_type) == now,
            r is Ok ==> forall|a: u64, c: ClaimType|
                !(a == address && c == claim_type) ==> final(self).claim_spec(a, c) == old(self).claim_spec(a, c) && final(self).claim_modify_date_spec(a, c) == old(self).claim_modify_date_spec(a, c),
            r is Err ==> unchanged(final(self), old(self)),
            same_config(final(self), old(self)),
            same_roles(final(self), old(self)),
            same_third_party(final(self), old(self)),
            same_creators(final(self), old(self)),
    {
        if caller != self.owner() {
            return Err(ClaimsError::NotAuthorized);
        }
        self.require_claim_token_is_set()?;
        self.require_value_not_zero(amount)?;
        let current = self.claim(address, claim_type);
        self.require_remove_claim_is_valid(current, amount)?;
        let token = match self.claim_token() {
            Some(t) => t,
            None => {
                return Err(ClaimsError::TokenNotSet);
            },
        };
        self.set_claim(address, claim_type, current - amount, now);
        proof {
            assert forall|a: u64| #[trigger] final(self).claim_total_spec(a) <= u128::MAX by {
                assert(old(self).claim_total_spec(a) <= u128::MAX);
                if a != address {
                    assert(final(self).claim_total_spec(a) == old(self).claim_total_spec(a));
                }
            }
        }
        Ok(Payout { to: caller, token: PayoutToken::Esdt(token), amount })
    }

    /// Withdraws the caller's own claims. With a category given, that one
    /// balance (which must be positive) is zeroed and paid out; with none,
    /// every category is zeroed and the sum (which must be positive) is
    /// paid out in one transfer. Requires the claim token to be configured
    /// and harvesting not to be paused.
    pub fn harvest_claim(&mut self, caller: u64, now: u64, opt_claim_type: Option<ClaimType>) -> (r:
        Result<Payout, ClaimsError>)
        requires
            old(self).wf(),
        ensures
            final(self).wf(),
            r == (if old(self).claim_token_spec() is None {
                Err::<Payout, ClaimsError>(ClaimsError::TokenNotSet)
            } else if old(self).is_paused_spec() {
                Err(ClaimsError::ContractPaused)
            } else {
                match opt_claim_type {
                    Some(claim_type) => if old(self).claim_spec(caller, claim_type) == 0 {
                        Err(ClaimsError::ZeroValue)
                    } else {
                        Ok(
                            Payout {
                                to: caller,
                                token: PayoutToken::Esdt(old(self).claim_token_spec()->0),
                                amount: old(self).claim_spec(caller, claim_type),
                            },
                        )
                    },
                    None => if old(self).claim_total_spec(caller) == 0 {
                        Err(ClaimsError::ZeroValue)
                    } else {
                        Ok(
                            Payout {
                                to: caller,
                                token: PayoutToken::Esdt(old(self).claim_token_spec()->0),
                                amount: old(self).claim_total_spec(caller) as u128,
                            },
                        )
                    },
                }
            }),
            r is Ok && opt_claim_type is Some ==> final(self).claim_spec(
                caller,
                opt_claim_type->0,
            ) == 0 && final(self).claim_modify_date_spec(caller, opt_claim_type->0) == now && forall|
                a: u64,
                c: ClaimType,
            |
                !(a == caller && c == opt_claim_type->0) ==> final(self).claim_spec(a, c) == old(self).claim_spec(a, c) && final(self).claim_modify_date_spec(a, c) == old(self).claim_modify_date_spec(a, c),
            r is Ok && opt_claim_type is None ==> (forall|c: ClaimType|
                final(self).claim_spec(caller, c) == 0) && (forall|c: ClaimType|
                old(self).claim_spec(caller, c) > 0 ==> final(self).claim_modify_date_spec(
                    caller,
                    c,
                ) == now) && (forall|c: ClaimType|
                old(self).claim_spec(caller, c) == 0 ==> final(self).claim_modify_date_spec(
                    caller,
                    c,
                ) == old(self).claim_modify_date_spec(caller, c)) && (forall|a: u64, c: ClaimType|
                a != caller ==> final(self).claim_spec(a, c) == old(self).claim_spec(a, c) && final(self).claim_modify_date_spec(a, c) == old(self).claim_modify_date_spec(a, c)),
            r is Err ==> unchanged(final(self), old(self)),
            same_config(final(self), old(self)),
            same_roles(final(self), old(self)),
            same_third_party(final(self), old(self)),
            same_creators(final(self), old(self)),
    {
        self.require_claim_token_is_set()?;
        let token = match self.claim_token() {
            Some(t) => t,
            None => {
                return Err(ClaimsError::TokenNotSet);
            },
        };
        if self.is_paused() {
            return Err(ClaimsError::ContractPaused);
        }
        match opt_claim_type {
            Some(claim_type) => {
                let amount = self.claim(caller, claim_type);
                self.require_value_not_zero(amount)?;
                self.set_claim(caller, claim_type, 0, now);
                proof {
                    assert forall|a: u64| #[trigger] final(self).claim_total_spec(a)
                        <= u128::MAX by {
                        assert(old(self).claim_total_spec(a) <= u128::MAX);
                        if a != caller {
                            assert(final(self).claim_total_spec(a) == old(self).claim_total_spec(
                                a,
                            ));
                        }
                    }
                }
                Ok(Payout { to: caller, token: PayoutToken::Esdt(token), amount })
            },
            None => {
                let total = self.claim_total_of(caller);
                self.require_value_not_zero(total)?;
                let reward = self.claim(caller, ClaimType::Reward);
                if reward > 0 {
                    self.set_claim(caller, ClaimType::Reward, 0, now);
                }
                let airdrop = self.claim(caller, ClaimType::Airdrop);
                if airdrop > 0 {
                    self.set_claim(caller, ClaimType::Airdrop, 0, now);
                }
                let allocation = self.claim(caller, ClaimType::Allocation);
                if allocation > 0 {
                    self.set_claim(caller, ClaimType::Allocation, 0, now);
                }
                let royalty = self.claim(caller, ClaimType::Royalty);
                if royalty > 0 {
                    self.set_claim(caller, ClaimType::Royalty, 0, now);
                }
                proof {
                    assert forall|c: ClaimType| final(self).claim_spec(caller, c) == 0 by {
                        if c != ClaimType::Reward && c != ClaimType::Airdrop && c
                            != ClaimType::Allocation {
                            assert(c == ClaimType::Royalty);
                        }
                    }
                    assert forall|a: u64| #[trigger] final(self).claim_total_spec(a)
                        <= u128::MAX by {
                        assert(old(self).claim_total_spec(a) <= u128::MAX);
                        if a != caller {
                            assert(final(self).claim_total_spec(a) == old(self).claim_total_spec(
                                a,
                            ));
                        }
                    }
                }
                Ok(Payout { to: caller, token: PayoutToken::Esdt(token), amount: total })
            },
        }
    }
}

/// One line item of a bulk add or remove: which address's balance changes,
/// under which category, and by how much.
#[derive(Clone, Copy, Debug, PartialEq, Eq, Structural)]
pub struct ClaimRequest {
    pub address: u64,
    pub claim_type: ClaimType,
    pub amount: u128,
}

/// Sum of all line-item amounts.
pub open spec fn requests_total(items: Seq<ClaimRequest>) -> int
    decreases items.len(),
{
    if items.len() == 0 {
        0
    } else {
        items[0].amount + requests_total(items.drop_first())
    }
}

/// Sum of the line-item amounts aimed at one address.
pub open spec fn addr_requests_total(items: Seq<ClaimRequest>, address: u64) -> int
    decreases items.len(),
{
    if items.len() == 0 {
        0
    } else {
        (if items[0].address == address {
            items[0].amount as int
        } else {
            0
        }) + addr_requests_total(items.drop_first(), address)
    }
}

/// Sum of the line-item amounts aimed at one (address, category) pair.
pub open spec fn pair_requests_total(
    items: Seq<ClaimRequest>,
    address: u64,
    claim_type: ClaimType,
) -> int
    decreases items.len(),
{
    if items.len() == 0 {
        0
    } else {
        (if items[0].address == address && items[0].claim_type == claim_type {
            items[0].amount as int
        } else {
            0
        }) + pair_requests_total(items.drop_first(), address, claim_type)
    }
}

/// Whether some line item aims at the given (address, category) pair.
pub open spec fn has_pair_request(
    items: Seq<ClaimRequest>,
    address: u64,
    claim_type: ClaimType,
) -> bool {
    exists|i: int|
        0 <= i < items.len() && items[i].address == address && items[i].claim_type == claim_type
}

/// Whether some line item carries a zero amount.
pub open spec fn any_zero_request(items: Seq<ClaimRequest>) -> bool {
    exists|i: int| 0 <= i < items.len() && items[i].amount == 0
}

/// Whether applying all the line items would push some address's category
/// total past the host's numeric range.
pub open spec fn add_overflows(c: &ClaimsContract, items: Seq<ClaimRequest>) -> bool {
    exists|a: u64| c.claim_total_spec(a) + addr_requests_total(items, a) > u128::MAX
}

/// The first rejection a sequential bulk removal runs into, if any: `done`
/// holds the already applied prefix, `items` what is still to come.
pub open spec fn removals_error(
    c: &ClaimsContract,
    items: Seq<ClaimRequest>,
    done: Seq<ClaimRequest>,
) -> Option<ClaimsError>
    decreases items.len(),
{
    if items.len() == 0 {
        None
    } else {
        let it = items[0];
        if it.amount == 0 {
            Some(ClaimsError::ZeroValue)
        } else if pair_requests_total(done, it.address, it.claim_type) + it.amount > c.claim_spec(
            it.address,
            it.claim_type,
        ) {
            Some(ClaimsError::MoreThanClaim)
        } else if requests_total(done) + it.amount > u128::MAX {
            Some(ClaimsError::AmountOverflow)
        } else {
            removals_error(c, items.drop_first(), done.push(it))
        }
    }
}

/// Unfolds the three request sums one position into a suffix.
proof fn lemma_requests_step(items: Seq<ClaimRequest>, i: int)
    requires
        0 <= i < items.len(),
    ensures
        requests_total(items.skip(i)) == items[i].amount + requests_total(items.skip(i + 1)),
        forall|a: u64|
            addr_requests_total(items.skip(i), a) == (if items[i].address == a {
                items[i].amount as int
            } else {
                0
            }) + addr_requests_total(items.skip(i + 1), a),
        forall|a: u64, c: ClaimType|
            pair_requests_total(items.skip(i), a, c) == (if items[i].address == a
                && items[i].claim_type == c {
                items[i].amount as int
            } else {
                0
            }) + pair_requests_total(items.skip(i + 1), a, c),
{
    assert(items.skip(i)[0] == items[i]);
    assert(items.skip(i).drop_first() =~= items.skip(i + 1));
}

/// The three request sums are never negative.
proof fn lemma_requests_nonneg(items: Seq<ClaimRequest>)
    ensures
        requests_total(items) >= 0,
        forall|a: u64| #[trigger] addr_requests_total(items, a) >= 0,
        forall|a: u64, c: ClaimType| #[trigger] pair_requests_total(items, a, c) >= 0,
    decreases items.len(),
{
    if items.len() > 0 {
        lemma_requests_nonneg(items.drop_first());
        assert forall|a: u64| #[trigger] addr_requests_total(items, a) >= 0 by {
            assert(addr_requests_total(items.drop_first(), a) >= 0);
        }
        assert forall|a: u64, c: ClaimType| #[trigger] pair_requests_total(items, a, c) >= 0 by {
            assert(pair_requests_total(items.drop_first(), a, c) >= 0);
        }
    }
}

/// An address's request sum splits into the four per-category sums.
proof fn lemma_addr_total_by_pairs(items: Seq<ClaimRequest>, a: u64)
    ensures
        addr_requests_total(items, a) == pair_requests_total(items, a, ClaimType::Reward)
            + pair_requests_total(items, a, ClaimType::Airdrop) + pair_requests_total(
            items,
            a,
            ClaimType::Allocation,
        ) + pair_requests_total(items, a, ClaimType::Royalty),
    decreases items.len(),
{
    if items.len() > 0 {
        lemma_addr_total_by_pairs(items.drop_first(), a);
        let it = items[0];
        if it.address == a && it.claim_type != ClaimType::Reward && it.claim_type
            != ClaimType::Airdrop && it.claim_type != ClaimType::Allocation {
            assert(it.claim_type == ClaimType::Royalty);
        }
    }
}

/// Appending a line item adds its amount to the total and to its own
/// pair's sum, and to no other pair's.
proof fn lemma_requests_push(done: Seq<ClaimRequest>, it: ClaimRequest)
    ensures
        requests_total(done.push(it)) == requests_total(done) + it.amount,
        forall|a: u64, c: ClaimType|
            #[trigger] pair_requests_total(done.push(it), a, c) == pair_requests_total(done, a, c)
                + (if it.address == a && it.claim_type == c {
                it.amount as int
            } else {
                0
            }),
    decreases done.len(),
{
    if done.len() == 0 {
        assert(done.push(it)[0] == it);
        assert(done.push(it).drop_first() =~= Seq::<ClaimRequest>::empty());
        assert(requests_total(Seq::<ClaimRequest>::empty()) == 0);
        assert(requests_total(done) == 0);
        assert forall|a: u64, c: ClaimType|
            #[trigger] pair_requests_total(done.push(it), a, c) == pair_requests_total(done, a, c)
                + (if it.address == a && it.claim_type == c {
                it.amount as int
            } else {
                0
            }) by {
            assert(pair_requests_total(Seq::<ClaimRequest>::empty(), a, c) == 0);
            assert(pair_requests_total(done, a, c) == 0);
        }
    } else {
        assert(done.push(it)[0] == done[0]);
        assert(done.push(it).drop_first() =~= done.drop_first().push(it));
        lemma_requests_push(done.drop_first(), it);
        assert forall|a: u64, c: ClaimType|
            #[trigger] pair_requests_total(done.push(it), a, c) == pair_requests_total(done, a, c)
                + (if it.address == a && it.claim_type == c {
                it.amount as int
            } else {
                0
            }) by {
            assert(pair_requests_total(done.drop_first().push(it), a, c) == pair_requests_total(
                done.drop_first(),
                a,
                c,
            ) + (if it.address == a && it.claim_type == c {
                it.amount as int
            } else {
                0
            }));
        }
    }
}

impl ClaimsContract {
    /// Reserves a batch of claims, all funded by one payment. The caller
    /// needs deposit rights; the batch must stay within the line-item
    /// bound, its amounts must be positive and sum to exactly the payment
    /// amount. Either every line item is applied, in the order supplied,
    /// or none is.
    pub fn add_claims(
        &mut self,
        caller: u64,
        now: u64,
        payment: EsdtPayment,
        items: Vec<ClaimRequest>,
    ) -> (r: Result<(), ClaimsError>)
        requires
            old(self).wf(),
        ensures
            final(self).wf(),
            r == (if !has_deposit_rights(old(self), caller) {
                Err::<(), ClaimsError>(ClaimsError::NotAuthorized)
            } else if old(self).claim_token_spec() is None {
                Err(ClaimsError::TokenNotSet)
            } else if old(self).claim_token_spec() != Some(payment.token) {
                Err(ClaimsError::WrongToken)
            } else if items@.len() > MAX_NUMBER_OF_CLAIMS_PER_OPERATION {
                Err(ClaimsError::TooManyClaims)
            } else if requests_total(items@) != payment.amount {
                Err(ClaimsError::ClaimsNotEqualPayment)
            } else if any_zero_request(items@) {
                Err(ClaimsError::ZeroValue)
            } else if add_overflows(old(self), items@) {
                Err(ClaimsError::AmountOverflow)
            } else {
                Ok(())
            }),
            r is Ok ==> forall|a: u64, c: ClaimType|
                final(self).claim_spec(a, c) == old(self).claim_spec(a, c) + pair_requests_total(
                    items@,
                    a,
                    c,
                ),
            r is Ok ==> forall|a: u64, c: ClaimType|
                final(self).claim_modify_date_spec(a, c) == (if has_pair_request(items@, a, c) {
                    now
                } else {
                    old(self).claim_modify_date_spec(a, c)
                }),
            r is Err ==> unchanged(final(self), old(self)),
            same_config(final(self), old(self)),
            same_roles(final(self), old(self)),
            same_third_party(final(self), old(self)),
            same_creators(final(self), old(self)),
    {
        self.require_address_has_deposit_rights(caller)?;
        self.require_claim_token_is_set()?;
        self.require_token_is_correct(payment.token)?;
        let n = items.len();
        self.require_number_of_claims_in_bulk_is_valid(n)?;
        let ghost iseq = items@;

        // The line items must sum to exactly the attached payment.
        let mut sum: u128 = 0;
        let mut i: usize = 0;
        proof {
            assert(iseq.skip(0) =~= iseq);
        }
        while i < n
            invariant
                i <= n,
                n == iseq.len(),
                iseq == items@,
                old(self).wf(),
                unchanged(self, old(self)),
                has_deposit_rights(old(self), caller),
                old(self).claim_token_spec() == Some(payment.token),
                iseq.len() <= MAX_NUMBER_OF_CLAIMS_PER_OPERATION,
                requests_total(iseq) == sum + requests_total(iseq.skip(i as int)),
            decreases n - i,
        {
            proof {
                lemma_requests_step(iseq, i as int);
            }
            let amount = items[i].amount;
            if amount > u128::MAX - sum {
                proof {
                    lemma_requests_nonneg(iseq.skip(i as int + 1));
                    lemma_totals_carry_over(old(self), self);
                }
                return Err(ClaimsError::ClaimsNotEqualPayment);
            }
            sum = sum + amount;
            i = i + 1;
        }
        proof {
            assert(iseq.skip(n as int) =~= Seq::<ClaimRequest>::empty());
        }
        if sum != payment.amount {
            return Err(ClaimsError::ClaimsNotEqualPayment);
        }
        // Every line item must carry a positive amount.
        let mut i: usize = 0;
        while i < n
            invariant
                i <= n,
                n == iseq.len(),
                iseq == items@,
                old(self).wf(),
                unchanged(self, old(self)),
                has_deposit_rights(old(self), caller),
                old(self).claim_token_spec() == Some(payment.token),
                iseq.len() <= MAX_NUMBER_OF_CLAIMS_PER_OPERATION,
                requests_total(iseq) == payment.amount,
                forall|j: int| 0 <= j < i ==> iseq[j].amount > 0,
            decreases n - i,
        {
            if items[i].amount == 0 {
                proof {
                    assert(0 <= i < iseq.len() && iseq[i as int].amount == 0);
                    lemma_totals_carry_over(old(self), self);
                }
                return Err(ClaimsError::ZeroValue);
            }
            i = i + 1;
        }
        assert(!any_zero_request(iseq));
        // Stage the whole batch; commit only when every item fits.
        let mut staged = crate::storage::copy_claim_entries(&self.claims);
        let mut i: usize = 0;
        proof {
            assert(iseq.skip(0) =~= iseq);
            assert(iseq.subrange(0, 0) =~= Seq::<ClaimRequest>::empty());
            assert forall|a: u64| #[trigger] claim_total(staged@, a) <= u128::MAX by {
                assert(old(self).claim_total_spec(a) <= u128::MAX);
            }
        }
        while i < n
            invariant
                i <= n,
                n == iseq.len(),
                iseq == items@,
                old(self).wf(),
                unchanged(self, old(self)),
                has_deposit_rights(old(self), caller),
                old(self).claim_token_spec() == Some(payment.token),
                iseq.len() <= MAX_NUMBER_OF_CLAIMS_PER_OPERATION,
                requests_total(iseq) == payment.amount,
                !any_zero_request(iseq),
                forall|a: u64, c: ClaimType|
                    old(self).claim_spec(a, c) + pair_requests_total(iseq, a, c) == claim_amount(
                        staged@,
                        a,
                        c,
                    ) + pair_requests_total(iseq.skip(i as int), a, c),
                forall|a: u64, c: ClaimType|
                    claim_date(staged@, a, c) == (if has_pair_request(
                        iseq.subrange(0, i as int),
                        a,
                        c,
                    ) {
                        now
                    } else {
                        old(self).claim_modify_date_spec(a, c)
                    }),
                forall|a: u64| #[trigger] claim_total(staged@, a) <= u128::MAX,
            decreases n - i,
        {
            let it = items[i];
            proof {
                lemma_requests_step(iseq, i as int);
                lemma_requests_nonneg(iseq.skip(i as int + 1));
            }
            let current_total = crate::storage::claims_total_in(&staged, it.address);
            if it.amount > u128::MAX - current_total {
                proof {
                    lemma_addr_total_by_pairs(iseq, it.address);
                    lemma_addr_total_by_pairs(iseq.skip(i as int), it.address);
                    lemma_addr_total_by_pairs(iseq.skip(i as int + 1), it.address);
                    assert(old(self).claim_total_spec(it.address) + addr_requests_total(
                        iseq,
                        it.address,
                    ) > u128::MAX);
                    assert(add_overflows(old(self), iseq));
                }
                return Err(ClaimsError::AmountOverflow);
            }
            let current = crate::storage::claim_amount_in(&staged, it.address, it.claim_type);
            let ghost prev = staged@;
            proof {
                lemma_requests_nonneg(iseq.skip(i as int));
            }
            crate::storage::set_claim_in(&mut staged, it.address, it.claim_type, current + it.amount, now);
            proof {
                assert forall|a: u64, c: ClaimType|
                    old(self).claim_spec(a, c) + pair_requests_total(iseq, a, c) == claim_amount(
                        staged@,
                        a,
                        c,
                    ) + pair_requests_total(iseq.skip(i as int + 1), a, c) by {
                    assert(old(self).claim_spec(a, c) + pair_requests_total(iseq, a, c)
                        == claim_amount(prev, a, c) + pair_requests_total(
                        iseq.skip(i as int),
                        a,
                        c,
                    ));
                }
                assert(iseq.subrange(0, i as int + 1) =~= iseq.subrange(0, i as int).push(
                    iseq[i as int],
                ));
                assert forall|a: u64, c: ClaimType|
                    claim_date(staged@, a, c) == (if has_pair_request(
                        iseq.subrange(0, i as int + 1),
                        a,
                        c,
                    ) {
                        now
                    } else {
                        old(self).claim_modify_date_spec(a, c)
                    }) by {
                    let p = iseq.subrange(0, i as int + 1);
                    let q = iseq.subrange(0, i as int);
                    assert(claim_date(prev, a, c) == (if has_pair_request(q, a, c) {
                        now
                    } else {
                        old(self).claim_modify_date_spec(a, c)
                    }));
                    if a == it.address && c == it.claim_type {
                        assert(p[i as int] == iseq[i as int]);
                        assert(has_pair_request(p, a, c));
                    } else {
                        assert(has_pair_request(p, a, c) == has_pair_request(q, a, c)) by {
                            if has_pair_request(p, a, c) {
                                let j = choose|j: int|
                                    0 <= j < p.len() && p[j].address == a && p[j].claim_type == c;
                                assert(j < i as int);
                                assert(q[j] == p[j]);
                            }
                            if has_pair_request(q, a, c) {
                                let j = choose|j: int|
                                    0 <= j < q.len() && q[j].address == a && q[j].claim_type == c;
                                assert(p[j] == q[j]);
                            }
                        }
                    }
                }
                assert forall|a: u64| #[trigger] claim_total(staged@, a) <= u128::MAX by {
                    assert(claim_total(prev, a) <= u128::MAX);
                    if a != it.address {
                        assert(claim_total(staged@, a) == claim_total(prev, a));
                    }
                }
            }
            i = i + 1;
        }
        proof {
            assert(iseq.skip(n as int) =~= Seq::<ClaimRequest>::empty());
            assert(iseq.subrange(0, n as int) =~= iseq);
            assert forall|a: u64|
                old(self).claim_total_spec(a) + addr_requests_total(iseq, a) <= u128::MAX by {
                lemma_addr_total_by_pairs(iseq, a);
                assert(pair_requests_total(iseq.skip(n as int), a, ClaimType::Reward) == 0);
                assert(pair_requests_total(iseq.skip(n as int), a, ClaimType::Airdrop) == 0);
                assert(pair_requests_total(iseq.skip(n as int), a, ClaimType::Allocation) == 0);
                assert(pair_requests_total(iseq.skip(n as int), a, ClaimType::Royalty) == 0);
                assert(old(self).claim_spec(a, ClaimType::Reward) + pair_requests_total(
                    iseq,
                    a,
                    ClaimType::Reward,
                ) == claim_amount(staged@, a, ClaimType::Reward));
                assert(old(self).claim_spec(a, ClaimType::Airdrop) + pair_requests_total(
                    iseq,
                    a,
                    ClaimType::Airdrop,
                ) == claim_amount(staged@, a, ClaimType::Airdrop));
                assert(old(self).claim_spec(a, ClaimType::Allocation) + pair_requests_total(
                    iseq,
                    a,
                    ClaimType::Allocation,
                ) == claim_amount(staged@, a, ClaimType::Allocation));
                assert(old(self).claim_spec(a, ClaimType::Royalty) + pair_requests_total(
                    iseq,
                    a,
                    ClaimType::Royalty,
                ) == claim_amount(staged@, a, ClaimType::Royalty));
                assert(claim_total(staged@, a) <= u128::MAX);
            }
            assert(!add_overflows(old(self), iseq));
        }
        self.claims = staged;
        proof {
            assert forall|a: u64| #[trigger] final(self).claim_total_spec(a) <= u128::MAX by {
                assert(claim_total(staged@, a) <= u128::MAX);
            }
            assert forall|a: u64, c: ClaimType|
                final(self).claim_spec(a, c) == old(self).claim_spec(a, c) + pair_requests_total(
                    iseq,
                    a,
                    c,
                ) by {
                assert(old(self).claim_spec(a, c) + pair_requests_total(iseq, a, c) == claim_amount(
                    staged@,
                    a,
                    c,
                ) + pair_requests_total(iseq.skip(n as int), a, c));
                assert(pair_requests_total(iseq.skip(n as int), a, c) == 0);
            }
        }
        Ok(())
    }
}

impl ClaimsContract {
    /// Releases a batch of claims back to the owner. Owner-only; the batch
    /// must stay within the line-item bound and every item, applied in the
    /// order supplied, must carry a positive amount no larger than the
    /// balance it meets. Either every item is applied or none is, and the
    /// whole released total goes to the owner in one transfer.
    pub fn remove_claims(&mut self, caller: u64, now: u64, items: Vec<ClaimRequest>) -> (r: Result<
        Payout,
        ClaimsError,
    >)
        requires
            old(self).wf(),
        ensures
            final(self).wf(),
            r == (if caller != old(self).owner_spec() {
                Err::<Payout, ClaimsError>(ClaimsError::NotAuthorized)
            } else if old(self).claim_token_spec() is None {
                Err(ClaimsError::TokenNotSet)
            } else if items@.len() > MAX_NUMBER_OF_CLAIMS_PER_OPERATION {
                Err(ClaimsError::TooManyClaims)
            } else {
                match removals_error(old(self), items@, Seq::<ClaimRequest>::empty()) {
                    Some(e) => Err(e),
                    None => Ok(
                        Payout {
                            to: old(self).owner_spec(),
                            token: PayoutToken::Esdt(old(self).claim_token_spec()->0),
                            amount: requests_total(items@) as u128,
                        },
                    ),
                }
            }),
            r is Ok ==> forall|a: u64, c: ClaimType|
                final(self).claim_spec(a, c) == old(self).claim_spec(a, c) - pair_requests_total(
                    items@,
                    a,
                    c,
                ),
            r is Ok ==> forall|a: u64, c: ClaimType|
                pair_requests_total(items@, a, c) <= old(self).claim_spec(a, c),
            r is Ok ==> forall|a: u64, c: ClaimType|
                final(self).claim_modify_date_spec(a, c) == (if has_pair_request(items@, a, c) {
                    now
                } else {
                    old(self).claim_modify_date_spec(a, c)
                }),
            r is Err ==> unchanged(final(self), old(self)),
            same_config(final(self), old(self)),
            same_roles(final(self), old(self)),
            same_third_party(final(self), old(self)),
            same_creators(final(self), old(self)),
    {
        if caller != self.owner() {
            return Err(ClaimsError::NotAuthorized);
        }
        self.require_claim_token_is_set()?;
        let token = match self.claim_token() {
            Some(t) => t,
            None => {
                return Err(ClaimsError::TokenNotSet);
            },
        };
        let n = items.len();
        self.require_number_of_claims_in_bulk_is_valid(n)?;
        let ghost iseq = items@;
        // Stage the whole batch; commit only when every item goes through.
        let mut staged = crate::storage::copy_claim_entries(&self.claims);
        let mut removed: u128 = 0;
        let mut i: usize = 0;
        proof {
            assert(iseq.skip(0) =~= iseq);
            assert(iseq.subrange(0, 0) =~= Seq::<ClaimRequest>::empty());
        }
        while i < n
            invariant
                i <= n,
                n == iseq.len(),
                iseq == items@,
                old(self).wf(),
                unchanged(self, old(self)),
                caller == old(self).owner_spec(),
                old(self).claim_token_spec() == Some(token),
                iseq.len() <= MAX_NUMBER_OF_CLAIMS_PER_OPERATION,
                removals_error(old(self), iseq, Seq::<ClaimRequest>::empty()) == removals_error(
                    old(self),
                    iseq.skip(i as int),
                    iseq.subrange(0, i as int),
                ),
                removed == requests_total(iseq.subrange(0, i as int)),
                forall|a: u64, c: ClaimType|
                    claim_amount(staged@, a, c) == old(self).claim_spec(a, c)
                        - pair_requests_total(iseq.subrange(0, i as int), a, c),
                forall|a: u64, c: ClaimType|
                    pair_requests_total(iseq.subrange(0, i as int), a, c) <= old(self).claim_spec(
                        a,
                        c,
                    ),
                forall|a: u64, c: ClaimType|
                    claim_date(staged@, a, c) == (if has_pair_request(
                        iseq.subrange(0, i as int),
                        a,
                        c,
                    ) {
                        now
                    } else {
                        old(self).claim_modify_date_spec(a, c)
                    }),
            decreases n - i,
        {
            let it = items[i];
            let ghost done = iseq.subrange(0, i as int);
            proof {
                assert(iseq.skip(i as int)[0] == iseq[i as int]);
                assert(iseq.skip(i as int).drop_first() =~= iseq.skip(i as int + 1));
                assert(iseq.subrange(0, i as int + 1) =~= done.push(iseq[i as int]));
            }
            if it.amount == 0 {
                proof {
                    assert(removals_error(old(self), iseq.skip(i as int), done) == Some(
                        ClaimsError::ZeroValue,
                    ));
                    lemma_totals_carry_over(old(self), self);
                }
                return Err(ClaimsError::ZeroValue);
            }
            let current = crate::storage::claim_amount_in(&staged, it.address, it.claim_type);
            if it.amount > current {
                proof {
                    assert(claim_amount(staged@, it.address, it.claim_type) == old(self).claim_spec(
                        it.address,
                        it.claim_type,
                    ) - pair_requests_total(done, it.address, it.claim_type));
                    assert(removals_error(old(self), iseq.skip(i as int), done) == Some(
                        ClaimsError::MoreThanClaim,
                    ));
                    lemma_totals_carry_over(old(self), self);
                }
                return Err(ClaimsError::MoreThanClaim);
            }
            if it.amount > u128::MAX - removed {
                proof {
                    assert(claim_amount(staged@, it.address, it.claim_type) == old(self).claim_spec(
                        it.address,
                        it.claim_type,
                    ) - pair_requests_total(done, it.address, it.claim_type));
                    assert(removals_error(old(self), iseq.skip(i as int), done) == Some(
                        ClaimsError::AmountOverflow,
                    ));
                    lemma_totals_carry_over(old(self), self);
                }
                return Err(ClaimsError::AmountOverflow);
            }
            let ghost prev = staged@;
            crate::storage::set_claim_in(
                &mut staged,
                it.address,
                it.claim_type,
                current - it.amount,
                now,
            );
            removed = removed + it.amount;
            proof {
                lemma_requests_push(done, iseq[i as int]);
                assert(claim_amount(prev, it.address, it.claim_type) == old(self).claim_spec(
                    it.address,
                    it.claim_type,
                ) - pair_requests_total(done, it.address, it.claim_type));
                assert(removals_error(old(self), iseq.skip(i as int), done) == removals_error(
                    old(self),
                    iseq.skip(i as int + 1),
                    done.push(iseq[i as int]),
                ));
                assert forall|a: u64, c: ClaimType|
                    claim_amount(staged@, a, c) == old(self).claim_spec(a, c)
                        - pair_requests_total(iseq.subrange(0, i as int + 1), a, c) by {
                    assert(claim_amount(prev, a, c) == old(self).claim_spec(a, c)
                        - pair_requests_total(done, a, c));
                    assert(pair_requests_total(done.push(iseq[i as int]), a, c)
                        == pair_requests_total(done, a, c) + (if iseq[i as int].address == a
                        && iseq[i as int].claim_type == c {
                        iseq[i as int].amount as int
                    } else {
                        0
                    }));
                }
                assert forall|a: u64, c: ClaimType|
                    pair_requests_total(iseq.subrange(0, i as int + 1), a, c) <= old(self).claim_spec(a, c) by {
                    assert(pair_requests_total(done, a, c) <= old(self).claim_spec(a, c));
                    assert(pair_requests_total(done.push(iseq[i as int]), a, c)
                        == pair_requests_total(done, a, c) + (if iseq[i as int].address == a
                        && iseq[i as int].claim_type == c {
                        iseq[i as int].amount as int
                    } else {
                        0
                    }));
                    if iseq[i as int].address == a && iseq[i as int].claim_type == c {
                        assert(claim_amount(prev, a, c) == old(self).claim_spec(a, c)
                            - pair_requests_total(done, a, c));
                    }
                }
                assert forall|a: u64, c: ClaimType|
                    claim_date(staged@, a, c) == (if has_pair_request(
                        iseq.subrange(0, i as int + 1),
                        a,
                        c,
                    ) {
                        now
                    } else {
                        old(self).claim_modify_date_spec(a, c)
                    }) by {
                    let p = iseq.subrange(0, i as int + 1);
                    assert(claim_date(prev, a, c) == (if has_pair_request(done, a, c) {
                        now
                    } else {
                        old(self).claim_modify_date_spec(a, c)
                    }));
                    if a == it.address && c == it.claim_type {
                        assert(p[i as int] == iseq[i as int]);
                        assert(has_pair_request(p, a, c));
                    } else {
                        assert(has_pair_request(p, a, c) == has_pair_request(done, a, c)) by {
                            if has_pair_request(p, a, c) {
                                let j = choose|j: int|
                                    0 <= j < p.len() && p[j].address == a && p[j].claim_type == c;
                                assert(j < i as int);
                                assert(done[j] == p[j]);
                            }
                            if has_pair_request(done, a, c) {
                                let j = choose|j: int|
                                    0 <= j < done.len() && done[j].address == a
                                        && done[j].claim_type == c;
                                assert(p[j] == done[j]);
                            }
                        }
                    }
                }
            }
            i = i + 1;
        }
        proof {
            assert(iseq.skip(n as int) =~= Seq::<ClaimRequest>::empty());
            assert(iseq.subrange(0, n as int) =~= iseq);
            assert(removals_error(old(self), iseq, Seq::<ClaimRequest>::empty()) is None);
        }
        self.claims = staged;
        proof {
            lemma_requests_nonneg(iseq);
            assert forall|a: u64| #[trigger] final(self).claim_total_spec(a) <= u128::MAX by {
                assert(old(self).claim_total_spec(a) <= u128::MAX);
                assert(claim_amount(staged@, a, ClaimType::Reward) == old(self).claim_spec(
                    a,
                    ClaimType::Reward,
                ) - pair_requests_total(iseq, a, ClaimType::Reward));
                assert(claim_amount(staged@, a, ClaimType::Airdrop) == old(self).claim_spec(
                    a,
                    ClaimType::Airdrop,
                ) - pair_requests_total(iseq, a, ClaimType::Airdrop));
                assert(claim_amount(staged@, a, ClaimType::Allocation) == old(self).claim_spec(
                    a,
                    ClaimType::Allocation,
                ) - pair_requests_total(iseq, a, ClaimType::Allocation));
                assert(claim_amount(staged@, a, ClaimType::Royalty) == old(self).claim_spec(
                    a,
                    ClaimType::Royalty,
                ) - pair_requests_total(iseq, a, ClaimType::Royalty));
            }
        }
        Ok(Payout { to: caller, token: PayoutToken::Esdt(token), amount: removed })
    }
}

/// The tax withheld from a third-party deposit: `rate` basis points of the
/// amount, rounded down.
pub open spec fn tax_of(amount: u128, rate: u128) -> int {
    amount * rate / 10000
}

/// What remains of a third-party deposit once the tax is withheld.
pub open spec fn net_of(amount: u128, rate: u128) -> int {
    amount - tax_of(amount, rate)
}

/// Dividing after adding a multiple of the divisor hoists the multiple out
/// of the quotient.
proof fn lemma_div_add_multiple(x: int, y: int, d: int)
    requires
        0 < d,
        0 <= x,
        0 <= y,
    ensures
        (d * x + y) / d == x + y / d,
{
    vstd::arithmetic::div_mod::lemma_fundamental_div_mod(y, d);
    vstd::arithmetic::div_mod::lemma_mod_bound(y, d);
    assert(d * x + y == d * (x + y / d) + (y % d)) by {
        vstd::arithmetic::mul::lemma_mul_is_distributive_add(d, x, y / d);
    }
    vstd::arithmetic::div_mod::lemma_div_multiples_vanish_fancy(x + y / d, y % d, d);
}

/// The basis-point tax splits into a whole part and a remainder part, and
/// never exceeds the amount it is taken from.
proof fn lemma_tax_split(amount: u128, rate: u128)
    requires
        rate <= 10000,
    ensures
        tax_of(amount, rate) == (amount as int / 10000) * rate + ((amount as int % 10000) * rate)
            / 10000,
        (amount as int / 10000) * rate <= amount,
        ((amount as int % 10000) * rate) / 10000 < 10000,
        0 <= tax_of(amount, rate) <= amount,
{
    let a = amount as int;
    let r = rate as int;
    let q = a / 10000;
    let s = a % 10000;
    vstd::arithmetic::div_mod::lemma_fundamental_div_mod(a, 10000);
    vstd::arithmetic::div_mod::lemma_mod_bound(a, 10000);
    assert(a * r == 10000 * (q * r) + s * r) by (nonlinear_arith)
        requires
            a == 10000 * q + s,
    ;
    assert(q * r >= 0 && s * r >= 0) by (nonlinear_arith)
        requires
            q >= 0 && r >= 0 && s >= 0,
    ;
    lemma_div_add_multiple(q * r, s * r, 10000);
    assert(s * r <= (10000 - 1) * 10000) by (nonlinear_arith)
        requires
            0 <= s < 10000 && 0 <= r <= 10000,
    ;
    vstd::arithmetic::div_mod::lemma_div_is_ordered(s * r, (10000 - 1) * 10000, 10000);
    assert(((10000 - 1) * 10000) / 10000 == 10000 - 1) by {
        vstd::arithmetic::div_mod::lemma_div_by_multiple(10000 - 1, 10000);
    }
    assert(q * r <= a) by (nonlinear_arith)
        requires
            a == 10000 * q + s && 0 <= s && 0 <= q && 0 <= r <= 10000,
    ;
    assert(a * r <= a * 10000) by (nonlinear_arith)
        requires
            0 <= a && 0 <= r <= 10000,
    ;
    vstd::arithmetic::div_mod::lemma_div_is_ordered(a * r, a * 10000, 10000);
    assert((a * 10000) / 10000 == a) by {
        vstd::arithmetic::div_mod::lemma_div_by_multiple(a, 10000);
    }
    assert(a * r >= 0) by (nonlinear_arith)
        requires
            0 <= a && 0 <= r,
    ;
    vstd::arithmetic::div_mod::lemma_div_is_ordered(0, a * r, 10000);
}

/// Computes the basis-point tax on a deposit, rounded down.
fn tax_amount(amount: u128, rate: u128) -> (r: u128)
    requires
        rate <= 10000,
    ensures
        r == tax_of(amount, rate),
        r <= amount,
{
    proof {
        lemma_tax_split(amount, rate);
    }
    let whole = (amount / 10000) * rate;
    let part = ((amount % 10000) * rate) / 10000;
    whole + part
}

/// The first rejection among the token transfers of a third-party deposit:
/// each must be fungible and carry a positive amount.
pub open spec fn esdt_items_error(items: Seq<EsdtPayment>) -> Option<ClaimsError>
    decreases items.len(),
{
    if items.len() == 0 {
        None
    } else if items[0].nonce != 0 {
        Some(ClaimsError::TokenNotFungible)
    } else if items[0].amount == 0 {
        Some(ClaimsError::ZeroValue)
    } else {
        esdt_items_error(items.drop_first())
    }
}

/// A token royalty list after crediting `net` of `token`: the first entry
/// for that token grows in place, or a fresh entry is appended.
pub open spec fn credited(list: Seq<EsdtClaim>, token: u64, net: u128, now: u64) -> Seq<EsdtClaim>
    decreases list.len(),
{
    if list.len() == 0 {
        seq![EsdtClaim { payment: EsdtPayment { token, nonce: 0, amount: net }, date: now }]
    } else if list[0].payment.token == token {
        seq![
            EsdtClaim {
                payment: EsdtPayment {
                    token: list[0].payment.token,
                    nonce: list[0].payment.nonce,
                    amount: (list[0].payment.amount + net) as u128,
                },
                date: now,
            },
        ] + list.drop_first()
    } else {
        seq![list[0]] + credited(list.drop_first(), token, net, now)
    }
}

/// A token royalty list after crediting a whole batch of transfers, in the
/// order supplied.
pub open spec fn credited_all(
    list: Seq<EsdtClaim>,
    items: Seq<EsdtPayment>,
    rate: u128,
    now: u64,
) -> Seq<EsdtClaim>
    decreases items.len(),
{
    if items.len() == 0 {
        list
    } else {
        credited_all(
            credited(list, items[0].token, net_of(items[0].amount, rate) as u128, now),
            items.drop_first(),
            rate,
            now,
        )
    }
}

/// Whether crediting the batch would push some token balance past the
/// host's numeric range.
pub open spec fn credit_overflows(
    list: Seq<EsdtClaim>,
    items: Seq<EsdtPayment>,
    rate: u128,
    now: u64,
) -> bool
    decreases items.len(),
{
    if items.len() == 0 {
        false
    } else {
        let net = net_of(items[0].amount, rate);
        crate::storage::esdt_claim_amount(list, items[0].token) + net > u128::MAX
            || credit_overflows(
            credited(list, items[0].token, net as u128, now),
            items.drop_first(),
            rate,
            now,
        )
    }
}

/// The treasury transfers a batch of taxed deposits gives rise to: one per
/// transfer whose tax is positive, in the order supplied.
pub open spec fn tax_payouts(items: Seq<EsdtPayment>, rate: u128, treasury: u64) -> Seq<Payout>
    decreases items.len(),
{
    if items.len() == 0 {
        Seq::empty()
    } else {
        let tax = tax_of(items[0].amount, rate);
        let rest = tax_payouts(items.drop_first(), rate, treasury);
        if tax > 0 {
            seq![
                Payout { to: treasury, token: PayoutToken::Esdt(items[0].token), amount: tax as u128 },
            ] + rest
        } else {
            rest
        }
    }
}

/// The rejection a third-party deposit runs into, if any.
pub open spec fn deposit_error(
    c: &ClaimsContract,
    caller: u64,
    token_id: u64,
    nonce: u64,
    payment: &ThirdPartyPayment,
    rate: u128,
    now: u64,
) -> Option<ClaimsError> {
    if !is_authorized_third_party(c, caller) {
        Some(ClaimsError::NotAuthorized)
    } else if c.factory_address_spec() is None {
        Some(ClaimsError::FactoryAddressNotSet)
    } else if c.data_nft_creator_spec(token_id, nonce) is None {
        Some(ClaimsError::CreatorNotSet)
    } else {
        let creator = c.data_nft_creator_spec(token_id, nonce)->0;
        match payment {
            ThirdPartyPayment::Egld(amount) => if *amount == 0 {
                Some(ClaimsError::ZeroValue)
            } else if c.third_party_egld_claim_spec(creator) + net_of(*amount, rate) > u128::MAX {
                Some(ClaimsError::AmountOverflow)
            } else {
                None
            },
            ThirdPartyPayment::Esdt(items) => if items@.len() == 0 {
                Some(ClaimsError::ZeroValue)
            } else if esdt_items_error(items@) is Some {
                esdt_items_error(items@)
            } else if credit_overflows(
                c.third_party_token_claims_spec(creator),
                items@,
                rate,
                now,
            ) {
                Some(ClaimsError::AmountOverflow)
            } else {
                None
            },
        }
    }
}

/// Replacing the first entry of a token at its first position is exactly
/// what crediting that token does to the list.
proof fn lemma_credited_update(list: Seq<EsdtClaim>, i: int, net: u128, now: u64)
    requires
        0 <= i < list.len(),
        forall|j: int| 0 <= j < i ==> list[j].payment.token != list[i].payment.token,
    ensures
        list.update(
            i,
            EsdtClaim {
                payment: EsdtPayment {
                    token: list[i].payment.token,
                    nonce: list[i].payment.nonce,
                    amount: (list[i].payment.amount + net) as u128,
                },
                date: now,
            },
        ) == credited(list, list[i].payment.token, net, now),
    decreases i,
{
    let token = list[i].payment.token;
    let e = EsdtClaim {
        payment: EsdtPayment {
            token: list[i].payment.token,
            nonce: list[i].payment.nonce,
            amount: (list[i].payment.amount + net) as u128,
        },
        date: now,
    };
    if i == 0 {
        assert(list.update(0, e) =~= seq![e] + list.drop_first());
    } else {
        assert(list[0].payment.token != token);
        lemma_credited_update(list.drop_first(), i - 1, net, now);
        assert(list.drop_first()[i - 1] == list[i]);
        assert(list.update(i, e) =~= seq![list[0]] + list.drop_first().update(i - 1, e));
    }
}

/// Appending a fresh entry for an absent token is exactly what crediting
/// that token does to the list.
proof fn lemma_credited_push(list: Seq<EsdtClaim>, token: u64, net: u128, now: u64)
    requires
        forall|j: int| 0 <= j < list.len() ==> list[j].payment.token != token,
    ensures
        list.push(
            EsdtClaim { payment: EsdtPayment { token, nonce: 0, amount: net }, date: now },
        ) == credited(list, token, net, now),
    decreases list.len(),
{
    let e = EsdtClaim { payment: EsdtPayment { token, nonce: 0, amount: net }, date: now };
    if list.len() == 0 {
        assert(list.push(e) =~= seq![e]);
    } else {
        lemma_credited_push(list.drop_first(), token, net, now);
        assert(list.push(e) =~= seq![list[0]] + list.drop_first().push(e));
    }
}

impl ClaimsContract {
    /// Deposits a taxed third-party royalty for the recorded creator of
    /// the given data NFT. The caller must be an authorized third party
    /// and the factory collaborator must be configured; its tax rate and
    /// treasury address are supplied by the host at call time. The tax of
    /// each transferred amount goes to the treasury; the remainder is
    /// credited to the creator's pending balances.
    pub fn add_third_party_claim(
        &mut self,
        caller: u64,
        now: u64,
        token_id: u64,
        nonce: u64,
        payment: ThirdPartyPayment,
        tax_percentage: u128,
        treasury_address: u64,
    ) -> (r: Result<Vec<Payout>, ClaimsError>)
        requires
            old(self).wf(),
            tax_percentage <= 10000,
        ensures
            final(self).wf(),
            r is Err <==> deposit_error(
                old(self),
                caller,
                token_id,
                nonce,
                &payment,
                tax_percentage,
                now,
            ) is Some,
            r is Err ==> deposit_error(
                old(self),
                caller,
                token_id,
                nonce,
                &payment,
                tax_percentage,
                now,
            ) == Some(r->Err_0) && unchanged(final(self), old(self)),
            same_config(final(self), old(self)),
            same_roles(final(self), old(self)),
            same_claims(final(self), old(self)),
            same_creators(final(self), old(self)),
            r is Ok ==> match payment {
                ThirdPartyPayment::Egld(amount) => {
                    let creator = old(self).data_nft_creator_spec(token_id, nonce)->0;
                    &&& final(self).third_party_egld_claim_spec(creator) == old(self).third_party_egld_claim_spec(creator) + net_of(amount, tax_percentage)
                    &&& final(self).third_party_claim_modify_date_spec(creator, None) == now
                    &&& forall|a: u64|
                        a != creator ==> final(self).third_party_egld_claim_spec(a) == old(self).third_party_egld_claim_spec(a) && final(self).third_party_claim_modify_date_spec(a, None) == old(self).third_party_claim_modify_date_spec(a, None)
                    &&& final(self).token_claims@ == old(self).token_claims@
                    &&& r->Ok_0@ == (if tax_of(amount, tax_percentage) > 0 {
                        seq![
                            Payout {
                                to: treasury_address,
                                token: PayoutToken::Egld,
                                amount: tax_of(amount, tax_percentage) as u128,
                            },
                        ]
                    } else {
                        Seq::<Payout>::empty()
                    })
                },
                ThirdPartyPayment::Esdt(items) => {
                    let creator = old(self).data_nft_creator_spec(token_id, nonce)->0;
                    &&& final(self).third_party_token_claims_spec(creator) == credited_all(
                        old(self).third_party_token_claims_spec(creator),
                        items@,
                        tax_percentage,
                        now,
                    )
                    &&& forall|a: u64|
                        a != creator ==> final(self).third_party_token_claims_spec(a) == old(self).third_party_token_claims_spec(a)
                    &&& final(self).egld_claims@ == old(self).egld_claims@
                    &&& r->Ok_0@ == tax_payouts(items@, tax_percentage, treasury_address)
                },
            },
    {
        self.require_address_is_authorized_third_party(caller)?;
        self.require_factory_address_is_set()?;
        self.require_data_nft_has_creator_set(token_id, nonce)?;
        let creator = match self.data_nft_creator(token_id, nonce) {
            Some(c) => c,
            None => {
                return Err(ClaimsError::CreatorNotSet);
            },
        };
        match &payment {
            ThirdPartyPayment::Egld(amount_ref) => {
                let amount: u128 = *amount_ref;
                self.require_value_not_zero(amount)?;
                let tax = tax_amount(amount, tax_percentage);
                let net = amount - tax;
                let current = self.third_party_egld_claim(creator);
                if net > u128::MAX - current {
                    return Err(ClaimsError::AmountOverflow);
                }
                self.set_egld_claim(creator, current + net, now);
                proof {
                    lemma_totals_carry_over(old(self), self);
                }
                let mut payouts: Vec<Payout> = Vec::new();
                if tax > 0 {
                    payouts.push(
                        Payout { to: treasury_address, token: PayoutToken::Egld, amount: tax },
                    );
                    proof {
                        assert(payouts@ =~= seq![
                            Payout {
                                to: treasury_address,
                                token: PayoutToken::Egld,
                                amount: tax_of(amount, tax_percentage) as u128,
                            },
                        ]);
                    }
                }
                Ok(payouts)
            },
            ThirdPartyPayment::Esdt(items) => {
                let n = items.len();
                if n == 0 {
                    return Err(ClaimsError::ZeroValue);
                }
                let ghost iseq = items@;
                // Every transfer must be fungible and carry a positive
                // amount.
                let mut i: usize = 0;
                proof {
                    assert(iseq.skip(0) =~= iseq);
                }
                while i < n
                    invariant
                        i <= n,
                        n == iseq.len(),
                        iseq == items@,
                        old(self).wf(),
                        unchanged(self, old(self)),
                        is_authorized_third_party(old(self), caller),
                        old(self).factory_address_spec() is Some,
                        old(self).data_nft_creator_spec(token_id, nonce) == Some(creator),
                        esdt_items_error(iseq) == esdt_items_error(iseq.skip(i as int)),
                        deposit_error(
                            old(self),
                            caller,
                            token_id,
                            nonce,
                            &payment,
                            tax_percentage,
                            now,
                        ) == (if esdt_items_error(iseq) is Some {
                            esdt_items_error(iseq)
                        } else if credit_overflows(
                            old(self).third_party_token_claims_spec(creator),
                            iseq,
                            tax_percentage,
                            now,
                        ) {
                            Some(ClaimsError::AmountOverflow)
                        } else {
                            None
                        }),
                    decreases n - i,
                {
                    proof {
                        assert(iseq.skip(i as int)[0] == iseq[i as int]);
                        assert(iseq.skip(i as int).drop_first() =~= iseq.skip(i as int + 1));
                    }
                    if items[i].nonce != 0 {
                        proof {
                            lemma_totals_carry_over(old(self), self);
                        }
                        return Err(ClaimsError::TokenNotFungible);
                    }
                    if items[i].amount == 0 {
                        proof {
                            lemma_totals_carry_over(old(self), self);
                        }
                        return Err(ClaimsError::ZeroValue);
                    }
                    i = i + 1;
                }
                proof {
                    assert(iseq.skip(n as int) =~= Seq::<EsdtPayment>::empty());
                }
                // Stage the creator's token list; commit only when every
                // transfer fits.
                let mut staged = self.third_party_token_claims(creator);
                let ghost orig = old(self).third_party_token_claims_spec(creator);
                let mut payouts: Vec<Payout> = Vec::new();
                let mut i: usize = 0;
                proof {
                    assert(iseq.skip(0) =~= iseq);
                    assert(payouts@ + tax_payouts(iseq, tax_percentage, treasury_address)
                        =~= tax_payouts(iseq, tax_percentage, treasury_address));
                }
                while i < n
                    invariant
                        i <= n,
                        n == iseq.len(),
                        iseq == items@,
                        old(self).wf(),
                        unchanged(self, old(self)),
                        tax_percentage <= 10000,
                        is_authorized_third_party(old(self), caller),
                        old(self).factory_address_spec() is Some,
                        old(self).data_nft_creator_spec(token_id, nonce) == Some(creator),
                        esdt_items_error(iseq) is None,
                        orig == old(self).third_party_token_claims_spec(creator),
                        deposit_error(
                            old(self),
                            caller,
                            token_id,
                            nonce,
                            &payment,
                            tax_percentage,
                            now,
                        ) == (if credit_overflows(orig, iseq, tax_percentage, now) {
                            Some(ClaimsError::AmountOverflow)
                        } else {
                            None
                        }),
                        credited_all(orig, iseq, tax_percentage, now) == credited_all(
                            staged@,
                            iseq.skip(i as int),
                            tax_percentage,
                            now,
                        ),
                        credit_overflows(orig, iseq, tax_percentage, now) == credit_overflows(
                            staged@,
                            iseq.skip(i as int),
                            tax_percentage,
                            now,
                        ),
                        tax_payouts(iseq, tax_percentage, treasury_address) == payouts@
                            + tax_payouts(iseq.skip(i as int), tax_percentage, treasury_address),
                    decreases n - i,
                {
                    let it = items[i];
                    proof {
                        assert(iseq.skip(i as int)[0] == iseq[i as int]);
                        assert(iseq.skip(i as int).drop_first() =~= iseq.skip(i as int + 1));
                    }
                    let tax = tax_amount(it.amount, tax_percentage);
                    let net = it.amount - tax;
                    let ghost prev = staged@;
                    let current = match crate::ledger::find_entry(&staged, (it.token, 0)) {
                        Some(j) => staged[j].payment.amount,
                        None => 0,
                    };
                    if net > u128::MAX - current {
                        proof {
                            lemma_totals_carry_over(old(self), self);
                        }
                        return Err(ClaimsError::AmountOverflow);
                    }
                    match crate::ledger::find_entry(&staged, (it.token, 0)) {
                        Some(j) => {
                            let entry = staged[j];
                            let updated = EsdtClaim {
                                payment: EsdtPayment {
                                    token: entry.payment.token,
                                    nonce: entry.payment.nonce,
                                    amount: entry.payment.amount + net,
                                },
                                date: now,
                            };
                            staged.set(j, updated);
                            proof {
                                lemma_credited_update(prev, j as int, net, now);
                            }
                        },
                        None => {
                            staged.push(
                                EsdtClaim {
                                    payment: EsdtPayment { token: it.token, nonce: 0, amount: net },
                                    date: now,
                                },
                            );
                            proof {
                                crate::ledger::lemma_lookup_none(prev, (it.token, 0));
                                lemma_credited_push(prev, it.token, net, now);
                            }
                        },
                    }
                    if tax > 0 {
                        let ghost pprev = payouts@;
                        payouts.push(
                            Payout {
                                to: treasury_address,
                                token: PayoutToken::Esdt(it.token),
                                amount: tax,
                            },
                        );
                        proof {
                            assert(payouts@ + tax_payouts(
                                iseq.skip(i as int + 1),
                                tax_percentage,
                                treasury_address,
                            ) =~= pprev + (seq![
                                Payout {
                                    to: treasury_address,
                                    token: PayoutToken::Esdt(it.token),
                                    amount: tax_of(it.amount, tax_percentage) as u128,
                                },
                            ] + tax_payouts(iseq.skip(i as int + 1), tax_percentage, treasury_address)));
                        }
                    }
                    i = i + 1;
                }
                proof {
                    assert(iseq.skip(n as int) =~= Seq::<EsdtPayment>::empty());
                    assert(payouts@ + tax_payouts(
                        iseq.skip(n as int),
                        tax_percentage,
                        treasury_address,
                    ) =~= payouts@);
                }
                self.set_token_claims(creator, staged);
                proof {
                    lemma_totals_carry_over(old(self), self);
                }
                Ok(payouts)
            },
        }
    }
}

/// Whether an address has anything pending in the third-party ledgers: a
/// positive native balance or some positive token balance.
pub open spec fn has_third_party_claims(c: &ClaimsContract, address: u64) -> bool {
    c.third_party_egld_claim_spec(address) > 0 || exists|j: int|
        0 <= j < c.third_party_token_claims_spec(address).len()
            && c.third_party_token_claims_spec(address)[j].payment.amount > 0
}

/// The transfers a token-royalty harvest gives rise to: one per positive
/// balance, in list order.
pub open spec fn token_payouts(list: Seq<EsdtClaim>, address: u64) -> Seq<Payout>
    decreases list.len(),
{
    if list.len() == 0 {
        Seq::empty()
    } else {
        let rest = token_payouts(list.drop_first(), address);
        if list[0].payment.amount > 0 {
            seq![
                Payout {
                    to: address,
                    token: PayoutToken::Esdt(list[0].payment.token),
                    amount: list[0].payment.amount,
                },
            ] + rest
        } else {
            rest
        }
    }
}

/// A token-royalty harvest pays nothing exactly when every balance in the
/// list is zero.
proof fn lemma_token_payouts_empty(list: Seq<EsdtClaim>, address: u64)
    ensures
        (token_payouts(list, address).len() == 0) <==> (forall|j: int|
            0 <= j < list.len() ==> list[j].payment.amount == 0),
    decreases list.len(),
{
    if list.len() > 0 {
        lemma_token_payouts_empty(list.drop_first(), address);
        if token_payouts(list, address).len() == 0 {
            assert forall|j: int| 0 <= j < list.len() implies list[j].payment.amount == 0 by {
                if j > 0 {
                    assert(list.drop_first()[j - 1] == list[j]);
                }
            }
        }
        if forall|j: int| 0 <= j < list.len() ==> list[j].payment.amount == 0 {
            assert forall|j: int|
                0 <= j < list.drop_first().len() implies list.drop_first()[j].payment.amount
                == 0 by {
                assert(list.drop_first()[j] == list[j + 1]);
            }
        }
    }
}

/// What a batch of creator records leaves behind for one (token, nonce):
/// the creator of the last matching record, if any.
pub open spec fn batch_creator(entries: Seq<CreatorEntry>, token: u64, nonce: u64) -> Option<u64>
    decreases entries.len(),
{
    if entries.len() == 0 {
        None
    } else {
        let last = entries[entries.len() - 1];
        if last.token == token && last.nonce == nonce {
            Some(last.creator)
        } else {
            batch_creator(entries.drop_last(), token, nonce)
        }
    }
}

impl ClaimsContract {
    /// Withdraws everything pending for the caller in the third-party
    /// ledgers: the native balance if positive, then every positive token
    /// balance in list order. The native balance is zeroed and the whole
    /// token list cleared; a call with nothing pending is rejected.
    pub fn harvest_third_party_claims(&mut self, caller: u64) -> (r: Result<Vec<Payout>, ClaimsError>)
        requires
            old(self).wf(),
        ensures
            final(self).wf(),
            r is Err <==> !has_third_party_claims(old(self), caller),
            r is Err ==> r->Err_0 == ClaimsError::NothingToClaim && unchanged(
                final(self),
                old(self),
            ),
            r is Ok ==> final(self).third_party_egld_claim_spec(caller) == 0 && final(self).third_party_token_claims_spec(caller) == Seq::<EsdtClaim>::empty()
                && !has_third_party_claims(final(self), caller),
            r is Ok ==> final(self).third_party_claim_modify_date_spec(caller, None) == old(self).third_party_claim_modify_date_spec(caller, None),
            r is Ok ==> forall|a: u64|
                a != caller ==> final(self).third_party_egld_claim_spec(a) == old(self).third_party_egld_claim_spec(a) && final(self).third_party_claim_modify_date_spec(a, None) == old(self).third_party_claim_modify_date_spec(a, None) && final(self).third_party_token_claims_spec(a)
                    == old(self).third_party_token_claims_spec(a),
            r is Ok ==> r->Ok_0@ == (if old(self).third_party_egld_claim_spec(caller) > 0 {
                seq![
                    Payout {
                        to: caller,
                        token: PayoutToken::Egld,
                        amount: old(self).third_party_egld_claim_spec(caller),
                    },
                ]
            } else {
                Seq::<Payout>::empty()
            }) + token_payouts(old(self).third_party_token_claims_spec(caller), caller),
            same_config(final(self), old(self)),
            same_roles(final(self), old(self)),
            same_claims(final(self), old(self)),
            same_creators(final(self), old(self)),
    {
        let ghost egld_part: Seq<Payout> = if old(self).third_party_egld_claim_spec(caller) > 0 {
            seq![
                Payout {
                    to: caller,
                    token: PayoutToken::Egld,
                    amount: old(self).third_party_egld_claim_spec(caller),
                },
            ]
        } else {
            Seq::empty()
        };
        let egld = self.third_party_egld_claim(caller);
        let tokens = self.third_party_token_claims(caller);
        let ghost tseq = tokens@;
        let mut payouts: Vec<Payout> = Vec::new();
        if egld > 0 {
            payouts.push(Payout { to: caller, token: PayoutToken::Egld, amount: egld });
        }
        let n = tokens.len();
        let mut i: usize = 0;
        proof {
            assert(tseq.skip(0) =~= tseq);
            assert(payouts@ + token_payouts(tseq, caller) =~= egld_part + token_payouts(
                tseq,
                caller,
            ));
        }
        while i < n
            invariant
                i <= n,
                n == tseq.len(),
                tseq == tokens@,
                old(self).wf(),
                unchanged(self, old(self)),
                tseq == old(self).third_party_token_claims_spec(caller),
                egld_part == (if old(self).third_party_egld_claim_spec(caller) > 0 {
                    seq![
                        Payout {
                            to: caller,
                            token: PayoutToken::Egld,
                            amount: old(self).third_party_egld_claim_spec(caller),
                        },
                    ]
                } else {
                    Seq::<Payout>::empty()
                }),
                payouts@ + token_payouts(tseq.skip(i as int), caller) == egld_part + token_payouts(
                    tseq,
                    caller,
                ),
                payouts@.len() == 0 ==> egld_part.len() == 0,
            decreases n - i,
        {
            proof {
                assert(tseq.skip(i as int)[0] == tseq[i as int]);
                assert(tseq.skip(i as int).drop_first() =~= tseq.skip(i as int + 1));
            }
            let entry = tokens[i];
            if entry.payment.amount > 0 {
                let ghost pprev = payouts@;
                payouts.push(
                    Payout {
                        to: caller,
                        token: PayoutToken::Esdt(entry.payment.token),
                        amount: entry.payment.amount,
                    },
                );
                proof {
                    assert(payouts@ + token_payouts(tseq.skip(i as int + 1), caller) =~= pprev + (
                    seq![
                        Payout {
                            to: caller,
                            token: PayoutToken::Esdt(tseq[i as int].payment.token),
                            amount: tseq[i as int].payment.amount,
                        },
                    ] + token_payouts(tseq.skip(i as int + 1), caller)));
                }
            }
            i = i + 1;
        }
        proof {
            assert(tseq.skip(n as int) =~= Seq::<EsdtClaim>::empty());
            assert(payouts@ =~= egld_part + token_payouts(tseq, caller));
        }
        if payouts.len() == 0 {
            proof {
                lemma_token_payouts_empty(tseq, caller);
                lemma_totals_carry_over(old(self), self);
            }
            return Err(ClaimsError::NothingToClaim);
        }
        let date = self.third_party_claim_modify_date(caller, None);
        self.set_egld_claim(caller, 0, date);
        self.set_token_claims(caller, Vec::new());
        proof {
            lemma_totals_carry_over(old(self), self);
            if !has_third_party_claims(old(self), caller) {
                lemma_token_payouts_empty(tseq, caller);
                assert(payouts@.len() == 0);
            }
        }
        Ok(payouts)
    }

    /// Records the creators of a batch of data NFTs. Owner-only; a later
    /// record for the same (token, nonce) supersedes an earlier one.
    pub fn add_data_nft_creators(&mut self, caller: u64, entries: Vec<CreatorEntry>) -> (r: Result<
        (),
        ClaimsError,
    >)
        requires
            old(self).wf(),
        ensures
            final(self).wf(),
            r == (if caller != old(self).owner_spec() {
                Err::<(), ClaimsError>(ClaimsError::NotAuthorized)
            } else {
                Ok(())
            }),
            r is Ok ==> forall|t: u64, n: u64|
                final(self).data_nft_creator_spec(t, n) == (match batch_creator(entries@, t, n) {
                    Some(c) => Some(c),
                    None => old(self).data_nft_creator_spec(t, n),
                }),
            r is Err ==> unchanged(final(self), old(self)),
            same_config(final(self), old(self)),
            same_roles(final(self), old(self)),
            same_claims(final(self), old(self)),
            same_third_party(final(self), old(self)),
    {
        if caller != self.owner() {
            return Err(ClaimsError::NotAuthorized);
        }
        let ghost eseq = entries@;
        let n = entries.len();
        let mut i: usize = 0;
        proof {
            assert(eseq.subrange(0, 0) =~= Seq::<CreatorEntry>::empty());
        }
        while i < n
            invariant
                i <= n,
                n == eseq.len(),
                eseq == entries@,
                old(self).wf(),
                same_config(self, old(self)),
                same_roles(self, old(self)),
                same_claims(self, old(self)),
                same_third_party(self, old(self)),
                forall|t: u64, nn: u64|
                    self.data_nft_creator_spec(t, nn) == (match batch_creator(
                        eseq.subrange(0, i as int),
                        t,
                        nn,
                    ) {
                        Some(c) => Some(c),
                        None => old(self).data_nft_creator_spec(t, nn),
                    }),
            decreases n - i,
        {
            let entry = entries[i];
            let ghost prev = *self;
            self.set_data_nft_creator(entry.token, entry.nonce, entry.creator);
            proof {
                let p = eseq.subrange(0, i as int + 1);
                assert(p.drop_last() =~= eseq.subrange(0, i as int));
                assert(p[p.len() - 1] == eseq[i as int]);
                assert forall|t: u64, nn: u64|
                    self.data_nft_creator_spec(t, nn) == (match batch_creator(p, t, nn) {
                        Some(c) => Some(c),
                        None => old(self).data_nft_creator_spec(t, nn),
                    }) by {
                    assert(prev.data_nft_creator_spec(t, nn) == (match batch_creator(
                        eseq.subrange(0, i as int),
                        t,
                        nn,
                    ) {
                        Some(c) => Some(c),
                        None => old(self).data_nft_creator_spec(t, nn),
                    }));
                }
            }
            i = i + 1;
        }
        proof {
            assert(eseq.subrange(0, n as int) =~= eseq);
            lemma_totals_carry_over(old(self), self);
        }
        Ok(())
    }
}

/// However the contract is operated, the privileged set never grows past
/// its configured maximum and never contains the owner.
pub proof fn lemma_privileged_set_bounded(c: &ClaimsContract)
    requires
        c.wf(),
    ensures
        c.privileged_addresses_spec().len() <= MAX_NUMBER_OF_PRIVILEGED_ADDRESSES,
        !c.privileged_addresses_spec().contains(c.owner_spec()),
{
}

} // verus!
