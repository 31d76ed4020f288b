//! The failure taxonomy and the reusable validation checks that gate every
//! operation. Each check either passes or names the exact error the whole
//! call is aborted with; callers thread them through with `?` so that a
//! failed check leaves the state untouched.

use vstd::prelude::*;

use crate::ledger::addr_list_contains;
use crate::payment::EsdtPayment;
use crate::storage::ClaimsContract;
use crate::storage::StorageModule;
use crate::MAX_NUMBER_OF_CLAIMS_PER_OPERATION;

verus! {

/// Every way an operation can be rejected. A rejected call performs no
/// state change and no transfer.
#[derive(Clone, Copy, Debug, PartialEq, Eq, Structural)]
pub enum ClaimsError {
    /// The caller lacks the role the operation demands.
    NotAuthorized,
    /// The claim token has not been configured yet.
    TokenNotSet,
    /// The claim token was already configured once.
    TokenAlreadySet,
    /// The payment's token is not the designated claim token.
    WrongToken,
    /// An amount that must be positive was zero.
    ZeroValue,
    /// A removal asked for more than the current balance.
    MoreThanClaim,
    /// A bulk operation carried more line items than allowed.
    TooManyClaims,
    /// The line items of a bulk add do not sum to the attached payment.
    ClaimsNotEqualPayment,
    /// Public harvesting is paused.
    ContractPaused,
    /// The contract is already paused.
    AlreadyPaused,
    /// The contract is already unpaused.
    AlreadyUnpaused,
    /// The address is already in the privileged set.
    AddressAlreadyPrivileged,
    /// The address is not in the privileged set.
    AddressNotPrivileged,
    /// The privileged set is at its configured maximum.
    MaxPrivilegedExceeded,
    /// The owner may not be added to a role set.
    OwnerNotAllowed,
    /// The address is already in the depositor set.
    AddressAlreadyDepositor,
    /// The address is not in the depositor set.
    AddressNotDepositor,
    /// The address is already an authorized third party.
    ThirdPartyAlreadyAuthorized,
    /// The address is not an authorized third party.
    ThirdPartyNotAuthorized,
    /// A token transfer was not of the fungible kind.
    TokenNotFungible,
    /// The factory collaborator's address has not been configured.
    FactoryAddressNotSet,
    /// No creator is recorded for the given data NFT.
    CreatorNotSet,
    /// A harvest found nothing to collect.
    NothingToClaim,
    /// A balance would exceed the host's numeric range.
    AmountOverflow,
}

/// Whether `address` may perform privileged operations: the owner always
/// may, and so may every member of the privileged set.
pub open spec fn is_privileged<S: StorageModule>(s: &S, address: u64) -> bool {
    address == s.owner_spec() || s.privileged_addresses_spec().contains(address)
}

/// Whether `address` may fund claims: privileged rights or membership in
/// the depositor set.
pub open spec fn has_deposit_rights<S: StorageModule>(s: &S, address: u64) -> bool {
    is_privileged(s, address) || s.depositor_addresses_spec().contains(address)
}

/// Whether `address` may deposit third-party royalties: the owner or a
/// member of the authorized third-party set.
pub open spec fn is_authorized_third_party<S: StorageModule>(s: &S, address: u64) -> bool {
    address == s.owner_spec() || s.authorized_third_parties_spec().contains(address)
}

/// The validation checks shared by the contract's operations.
pub trait RequirementsModule: StorageModule {
    /// Checks that the owner has designated the claim token.
    fn require_claim_token_is_set(&self) -> (r: Result<(), ClaimsError>)
        ensures
            r == (if self.claim_token_spec() is Some {
                Ok::<(), ClaimsError>(())
            } else {
                Err(ClaimsError::TokenNotSet)
            }),
    {
        match self.claim_token() {
            Some(_) => Ok(()),
            None => Err(ClaimsError::TokenNotSet),
        }
    }

    /// Checks that a payment's token is the designated claim token.
    fn require_token_is_correct(&self, token: u64) -> (r: Result<(), ClaimsError>)
        ensures
            r == (if self.claim_token_spec() == Some(token) {
                Ok::<(), ClaimsError>(())
            } else {
                Err(ClaimsError::WrongToken)
            }),
    {
        match self.claim_token() {
            Some(t) => if t == token {
                Ok(())
            } else {
                Err(ClaimsError::WrongToken)
            },
            None => Err(ClaimsError::WrongToken),
        }
    }

    /// Checks that an amount is not zero.
    fn require_value_not_zero(&self, value: u128) -> (r: Result<(), ClaimsError>)
        ensures
            r == (if value > 0 {
                Ok::<(), ClaimsError>(())
            } else {
                Err(ClaimsError::ZeroValue)
            }),
    {
        if value > 0 {
            Ok(())
        } else {
            Err(ClaimsError::ZeroValue)
        }
    }

    /// Checks that a removal does not exceed the reserved claim.
    fn require_remove_claim_is_valid(&self, current_claim: u128, amount: u128) -> (r: Result<
        (),
        ClaimsError,
    >)
        ensures
            r == (if amount <= current_claim {
                Ok::<(), ClaimsError>(())
            } else {
                Err(ClaimsError::MoreThanClaim)
            }),
    {
        if amount <= current_claim {
            Ok(())
        } else {
            Err(ClaimsError::MoreThanClaim)
        }
    }

    /// Checks that a bulk operation stays within the line-item bound.
    fn require_number_of_claims_in_bulk_is_valid(&self, number_of_claims: usize) -> (r: Result<
        (),
        ClaimsError,
    >)
        ensures
            r == (if number_of_claims <= MAX_NUMBER_OF_CLAIMS_PER_OPERATION {
                Ok::<(), ClaimsError>(())
            } else {
                Err(ClaimsError::TooManyClaims)
            }),
    {
        if number_of_claims <= MAX_NUMBER_OF_CLAIMS_PER_OPERATION {
            Ok(())
        } else {
            Err(ClaimsError::TooManyClaims)
        }
    }

    /// Checks that an address has privileged rights.
    fn require_address_is_privileged(&self, address: u64) -> (r: Result<(), ClaimsError>)
        ensures
            r == (if is_privileged(self, address) {
                Ok::<(), ClaimsError>(())
            } else {
                Err(ClaimsError::NotAuthorized)
            }),
    {
        if address == self.owner() {
            Ok(())
        } else {
            let privileged = self.privileged_addresses();
            if addr_list_contains(&privileged, address) {
                Ok(())
            } else {
                Err(ClaimsError::NotAuthorized)
            }
        }
    }

    /// Checks that an address is an authorized third party.
    fn require_address_is_authorized_third_party(&self, address: u64) -> (r: Result<
        (),
        ClaimsError,
    >)
        ensures
            r == (if is_authorized_third_party(self, address) {
                Ok::<(), ClaimsError>(())
            } else {
                Err(ClaimsError::NotAuthorized)
            }),
    {
        if address == self.owner() {
            Ok(())
        } else {
            let third_parties = self.authorized_third_parties();
            if addr_list_contains(&third_parties, address) {
                Ok(())
            } else {
                Err(ClaimsError::NotAuthorized)
            }
        }
    }

    /// Checks that an address may fund claims.
    fn require_address_has_deposit_rights(&self, address: u64) -> (r: Result<(), ClaimsError>)
        ensures
            r == (if has_deposit_rights(self, address) {
                Ok::<(), ClaimsError>(())
            } else {
                Err(ClaimsError::NotAuthorized)
            }),
    {
        if address == self.owner() {
            Ok(())
        } else {
            let privileged = self.privileged_addresses();
            if addr_list_contains(&privileged, address) {
                Ok(())
            } else {
                let depositors = self.depositor_addresses();
                if addr_list_contains(&depositors, address) {
                    Ok(())
                } else {
                    Err(ClaimsError::NotAuthorized)
                }
            }
        }
    }

    /// Checks that a token transfer is of the fungible kind.
    fn require_token_is_fungible(&self, payment: &EsdtPayment) -> (r: Result<(), ClaimsError>)
        ensures
            r == (if payment.nonce == 0 {
                Ok::<(), ClaimsError>(())
            } else {
                Err(ClaimsError::TokenNotFungible)
            }),
    {
        if payment.nonce == 0 {
            Ok(())
        } else {
            Err(ClaimsError::TokenNotFungible)
        }
    }

    /// Checks that the factory collaborator's address is configured.
    fn require_factory_address_is_set(&self) -> (r: Result<(), ClaimsError>)
        ensures
            r == (if self.factory_address_spec() is Some {
                Ok::<(), ClaimsError>(())
            } else {
                Err(ClaimsError::FactoryAddressNotSet)
            }),
    {
        match self.factory_address() {
            Some(_) => Ok(()),
            None => Err(ClaimsError::FactoryAddressNotSet),
        }
    }

    /// Checks that a creator is recorded for the given data NFT.
    fn require_data_nft_has_creator_set(&self, token: u64, nonce: u64) -> (r: Result<
        (),
        ClaimsError,
    >)
        ensures
            r == (if self.data_nft_creator_spec(token, nonce) is Some {
                Ok::<(), ClaimsError>(())
            } else {
                Err(ClaimsError::CreatorNotSet)
            }),
    {
        match self.data_nft_creator(token, nonce) {
            Some(_) => Ok(()),
            None => Err(ClaimsError::CreatorNotSet),
        }
    }
}

impl RequirementsModule for ClaimsContract {

}

} // verus!
