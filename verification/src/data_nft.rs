//! The royalty-forwarding companion contract: it recognises data NFTs and
//! decides which proxy call the host must make to pass received royalties
//! on to the claims contract. The call itself — a cross-contract transfer —
//! is the host's job; here it is a [`RoyaltyCall`] value with an exact
//! description of what must be sent where.

use vstd::prelude::*;

use crate::payment::EsdtPayment;

verus! {

/// Gas attached to a forwarding call before any per-payment surcharge.
pub const ROYALTY_FORWARD_GAS: u64 = 20000000;

/// Additional gas per payment in a multi-transfer forwarding call.
pub const ROYALTY_FORWARD_GAS_PER_PAYMENT: u64 = 2000000;

/// Most payments one multi-transfer forwarding call may carry.
pub const MAX_ROYALTY_PAYMENTS: usize = 100;

/// Every way a forwarding operation can be rejected.
#[derive(Clone, Copy, Debug, PartialEq, Eq, Structural)]
pub enum InteractionError {
    /// The caller is not the owner.
    NotAuthorized,
    /// The royalties contract address has not been configured.
    RoyaltiesContractNotSet,
    /// The data NFT token identifier has not been configured.
    DataNftIdNotSet,
    /// The given token is not the data NFT.
    NotDataNft,
    /// Neither native currency nor token transfers were attached.
    NoPayment,
    /// A multi-transfer carried more payments than allowed.
    TooManyPayments,
}

/// The value a forwarding call carries.
#[derive(Clone, Debug, PartialEq, Eq)]
pub enum RoyaltyValue {
    Egld(u128),
    SingleEsdt(EsdtPayment),
    MultiEsdt(Vec<EsdtPayment>),
}

/// One proxy call the host must execute: deposit the attached value with
/// the royalties contract, on behalf of the given data NFT.
#[derive(Clone, Debug, PartialEq, Eq)]
pub struct RoyaltyCall {
    pub contract: u64,
    pub token_id: u64,
    pub nonce: u64,
    pub gas_limit: u64,
    pub value: RoyaltyValue,
}

/// Recognising data NFTs and building the forwarding calls for their
/// royalties.
pub trait ItheumDataNftModule: Sized {
    /// The configured royalties contract, once set.
    spec fn royalties_sc_spec(&self) -> Option<u64>;

    /// The configured data NFT token identifier, once set.
    spec fn data_nft_id_spec(&self) -> Option<u64>;

    /// Records both collaborator identities.
    fn set_itheum_dependencies(&mut self, contract: u64, data_nft: u64)
        ensures
            final(self).royalties_sc_spec() == Some(contract),
            final(self).data_nft_id_spec() == Some(data_nft),
    ;

    /// Checks that both collaborator identities are configured.
    fn require_itheum_dependencies_init(&self) -> (r: Result<(), InteractionError>)
        ensures
            r == (if self.royalties_sc_spec() is None {
                Err::<(), InteractionError>(InteractionError::RoyaltiesContractNotSet)
            } else if self.data_nft_id_spec() is None {
                Err(InteractionError::DataNftIdNotSet)
            } else {
                Ok(())
            }),
    ;

    /// Whether the given token is the configured data NFT.
    fn is_data_nft(&self, nft_id: u64) -> (r: Result<bool, InteractionError>)
        ensures
            r == (if self.royalties_sc_spec() is None {
                Err::<bool, InteractionError>(InteractionError::RoyaltiesContractNotSet)
            } else if self.data_nft_id_spec() is None {
                Err(InteractionError::DataNftIdNotSet)
            } else {
                Ok(self.data_nft_id_spec() == Some(nft_id))
            }),
    ;

    /// The forwarding call for a native-currency royalty.
    fn send_itheum_data_nft_royalties_egld(&self, token_id: u64, nonce: u64, amount: u128) -> (r:
        Result<RoyaltyCall, InteractionError>)
        ensures
            r == (if self.royalties_sc_spec() is None {
                Err::<RoyaltyCall, InteractionError>(InteractionError::RoyaltiesContractNotSet)
            } else if self.data_nft_id_spec() is None {
                Err(InteractionError::DataNftIdNotSet)
            } else {
                Ok(
                    RoyaltyCall {
                        contract: self.royalties_sc_spec()->0,
                        token_id,
                        nonce,
                        gas_limit: ROYALTY_FORWARD_GAS,
                        value: RoyaltyValue::Egld(amount),
                    },
                )
            }),
    ;

    /// The forwarding call for a single token royalty.
    fn send_itheum_data_nft_royalties_esdt(
        &self,
        token_id: u64,
        nonce: u64,
        payment: EsdtPayment,
    ) -> (r: Result<RoyaltyCall, InteractionError>)
        ensures
            r == (if self.royalties_sc_spec() is None {
                Err::<RoyaltyCall, InteractionError>(InteractionError::RoyaltiesContractNotSet)
            } else if self.data_nft_id_spec() is None {
                Err(InteractionError::DataNftIdNotSet)
            } else {
                Ok(
                    RoyaltyCall {
                        contract: self.royalties_sc_spec()->0,
                        token_id,
                        nonce,
                        gas_limit: ROYALTY_FORWARD_GAS,
                        value: RoyaltyValue::SingleEsdt(payment),
                    },
                )
            }),
    ;

    /// The forwarding call for a batch of token royalties, with gas scaled
    /// by the batch size.
    fn send_itheum_data_nft_royalties_multiple_esdt(
        &self,
        token_id: u64,
        nonce: u64,
        payments: Vec<EsdtPayment>,
    ) -> (r: Result<RoyaltyCall, InteractionError>)
        ensures
            r is Err <==> self.royalties_sc_spec() is None || self.data_nft_id_spec() is None
                || payments@.len() > MAX_ROYALTY_PAYMENTS,
            r is Err ==> r->Err_0 == (if self.royalties_sc_spec() is None {
                InteractionError::RoyaltiesContractNotSet
            } else if self.data_nft_id_spec() is None {
                InteractionError::DataNftIdNotSet
            } else {
                InteractionError::TooManyPayments
            }),
            r is Ok ==> r->Ok_0.contract == self.royalties_sc_spec()->0 && r->Ok_0.token_id
                == token_id && r->Ok_0.nonce == nonce && r->Ok_0.gas_limit == ROYALTY_FORWARD_GAS
                + ROYALTY_FORWARD_GAS_PER_PAYMENT * payments@.len() && r->Ok_0.value == (
            RoyaltyValue::MultiEsdt(payments)),
    ;
}

/// The public face of the forwarding contract.
pub trait SimpleClaimInteractionContract: ItheumDataNftModule {
    /// The deploying owner identity.
    spec fn owner_spec(&self) -> u64;

    /// Records the collaborator identities. Owner-only; meant to be called
    /// once before anything else.
    fn init_itheum(&mut self, caller: u64, royalties_contract: u64, data_nft: u64) -> (r: Result<
        (),
        InteractionError,
    >)
        ensures
            r == (if caller != old(self).owner_spec() {
                Err::<(), InteractionError>(InteractionError::NotAuthorized)
            } else {
                Ok(())
            }),
            r is Ok ==> final(self).royalties_sc_spec() == Some(royalties_contract) && final(self).data_nft_id_spec() == Some(data_nft),
            r is Err ==> final(self).royalties_sc_spec() == old(self).royalties_sc_spec() && final(self).data_nft_id_spec() == old(self).data_nft_id_spec(),
            final(self).owner_spec() == old(self).owner_spec(),
    ;

    /// Decides how a received payment must be forwarded to the royalties
    /// contract: as native currency, a single transfer, or a batch.
    /// Owner-only; the token must be the data NFT and something must have
    /// been paid.
    fn send_itheum_data_nft_royalties(
        &self,
        caller: u64,
        token_id: u64,
        nonce: u64,
        egld_payment: u128,
        esdt_payments: Vec<EsdtPayment>,
    ) -> (r: Result<RoyaltyCall, InteractionError>)
        ensures
            r is Err <==> caller != self.owner_spec() || self.royalties_sc_spec() is None
                || self.data_nft_id_spec() is None || self.data_nft_id_spec() != Some(token_id) || (
            egld_payment == 0 && esdt_payments@.len() == 0) || (egld_payment == 0
                && esdt_payments@.len() > 1 && esdt_payments@.len() > MAX_ROYALTY_PAYMENTS),
            r is Err ==> r->Err_0 == (if caller != self.owner_spec() {
                InteractionError::NotAuthorized
            } else if self.royalties_sc_spec() is None {
                InteractionError::RoyaltiesContractNotSet
            } else if self.data_nft_id_spec() is None {
                InteractionError::DataNftIdNotSet
            } else if self.data_nft_id_spec() != Some(token_id) {
                InteractionError::NotDataNft
            } else if egld_payment == 0 && esdt_payments@.len() == 0 {
                InteractionError::NoPayment
            } else {
                InteractionError::TooManyPayments
            }),
            r is Ok ==> r->Ok_0.contract == self.royalties_sc_spec()->0 && r->Ok_0.token_id
                == token_id && r->Ok_0.nonce == nonce,
            r is Ok && egld_payment > 0 ==> r->Ok_0.value == RoyaltyValue::Egld(egld_payment)
                && r->Ok_0.gas_limit == ROYALTY_FORWARD_GAS,
            r is Ok && egld_payment == 0 && esdt_payments@.len() == 1 ==> r->Ok_0.value == (
            RoyaltyValue::SingleEsdt(esdt_payments@[0])) && r->Ok_0.gas_limit
                == ROYALTY_FORWARD_GAS,
            r is Ok && egld_payment == 0 && esdt_payments@.len() > 1 ==> r->Ok_0.value == (
            RoyaltyValue::MultiEsdt(esdt_payments)) && r->Ok_0.gas_limit == ROYALTY_FORWARD_GAS
                + ROYALTY_FORWARD_GAS_PER_PAYMENT * esdt_payments@.len(),
    ;

    /// Whether a received token payment is the data NFT; the payment is
    /// handed back so the host can return it to the caller.
    fn is_token_data_nft(&self, caller: u64, payment: EsdtPayment) -> (r: Result<
        (bool, EsdtPayment),
        InteractionError,
    >)
        ensures
            r == (if self.royalties_sc_spec() is None {
                Err::<(bool, EsdtPayment), InteractionError>(
                    InteractionError::RoyaltiesContractNotSet,
                )
            } else if self.data_nft_id_spec() is None {
                Err(InteractionError::DataNftIdNotSet)
            } else {
                Ok(((self.data_nft_id_spec() == Some(payment.token)), payment))
            }),
    ;
}

/// The forwarding contract's persistent state.
pub struct InteractionContract {
    pub owner: u64,
    pub itheum_royalties_sc: Option<u64>,
    pub itheum_data_nft_id: Option<u64>,
}

impl InteractionContract {
    /// Deploys a fresh forwarding contract with nothing configured.
    pub fn init(owner: u64) -> (r: InteractionContract)
        ensures
            r.owner_spec() == owner,
            r.royalties_sc_spec() is None,
            r.data_nft_id_spec() is None,
    {
        InteractionContract { owner, itheum_royalties_sc: None, itheum_data_nft_id: None }
    }
}

impl ItheumDataNftModule for InteractionContract {
    open spec fn royalties_sc_spec(&self) -> Option<u64> {
        self.itheum_royalties_sc
    }

    open spec fn data_nft_id_spec(&self) -> Option<u64> {
        self.itheum_data_nft_id
    }

    fn set_itheum_dependencies(&mut self, contract: u64, data_nft: u64) {
        self.itheum_royalties_sc = Some(contract);
        self.itheum_data_nft_id = Some(data_nft);
    }

    fn require_itheum_dependencies_init(&self) -> (r: Result<(), InteractionError>) {
        if self.itheum_royalties_sc.is_none() {
            return Err(InteractionError::RoyaltiesContractNotSet);
        }
        if self.itheum_data_nft_id.is_none() {
            return Err(InteractionError::DataNftIdNotSet);
        }
        Ok(())
    }

    fn is_data_nft(&self, nft_id: u64) -> (r: Result<bool, InteractionError>) {
        self.require_itheum_dependencies_init()?;
        match self.itheum_data_nft_id {
            Some(id) => Ok(id == nft_id),
            None => Err(InteractionError::DataNftIdNotSet),
        }
    }

    fn send_itheum_data_nft_royalties_egld(&self, token_id: u64, nonce: u64, amount: u128) -> (r:
        Result<RoyaltyCall, InteractionError>) {
        self.require_itheum_dependencies_init()?;
        let contract = match self.itheum_royalties_sc {
            Some(c) => c,
            None => {
                return Err(InteractionError::RoyaltiesContractNotSet);
            },
        };
        Ok(
            RoyaltyCall {
                contract,
                token_id,
                nonce,
                gas_limit: ROYALTY_FORWARD_GAS,
                value: RoyaltyValue::Egld(amount),
            },
        )
    }

    fn send_itheum_data_nft_royalties_esdt(
        &self,
        token_id: u64,
        nonce: u64,
        payment: EsdtPayment,
    ) -> (r: Result<RoyaltyCall, InteractionError>) {
        self.require_itheum_dependencies_init()?;
        let contract = match self.itheum_royalties_sc {
            Some(c) => c,
            None => {
                return Err(InteractionError::RoyaltiesContractNotSet);
            },
        };
        Ok(
            RoyaltyCall {
                contract,
                token_id,
                nonce,
                gas_limit: ROYALTY_FORWARD_GAS,
                value: RoyaltyValue::SingleEsdt(payment),
            },
        )
    }

    fn send_itheum_data_nft_royalties_multiple_esdt(
        &self,
        token_id: u64,
        nonce: u64,
        payments: Vec<EsdtPayment>,
    ) -> (r: Result<RoyaltyCall, InteractionError>) {
        self.require_itheum_dependencies_init()?;
        if payments.len() > MAX_ROYALTY_PAYMENTS {
            return Err(InteractionError::TooManyPayments);
        }
        let contract = match self.itheum_royalties_sc {
            Some(c) => c,
            None => {
                return Err(InteractionError::RoyaltiesContractNotSet);
            },
        };
        let extra = ROYALTY_FORWARD_GAS_PER_PAYMENT * (payments.len() as u64);
        Ok(
            RoyaltyCall {
                contract,
                token_id,
                nonce,
                gas_limit: ROYALTY_FORWARD_GAS + extra,
                value: RoyaltyValue::MultiEsdt(payments),
            },
        )
    }
}

impl SimpleClaimInteractionContract for InteractionContract {
    open spec fn owner_spec(&self) -> u64 {
        self.owner
    }

    fn init_itheum(&mut self, caller: u64, royalties_contract: u64, data_nft: u64) -> (r: Result<
        (),
        InteractionError,
    >) {
        if caller != self.owner {
            return Err(InteractionError::NotAuthorized);
        }
        self.itheum_royalties_sc = Some(royalties_contract);
        self.itheum_data_nft_id = Some(data_nft);
        Ok(())
    }

    fn send_itheum_data_nft_royalties(
        &self,
        caller: u64,
        token_id: u64,
        nonce: u64,
        egld_payment: u128,
        esdt_payments: Vec<EsdtPayment>,
    ) -> (r: Result<RoyaltyCall, InteractionError>) {
        if caller != self.owner {
            return Err(InteractionError::NotAuthorized);
        }
        if !(self.is_data_nft(token_id)?) {
            return Err(InteractionError::NotDataNft);
        }
        if egld_payment == 0 && esdt_payments.len() == 0 {
            return Err(InteractionError::NoPayment);
        }
        if egld_payment > 0 {
            self.send_itheum_data_nft_royalties_egld(token_id, nonce, egld_payment)
        } else if esdt_payments.len() == 1 {
            let payment = esdt_payments[0];
            self.send_itheum_data_nft_royalties_esdt(token_id, nonce, payment)
        } else {
            self.send_itheum_data_nft_royalties_multiple_esdt(token_id, nonce, esdt_payments)
        }
    }

    fn is_token_data_nft(&self, caller: u64, payment: EsdtPayment) -> (r: Result<
        (bool, EsdtPayment),
        InteractionError,
    >) {
        let is_nft = self.is_data_nft(payment.token)?;
        Ok((is_nft, payment))
    }
}

} // verus!
