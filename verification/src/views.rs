//! Read-only projections over the ledger: per-category balances with their
//! last-modified dates, and a combined snapshot of everything the contract
//! tracks for one address.

use vstd::prelude::*;

use crate::payment::EsdtPayment;
use crate::storage::claim_type_from;
use crate::storage::ClaimType;
use crate::storage::ClaimsContract;
use crate::storage::StorageModule;

verus! {

/// A claim balance together with the timestamp of its last modification.
#[derive(Clone, Copy, Debug, PartialEq, Eq, Structural)]
pub struct Claim {
    pub amount: u128,
    pub date: u64,
}

/// A third-party token balance together with the timestamp of its last
/// modification.
#[derive(Clone, Copy, Debug, PartialEq, Eq, Structural)]
pub struct EsdtClaim {
    pub payment: EsdtPayment,
    pub date: u64,
}

/// Combined snapshot of one address's standing: every category balance, the
/// third-party balances, and the treasury data supplied by the factory
/// collaborator at query time.
#[derive(Clone, Debug, PartialEq, Eq)]
pub struct ClaimsData {
    pub reward: Claim,
    pub airdrop: Claim,
    pub allocation: Claim,
    pub royalty: Claim,
    pub factory_address: Option<u64>,
    pub treasury_address: u64,
    pub tax_percentage: u128,
    pub third_party_egld: Claim,
    pub third_party_esdt: Vec<EsdtClaim>,
}

/// The read-only projections over the ledger. None of them mutates state
/// or demands a role of the caller.
pub trait ViewsModule: StorageModule {
    /// Sum of an address's balances across every category, in the fixed
    /// category order.
    fn view_claims(&self, address: u64) -> (r: u128)
        requires
            self.wf(),
        ensures
            r == self.claim_spec(address, ClaimType::Reward) + self.claim_spec(
                address,
                ClaimType::Airdrop,
            ) + self.claim_spec(address, ClaimType::Allocation) + self.claim_spec(
                address,
                ClaimType::Royalty,
            ),
    ;

    /// One entry per category, in the fixed category order, each carrying
    /// the balance and its last-modified date.
    fn view_claims_with_date(&self, address: u64) -> (r: Vec<Claim>)
        ensures
            r@.len() == 4,
            forall|i: int|
                0 <= i < 4 ==> r@[i] == (Claim {
                    amount: self.claim_spec(address, claim_type_from(i as u8)),
                    date: self.claim_modify_date_spec(address, claim_type_from(i as u8)),
                }),
    ;

    /// The combined snapshot for one address. The treasury address and tax
    /// rate come from the factory collaborator at query time and are
    /// passed straight through.
    fn view_claims_data(&self, address: u64, treasury_address: u64, tax_percentage: u128) -> (r:
        ClaimsData)
        ensures
            r.reward == (Claim {
                amount: self.claim_spec(address, ClaimType::Reward),
                date: self.claim_modify_date_spec(address, ClaimType::Reward),
            }),
            r.airdrop == (Claim {
                amount: self.claim_spec(address, ClaimType::Airdrop),
                date: self.claim_modify_date_spec(address, ClaimType::Airdrop),
            }),
            r.allocation == (Claim {
                amount: self.claim_spec(address, ClaimType::Allocation),
                date: self.claim_modify_date_spec(address, ClaimType::Allocation),
            }),
            r.royalty == (Claim {
                amount: self.claim_spec(address, ClaimType::Royalty),
                date: self.claim_modify_date_spec(address, ClaimType::Royalty),
            }),
            r.factory_address == self.factory_address_spec(),
            r.treasury_address == treasury_address,
            r.tax_percentage == tax_percentage,
            r.third_party_egld == (Claim {
                amount: self.third_party_egld_claim_spec(address),
                date: self.third_party_claim_modify_date_spec(address, None),
            }),
            r.third_party_esdt@ == self.third_party_token_claims_spec(address),
    ;
}

impl ViewsModule for ClaimsContract {
    fn view_claims(&self, address: u64) -> (r: u128) {
        let reward = self.claim(address, ClaimType::Reward);
        let airdrop = self.claim(address, ClaimType::Airdrop);
        let allocation = self.claim(address, ClaimType::Allocation);
        let royalty = self.claim(address, ClaimType::Royalty);
        proof {
            assert(self.claim_total_spec(address) <= u128::MAX);
        }
        reward + airdrop + allocation + royalty
    }

    fn view_claims_with_date(&self, address: u64) -> (r: Vec<Claim>) {
        let mut claims: Vec<Claim> = Vec::new();
        claims.push(
            Claim {
                amount: self.claim(address, ClaimType::Reward),
                date: self.claim_modify_date(address, ClaimType::Reward),
            },
        );
        claims.push(
            Claim {
                amount: self.claim(address, ClaimType::Airdrop),
                date: self.claim_modify_date(address, ClaimType::Airdrop),
            },
        );
        claims.push(
            Claim {
                amount: self.claim(address, ClaimType::Allocation),
                date: self.claim_modify_date(address, ClaimType::Allocation),
            },
        );
        claims.push(
            Claim {
                amount: self.claim(address, ClaimType::Royalty),
                date: self.claim_modify_date(address, ClaimType::Royalty),
            },
        );
        claims
    }

    fn view_claims_data(&self, address: u64, treasury_address: u64, tax_percentage: u128) -> (r:
        ClaimsData) {
        ClaimsData {
            reward: Claim {
                amount: self.claim(address, ClaimType::Reward),
                date: self.claim_modify_date(address, ClaimType::Reward),
            },
            airdrop: Claim {
                amount: self.claim(address, ClaimType::Airdrop),
                date: self.claim_modify_date(address, ClaimType::Airdrop),
            },
            allocation: Claim {
                amount: self.claim(address, ClaimType::Allocation),
                date: self.claim_modify_date(address, ClaimType::Allocation),
            },
            royalty: Claim {
                amount: self.claim(address, ClaimType::Royalty),
                date: self.claim_modify_date(address, ClaimType::Royalty),
            },
            factory_address: self.factory_address(),
            treasury_address,
            tax_percentage,
            third_party_egld: Claim {
                amount: self.third_party_egld_claim(address),
                date: self.third_party_claim_modify_date(address, None),
            },
            third_party_esdt: self.third_party_token_claims(address),
        }
    }
}

} // verus!
