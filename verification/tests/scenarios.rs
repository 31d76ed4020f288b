use claims::payment::{EsdtPayment, Payout, PayoutToken, ThirdPartyPayment};
use claims::requirements::ClaimsError;
use claims::storage::{ClaimType, ClaimsContract, CreatorEntry, Len, StorageModule};
use claims::views::{Claim, ViewsModule};
use claims::ClaimRequest;

pub const TOKEN_ID: u64 = 1;
pub const OWNER: u64 = 100;
pub const USER: u64 = 1;
pub const TREASURY: u64 = 50;
pub const FACTORY: u64 = 60;
pub const THIRD_PARTY: u64 = 70;
pub const DATANFT: u64 = 9;
pub const NOW: u64 = 5000;

fn payment(token: u64, amount: u128) -> EsdtPayment {
    EsdtPayment { token, nonce: 0, amount }
}

fn request(address: u64, claim_type: ClaimType, amount: u128) -> ClaimRequest {
    ClaimRequest { address, claim_type, amount }
}

fn setup_contract() -> ClaimsContract {
    let mut sc = ClaimsContract::init(OWNER);
    sc.set_claim_token(OWNER, TOKEN_ID).unwrap();
    sc.unpause(OWNER).unwrap();
    sc
}

fn setup_third_party_contract() -> ClaimsContract {
    let mut sc = setup_contract();
    sc.set_factory_address(OWNER, FACTORY).unwrap();
    sc.add_data_nft_creators(OWNER, vec![CreatorEntry { token: DATANFT, nonce: 1, creator: USER }])
        .unwrap();
    sc.authorize_third_party_address(OWNER, THIRD_PARTY).unwrap();
    sc
}

#[test] //Add, partial removal and harvest of one claim, watched through the views
fn claim_lifecycle_scenario_test() {
    let mut sc = setup_contract();

    sc.add_claim(OWNER, NOW, USER, ClaimType::Airdrop, payment(TOKEN_ID, 1_000_000))
        .unwrap();
    assert_eq!(sc.view_claims(USER), 1_000_000);

    let removed = sc
        .remove_claim(OWNER, NOW, USER, ClaimType::Airdrop, 500_000)
        .unwrap();
    assert_eq!(removed, Payout { to: OWNER, token: PayoutToken::Esdt(TOKEN_ID), amount: 500_000 });
    assert_eq!(sc.view_claims(USER), 500_000);

    let collected = sc.harvest_claim(USER, NOW, Some(ClaimType::Airdrop)).unwrap();
    assert_eq!(collected, Payout { to: USER, token: PayoutToken::Esdt(TOKEN_ID), amount: 500_000 });
    assert_eq!(sc.view_claims(USER), 0);
}

#[test] //A bulk add of 201 items is rejected before any balance changes
fn bulk_add_cap_scenario_test() {
    let mut sc = setup_contract();

    let many: Vec<ClaimRequest> = (0..201)
        .map(|_| request(USER, ClaimType::Airdrop, 1_000))
        .collect();
    assert_eq!(
        sc.add_claims(OWNER, NOW, payment(TOKEN_ID, 201_000), many),
        Err(ClaimsError::TooManyClaims)
    );
    assert_eq!(sc.view_claims(USER), 0);
}

#[test] //A native deposit of 1000 at a 10% tax: the treasury gets 100, the recipient 900
fn third_party_tax_split_scenario_test() {
    let mut sc = setup_third_party_contract();

    let payouts = sc
        .add_third_party_claim(THIRD_PARTY, NOW, DATANFT, 1, ThirdPartyPayment::Egld(1000), 1000, TREASURY)
        .unwrap();
    assert_eq!(payouts, vec![Payout { to: TREASURY, token: PayoutToken::Egld, amount: 100 }]);
    assert_eq!(sc.third_party_egld_claim(USER), 900);
}

#[test] //The tax is the floor of amount times rate over 10000, and zero-rate or full-rate deposits still credit exactly the rest
fn tax_rounding_test() {
    let mut sc = setup_third_party_contract();

    // 999 * 1000 / 10000 rounds down to 99.
    let payouts = sc
        .add_third_party_claim(THIRD_PARTY, NOW, DATANFT, 1, ThirdPartyPayment::Egld(999), 1000, TREASURY)
        .unwrap();
    assert_eq!(payouts, vec![Payout { to: TREASURY, token: PayoutToken::Egld, amount: 99 }]);
    assert_eq!(sc.third_party_egld_claim(USER), 900);

    // A zero rate forwards nothing to the treasury.
    let payouts = sc
        .add_third_party_claim(THIRD_PARTY, NOW, DATANFT, 1, ThirdPartyPayment::Egld(100), 0, TREASURY)
        .unwrap();
    assert_eq!(payouts, Vec::<Payout>::new());
    assert_eq!(sc.third_party_egld_claim(USER), 1000);

    // A full rate forwards everything and credits nothing.
    let payouts = sc
        .add_third_party_claim(THIRD_PARTY, NOW, DATANFT, 1, ThirdPartyPayment::Egld(77), 10000, TREASURY)
        .unwrap();
    assert_eq!(payouts, vec![Payout { to: TREASURY, token: PayoutToken::Egld, amount: 77 }]);
    assert_eq!(sc.third_party_egld_claim(USER), 1000);
}

#[test] //Token deposits accumulate per token and the harvest clears the whole map in one call
fn third_party_token_harvest_test() {
    let mut sc = setup_third_party_contract();

    let payouts = sc
        .add_third_party_claim(
            THIRD_PARTY,
            NOW,
            DATANFT,
            1,
            ThirdPartyPayment::Esdt(vec![payment(10, 1000), payment(11, 500)]),
            1000,
            TREASURY,
        )
        .unwrap();
    assert_eq!(
        payouts,
        vec![
            Payout { to: TREASURY, token: PayoutToken::Esdt(10), amount: 100 },
            Payout { to: TREASURY, token: PayoutToken::Esdt(11), amount: 50 },
        ]
    );

    // A second deposit of the first token accumulates into the same entry.
    sc.add_third_party_claim(
        THIRD_PARTY,
        NOW,
        DATANFT,
        1,
        ThirdPartyPayment::Esdt(vec![payment(10, 100)]),
        1000,
        TREASURY,
    )
    .unwrap();
    let pending = sc.third_party_token_claims(USER);
    assert_eq!(pending.len(), 2);
    assert_eq!(pending[0].payment.token, 10);
    assert_eq!(pending[0].payment.amount, 990);
    assert_eq!(pending[1].payment.token, 11);
    assert_eq!(pending[1].payment.amount, 450);

    let payouts = sc.harvest_third_party_claims(USER).unwrap();
    assert_eq!(
        payouts,
        vec![
            Payout { to: USER, token: PayoutToken::Esdt(10), amount: 990 },
            Payout { to: USER, token: PayoutToken::Esdt(11), amount: 450 },
        ]
    );
    assert_eq!(sc.third_party_token_claims(USER).len(), 0);

    // With the map cleared, a second harvest finds nothing.
    assert_eq!(sc.harvest_third_party_claims(USER), Err(ClaimsError::NothingToClaim));
}

#[test] //A non-fungible transfer or an empty batch is rejected as a third-party deposit
fn third_party_deposit_validation_test() {
    let mut sc = setup_third_party_contract();

    assert_eq!(
        sc.add_third_party_claim(
            THIRD_PARTY,
            NOW,
            DATANFT,
            1,
            ThirdPartyPayment::Esdt(vec![EsdtPayment { token: 10, nonce: 7, amount: 1000 }]),
            1000,
            TREASURY,
        ),
        Err(ClaimsError::TokenNotFungible)
    );
    assert_eq!(
        sc.add_third_party_claim(
            THIRD_PARTY,
            NOW,
            DATANFT,
            1,
            ThirdPartyPayment::Esdt(vec![]),
            1000,
            TREASURY,
        ),
        Err(ClaimsError::ZeroValue)
    );
    assert_eq!(
        sc.add_third_party_claim(THIRD_PARTY, NOW, DATANFT, 1, ThirdPartyPayment::Egld(0), 1000, TREASURY),
        Err(ClaimsError::ZeroValue)
    );
    assert_eq!(
        sc.add_third_party_claim(THIRD_PARTY, NOW, DATANFT, 2, ThirdPartyPayment::Egld(10), 1000, TREASURY),
        Err(ClaimsError::CreatorNotSet)
    );
    assert_eq!(sc.third_party_egld_claim(USER), 0);
    assert_eq!(sc.third_party_token_claims(USER).len(), 0);
}

#[test] //A deposit without a configured factory or claim token reports the missing configuration
fn missing_configuration_test() {
    let mut sc = ClaimsContract::init(OWNER);

    assert_eq!(
        sc.add_claim(OWNER, NOW, USER, ClaimType::Airdrop, payment(TOKEN_ID, 10)),
        Err(ClaimsError::TokenNotSet)
    );
    assert_eq!(
        sc.add_third_party_claim(OWNER, NOW, DATANFT, 1, ThirdPartyPayment::Egld(10), 1000, TREASURY),
        Err(ClaimsError::FactoryAddressNotSet)
    );
}

#[test] //Depositor addresses can fund claims; removed depositors cannot
fn depositor_rights_test() {
    let mut sc = setup_contract();

    assert_eq!(
        sc.add_claim(THIRD_PARTY, NOW, USER, ClaimType::Reward, payment(TOKEN_ID, 10)),
        Err(ClaimsError::NotAuthorized)
    );
    sc.add_depositor_address(OWNER, THIRD_PARTY).unwrap();
    assert_eq!(
        sc.add_depositor_address(OWNER, THIRD_PARTY),
        Err(ClaimsError::AddressAlreadyDepositor)
    );
    assert_eq!(sc.add_depositor_address(OWNER, OWNER), Err(ClaimsError::OwnerNotAllowed));
    assert_eq!(
        sc.add_claim(THIRD_PARTY, NOW, USER, ClaimType::Reward, payment(TOKEN_ID, 10)),
        Ok(())
    );
    sc.remove_depositor_address(OWNER, THIRD_PARTY).unwrap();
    assert_eq!(
        sc.remove_depositor_address(OWNER, THIRD_PARTY),
        Err(ClaimsError::AddressNotDepositor)
    );
    assert_eq!(
        sc.add_claim(THIRD_PARTY, NOW, USER, ClaimType::Reward, payment(TOKEN_ID, 10)),
        Err(ClaimsError::NotAuthorized)
    );
}

#[test] //Authorizing a third party twice, or revoking an unknown one, is rejected
fn third_party_authorization_test() {
    let mut sc = setup_contract();

    sc.authorize_third_party_address(OWNER, THIRD_PARTY).unwrap();
    assert_eq!(
        sc.authorize_third_party_address(OWNER, THIRD_PARTY),
        Err(ClaimsError::ThirdPartyAlreadyAuthorized)
    );
    assert_eq!(
        sc.authorize_third_party_address(OWNER, OWNER),
        Err(ClaimsError::OwnerNotAllowed)
    );
    sc.unauthorize_third_party_address(OWNER, THIRD_PARTY).unwrap();
    assert_eq!(
        sc.unauthorize_third_party_address(OWNER, THIRD_PARTY),
        Err(ClaimsError::ThirdPartyNotAuthorized)
    );
    assert_eq!(
        sc.authorize_third_party_address(USER, THIRD_PARTY),
        Err(ClaimsError::NotAuthorized)
    );
}

#[test] //A balance that would pass the host's numeric ceiling is rejected without change
fn amount_overflow_test() {
    let mut sc = setup_contract();

    sc.add_claim(OWNER, NOW, USER, ClaimType::Reward, payment(TOKEN_ID, u128::MAX))
        .unwrap();
    assert_eq!(
        sc.add_claim(OWNER, NOW, USER, ClaimType::Airdrop, payment(TOKEN_ID, 1)),
        Err(ClaimsError::AmountOverflow)
    );
    assert_eq!(sc.claim(USER, ClaimType::Reward), u128::MAX);
    assert_eq!(sc.claim(USER, ClaimType::Airdrop), 0);
}

#[test] //The itemized view lists the four categories in their fixed order with their dates
fn view_claims_with_date_test() {
    let mut sc = setup_contract();

    sc.add_claim(OWNER, 41, USER, ClaimType::Airdrop, payment(TOKEN_ID, 7)).unwrap();
    sc.add_claim(OWNER, 42, USER, ClaimType::Royalty, payment(TOKEN_ID, 9)).unwrap();
    let listed = sc.view_claims_with_date(USER);
    assert_eq!(
        listed,
        vec![
            Claim { amount: 0, date: 0 },
            Claim { amount: 7, date: 41 },
            Claim { amount: 0, date: 0 },
            Claim { amount: 9, date: 42 },
        ]
    );
}

#[test] //The combined snapshot carries the balances and the collaborator data handed in
fn view_claims_data_test() {
    let mut sc = setup_third_party_contract();

    sc.add_claim(OWNER, 43, USER, ClaimType::Allocation, payment(TOKEN_ID, 11)).unwrap();
    sc.add_third_party_claim(THIRD_PARTY, 44, DATANFT, 1, ThirdPartyPayment::Egld(1000), 2500, TREASURY)
        .unwrap();
    let data = sc.view_claims_data(USER, TREASURY, 2500);
    assert_eq!(data.allocation, Claim { amount: 11, date: 43 });
    assert_eq!(data.reward, Claim { amount: 0, date: 0 });
    assert_eq!(data.factory_address, Some(FACTORY));
    assert_eq!(data.treasury_address, TREASURY);
    assert_eq!(data.tax_percentage, 2500);
    assert_eq!(data.third_party_egld, Claim { amount: 750, date: 44 });
    assert_eq!(data.third_party_esdt.len(), 0);
}

#[test] //The category enumeration has four values and out-of-range ordinals fall back to the first
fn claim_type_roundtrip_test() {
    assert_eq!(ClaimType::len(), 4);
    assert_eq!(ClaimType::from(0), ClaimType::Reward);
    assert_eq!(ClaimType::from(1), ClaimType::Airdrop);
    assert_eq!(ClaimType::from(2), ClaimType::Allocation);
    assert_eq!(ClaimType::from(3), ClaimType::Royalty);
    assert_eq!(ClaimType::from(4), ClaimType::Reward);
}

#[test] //Harvesting all categories when every balance is zero is rejected
fn harvest_all_empty_test() {
    let mut sc = setup_contract();

    assert_eq!(sc.harvest_claim(USER, NOW, None), Err(ClaimsError::ZeroValue));
}

#[test] //Harvesting one category leaves every other balance untouched
fn harvest_isolation_test() {
    let mut sc = setup_contract();

    sc.add_claim(OWNER, NOW, USER, ClaimType::Reward, payment(TOKEN_ID, 100)).unwrap();
    sc.add_claim(OWNER, NOW, USER, ClaimType::Airdrop, payment(TOKEN_ID, 200)).unwrap();
    sc.add_claim(OWNER, NOW, THIRD_PARTY, ClaimType::Reward, payment(TOKEN_ID, 300)).unwrap();
    let collected = sc.harvest_claim(USER, NOW, Some(ClaimType::Reward)).unwrap();
    assert_eq!(collected.amount, 100);
    assert_eq!(sc.claim(USER, ClaimType::Reward), 0);
    assert_eq!(sc.claim(USER, ClaimType::Airdrop), 200);
    assert_eq!(sc.claim(THIRD_PARTY, ClaimType::Reward), 300);
}

#[test] //A failing bulk removal leaves every balance exactly as it was
fn bulk_remove_atomicity_test() {
    let mut sc = setup_contract();

    sc.add_claims(
        OWNER,
        NOW,
        payment(TOKEN_ID, 300),
        vec![request(USER, ClaimType::Reward, 100), request(USER, ClaimType::Airdrop, 200)],
    )
    .unwrap();
    // The first item alone would go through; the second overdraws.
    assert_eq!(
        sc.remove_claims(
            OWNER,
            NOW,
            vec![request(USER, ClaimType::Reward, 50), request(USER, ClaimType::Airdrop, 300)],
        ),
        Err(ClaimsError::MoreThanClaim)
    );
    assert_eq!(sc.claim(USER, ClaimType::Reward), 100);
    assert_eq!(sc.claim(USER, ClaimType::Airdrop), 200);

    // Duplicated items are applied in order: the second one overdraws what
    // the first left behind.
    assert_eq!(
        sc.remove_claims(
            OWNER,
            NOW,
            vec![request(USER, ClaimType::Reward, 80), request(USER, ClaimType::Reward, 80)],
        ),
        Err(ClaimsError::MoreThanClaim)
    );
    assert_eq!(sc.claim(USER, ClaimType::Reward), 100);
}

#[test] //A later creator record for the same data NFT supersedes an earlier one
fn data_nft_creator_batch_test() {
    let mut sc = setup_contract();

    assert_eq!(
        sc.add_data_nft_creators(USER, vec![CreatorEntry { token: DATANFT, nonce: 1, creator: USER }]),
        Err(ClaimsError::NotAuthorized)
    );
    sc.add_data_nft_creators(
        OWNER,
        vec![
            CreatorEntry { token: DATANFT, nonce: 1, creator: USER },
            CreatorEntry { token: DATANFT, nonce: 2, creator: THIRD_PARTY },
            CreatorEntry { token: DATANFT, nonce: 1, creator: TREASURY },
        ],
    )
    .unwrap();
    assert_eq!(sc.data_nft_creator(DATANFT, 1), Some(TREASURY));
    assert_eq!(sc.data_nft_creator(DATANFT, 2), Some(THIRD_PARTY));
    assert_eq!(sc.data_nft_creator(DATANFT, 3), None);
}

#[test] //Every balance change stamps its cell with the call's timestamp
fn claim_modify_date_test() {
    let mut sc = setup_contract();

    sc.add_claim(OWNER, 11, USER, ClaimType::Reward, payment(TOKEN_ID, 100)).unwrap();
    assert_eq!(sc.claim_modify_date(USER, ClaimType::Reward), 11);
    sc.remove_claim(OWNER, 12, USER, ClaimType::Reward, 40).unwrap();
    assert_eq!(sc.claim_modify_date(USER, ClaimType::Reward), 12);
    sc.harvest_claim(USER, 13, Some(ClaimType::Reward)).unwrap();
    assert_eq!(sc.claim_modify_date(USER, ClaimType::Reward), 13);
    assert_eq!(sc.claim_modify_date(USER, ClaimType::Airdrop), 0);
}

#[test] //The third-party ledgers stamp the native and each token cell separately
fn third_party_modify_date_test() {
    let mut sc = setup_third_party_contract();

    sc.add_third_party_claim(THIRD_PARTY, 21, DATANFT, 1, ThirdPartyPayment::Egld(100), 0, TREASURY)
        .unwrap();
    sc.add_third_party_claim(
        THIRD_PARTY,
        22,
        DATANFT,
        1,
        ThirdPartyPayment::Esdt(vec![payment(10, 100)]),
        0,
        TREASURY,
    )
    .unwrap();
    assert_eq!(sc.third_party_claim_modify_date(USER, None), 21);
    assert_eq!(sc.third_party_claim_modify_date(USER, Some(10)), 22);
    assert_eq!(sc.third_party_claim_modify_date(USER, Some(11)), 0);
}

#[test] //The pause gate blocks public harvest only; deposits, removals and third-party flows go on
fn pause_scope_test() {
    let mut sc = setup_third_party_contract();

    sc.pause(OWNER).unwrap();
    assert_eq!(
        sc.add_claim(OWNER, NOW, USER, ClaimType::Reward, payment(TOKEN_ID, 100)),
        Ok(())
    );
    assert!(sc.remove_claim(OWNER, NOW, USER, ClaimType::Reward, 50).is_ok());
    assert_eq!(sc.harvest_claim(USER, NOW, None), Err(ClaimsError::ContractPaused));
    assert!(sc
        .add_third_party_claim(THIRD_PARTY, NOW, DATANFT, 1, ThirdPartyPayment::Egld(100), 0, TREASURY)
        .is_ok());
    assert!(sc.harvest_third_party_claims(USER).is_ok());
}
