use claims::payment::EsdtPayment;
use claims::requirements::ClaimsError;
use claims::storage::{ClaimType, ClaimsContract, StorageModule};
use claims::ClaimRequest;

pub const TOKEN_ID: u64 = 1;
pub const WRONG_TOKEN_ID: u64 = 2;
pub const OWNER: u64 = 100;
pub const FIRST_USER: u64 = 1;
pub const SECOND_USER: u64 = 2;
pub const NOW: u64 = 5000;

fn payment(token: u64, amount: u128) -> EsdtPayment {
    EsdtPayment { token, nonce: 0, amount }
}

fn request(address: u64, claim_type: ClaimType, amount: u128) -> ClaimRequest {
    ClaimRequest { address, claim_type, amount }
}

fn setup_contract() -> ClaimsContract {
    let mut sc = ClaimsContract::init(OWNER);
    sc.set_claim_token(OWNER, TOKEN_ID).unwrap();
    assert_eq!(sc.is_paused(), true);
    sc.unpause(OWNER).unwrap();
    sc
}

#[test] //Tests whether the contract is deployed and initialized after deployment correctly
fn empty_rust_test_deploy_test() {
    let sc = ClaimsContract::init(OWNER);
    assert_eq!(sc.is_paused(), true);
    assert_eq!(sc.claim_token(), None);
}

#[test] //Tests whether adding and removing singular claims works and also if removing returns an error if trying to remove more than the available claim
fn empty_rust_test_add_and_remove_claim_test() {
    let mut sc = setup_contract();

    assert_eq!(
        sc.add_claim(OWNER, NOW, FIRST_USER, ClaimType::Airdrop, payment(TOKEN_ID, 1_000_000)),
        Ok(())
    );
    assert!(sc
        .remove_claim(OWNER, NOW, FIRST_USER, ClaimType::Airdrop, 500_000)
        .is_ok());
    assert_eq!(
        sc.remove_claim(OWNER, NOW, FIRST_USER, ClaimType::Airdrop, 700_000),
        Err(ClaimsError::MoreThanClaim)
    );
}

#[test] //Same tests as the ones for singular claims, but for multiple claims + testing whether adding claims, but not sending enough tokens returns an error
fn empty_rust_test_add_and_remove_claims_test() {
    let mut sc = setup_contract();

    assert_eq!(
        sc.add_claims(
            OWNER,
            NOW,
            payment(TOKEN_ID, 2_000_000),
            vec![
                request(FIRST_USER, ClaimType::Airdrop, 1_000_000),
                request(SECOND_USER, ClaimType::Allocation, 1_000_000),
            ]
        ),
        Ok(())
    );
    assert_eq!(
        sc.add_claims(
            OWNER,
            NOW,
            payment(TOKEN_ID, 1_700_000),
            vec![
                request(FIRST_USER, ClaimType::Airdrop, 1_000_000),
                request(SECOND_USER, ClaimType::Allocation, 1_000_000),
            ]
        ),
        Err(ClaimsError::ClaimsNotEqualPayment)
    );
    assert!(sc
        .remove_claims(
            OWNER,
            NOW,
            vec![
                request(FIRST_USER, ClaimType::Airdrop, 1_000_000),
                request(SECOND_USER, ClaimType::Allocation, 500_000),
            ],
        )
        .is_ok());
    assert_eq!(
        sc.remove_claims(
            OWNER,
            NOW,
            vec![
                request(FIRST_USER, ClaimType::Airdrop, 300_000),
                request(SECOND_USER, ClaimType::Allocation, 500_000),
            ],
        ),
        Err(ClaimsError::MoreThanClaim)
    );
}

#[test] //Tests whether the transaction to add a token fails in the case in which a different token than the claim token is sent
fn empty_rust_test_add_claim_wrong_token_test() {
    let mut sc = setup_contract();

    assert_eq!(
        sc.add_claim(
            OWNER,
            NOW,
            FIRST_USER,
            ClaimType::Airdrop,
            payment(WRONG_TOKEN_ID, 1_000_000)
        ),
        Err(ClaimsError::WrongToken)
    );
}

#[test] //Tests whether one can set the claim token only once
fn reset_reward_token_test() {
    let mut sc = setup_contract();

    assert_eq!(sc.set_claim_token(OWNER, TOKEN_ID), Err(ClaimsError::TokenAlreadySet));
}

#[test] //Tests whether claiming is impossible in pause state
fn empty_rust_test_harvest_claim_in_pause_test() {
    let mut sc = setup_contract();

    assert_eq!(sc.pause(OWNER), Ok(()));
    assert_eq!(
        sc.harvest_claim(SECOND_USER, NOW, Some(ClaimType::Airdrop)),
        Err(ClaimsError::ContractPaused)
    );
}

#[test] //Tests whether users can claim
fn empty_rust_test_harvest_claim_test() {
    let mut sc = setup_contract();

    assert_eq!(
        sc.add_claim(OWNER, NOW, SECOND_USER, ClaimType::Airdrop, payment(TOKEN_ID, 1_000_000)),
        Ok(())
    );
    assert!(sc
        .harvest_claim(SECOND_USER, NOW, Some(ClaimType::Airdrop))
        .is_ok());
}

#[test] //Tests whether the transaction to claim returns an error if no claims are present for the user for the type he tries to claim
fn empty_rust_test_harvest_wrong_claim_type_test() {
    let mut sc = setup_contract();

    assert_eq!(
        sc.add_claim(OWNER, NOW, SECOND_USER, ClaimType::Airdrop, payment(TOKEN_ID, 1_000_000)),
        Ok(())
    );
    assert_eq!(
        sc.harvest_claim(SECOND_USER, NOW, Some(ClaimType::Reward)),
        Err(ClaimsError::ZeroValue)
    );
}

#[test] //Tests whether claiming all claim types at once works
fn empty_rust_test_harvest_all_claims_test() {
    let mut sc = setup_contract();

    assert_eq!(
        sc.add_claim(OWNER, NOW, SECOND_USER, ClaimType::Airdrop, payment(TOKEN_ID, 1_000_000)),
        Ok(())
    );
    assert_eq!(
        sc.add_claim(OWNER, NOW, SECOND_USER, ClaimType::Reward, payment(TOKEN_ID, 1_000_000)),
        Ok(())
    );
    let collected = sc.harvest_claim(SECOND_USER, NOW, None).unwrap();
    assert_eq!(collected.amount, 2_000_000);
}
