use claims::payment::{EsdtPayment, PayoutToken};
use claims::requirements::ClaimsError;
use claims::storage::{ClaimType, ClaimsContract, StorageModule};
use claims::ClaimRequest;

pub const TOKEN_ID: u64 = 1;
pub const WRONG_TOKEN_ID: u64 = 2;
pub const OWNER: u64 = 100;
pub const FIRST_USER: u64 = 1;
pub const SECOND_USER: u64 = 2;
pub const THIRD_USER: u64 = 3;
pub const NOW: u64 = 5000;

fn payment(token: u64, amount: u128) -> EsdtPayment {
    EsdtPayment { token, nonce: 0, amount }
}

fn request(address: u64, claim_type: ClaimType, amount: u128) -> ClaimRequest {
    ClaimRequest { address, claim_type, amount }
}

fn setup_contract() -> ClaimsContract {
    let mut sc = ClaimsContract::init(OWNER);
    sc.set_claim_token(OWNER, TOKEN_ID).unwrap();
    sc.add_privileged_address(OWNER, FIRST_USER).unwrap();
    assert_eq!(sc.is_paused(), true);
    sc.unpause(OWNER).unwrap();
    sc
}

#[test] //Tests whether the contract is deployed and initialized correctly after deployment
fn rust_tests_deploy_test() {
    let sc = ClaimsContract::init(OWNER);
    assert_eq!(sc.is_paused(), true);
    assert_eq!(sc.claim_token(), None);
}

#[test] //Tests whether pausing and unpausing the contract works correctly
        //Tests whether trying to change the pause state to the already set state returns an error
        //Tests whether privileged addresses can pause harvesting, but normal addresses cannot
fn pause_unpause_test() {
    let mut sc = setup_contract();

    assert_eq!(sc.is_paused(), false);
    assert_eq!(sc.unpause(OWNER), Err(ClaimsError::AlreadyUnpaused));
    assert_eq!(sc.pause(OWNER), Ok(()));
    assert_eq!(sc.is_paused(), true);
    assert_eq!(sc.pause(OWNER), Err(ClaimsError::AlreadyPaused));
    assert_eq!(sc.unpause(OWNER), Ok(()));
    assert_eq!(sc.is_paused(), false);
    assert_eq!(sc.pause(FIRST_USER), Ok(()));
    assert_eq!(sc.is_paused(), true);
    assert_eq!(sc.unpause(OWNER), Ok(()));
    assert_eq!(sc.pause(SECOND_USER), Err(ClaimsError::NotAuthorized));
    assert_eq!(sc.is_paused(), false);
}

#[test] //Tests whether adding and removing privileged addresses works as expected
        //Tests if trying to give privileges to an address that already has them returns an error
        //Tests if trying to offer privileges to the owner of the smart contract returns an error
        //Tests if trying to remove privileges from an address that is not privileged returns an error
fn add_and_remove_privileged_addresses_test() {
    let mut sc = setup_contract();

    assert_eq!(sc.add_privileged_address(OWNER, SECOND_USER), Ok(()));
    assert_eq!(
        sc.add_privileged_address(OWNER, THIRD_USER),
        Err(ClaimsError::MaxPrivilegedExceeded)
    );
    assert_eq!(
        sc.remove_privileged_address(OWNER, THIRD_USER),
        Err(ClaimsError::AddressNotPrivileged)
    );
    let privileged = sc.privileged_addresses();
    assert!(privileged.contains(&FIRST_USER) && privileged.contains(&SECOND_USER));
    assert_eq!(sc.remove_privileged_address(OWNER, SECOND_USER), Ok(()));
    assert_eq!(sc.add_privileged_address(OWNER, OWNER), Err(ClaimsError::OwnerNotAllowed));
    let privileged = sc.privileged_addresses();
    assert!(privileged.contains(&FIRST_USER) && !privileged.contains(&SECOND_USER));
}

#[test] //Tests whether adding and removing singular claims works as expected
        //Tests if adding and removing a zero value claim returns an error
        //Tests if removing more than the amount reserved in claims returns an error
fn rust_tests_add_and_remove_claim_test() {
    let mut sc = setup_contract();

    assert_eq!(
        sc.add_claim(OWNER, NOW, FIRST_USER, ClaimType::Airdrop, payment(TOKEN_ID, 1_000_000)),
        Ok(())
    );
    assert_eq!(sc.claim(FIRST_USER, ClaimType::Airdrop), 1_000_000);

    assert_eq!(
        sc.add_claim(OWNER, NOW, FIRST_USER, ClaimType::Airdrop, payment(TOKEN_ID, 0)),
        Err(ClaimsError::ZeroValue)
    );
    assert_eq!(sc.claim(FIRST_USER, ClaimType::Airdrop), 1_000_000);

    let removed = sc
        .remove_claim(OWNER, NOW, FIRST_USER, ClaimType::Airdrop, 500_000)
        .unwrap();
    assert_eq!(removed.to, OWNER);
    assert_eq!(removed.token, PayoutToken::Esdt(TOKEN_ID));
    assert_eq!(removed.amount, 500_000);
    assert_eq!(sc.claim(FIRST_USER, ClaimType::Airdrop), 500_000);

    assert_eq!(
        sc.remove_claim(OWNER, NOW, FIRST_USER, ClaimType::Airdrop, 0),
        Err(ClaimsError::ZeroValue)
    );
    assert_eq!(
        sc.remove_claim(OWNER, NOW, FIRST_USER, ClaimType::Airdrop, 700_000),
        Err(ClaimsError::MoreThanClaim)
    );
    assert_eq!(sc.claim(FIRST_USER, ClaimType::Airdrop), 500_000);
}

#[test] //Same tests as the ones for singular claims, but for multiple claims
        //Tests if adding multiple claims, but not sending the right amount of tokens for it returns an error
        //Tests if adding or removing zero valued claims returns an error
        //Tests if removing more than the amount reserved in claims returns an error
fn rust_tests_add_and_remove_claims_test() {
    let mut sc = setup_contract();

    assert_eq!(
        sc.add_claims(
            OWNER,
            NOW,
            payment(TOKEN_ID, 2_000_000),
            vec![
                request(FIRST_USER, ClaimType::Airdrop, 1_000_000),
                request(SECOND_USER, ClaimType::Allocation, 1_000_000),
            ]
        ),
        Ok(())
    );
    assert_eq!(sc.claim(FIRST_USER, ClaimType::Airdrop), 1_000_000);
    assert_eq!(sc.claim(SECOND_USER, ClaimType::Allocation), 1_000_000);

    assert_eq!(
        sc.add_claims(
            OWNER,
            NOW,
            payment(TOKEN_ID, 1_700_000),
            vec![
                request(FIRST_USER, ClaimType::Airdrop, 1_000_000),
                request(SECOND_USER, ClaimType::Allocation, 1_000_000),
            ]
        ),
        Err(ClaimsError::ClaimsNotEqualPayment)
    );

    let many: Vec<ClaimRequest> = (0..201)
        .map(|_| request(FIRST_USER, ClaimType::Airdrop, 1_000))
        .collect();
    assert_eq!(
        sc.add_claims(OWNER, NOW, payment(TOKEN_ID, 201_000), many),
        Err(ClaimsError::TooManyClaims)
    );

    assert_eq!(
        sc.add_claims(
            OWNER,
            NOW,
            payment(TOKEN_ID, 1_700_000),
            vec![
                request(FIRST_USER, ClaimType::Airdrop, 1_700_000),
                request(SECOND_USER, ClaimType::Allocation, 0),
            ]
        ),
        Err(ClaimsError::ZeroValue)
    );
    assert_eq!(sc.claim(FIRST_USER, ClaimType::Airdrop), 1_000_000);
    assert_eq!(sc.claim(SECOND_USER, ClaimType::Allocation), 1_000_000);

    let removed = sc
        .remove_claims(
            OWNER,
            NOW,
            vec![
                request(FIRST_USER, ClaimType::Airdrop, 700_000),
                request(SECOND_USER, ClaimType::Allocation, 500_000),
            ],
        )
        .unwrap();
    assert_eq!(removed.to, OWNER);
    assert_eq!(removed.amount, 1_200_000);
    assert_eq!(sc.claim(FIRST_USER, ClaimType::Airdrop), 300_000);
    assert_eq!(sc.claim(SECOND_USER, ClaimType::Allocation), 500_000);

    assert_eq!(
        sc.remove_claims(
            OWNER,
            NOW,
            vec![
                request(FIRST_USER, ClaimType::Airdrop, 200_000),
                request(SECOND_USER, ClaimType::Allocation, 0),
            ],
        ),
        Err(ClaimsError::ZeroValue)
    );
    assert_eq!(
        sc.remove_claims(
            OWNER,
            NOW,
            vec![
                request(FIRST_USER, ClaimType::Airdrop, 400_000),
                request(SECOND_USER, ClaimType::Allocation, 500_000),
            ],
        ),
        Err(ClaimsError::MoreThanClaim)
    );
    let many: Vec<ClaimRequest> = (0..201)
        .map(|_| request(FIRST_USER, ClaimType::Airdrop, 1_000))
        .collect();
    assert_eq!(sc.remove_claims(OWNER, NOW, many), Err(ClaimsError::TooManyClaims));
    assert_eq!(sc.claim(FIRST_USER, ClaimType::Airdrop), 300_000);
    assert_eq!(sc.claim(SECOND_USER, ClaimType::Allocation), 500_000);
}

#[test] //Tests whether privileged addresses can add a claim, but a non-privileged address cannot
fn add_claim_privileged_test() {
    let mut sc = setup_contract();

    assert_eq!(
        sc.add_claim(FIRST_USER, NOW, FIRST_USER, ClaimType::Airdrop, payment(TOKEN_ID, 1_000)),
        Ok(())
    );
    assert_eq!(
        sc.add_claim(THIRD_USER, NOW, FIRST_USER, ClaimType::Airdrop, payment(TOKEN_ID, 1_000)),
        Err(ClaimsError::NotAuthorized)
    );
}

#[test] //Tests whether privileged addresses can add claims, but a non-privileged address cannot
fn add_claims_privileged_test() {
    let mut sc = setup_contract();

    assert_eq!(
        sc.add_claims(
            FIRST_USER,
            NOW,
            payment(TOKEN_ID, 1_000),
            vec![
                request(FIRST_USER, ClaimType::Airdrop, 600),
                request(THIRD_USER, ClaimType::Allocation, 400),
            ]
        ),
        Ok(())
    );
    assert_eq!(
        sc.add_claims(
            THIRD_USER,
            NOW,
            payment(TOKEN_ID, 100),
            vec![
                request(FIRST_USER, ClaimType::Airdrop, 600),
                request(THIRD_USER, ClaimType::Allocation, 400),
            ]
        ),
        Err(ClaimsError::NotAuthorized)
    );
}

#[test] //Tests whether the transaction to add a token fails in the case in which a different token than the claim token is sent
fn rust_tests_add_claim_wrong_token_test() {
    let mut sc = setup_contract();

    assert_eq!(
        sc.add_claim(
            OWNER,
            NOW,
            FIRST_USER,
            ClaimType::Airdrop,
            payment(WRONG_TOKEN_ID, 1_000_000)
        ),
        Err(ClaimsError::WrongToken)
    );
    assert_eq!(sc.claim(FIRST_USER, ClaimType::Airdrop), 0);
}

#[test] //Tests whether the transaction to add tokens fails in the case in which a different token than the claim token is sent
fn add_claims_wrong_token_test() {
    let mut sc = setup_contract();

    assert_eq!(
        sc.add_claims(
            OWNER,
            NOW,
            payment(WRONG_TOKEN_ID, 500_000),
            vec![
                request(FIRST_USER, ClaimType::Airdrop, 200_000),
                request(SECOND_USER, ClaimType::Allocation, 300_000),
            ]
        ),
        Err(ClaimsError::WrongToken)
    );
    assert_eq!(sc.claim(FIRST_USER, ClaimType::Airdrop), 0);
    assert_eq!(sc.claim(SECOND_USER, ClaimType::Allocation), 0);
}

#[test] //Tests whether one can set the claim token only once
fn reset_claim_token_test() {
    let mut sc = setup_contract();

    assert_eq!(sc.set_claim_token(OWNER, TOKEN_ID), Err(ClaimsError::TokenAlreadySet));
}

#[test] //Tests whether claiming is impossible in pause state
fn rust_tests_harvest_claim_in_pause_test() {
    let mut sc = setup_contract();

    assert_eq!(sc.pause(OWNER), Ok(()));
    assert_eq!(
        sc.harvest_claim(SECOND_USER, NOW, Some(ClaimType::Airdrop)),
        Err(ClaimsError::ContractPaused)
    );
}

#[test] //Tests whether users can claim
fn rust_tests_harvest_claim_test() {
    let mut sc = setup_contract();

    assert_eq!(
        sc.add_claim(OWNER, NOW, SECOND_USER, ClaimType::Airdrop, payment(TOKEN_ID, 1_000_000)),
        Ok(())
    );
    let collected = sc
        .harvest_claim(SECOND_USER, NOW, Some(ClaimType::Airdrop))
        .unwrap();
    assert_eq!(sc.claim(SECOND_USER, ClaimType::Airdrop), 0);
    assert_eq!(collected.to, SECOND_USER);
    assert_eq!(collected.token, PayoutToken::Esdt(TOKEN_ID));
    assert_eq!(collected.amount, 1_000_000);
}

#[test] //Tests whether the transaction to claim returns an error if no claims are present for the user for the type he tries to claim
fn rust_tests_harvest_wrong_claim_type_test() {
    let mut sc = setup_contract();

    assert_eq!(
        sc.add_claim(OWNER, NOW, SECOND_USER, ClaimType::Airdrop, payment(TOKEN_ID, 1_000_000)),
        Ok(())
    );
    assert_eq!(
        sc.harvest_claim(SECOND_USER, NOW, Some(ClaimType::Reward)),
        Err(ClaimsError::ZeroValue)
    );
    assert_eq!(sc.claim(SECOND_USER, ClaimType::Airdrop), 1_000_000);
    assert_eq!(sc.claim(SECOND_USER, ClaimType::Reward), 0);
}

#[test] //Tests whether claiming all claim types at once works
fn rust_tests_harvest_all_claims_test() {
    let mut sc = setup_contract();

    assert_eq!(
        sc.add_claim(OWNER, NOW, SECOND_USER, ClaimType::Airdrop, payment(TOKEN_ID, 1_000_000)),
        Ok(())
    );
    assert_eq!(
        sc.add_claim(OWNER, NOW, SECOND_USER, ClaimType::Reward, payment(TOKEN_ID, 1_000_000)),
        Ok(())
    );
    let collected = sc.harvest_claim(SECOND_USER, NOW, None).unwrap();
    assert_eq!(sc.claim(SECOND_USER, ClaimType::Airdrop), 0);
    assert_eq!(sc.claim(SECOND_USER, ClaimType::Reward), 0);
    assert_eq!(collected.to, SECOND_USER);
    assert_eq!(collected.amount, 2_000_000);
}
