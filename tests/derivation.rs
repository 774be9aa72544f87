use solana_program::pubkey::Pubkey;
use yield_controller::{
    authorize_control_address, control_address_with_nonce, derive_control_address, ErrorCode,
};

const PROGRAM: [u8; 32] = [7u8; 32];

fn context() -> Vec<Vec<u8>> {
    vec![vec![1u8; 32], 5u64.to_le_bytes().to_vec()]
}

#[test]
fn derivation_is_idempotent() {
    let first = derive_control_address(b"state", &context(), &PROGRAM).unwrap();
    let second = derive_control_address(b"state", &context(), &PROGRAM).unwrap();
    assert_eq!(first, second);
}

#[test]
fn derivation_matches_the_ledger() {
    let (address, nonce) = derive_control_address(b"state", &context(), &PROGRAM).unwrap();
    let ctx = context();
    let seeds: Vec<&[u8]> = vec![b"state", &ctx[0], &ctx[1]];
    let (expected, expected_nonce) =
        Pubkey::find_program_address(&seeds, &Pubkey::new_from_array(PROGRAM));
    assert_eq!(address, expected.to_bytes());
    assert_eq!(nonce, expected_nonce);
    assert_ne!(address, PROGRAM);
    assert!(!Pubkey::new_from_array(address).is_on_curve());
}

#[test]
fn stored_nonce_authorizes() {
    let (address, nonce) = derive_control_address(b"yield_account", &context(), &PROGRAM).unwrap();
    assert_eq!(authorize_control_address(&address, b"yield_account", &context(), nonce, &PROGRAM), Ok(()));
    assert_eq!(control_address_with_nonce(b"yield_account", &context(), nonce, &PROGRAM), Ok(address));
}

#[test]
fn changed_context_is_an_invalid_derivation() {
    let (address, nonce) = derive_control_address(b"yield_account", &context(), &PROGRAM).unwrap();
    let other = vec![vec![2u8; 32]];
    assert_eq!(
        authorize_control_address(&address, b"yield_account", &other, nonce, &PROGRAM),
        Err(ErrorCode::InvalidDerivation)
    );
    assert_eq!(
        authorize_control_address(&address, b"other_tag", &context(), nonce, &PROGRAM),
        Err(ErrorCode::InvalidDerivation)
    );
}

#[test]
fn seeds_over_limits_are_refused() {
    let long = vec![vec![0u8; 33]];
    assert_eq!(derive_control_address(b"state", &long, &PROGRAM), Err(ErrorCode::InvalidDerivation));
    let many: Vec<Vec<u8>> = (0..15u8).map(|i| vec![i]).collect();
    assert_eq!(derive_control_address(b"state", &many, &PROGRAM), Err(ErrorCode::InvalidDerivation));
    let fourteen: Vec<Vec<u8>> = (0..14u8).map(|i| vec![i]).collect();
    assert!(derive_control_address(b"state", &fourteen, &PROGRAM).is_ok());
}
