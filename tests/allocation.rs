use yield_controller::{
    derive_control_address, ControlAccount, CONTROL_TAG, STATE_TAG, allocate_yield, cnft_transfer_data, send_fund, register_state,
    store_certificates, transfer_native, update_price, update_state, AllocationAccounts,
    AllocateYieldInput, Decimal, ErrorCode, FeedReadings, GenericStateInput, MplBubblegum,
    PriceReading, Pricing, SplAccountCompression, State, MPL_BUBBLEGUM_ID,
};

const AUTHORITY: [u8; 32] = [1u8; 32];
const OTHER: [u8; 32] = [2u8; 32];
const MINT: [u8; 32] = [3u8; 32];
const HOLDING: [u8; 32] = [4u8; 32];
const HOLDING_TOKENS: [u8; 32] = [5u8; 32];
const TREASURY: [u8; 32] = [6u8; 32];
const SECOND: [u8; 32] = [7u8; 32];
const BASE_FEED: [u8; 32] = [8u8; 32];
const TOKEN_FEED: [u8; 32] = [9u8; 32];
const PROGRAM: [u8; 32] = [11u8; 32];
const VAULT: [u8; 32] = [13u8; 32];

fn record() -> ([u8; 32], u8) {
    derive_control_address(&STATE_TAG, &vec![MINT.to_vec()], &PROGRAM).unwrap()
}

fn control_account() -> ControlAccount {
    let record_address = record().0;
    let (address, _) = derive_control_address(&CONTROL_TAG, &vec![record_address.to_vec()], &PROGRAM).unwrap();
    ControlAccount { record_address, address, program_id: PROGRAM }
}

fn fixed_config() -> GenericStateInput {
    GenericStateInput {
        update_authority: AUTHORITY,
        mint: MINT,
        holding_account: HOLDING,
        holding_token_account: HOLDING_TOKENS,
        pricing: Pricing::Fixed { price: 10 },
        purchase_threshold: 100,
        purchase_proportion: 300_000,
        spend_threshold: 100,
        certificate_vault: VAULT,
        output_yield_accounts: vec![TREASURY, SECOND],
        spend_proportions: vec![70, 30],
    }
}

fn oracle_config() -> GenericStateInput {
    GenericStateInput {
        pricing: Pricing::Oracle {
            base_feed: BASE_FEED,
            token_feed: TOKEN_FEED,
            max_staleness: 60,
            base_decimals: 9,
        },
        purchase_threshold: 1_000,
        purchase_proportion: 500_000,
        output_yield_accounts: vec![TREASURY],
        spend_proportions: vec![100],
        ..fixed_config()
    }
}

fn accounts(destinations: Vec<[u8; 32]>) -> AllocationAccounts {
    AllocationAccounts {
        mint: MINT,
        holding_account: HOLDING,
        holding_token_account: HOLDING_TOKENS,
        output_yield_accounts: destinations,
        control: control_account(),
    }
}

fn feeds(timestamp: i64, token_sd: i128) -> FeedReadings {
    FeedReadings {
        base_feed: BASE_FEED,
        base: PriceReading {
            price: Decimal { mantissa: 10000, scale: 2 },
            std_deviation: Decimal { mantissa: 10, scale: 2 },
            timestamp,
        },
        token_feed: TOKEN_FEED,
        token: PriceReading {
            price: Decimal { mantissa: 50, scale: 2 },
            std_deviation: Decimal { mantissa: token_sd, scale: 2 },
            timestamp,
        },
        now: 1_000,
    }
}

fn fixed_request(available_amount: u64, token_amount: u64) -> AllocateYieldInput {
    AllocateYieldInput { available_amount, token_amount, mint_decimals: 6, feeds: None }
}

#[test]
fn register_rejects_bad_weights() {
    let mut config = fixed_config();
    config.spend_proportions = vec![70, 20];
    assert_eq!(register_state(config, &PROGRAM).err(), Some(ErrorCode::InvalidProportions));
    let mut uneven = fixed_config();
    uneven.spend_proportions = vec![100];
    assert_eq!(register_state(uneven, &PROGRAM).err(), Some(ErrorCode::CountMismatch));
    let mut uneven_bad_sum = fixed_config();
    uneven_bad_sum.spend_proportions = vec![90];
    assert_eq!(register_state(uneven_bad_sum, &PROGRAM).err(), Some(ErrorCode::InvalidProportions));
    let mut over = fixed_config();
    over.purchase_proportion = 1_000_001;
    assert_eq!(register_state(over, &PROGRAM).err(), Some(ErrorCode::InvalidProportions));
}

#[test]
fn update_rejects_bad_weights() {
    let mut state = register_state(fixed_config(), &PROGRAM).unwrap();
    let mut config = fixed_config();
    config.spend_proportions = vec![50, 49];
    assert_eq!(update_state(&mut state, &AUTHORITY, config), Err(ErrorCode::InvalidProportions));
    let mut uneven_bad_sum = fixed_config();
    uneven_bad_sum.spend_proportions = vec![99];
    assert_eq!(update_state(&mut state, &AUTHORITY, uneven_bad_sum), Err(ErrorCode::InvalidProportions));
    assert_eq!(state.config.spend_proportions, vec![70, 30]);
}

#[test]
fn only_the_new_authority_may_act() {
    let mut state = register_state(fixed_config(), &PROGRAM).unwrap();
    assert_eq!(state.total_spent, 0);
    let (_, record_nonce) = record();
    assert_eq!(state.bump, record_nonce);
    let control = control_account();
    let (_, control_nonce) =
        derive_control_address(&CONTROL_TAG, &vec![control.record_address.to_vec()], &PROGRAM).unwrap();
    assert_eq!(state.control_bump, control_nonce);
    let mut handed_over = fixed_config();
    handed_over.update_authority = OTHER;
    handed_over.mint = [42u8; 32];
    assert_eq!(update_state(&mut state, &AUTHORITY, handed_over), Ok(()));
    assert_eq!(state.config.update_authority, OTHER);
    assert_eq!(state.config.mint, MINT);
    assert_eq!(update_state(&mut state, &AUTHORITY, fixed_config()), Err(ErrorCode::Unauthorized));
    assert_eq!(update_price(&mut state, &AUTHORITY, 99), Err(ErrorCode::Unauthorized));
    assert!(matches!(state.config.pricing, Pricing::Fixed { price: 10 }));
    assert_eq!(update_price(&mut state, &OTHER, 99), Ok(()));
    assert!(matches!(state.config.pricing, Pricing::Fixed { price: 99 }));
}

#[test]
fn price_update_needs_fixed_pricing() {
    let mut state = register_state(oracle_config(), &PROGRAM).unwrap();
    assert_eq!(update_price(&mut state, &AUTHORITY, 5), Err(ErrorCode::WrongPricingMode));
}

#[test]
fn fixed_price_allocation() {
    let mut state = register_state(fixed_config(), &PROGRAM).unwrap();
    let plan = allocate_yield(&mut state, &accounts(vec![TREASURY, SECOND]), &fixed_request(1_000_000, 5_000))
        .unwrap();
    assert_eq!(plan.burn_amount, 500);
    assert_eq!(plan.purchase_value, 300_000);
    assert_eq!(plan.forwards, vec![490_000, 210_000]);
    assert_eq!(state.total_spent, 1_000_000);
    assert_eq!(state.total_tokens_purchased, 500);
}

#[test]
fn oracle_allocation_example() {
    let mut state = register_state(oracle_config(), &PROGRAM).unwrap();
    let request = AllocateYieldInput {
        available_amount: 1_000_000_000,
        token_amount: 0,
        mint_decimals: 6,
        feeds: Some(feeds(990, 20)),
    };
    let plan = allocate_yield(&mut state, &accounts(vec![TREASURY]), &request).unwrap();
    assert_eq!(plan.purchase_value, 500_000_000);
    assert_eq!(plan.burn_amount, 100_000_000);
    assert_eq!(plan.forwards, vec![500_000_000]);
    assert_eq!(state.total_tokens_purchased, 100_000_000);
    assert_eq!(state.total_spent, 1_000_000_000);
}

#[test]
fn below_threshold_changes_nothing() {
    let mut state = register_state(fixed_config(), &PROGRAM).unwrap();
    let result = allocate_yield(&mut state, &accounts(vec![OTHER]), &fixed_request(1_000_000, 99));
    assert_eq!(result.err(), Some(ErrorCode::ThresholdNotMet));
    assert_eq!((state.total_spent, state.total_tokens_purchased), (0, 0));
    let mut oracle = register_state(oracle_config(), &PROGRAM).unwrap();
    let request = AllocateYieldInput {
        available_amount: 999,
        token_amount: 0,
        mint_decimals: 6,
        feeds: Some(feeds(0, 99)),
    };
    let result = allocate_yield(&mut oracle, &accounts(vec![TREASURY]), &request);
    assert_eq!(result.err(), Some(ErrorCode::ThresholdNotMet));
    assert_eq!((oracle.total_spent, oracle.total_tokens_purchased), (0, 0));
}

#[test]
fn feed_failure_aborts_allocation() {
    let mut state = register_state(oracle_config(), &PROGRAM).unwrap();
    let stale = AllocateYieldInput {
        available_amount: 1_000_000_000,
        token_amount: 0,
        mint_decimals: 6,
        feeds: Some(feeds(900, 20)),
    };
    let result = allocate_yield(&mut state, &accounts(vec![TREASURY]), &stale);
    assert_eq!(result.err(), Some(ErrorCode::StaleFeed));
    let unsure = AllocateYieldInput { feeds: Some(feeds(990, 81)), ..stale };
    let result = allocate_yield(&mut state, &accounts(vec![TREASURY]), &unsure);
    assert_eq!(result.err(), Some(ErrorCode::LowConfidence));
    assert_eq!((state.total_spent, state.total_tokens_purchased), (0, 0));
}

#[test]
fn substituted_accounts_are_refused() {
    let mut state = register_state(fixed_config(), &PROGRAM).unwrap();
    let request = fixed_request(1_000, 1_000);
    let result = allocate_yield(&mut state, &accounts(vec![TREASURY]), &request);
    assert_eq!(result.err(), Some(ErrorCode::CountMismatch));
    let result = allocate_yield(&mut state, &accounts(vec![SECOND, TREASURY]), &request);
    assert_eq!(result.err(), Some(ErrorCode::AccountMismatch));
    let mut wrong_mint = accounts(vec![TREASURY, SECOND]);
    wrong_mint.mint = OTHER;
    assert_eq!(allocate_yield(&mut state, &wrong_mint, &request).err(), Some(ErrorCode::AccountMismatch));
    let mut oracle = register_state(oracle_config(), &PROGRAM).unwrap();
    let mut swapped = feeds(990, 20);
    swapped.token_feed = OTHER;
    let request = AllocateYieldInput {
        available_amount: 1_000_000,
        token_amount: 0,
        mint_decimals: 6,
        feeds: Some(swapped),
    };
    assert_eq!(
        allocate_yield(&mut oracle, &accounts(vec![TREASURY]), &request).err(),
        Some(ErrorCode::AccountMismatch)
    );
    assert_eq!(state.total_spent, 0);
}

#[test]
fn stale_nonce_is_an_invalid_derivation() {
    let mut state = register_state(fixed_config(), &PROGRAM).unwrap();
    state.control_bump = state.control_bump.wrapping_sub(1);
    let result = allocate_yield(&mut state, &accounts(vec![TREASURY, SECOND]), &fixed_request(1_000, 1_000));
    assert_eq!(result.err(), Some(ErrorCode::InvalidDerivation));
    let mut moved = accounts(vec![TREASURY, SECOND]);
    moved.control.record_address = OTHER;
    let mut fresh = register_state(fixed_config(), &PROGRAM).unwrap();
    let result = allocate_yield(&mut fresh, &moved, &fixed_request(1_000, 1_000));
    assert_eq!(result.err(), Some(ErrorCode::InvalidDerivation));
    assert_eq!((fresh.total_spent, state.total_spent), (0, 0));
    let mut stale_record = register_state(fixed_config(), &PROGRAM).unwrap();
    stale_record.bump = stale_record.bump.wrapping_sub(1);
    let result = allocate_yield(&mut stale_record, &accounts(vec![TREASURY, SECOND]), &fixed_request(1_000, 1_000));
    assert_eq!(result.err(), Some(ErrorCode::InvalidDerivation));
    assert_eq!(
        send_fund(&mut stale_record, &control_account(), &vec![TREASURY, SECOND], 1_000),
        Err(ErrorCode::InvalidDerivation)
    );
}

#[test]
fn resubmission_reads_the_new_balance() {
    let mut config = fixed_config();
    config.purchase_threshold = 0;
    config.spend_proportions = vec![33, 67];
    let mut state = register_state(config, &PROGRAM).unwrap();
    let destinations = accounts(vec![TREASURY, SECOND]);
    let mut control_balance = 1_001u64;
    let mut holding = 0u64;
    let mut received = vec![0u64, 0u64];
    let plan = allocate_yield(&mut state, &destinations, &fixed_request(control_balance, 0)).unwrap();
    transfer_native(&mut control_balance, &mut holding, plan.purchase_value).unwrap();
    for (i, amount) in plan.forwards.iter().enumerate() {
        transfer_native(&mut control_balance, &mut received[i], *amount).unwrap();
    }
    let first_total = state.total_spent;
    assert_eq!(first_total + control_balance, 1_001);
    assert!(control_balance < 2);
    let again = allocate_yield(&mut state, &destinations, &fixed_request(control_balance, 0)).unwrap();
    let second_total = again.purchase_value + again.forwards.iter().sum::<u64>();
    assert!(second_total <= control_balance);
    assert_eq!(state.total_spent, first_total + second_total);
    assert!(first_total + second_total <= 1_001);
}

#[test]
fn forward_needs_threshold_and_destination() {
    let mut config = fixed_config();
    config.output_yield_accounts = vec![TREASURY];
    config.spend_proportions = vec![100];
    config.purchase_threshold = 1_000;
    let mut state = register_state(config, &PROGRAM).unwrap();
    assert_eq!(send_fund(&mut state, &control_account(), &vec![TREASURY], 99), Err(ErrorCode::BelowThreshold));
    assert_eq!(send_fund(&mut state, &control_account(), &vec![OTHER], 500), Err(ErrorCode::AccountMismatch));
    assert_eq!(send_fund(&mut state, &control_account(), &vec![TREASURY], 500), Ok(vec![500]));
    assert_eq!(state.total_spent, 500);
}

#[test]
fn certificates_and_transfer_data() {
    let state = register_state(fixed_config(), &PROGRAM).unwrap();
    assert_eq!(store_certificates(&state, &VAULT, 0), Err(ErrorCode::NoCertificatesFound));
    assert_eq!(store_certificates(&state, &VAULT, 12), Ok(12));
    assert_eq!(store_certificates(&state, &OTHER, 12), Err(ErrorCode::AccountMismatch));
    let data = cnft_transfer_data(&[9u8; 8], &[1u8; 32], &[2u8; 32], &[3u8; 32], 0x0102, 7);
    assert_eq!(data.len(), 8 + 96 + 8 + 4);
    assert_eq!(&data[..8], &[9u8; 8]);
    assert_eq!(&data[8..40], &[1u8; 32]);
    assert_eq!(&data[104..112], &0x0102u64.to_le_bytes());
    assert_eq!(&data[112..], &7u32.to_le_bytes());
}

#[test]
fn record_space_and_programs() {
    assert_eq!(State::space(0), 288);
    assert_eq!(State::space(3), 288 + 99);
    assert_eq!(State::space(2) - State::space(1), 33);
    assert_eq!(MplBubblegum::id(), MPL_BUBBLEGUM_ID);
    assert_eq!(MplBubblegum::check(&MPL_BUBBLEGUM_ID), Ok(()));
    assert_eq!(SplAccountCompression::check(&MPL_BUBBLEGUM_ID), Err(ErrorCode::AccountMismatch));
}
