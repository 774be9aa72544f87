//! Custody-and-distribution core: splits value held in keyless control
//! accounts between a token burn and one or more recipients.
//!
//! Every executable item is verified except two trusted wrappers, whose
//! contracts state what `solana_program`'s address derivation returns. The ledger side (token burns,
//! native transfers, account loading) is performed by the caller with the
//! amounts and addresses that this library decides.

pub mod errors;
pub mod allocation;
pub mod address;
pub mod oracle;
pub mod state;
pub mod engine;
pub mod certificate;
pub mod programs;

pub use errors::ErrorCode;
pub use allocation::{
    PROPORTION_SCALE, WEIGHT_TOTAL, PurchaseSplit, split_purchase, check_proportions,
    route_amounts, fixed_burn_amount,
};
pub use address::{
    Address, MAX_SEEDS, MAX_SEED_LEN, derive_control_address, authorize_control_address,
    control_address_with_nonce, same_address, CONTROL_TAG, ControlAccount,
    authorize_control_account, STATE_TAG, address_context, authorize_record,
};
pub use oracle::{
    Decimal, PriceReading, Rate, get_price_from_feed, get_latest_price,
    token_amount_for_purchase,
};
pub use state::{
    Pricing, GenericStateInput, State, check_config, register_state, update_state, update_price,
};
pub use engine::{
    AllocationAccounts, FeedReadings, AllocateYieldInput, AllocationPlan, check_destinations,
    check_accounts, allocate_yield, send_fund, transfer_native,
};
pub use certificate::{store_certificates, check_certificate_vault, cnft_transfer_data};
pub use programs::{MPL_BUBBLEGUM_ID, SPL_ACCOUNT_COMPRESSION_ID, MplBubblegum, SplAccountCompression};
