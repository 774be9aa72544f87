//! The configuration record of one distribution policy: created once by
//! `register_state`, changed only by its update authority.
use vstd::prelude::*;
use crate::address::{
    Address, same_address, STATE_TAG, CONTROL_TAG, address_context, control_address,
    derive_control_address, has_viable_nonce, is_first_nonce, lemma_derivation_idempotent,
};
use crate::allocation::{PROPORTION_SCALE, WEIGHT_TOTAL, weight_sum, check_proportions};
use crate::errors::ErrorCode;

verus! {

/// How the number of tokens to burn is priced.
#[derive(Debug, Clone, Copy)]
pub enum Pricing {
    /// A configured price: `token_amount / price` tokens are burned.
    Fixed { price: u64 },
    /// Two external feeds quote the base currency and the token in a common
    /// unit; readings older than `max_staleness` seconds are refused.
    /// `base_decimals` is the base currency's precision.
    Oracle { base_feed: Address, token_feed: Address, max_staleness: u64, base_decimals: u8 },
}

/// The configurable fields, as given to `register_state` and `update_state`.
#[derive(Debug, Clone)]
pub struct GenericStateInput {
    pub update_authority: Address,
    pub mint: Address,
    pub holding_account: Address,
    pub holding_token_account: Address,
    pub pricing: Pricing,
    pub purchase_threshold: u64,
    /// In millionths of the incoming amount (see `PROPORTION_SCALE`).
    pub purchase_proportion: u32,
    /// The least held balance that `send_fund` forwards.
    pub spend_threshold: u64,
    /// Where certificate tokens are stored.
    pub certificate_vault: Address,
    pub output_yield_accounts: Vec<Address>,
    /// Integer percentages, position by position with `output_yield_accounts`.
    pub spend_proportions: Vec<u8>,
}

/// A registered configuration with its running totals and the nonces of
/// its own address and of its control account.
#[derive(Debug, Clone)]
pub struct State {
    pub config: GenericStateInput,
    pub total_spent: u64,
    pub total_tokens_purchased: u64,
    pub bump: u8,
    pub control_bump: u8,
}

/// The configurable fields as values.
pub struct ConfigView {
    pub update_authority: Seq<u8>,
    pub mint: Seq<u8>,
    pub holding_account: Seq<u8>,
    pub holding_token_account: Seq<u8>,
    pub pricing: Pricing,
    pub purchase_threshold: u64,
    pub purchase_proportion: u32,
    pub spend_threshold: u64,
    pub certificate_vault: Seq<u8>,
    pub output_yield_accounts: Seq<Seq<u8>>,
    pub spend_proportions: Seq<u8>,
}

/// A registered configuration as values.
pub struct StateView {
    pub config: ConfigView,
    pub total_spent: u64,
    pub total_tokens_purchased: u64,
    pub bump: u8,
    pub control_bump: u8,
}

/// The addresses of a list, each as its bytes.
pub open spec fn addresses_view(addresses: Seq<Address>) -> Seq<Seq<u8>> {
    Seq::new(addresses.len(), |i: int| addresses[i]@)
}

impl View for GenericStateInput {
    type V = ConfigView;

    open spec fn view(&self) -> ConfigView {
        ConfigView {
            update_authority: self.update_authority@,
            mint: self.mint@,
            holding_account: self.holding_account@,
            holding_token_account: self.holding_token_account@,
            pricing: self.pricing,
            purchase_threshold: self.purchase_threshold,
            purchase_proportion: self.purchase_proportion,
            spend_threshold: self.spend_threshold,
            certificate_vault: self.certificate_vault@,
            output_yield_accounts: addresses_view(self.output_yield_accounts@),
            spend_proportions: self.spend_proportions@,
        }
    }
}

impl View for State {
    type V = StateView;

    open spec fn view(&self) -> StateView {
        StateView {
            config: self.config@,
            total_spent: self.total_spent,
            total_tokens_purchased: self.total_tokens_purchased,
            bump: self.bump,
            control_bump: self.control_bump,
        }
    }
}

impl ConfigView {
    /// One weight per destination, weights summing to one hundred, and a
    /// purchase proportion of at most the whole.
    pub open spec fn wf(self) -> bool {
        &&& self.output_yield_accounts.len() == self.spend_proportions.len()
        &&& self.purchase_proportion <= PROPORTION_SCALE
        &&& weight_sum(self.spend_proportions) == WEIGHT_TOTAL
    }
}

impl State {
    /// The configuration keeps its invariants.
    pub open spec fn wf(&self) -> bool {
        self@.config.wf()
    }

    /// Bytes a stored record with `destination_count` destinations takes:
    /// an eight-byte discriminator, five addresses (authority, mint, holding
    /// account, holding token account, certificate vault), the larger pricing
    /// variant with its tag, the purchase threshold, the proportion, the
    /// spend threshold, the two length-prefixed lists, both totals and both
    /// nonces.
    pub fn space(destination_count: u8) -> (r: usize)
        ensures
            r == 8 + 5 * 32 + (1 + 32 + 32 + 8 + 1) + 8 + 4 + 8 + (4 + 32 * destination_count) + (
            4 + destination_count) + 8 + 8 + 1 + 1,
    {
        let n = destination_count as usize;
        8 + 5 * 32 + (1 + 32 + 32 + 8 + 1) + 8 + 4 + 8 + (4 + 32 * n) + (4 + n) + 8 + 8 + 1 + 1
    }
}

/// What checking a configuration gives, in order: weights summing to 100,
/// a proportion within the whole, one weight per destination.
pub open spec fn config_check(config: ConfigView) -> Result<(), ErrorCode> {
    if weight_sum(config.spend_proportions) != WEIGHT_TOTAL {
        Err(ErrorCode::InvalidProportions)
    } else if config.purchase_proportion > PROPORTION_SCALE {
        Err(ErrorCode::InvalidProportions)
    } else if config.output_yield_accounts.len() != config.spend_proportions.len() {
        Err(ErrorCode::CountMismatch)
    } else {
        Ok(())
    }
}

/// The record's address for the token `mint` under `program_id`, with the
/// nonce `bump`.
pub open spec fn record_address(mint: Seq<u8>, bump: u8, program_id: Seq<u8>) -> Seq<u8> {
    control_address(STATE_TAG@, seq![mint], bump, program_id)->Some_0
}

/// Both the record's address and its control account's can be derived.
pub open spec fn registrable(mint: Seq<u8>, program_id: Seq<u8>) -> bool {
    &&& has_viable_nonce(STATE_TAG@, seq![mint], program_id)
    &&& forall|n: u8| #[trigger]
        is_first_nonce(STATE_TAG@, seq![mint], n, program_id) ==> has_viable_nonce(
            CONTROL_TAG@,
            seq![record_address(mint, n, program_id)],
            program_id,
        )
}

/// `bump` and `control_bump` are the first nonces, from 255 down, of the
/// record's address and of its control account's.
pub open spec fn derived_nonces(mint: Seq<u8>, program_id: Seq<u8>, bump: u8, control_bump: u8) -> bool {
    &&& is_first_nonce(STATE_TAG@, seq![mint], bump, program_id)
    &&& is_first_nonce(
        CONTROL_TAG@,
        seq![record_address(mint, bump, program_id)],
        control_bump,
        program_id,
    )
}

/// The record that registering `config` creates.
pub open spec fn register_outcome(config: ConfigView, bump: u8, control_bump: u8) -> Result<
    StateView,
    ErrorCode,
> {
    match config_check(config) {
        Err(e) => Err(e),
        Ok(_) => Ok(
            StateView {
                config,
                total_spent: 0,
                total_tokens_purchased: 0,
                bump,
                control_bump,
            },
        ),
    }
}

/// The record after `signer` updates it with `config`: only the update
/// authority may; the token identifier, totals and nonces are kept.
pub open spec fn update_outcome(state: StateView, signer: Seq<u8>, config: ConfigView) -> Result<
    StateView,
    ErrorCode,
> {
    if signer != state.config.update_authority {
        Err(ErrorCode::Unauthorized)
    } else {
        match config_check(config) {
            Err(e) => Err(e),
            Ok(_) => Ok(StateView { config: ConfigView { mint: state.config.mint, ..config }, ..state }),
        }
    }
}

/// The record after `signer` sets a fixed price.
pub open spec fn price_outcome(state: StateView, signer: Seq<u8>, price: u64) -> Result<
    StateView,
    ErrorCode,
> {
    if signer != state.config.update_authority {
        Err(ErrorCode::Unauthorized)
    } else {
        match state.config.pricing {
            Pricing::Fixed { .. } => Ok(
                StateView {
                    config: ConfigView { pricing: Pricing::Fixed { price }, ..state.config },
                    ..state
                },
            ),
            Pricing::Oracle { .. } => Err(ErrorCode::WrongPricingMode),
        }
    }
}

/// Checks a configuration: `InvalidProportions` for weights that do not
/// sum to one hundred or a proportion over the whole, then `CountMismatch`
/// when destinations and weights differ in number.
pub fn check_config(config: &GenericStateInput) -> (r: Result<(), ErrorCode>)
    ensures
        r == config_check(config@),
{
    let weights = config.spend_proportions.as_slice();
    assert(weights@ == config.spend_proportions@);
    check_proportions(weights)?;
    if config.purchase_proportion > PROPORTION_SCALE {
        return Err(ErrorCode::InvalidProportions);
    }
    if config.output_yield_accounts.len() != config.spend_proportions.len() {
        return Err(ErrorCode::CountMismatch);
    }
    Ok(())
}

/// Creates the record for `config` under `program_id`: derives the record's
/// own address from the token identifier and its control account's address
/// from the record's, each with the first nonce from 255 down, and stores
/// both nonces; totals start at zero. A configuration that fails its checks
/// gives that error, and addresses that cannot be derived give
/// `InvalidDerivation`.
pub fn register_state(config: GenericStateInput, program_id: &Address) -> (r: Result<
    State,
    ErrorCode,
>)
    ensures
        r is Ok <==> config_check(config@) is Ok && registrable(config@.mint, program_id@),
        r matches Ok(s) ==> register_outcome(config@, s.bump, s.control_bump) == Ok::<
            StateView,
            ErrorCode,
        >(s@) && derived_nonces(config@.mint, program_id@, s.bump, s.control_bump),
        r matches Err(e) ==> (config_check(config@) matches Err(c) ==> e == c) && (config_check(
            config@,
        ) is Ok ==> e == ErrorCode::InvalidDerivation),
        r matches Ok(s) ==> s.wf(),
{
    check_config(&config)?;
    let mint_context = address_context(&config.mint);
    let (record, bump) = derive_control_address(STATE_TAG.as_slice(), &mint_context, program_id)?;
    let control_context = address_context(&record);
    let ghost mint = config@.mint;
    proof {
        assert forall|n: u8| #[trigger]
            is_first_nonce(STATE_TAG@, seq![mint], n, program_id@) implies n == bump by {
            lemma_derivation_idempotent(
                STATE_TAG@,
                seq![mint],
                program_id@,
                (record_address(mint, n, program_id@), n),
                (record@, bump),
            );
        }
    }
    let (_, control_bump) = derive_control_address(
        CONTROL_TAG.as_slice(),
        &control_context,
        program_id,
    )?;
    Ok(State { config, total_spent: 0, total_tokens_purchased: 0, bump, control_bump })
}

/// Replaces the configurable fields, but the token identifier, when
/// `signer` is the update authority; leaves the record unchanged on error.
pub fn update_state(state: &mut State, signer: &Address, config: GenericStateInput) -> (r: Result<
    (),
    ErrorCode,
>)
    ensures
        r is Ok ==> update_outcome(old(state)@, signer@, config@) == Ok::<StateView, ErrorCode>(
            final(state)@,
        ),
        r matches Err(e) ==> update_outcome(old(state)@, signer@, config@) == Err::<
            StateView,
            ErrorCode,
        >(e),
        r is Err ==> final(state)@ == old(state)@,
{
    if !same_address(signer, &state.config.update_authority) {
        return Err(ErrorCode::Unauthorized);
    }
    check_config(&config)?;
    let mint = state.config.mint;
    state.config = config;
    state.config.mint = mint;
    Ok(())
}

/// Sets the fixed price, when `signer` is the update authority and the
/// record is priced by a fixed price; leaves the record unchanged on error.
pub fn update_price(state: &mut State, signer: &Address, price: u64) -> (r: Result<(), ErrorCode>)
    ensures
        r is Ok ==> price_outcome(old(state)@, signer@, price) == Ok::<StateView, ErrorCode>(
            final(state)@,
        ),
        r matches Err(e) ==> price_outcome(old(state)@, signer@, price) == Err::<
            StateView,
            ErrorCode,
        >(e),
        r is Err ==> final(state)@ == old(state)@,
{
    if !same_address(signer, &state.config.update_authority) {
        return Err(ErrorCode::Unauthorized);
    }
    match state.config.pricing {
        Pricing::Fixed { .. } => {
            state.config.pricing = Pricing::Fixed { price };
            Ok(())
        },
        Pricing::Oracle { .. } => Err(ErrorCode::WrongPricingMode),
    }
}

/// Once an update has made `authority` the update authority, every
/// authority-gated operation by any other signer is refused with
/// `Unauthorized`.
pub proof fn lemma_only_authority_acts(
    registered: ConfigView,
    bump: u8,
    control_bump: u8,
    first_signer: Seq<u8>,
    update: ConfigView,
    other: Seq<u8>,
    next: ConfigView,
    price: u64,
)
    requires
        register_outcome(registered, bump, control_bump) is Ok,
        update_outcome(
            register_outcome(registered, bump, control_bump)->Ok_0,
            first_signer,
            update,
        ) is Ok,
        other != update.update_authority,
    ensures
        ({
            let s = update_outcome(
                register_outcome(registered, bump, control_bump)->Ok_0,
                first_signer,
                update,
            )->Ok_0;
            &&& s.config.update_authority == update.update_authority
            &&& update_outcome(s, other, next) == Err::<StateView, ErrorCode>(
                ErrorCode::Unauthorized,
            )
            &&& price_outcome(s, other, price) == Err::<StateView, ErrorCode>(
                ErrorCode::Unauthorized,
            )
        }),
{
}

/// A set of weights that does not sum to one hundred is refused with
/// `InvalidProportions` by registration and by every update that the
/// authority makes; an update by anyone else is refused as unauthorized.
pub proof fn lemma_bad_weights_refused(
    config: ConfigView,
    bump: u8,
    control_bump: u8,
    state: StateView,
    signer: Seq<u8>,
)
    requires
        weight_sum(config.spend_proportions) != WEIGHT_TOTAL,
    ensures
        register_outcome(config, bump, control_bump) == Err::<StateView, ErrorCode>(
            ErrorCode::InvalidProportions,
        ),
        signer == state.config.update_authority ==> update_outcome(state, signer, config) == Err::<
            StateView,
            ErrorCode,
        >(ErrorCode::InvalidProportions),
        update_outcome(state, signer, config) is Err,
{
}

/// An update keeps the record's invariants, the token identifier and the
/// running totals.
pub proof fn lemma_update_preserves(state: StateView, signer: Seq<u8>, config: ConfigView)
    requires
        update_outcome(state, signer, config) is Ok,
    ensures
        ({
            let s = update_outcome(state, signer, config)->Ok_0;
            &&& s.config.wf()
            &&& s.config.mint == state.config.mint
            &&& s.total_spent == state.total_spent
            &&& s.total_tokens_purchased == state.total_tokens_purchased
        }),
{
}

} // verus!
