//! One allocation call: the threshold gate, the check of every referenced
//! account against the configuration, the burn amount under either pricing
//! mode, the amounts forwarded to each destination, and the running totals.
//! Nothing is decided unless every check passes, and the record is left
//! unchanged when one fails.
use vstd::prelude::*;
use crate::address::{
    Address, ControlAccount, same_address, control_authorized, authorize_control_account,
    record_authorized, authorize_record,
};
use crate::allocation::{
    PROPORTION_SCALE, WEIGHT_TOTAL, purchase_share, weighted_share, weight_sum, routed_total,
    amount_sum, split_purchase, route_amounts, fixed_burn_amount, lemma_routing_residue,
    lemma_route_amounts_total,
};
use crate::errors::ErrorCode;
use crate::oracle::{
    PriceReading, rate_outcome, tokens_for_purchase, conversion_in_range, get_latest_price,
    token_amount_for_purchase,
};
use crate::state::{Pricing, State, StateView, ConfigView, addresses_view};

verus! {

/// The accounts that an allocation call refers to, as the caller supplied them.
#[derive(Debug, Clone)]
pub struct AllocationAccounts {
    pub mint: Address,
    pub holding_account: Address,
    pub holding_token_account: Address,
    /// The destinations, in the configured order.
    pub output_yield_accounts: Vec<Address>,
    /// The control account that the value leaves from.
    pub control: ControlAccount,
}

/// The supplied accounts as values.
pub struct AccountsView {
    pub mint: Seq<u8>,
    pub holding_account: Seq<u8>,
    pub holding_token_account: Seq<u8>,
    pub output_yield_accounts: Seq<Seq<u8>>,
    pub control: ControlAccount,
}

impl View for AllocationAccounts {
    type V = AccountsView;

    open spec fn view(&self) -> AccountsView {
        AccountsView {
            mint: self.mint@,
            holding_account: self.holding_account@,
            holding_token_account: self.holding_token_account@,
            output_yield_accounts: addresses_view(self.output_yield_accounts@),
            control: self.control,
        }
    }
}

/// Readings of the two price feeds, the accounts they were read from, and
/// the current time in seconds.
#[derive(Debug, Clone, Copy)]
pub struct FeedReadings {
    pub base_feed: Address,
    pub base: PriceReading,
    pub token_feed: Address,
    pub token: PriceReading,
    pub now: i64,
}

/// What one allocation call is given besides the accounts.
#[derive(Debug, Clone, Copy)]
pub struct AllocateYieldInput {
    /// The control account's current balance: the incoming amount.
    pub available_amount: u64,
    /// With a fixed price: the token amount that the purchase brought in.
    pub token_amount: u64,
    /// The token's decimal precision, as its mint records it.
    pub mint_decimals: u8,
    /// With oracle pricing: the feed readings.
    pub feeds: Option<FeedReadings>,
}

/// What an allocation decided: the tokens to burn, the value sent to the
/// holding account for the purchase, and what each destination receives,
/// in the configured order.
#[derive(Debug, Clone)]
pub struct AllocationPlan {
    pub burn_amount: u64,
    pub purchase_value: u64,
    pub forwards: Vec<u64>,
}

/// A plan as values.
pub struct PlanView {
    pub burn_amount: u64,
    pub purchase_value: u64,
    pub forwards: Seq<u64>,
}

impl View for AllocationPlan {
    type V = PlanView;

    open spec fn view(&self) -> PlanView {
        PlanView {
            burn_amount: self.burn_amount,
            purchase_value: self.purchase_value,
            forwards: self.forwards@,
        }
    }
}

/// The amount that the threshold applies to: the token amount with a fixed
/// price, the incoming amount with oracle pricing.
pub open spec fn gated_amount(pricing: Pricing, request: AllocateYieldInput) -> u64 {
    match pricing {
        Pricing::Fixed { .. } => request.token_amount,
        Pricing::Oracle { .. } => request.available_amount,
    }
}

/// What checking the supplied destinations gives: their number, then each
/// address at its position.
pub open spec fn destinations_check(configured: Seq<Seq<u8>>, supplied: Seq<Seq<u8>>) -> Result<
    (),
    ErrorCode,
> {
    if supplied.len() != configured.len() {
        Err(ErrorCode::CountMismatch)
    } else if supplied != configured {
        Err(ErrorCode::AccountMismatch)
    } else {
        Ok(())
    }
}

/// What checking every supplied account against the configuration gives.
pub open spec fn accounts_check(
    config: ConfigView,
    accounts: AccountsView,
    request: AllocateYieldInput,
) -> Result<(), ErrorCode> {
    if accounts.mint != config.mint || accounts.holding_account != config.holding_account
        || accounts.holding_token_account != config.holding_token_account {
        Err(ErrorCode::AccountMismatch)
    } else if destinations_check(config.output_yield_accounts, accounts.output_yield_accounts) is Err {
        destinations_check(config.output_yield_accounts, accounts.output_yield_accounts)
    } else {
        match config.pricing {
            Pricing::Fixed { .. } => Ok(()),
            Pricing::Oracle { base_feed, token_feed, .. } => match request.feeds {
                None => Err(ErrorCode::AccountMismatch),
                Some(f) => if f.base_feed@ != base_feed@ || f.token_feed@ != token_feed@ {
                    Err(ErrorCode::AccountMismatch)
                } else {
                    Ok(())
                },
            },
        }
    }
}

/// The tokens to burn for a purchase value, under the configured pricing.
pub open spec fn burn_outcome(config: ConfigView, request: AllocateYieldInput, purchase_value: u64) -> Result<
    u64,
    ErrorCode,
> {
    match config.pricing {
        Pricing::Fixed { price } => if price == 0 {
            Err(ErrorCode::CalculationFailure)
        } else {
            Ok(request.token_amount / price)
        },
        Pricing::Oracle { max_staleness, base_decimals, .. } => {
            let f = request.feeds->Some_0;
            match rate_outcome(f.base, f.token, f.now, max_staleness) {
                Err(e) => Err(e),
                Ok(rate) => if conversion_in_range(
                    purchase_value,
                    rate,
                    base_decimals,
                    request.mint_decimals,
                ) {
                    Ok(
                        tokens_for_purchase(
                            purchase_value,
                            rate,
                            base_decimals,
                            request.mint_decimals,
                        ) as u64,
                    )
                } else {
                    Err(ErrorCode::CalculationFailure)
                },
            }
        },
    }
}

/// The share of each destination out of `total`, in order.
pub open spec fn forwards_of(total: u64, weights: Seq<u8>) -> Seq<u64> {
    Seq::new(weights.len(), |i: int| weighted_share(total as int, weights[i] as int) as u64)
}

/// All the native value that a plan moves out of the control account.
pub open spec fn plan_total(plan: PlanView) -> int {
    plan.purchase_value + amount_sum(plan.forwards)
}

/// What one allocation call decides: the threshold gate first, then the
/// accounts, then the derivation of the record and of its control account,
/// then pricing, then room in the running totals.
pub open spec fn allocation_outcome(
    state: StateView,
    accounts: AccountsView,
    request: AllocateYieldInput,
) -> Result<PlanView, ErrorCode> {
    let config = state.config;
    if gated_amount(config.pricing, request) < config.purchase_threshold {
        Err(ErrorCode::ThresholdNotMet)
    } else if accounts_check(config, accounts, request) is Err {
        Err(accounts_check(config, accounts, request)->Err_0)
    } else if !record_authorized(accounts.control, config.mint, state.bump) {
        Err(ErrorCode::InvalidDerivation)
    } else if !control_authorized(accounts.control, state.control_bump) {
        Err(ErrorCode::InvalidDerivation)
    } else {
        let purchase_value = purchase_share(
            request.available_amount as int,
            config.purchase_proportion as int,
        ) as u64;
        let remainder = (request.available_amount - purchase_value) as u64;
        match burn_outcome(config, request, purchase_value) {
            Err(e) => Err(e),
            Ok(burn_amount) => {
                let plan = PlanView {
                    burn_amount,
                    purchase_value,
                    forwards: forwards_of(remainder, config.spend_proportions),
                };
                if state.total_spent + plan_total(plan) > u64::MAX || state.total_tokens_purchased
                    + burn_amount > u64::MAX {
                    Err(ErrorCode::CalculationFailure)
                } else {
                    Ok(plan)
                }
            },
        }
    }
}

/// The record after a plan is carried out: both running totals grow.
pub open spec fn after_allocation(state: StateView, plan: PlanView) -> StateView {
    StateView {
        total_spent: (state.total_spent + plan_total(plan)) as u64,
        total_tokens_purchased: (state.total_tokens_purchased + plan.burn_amount) as u64,
        ..state
    }
}

proof fn lemma_amount_sum_prefix(amounts: Seq<u64>, i: int)
    requires
        0 <= i <= amounts.len(),
    ensures
        amount_sum(amounts.take(i)) <= amount_sum(amounts),
    decreases amounts.len(),
{
    if i < amounts.len() {
        assert(amounts.drop_last().take(i) == amounts.take(i));
        lemma_amount_sum_prefix(amounts.drop_last(), i);
    } else {
        assert(amounts.take(i) == amounts);
    }
}

proof fn lemma_amount_sum_nonneg(amounts: Seq<u64>)
    ensures
        amount_sum(amounts) >= 0,
    decreases amounts.len(),
{
    if amounts.len() > 0 {
        lemma_amount_sum_nonneg(amounts.drop_last());
    }
}

proof fn lemma_weight_at_most_sum(weights: Seq<u8>, i: int)
    requires
        0 <= i < weights.len(),
    ensures
        weights[i] <= weight_sum(weights),
    decreases weights.len(),
{
    if i < weights.len() - 1 {
        lemma_weight_at_most_sum(weights.drop_last(), i);
    }
    if weights.len() > 0 {
        lemma_weight_sum_nonneg(weights.drop_last());
    }
}

proof fn lemma_weight_sum_nonneg(weights: Seq<u8>)
    ensures
        weight_sum(weights) >= 0,
    decreases weights.len(),
{
    if weights.len() > 0 {
        lemma_weight_sum_nonneg(weights.drop_last());
    }
}

/// What the destinations of a valid configuration receive out of `total`
/// adds up to at most `total`, short of it by less than their number.
proof fn lemma_forwards_total(total: u64, weights: Seq<u8>)
    requires
        weight_sum(weights) == WEIGHT_TOTAL,
    ensures
        amount_sum(forwards_of(total, weights)) == routed_total(total as int, weights),
        0 <= total - amount_sum(forwards_of(total, weights)) < weights.len(),
{
    let f = forwards_of(total, weights);
    assert forall|i: int| 0 <= i < f.len() implies f[i] == weighted_share(
        total as int,
        weights[i] as int,
    ) by {
        lemma_weight_at_most_sum(weights, i);
        let w = weights[i] as int;
        assert(total * w <= total * 100) by (nonlinear_arith)
            requires
                0 <= w <= 100,
                total >= 0,
        ;
        assert(weighted_share(total as int, w) <= total);
        assert(weighted_share(total as int, w) >= 0) by (nonlinear_arith)
            requires
                w >= 0,
                total >= 0,
        ;
    }
    lemma_route_amounts_total(total, weights, f);
    lemma_routing_residue(total, weights);
}

/// The share of each destination out of `total` under a valid set of
/// weights, and the fact that together they fall short of `total` by less
/// than the number of destinations.
fn forwards_by_weight(total: u64, weights: &Vec<u8>) -> (r: Vec<u64>)
    requires
        weight_sum(weights@) == WEIGHT_TOTAL,
    ensures
        r@ == forwards_of(total, weights@),
        amount_sum(r@) == routed_total(total as int, weights@),
        0 <= total - amount_sum(r@) < weights@.len(),
{
    proof {
        assert forall|i: int| 0 <= i < weights@.len() implies weights@[i] <= WEIGHT_TOTAL by {
            lemma_weight_at_most_sum(weights@, i);
        }
        lemma_forwards_total(total, weights@);
    }
    let forwards = route_amounts(total, weights);
    assert(forwards@ =~= forwards_of(total, weights@));
    forwards
}

/// Sums a list of amounts whose sum fits.
fn sum_amounts(amounts: &Vec<u64>) -> (r: u64)
    requires
        amount_sum(amounts@) <= u64::MAX,
    ensures
        r == amount_sum(amounts@),
{
    let mut sum: u64 = 0;
    let mut i: usize = 0;
    while i < amounts.len()
        invariant
            0 <= i <= amounts@.len(),
            amount_sum(amounts@) <= u64::MAX,
            sum == amount_sum(amounts@.take(i as int)),
        decreases amounts@.len() - i,
    {
        assert(amounts@.take(i + 1).drop_last() == amounts@.take(i as int));
        proof {
            lemma_amount_sum_prefix(amounts@, i + 1);
        }
        sum = sum + amounts[i];
        i = i + 1;
    }
    assert(amounts@.take(i as int) == amounts@);
    sum
}

/// Checks the supplied destinations against the configured ones: their
/// number (`CountMismatch`), then each address at its position
/// (`AccountMismatch`).
pub fn check_destinations(configured: &Vec<Address>, supplied: &Vec<Address>) -> (r: Result<
    (),
    ErrorCode,
>)
    ensures
        r == destinations_check(addresses_view(configured@), addresses_view(supplied@)),
{
    if supplied.len() != configured.len() {
        return Err(ErrorCode::CountMismatch);
    }
    let mut i: usize = 0;
    while i < supplied.len()
        invariant
            0 <= i <= supplied@.len(),
            supplied@.len() == configured@.len(),
            forall|j: int| 0 <= j < i ==> supplied@[j]@ == configured@[j]@,
        decreases supplied@.len() - i,
    {
        if !same_address(&supplied[i], &configured[i]) {
            assert(addresses_view(supplied@)[i as int] != addresses_view(configured@)[i as int]);
            return Err(ErrorCode::AccountMismatch);
        }
        i = i + 1;
    }
    assert(addresses_view(supplied@) =~= addresses_view(configured@));
    Ok(())
}

/// Checks every supplied account against the configuration: mint and
/// holding accounts, the destinations, and with oracle pricing the feeds.
pub fn check_accounts(state: &State, accounts: &AllocationAccounts, request: &AllocateYieldInput) -> (r:
    Result<(), ErrorCode>)
    ensures
        r == accounts_check(state@.config, accounts@, *request),
{
    let config = &state.config;
    if !same_address(&accounts.mint, &config.mint) || !same_address(
        &accounts.holding_account,
        &config.holding_account,
    ) || !same_address(&accounts.holding_token_account, &config.holding_token_account) {
        return Err(ErrorCode::AccountMismatch);
    }
    check_destinations(&config.output_yield_accounts, &accounts.output_yield_accounts)?;
    match config.pricing {
        Pricing::Fixed { .. } => Ok(()),
        Pricing::Oracle { base_feed, token_feed, .. } => match request.feeds {
            None => Err(ErrorCode::AccountMismatch),
            Some(f) => {
                if !same_address(&f.base_feed, &base_feed) || !same_address(
                    &f.token_feed,
                    &token_feed,
                ) {
                    Err(ErrorCode::AccountMismatch)
                } else {
                    Ok(())
                }
            },
        },
    }
}

/// Decides one allocation and records it in the running totals.
///
/// The threshold gate comes first (`ThresholdNotMet`), then every supplied
/// account is checked against the record, then the record must re-derive
/// from the token identifier and the control account from the record, each
/// with its stored nonce (`InvalidDerivation`),
/// then the burn amount is priced:
/// `floor(token_amount / price)` with a fixed price, or the purchase value
/// converted at the validated feed rate. The purchase value,
/// `floor(available_amount * purchase_proportion)`, goes to the holding
/// account; the remainder is split between the destinations by weight,
/// rounding each share down. On any error the record is unchanged and no
/// plan exists, so nothing is burned or moved.
pub fn allocate_yield(
    state: &mut State,
    accounts: &AllocationAccounts,
    request: &AllocateYieldInput,
) -> (r: Result<AllocationPlan, ErrorCode>)
    requires
        old(state).wf(),
    ensures
        r matches Ok(plan) ==> allocation_outcome(old(state)@, accounts@, *request) == Ok::<
            PlanView,
            ErrorCode,
        >(plan@) && final(state)@ == after_allocation(old(state)@, plan@),
        r matches Err(e) ==> allocation_outcome(old(state)@, accounts@, *request) == Err::<
            PlanView,
            ErrorCode,
        >(e) && final(state)@ == old(state)@,
{
    let gated = match state.config.pricing {
        Pricing::Fixed { .. } => request.token_amount,
        Pricing::Oracle { .. } => request.available_amount,
    };
    if gated < state.config.purchase_threshold {
        return Err(ErrorCode::ThresholdNotMet);
    }
    check_accounts(state, accounts, request)?;
    authorize_record(&accounts.control, &state.config.mint, state.bump)?;
    authorize_control_account(&accounts.control, state.control_bump)?;
    let split = split_purchase(request.available_amount, state.config.purchase_proportion);
    let burn_amount = match state.config.pricing {
        Pricing::Fixed { price } => fixed_burn_amount(request.token_amount, price)?,
        Pricing::Oracle { max_staleness, base_decimals, .. } => {
            let f = match request.feeds {
                Some(f) => f,
                None => {
                    return Err(ErrorCode::AccountMismatch);
                },
            };
            let rate = get_latest_price(&f.base, &f.token, f.now, max_staleness)?;
            token_amount_for_purchase(
                split.purchase_value,
                &rate,
                base_decimals,
                request.mint_decimals,
            )?
        },
    };
    let weights = &state.config.spend_proportions;
    let forwards = forwards_by_weight(split.remainder, weights);
    let forwarded = sum_amounts(&forwards);
    let moved = split.purchase_value + forwarded;
    let ghost plan_view = PlanView {
        burn_amount,
        purchase_value: split.purchase_value,
        forwards: forwards@,
    };
    assert(plan_total(plan_view) == moved);
    let total_spent = match state.total_spent.checked_add(moved) {
        Some(t) => t,
        None => {
            return Err(ErrorCode::CalculationFailure);
        },
    };
    let total_tokens_purchased = match state.total_tokens_purchased.checked_add(burn_amount) {
        Some(t) => t,
        None => {
            return Err(ErrorCode::CalculationFailure);
        },
    };
    state.total_spent = total_spent;
    state.total_tokens_purchased = total_tokens_purchased;
    Ok(AllocationPlan { burn_amount, purchase_value: split.purchase_value, forwards })
}

/// The record after a forward: the running total grows by what was moved.
pub open spec fn after_forward(state: StateView, forwards: Seq<u64>) -> StateView {
    StateView { total_spent: (state.total_spent + amount_sum(forwards)) as u64, ..state }
}

/// What forwarding a held balance decides: the spend threshold first
/// (`BelowThreshold`), then the supplied destinations, then the control
/// record's and the control account's derivations, then room in the running
/// total. The whole balance is split by weight.
pub open spec fn forward_outcome(
    state: StateView,
    control: ControlAccount,
    supplied: Seq<Seq<u8>>,
    held_balance: u64,
) -> Result<Seq<u64>, ErrorCode> {
    let config = state.config;
    if held_balance < config.spend_threshold {
        Err(ErrorCode::BelowThreshold)
    } else if destinations_check(config.output_yield_accounts, supplied) is Err {
        Err(destinations_check(config.output_yield_accounts, supplied)->Err_0)
    } else if !record_authorized(control, config.mint, state.bump) {
        Err(ErrorCode::InvalidDerivation)
    } else if !control_authorized(control, state.control_bump) {
        Err(ErrorCode::InvalidDerivation)
    } else {
        let forwards = forwards_of(held_balance, config.spend_proportions);
        if state.total_spent + amount_sum(forwards) > u64::MAX {
            Err(ErrorCode::CalculationFailure)
        } else {
            Ok(forwards)
        }
    }
}

/// Forwards the held balance wholesale, split by weight between the
/// configured destinations, when it reaches the spend threshold; records
/// what was moved in the running total. On any error the record is
/// unchanged.
pub fn send_fund(
    state: &mut State,
    control: &ControlAccount,
    destinations: &Vec<Address>,
    held_balance: u64,
) -> (r: Result<Vec<u64>, ErrorCode>)
    requires
        old(state).wf(),
    ensures
        r matches Ok(forwards) ==> forward_outcome(
            old(state)@,
            *control,
            addresses_view(destinations@),
            held_balance,
        ) == Ok::<Seq<u64>, ErrorCode>(forwards@) && final(state)@ == after_forward(
            old(state)@,
            forwards@,
        ),
        r matches Err(e) ==> forward_outcome(
            old(state)@,
            *control,
            addresses_view(destinations@),
            held_balance,
        ) == Err::<Seq<u64>, ErrorCode>(e) && final(state)@ == old(state)@,
{
    if held_balance < state.config.spend_threshold {
        return Err(ErrorCode::BelowThreshold);
    }
    check_destinations(&state.config.output_yield_accounts, destinations)?;
    authorize_record(control, &state.config.mint, state.bump)?;
    authorize_control_account(control, state.control_bump)?;
    let weights = &state.config.spend_proportions;
    let forwards = forwards_by_weight(held_balance, weights);
    let moved = sum_amounts(&forwards);
    match state.total_spent.checked_add(moved) {
        Some(t) => {
            state.total_spent = t;
            Ok(forwards)
        },
        None => Err(ErrorCode::CalculationFailure),
    }
}

/// Moves `amount` from one balance to another: `InsufficientFunds` when the
/// source holds less, `CalculationFailure` when the destination would
/// overflow; both balances are unchanged on error.
pub fn transfer_native(source: &mut u64, destination: &mut u64, amount: u64) -> (r: Result<
    (),
    ErrorCode,
>)
    ensures
        *old(source) < amount ==> r == Err::<(), ErrorCode>(ErrorCode::InsufficientFunds),
        *old(source) >= amount && *old(destination) + amount > u64::MAX ==> r == Err::<
            (),
            ErrorCode,
        >(ErrorCode::CalculationFailure),
        r is Ok <==> *old(source) >= amount && *old(destination) + amount <= u64::MAX,
        r is Ok ==> *final(source) == *old(source) - amount && *final(destination)
            == *old(destination) + amount,
        r is Err ==> *final(source) == *old(source) && *final(destination) == *old(destination),
{
    if *source < amount {
        return Err(ErrorCode::InsufficientFunds);
    }
    let credited = match destination.checked_add(amount) {
        Some(v) => v,
        None => {
            return Err(ErrorCode::CalculationFailure);
        },
    };
    *source = *source - amount;
    *destination = credited;
    Ok(())
}

/// Below the purchase threshold every allocation is refused with
/// `ThresholdNotMet`, and below the spend threshold every forward with
/// `BelowThreshold`, whatever else holds; a refused
/// call leaves the record unchanged and moves nothing.
pub proof fn lemma_below_threshold_refused(
    state: StateView,
    accounts: AccountsView,
    request: AllocateYieldInput,
    control: ControlAccount,
    supplied: Seq<Seq<u8>>,
    held_balance: u64,
)
    ensures
        gated_amount(state.config.pricing, request) < state.config.purchase_threshold
            ==> allocation_outcome(state, accounts, request) == Err::<PlanView, ErrorCode>(
            ErrorCode::ThresholdNotMet,
        ),
        held_balance < state.config.spend_threshold ==> forward_outcome(
            state,
            control,
            supplied,
            held_balance,
        ) == Err::<Seq<u64>, ErrorCode>(ErrorCode::BelowThreshold),
{
}

/// With oracle pricing, a reading that is stale, not confident enough, or
/// unusable aborts the whole allocation with that reading's error: no plan,
/// and so no burn amount, comes out of it.
pub proof fn lemma_feed_failure_aborts(
    state: StateView,
    accounts: AccountsView,
    request: AllocateYieldInput,
)
    requires
        gated_amount(state.config.pricing, request) >= state.config.purchase_threshold,
        accounts_check(state.config, accounts, request) is Ok,
        record_authorized(accounts.control, state.config.mint, state.bump),
        control_authorized(accounts.control, state.control_bump),
    ensures
        state.config.pricing matches Pricing::Oracle { max_staleness, .. } ==> ({
            let f = request.feeds->Some_0;
            rate_outcome(f.base, f.token, f.now, max_staleness) matches Err(e)
                ==> allocation_outcome(state, accounts, request) == Err::<PlanView, ErrorCode>(e)
        }),
{
}

/// No value is created by an allocation: the purchase value and the
/// forwarded amounts add up to at most the incoming amount, and what is left
/// behind by rounding is less than one unit per destination.
pub proof fn lemma_plan_within_balance(
    state: StateView,
    accounts: AccountsView,
    request: AllocateYieldInput,
)
    requires
        state.config.wf(),
        allocation_outcome(state, accounts, request) is Ok,
    ensures
        ({
            let plan = allocation_outcome(state, accounts, request)->Ok_0;
            &&& plan.purchase_value + (request.available_amount - plan.purchase_value)
                == request.available_amount
            &&& 0 <= request.available_amount - plan_total(plan)
                < state.config.spend_proportions.len()
        }),
{
    let config = state.config;
    let a = request.available_amount as int;
    let p = config.purchase_proportion as int;
    assert(a * p <= a * (PROPORTION_SCALE as int)) by (nonlinear_arith)
        requires
            0 <= p <= PROPORTION_SCALE,
            a >= 0,
    ;
    assert(a * p >= 0) by (nonlinear_arith)
        requires
            0 <= p,
            a >= 0,
    ;
    assert((a * (PROPORTION_SCALE as int)) / (PROPORTION_SCALE as int) == a) by (nonlinear_arith);
    vstd::arithmetic::div_mod::lemma_div_is_ordered(
        a * p,
        a * (PROPORTION_SCALE as int),
        PROPORTION_SCALE as int,
    );
    let purchase_value = purchase_share(a, p) as u64;
    let remainder = (request.available_amount - purchase_value) as u64;
    lemma_forwards_total(remainder, config.spend_proportions);
}

/// Allocating again after a successful allocation, from the balance that
/// the first one left in the control account, never moves the same value
/// twice: the first leaves less than one unit per destination, the two move
/// at most the first balance together, and the running total grows by
/// exactly what each one moved.
pub proof fn lemma_resubmission_no_double_spend(
    state: StateView,
    accounts: AccountsView,
    request: AllocateYieldInput,
)
    requires
        state.config.wf(),
        allocation_outcome(state, accounts, request) is Ok,
    ensures
        ({
            let first = allocation_outcome(state, accounts, request)->Ok_0;
            let after = after_allocation(state, first);
            let left = request.available_amount - plan_total(first);
            let again = AllocateYieldInput { available_amount: left as u64, ..request };
            &&& 0 <= left < state.config.spend_proportions.len()
            &&& after.total_spent == state.total_spent + plan_total(first)
            &&& allocation_outcome(after, accounts, again) matches Ok(second) ==> {
                &&& plan_total(first) + plan_total(second) <= request.available_amount
                &&& after_allocation(after, second).total_spent == state.total_spent
                    + plan_total(first) + plan_total(second)
            }
        }),
{
    lemma_plan_within_balance(state, accounts, request);
    let first = allocation_outcome(state, accounts, request)->Ok_0;
    let after = after_allocation(state, first);
    let left = request.available_amount - plan_total(first);
    let again = AllocateYieldInput { available_amount: left as u64, ..request };
    lemma_amount_sum_nonneg(first.forwards);
    assert(again.available_amount == left);
    if allocation_outcome(after, accounts, again) is Ok {
        lemma_plan_within_balance(after, accounts, again);
        lemma_amount_sum_nonneg(allocation_outcome(after, accounts, again)->Ok_0.forwards);
    }
}

} // verus!
