//! Keyless control addresses: derived from a domain tag, context bytes and a
//! one-byte nonce, with no private key behind them, so that only the program
//! that can re-present those seeds may move value out of them.
use vstd::prelude::*;
use solana_program::pubkey::Pubkey;
use crate::errors::ErrorCode;

verus! {

/// A ledger address as its 32 bytes.
pub type Address = [u8; 32];

/// The most seeds a derivation takes, the nonce included.
pub const MAX_SEEDS: usize = 16;

/// The longest seed a derivation takes, in bytes.
pub const MAX_SEED_LEN: usize = 32;

/// The address that `Pubkey::create_program_address` gives for `seeds` under
/// `program_id`, or `None` where it gives an error.
pub uninterp spec fn program_address(seeds: Seq<Seq<u8>>, program_id: Seq<u8>) -> Option<Seq<u8>>;

/// The seeds of a control address: the tag, the context, then the nonce.
pub open spec fn control_seeds(tag: Seq<u8>, context: Seq<Seq<u8>>, nonce: u8) -> Seq<Seq<u8>> {
    seq![tag] + context + seq![seq![nonce]]
}

/// The control address for a tag, context and nonce, if those seeds give one.
pub open spec fn control_address(
    tag: Seq<u8>,
    context: Seq<Seq<u8>>,
    nonce: u8,
    program_id: Seq<u8>,
) -> Option<Seq<u8>> {
    program_address(control_seeds(tag, context, nonce), program_id)
}

/// Tag and context leave room for the nonce within the seed limits.
pub open spec fn seeds_within_limits(tag: Seq<u8>, context: Seq<Seq<u8>>) -> bool {
    &&& context.len() + 2 <= MAX_SEEDS
    &&& tag.len() <= MAX_SEED_LEN
    &&& forall|i: int| 0 <= i < context.len() ==> #[trigger] context[i].len() <= MAX_SEED_LEN
}

/// `nonce` is the first that gives an address when probing from 255 down.
pub open spec fn is_first_nonce(
    tag: Seq<u8>,
    context: Seq<Seq<u8>>,
    nonce: u8,
    program_id: Seq<u8>,
) -> bool {
    &&& 1 <= nonce
    &&& control_address(tag, context, nonce, program_id) is Some
    &&& forall|c: u8| nonce < c ==> #[trigger] control_address(tag, context, c, program_id) is None
}

/// Some nonce from 1 to 255 gives an address.
pub open spec fn has_viable_nonce(tag: Seq<u8>, context: Seq<Seq<u8>>, program_id: Seq<u8>) -> bool {
    exists|c: u8| 1 <= c && (#[trigger] control_address(tag, context, c, program_id)) is Some
}

/// Relies on `Pubkey::create_program_address`: the seeds are the tag, the
/// context and the nonce, in that order; an error becomes `None`.
#[verifier::external_body]
fn create_address(tag: &[u8], context: &Vec<Vec<u8>>, nonce: u8, program_id: &Address) -> (r:
    Option<Address>)
    ensures
        r matches Some(a) ==> program_address(
            control_seeds(tag@, context.deep_view(), nonce),
            program_id@,
        ) == Some(a@),
        r is None ==> program_address(
            control_seeds(tag@, context.deep_view(), nonce),
            program_id@,
        ) is None,
{
    let nonce_seed = [nonce];
    let mut seeds: Vec<&[u8]> = vec![tag];
    seeds.extend(context.iter().map(|c| c.as_slice()));
    seeds.push(&nonce_seed);
    Pubkey::create_program_address(&seeds, &Pubkey::new_from_array(*program_id)).ok().map(
        |p| p.to_bytes(),
    )
}

/// Relies on `Pubkey::try_find_program_address`, which calls
/// `create_program_address` on the seeds followed by a nonce, for the nonces
/// 255 down to 1, and returns the first address given; within the seed
/// limits every refusal is for a point on the curve, so `None` means that no
/// nonce gave one.
#[verifier::external_body]
fn find_address(tag: &[u8], context: &Vec<Vec<u8>>, program_id: &Address) -> (r: Option<
    (Address, u8),
>)
    requires
        seeds_within_limits(tag@, context.deep_view()),
    ensures
        r matches Some((a, nonce)) ==> is_first_nonce(tag@, context.deep_view(), nonce, program_id@)
            && control_address(tag@, context.deep_view(), nonce, program_id@) == Some(a@),
        r is None ==> !has_viable_nonce(tag@, context.deep_view(), program_id@),
{
    let mut seeds: Vec<&[u8]> = vec![tag];
    seeds.extend(context.iter().map(|c| c.as_slice()));
    Pubkey::try_find_program_address(&seeds, &Pubkey::new_from_array(*program_id)).map(
        |(p, nonce)| (p.to_bytes(), nonce),
    )
}

/// Checks the seed limits on tag and context.
fn check_seed_limits(tag: &[u8], context: &Vec<Vec<u8>>) -> (r: bool)
    ensures
        r == seeds_within_limits(tag@, context.deep_view()),
{
    if context.len() > MAX_SEEDS - 2 || tag.len() > MAX_SEED_LEN {
        return false;
    }
    let mut i: usize = 0;
    while i < context.len()
        invariant
            0 <= i <= context@.len(),
            forall|j: int| 0 <= j < i ==> #[trigger] context.deep_view()[j].len() <= MAX_SEED_LEN,
        decreases context@.len() - i,
    {
        if context[i].len() > MAX_SEED_LEN {
            assert(context.deep_view()[i as int].len() > MAX_SEED_LEN);
            return false;
        }
        i = i + 1;
    }
    true
}

/// Derives the control address for `tag` and `context` under `program_id`,
/// with the first nonce from 255 down that gives an address. Seeds over the
/// limits, or no viable nonce, give `InvalidDerivation`.
pub fn derive_control_address(tag: &[u8], context: &Vec<Vec<u8>>, program_id: &Address) -> (r:
    Result<(Address, u8), ErrorCode>)
    ensures
        r is Ok <==> seeds_within_limits(tag@, context.deep_view()) && has_viable_nonce(
            tag@,
            context.deep_view(),
            program_id@,
        ),
        r matches Ok((a, nonce)) ==> is_first_nonce(tag@, context.deep_view(), nonce, program_id@)
            && control_address(tag@, context.deep_view(), nonce, program_id@) == Some(a@),
        r is Err ==> r == Err::<(Address, u8), ErrorCode>(ErrorCode::InvalidDerivation),
{
    if !check_seed_limits(tag, context) {
        return Err(ErrorCode::InvalidDerivation);
    }
    match find_address(tag, context, program_id) {
        Some((address, nonce)) => Ok((address, nonce)),
        None => Err(ErrorCode::InvalidDerivation),
    }
}

/// Re-derives the control address from the stored nonce; succeeds exactly
/// when it is `address`. This is the proof of authority that the program
/// presents in place of a signature.
pub fn authorize_control_address(
    address: &Address,
    tag: &[u8],
    context: &Vec<Vec<u8>>,
    nonce: u8,
    program_id: &Address,
) -> (r: Result<(), ErrorCode>)
    ensures
        r is Ok <==> control_address(tag@, context.deep_view(), nonce, program_id@) == Some(
            address@,
        ),
        r is Err ==> r == Err::<(), ErrorCode>(ErrorCode::InvalidDerivation),
{
    match create_address(tag, context, nonce, program_id) {
        Some(derived) => {
            if same_address(&derived, address) {
                Ok(())
            } else {
                Err(ErrorCode::InvalidDerivation)
            }
        },
        None => Err(ErrorCode::InvalidDerivation),
    }
}

/// Re-derives the address for a tag, context and nonce.
pub fn control_address_with_nonce(
    tag: &[u8],
    context: &Vec<Vec<u8>>,
    nonce: u8,
    program_id: &Address,
) -> (r: Result<Address, ErrorCode>)
    ensures
        r matches Ok(a) ==> control_address(tag@, context.deep_view(), nonce, program_id@) == Some(
            a@,
        ),
        r is Err <==> control_address(tag@, context.deep_view(), nonce, program_id@) is None,
        r is Err ==> r == Err::<Address, ErrorCode>(ErrorCode::InvalidDerivation),
{
    match create_address(tag, context, nonce, program_id) {
        Some(a) => Ok(a),
        None => Err(ErrorCode::InvalidDerivation),
    }
}

/// Domain tag of a configuration record's own address: the bytes of `state`.
pub const STATE_TAG: [u8; 5] = [115, 116, 97, 116, 101];

/// The context of a derivation from a single address.
pub fn address_context(address: &Address) -> (r: Vec<Vec<u8>>)
    ensures
        r.deep_view() == seq![address@],
{
    let bytes = vstd::slice::slice_to_vec(address.as_slice());
    let context: Vec<Vec<u8>> = vec![bytes];
    assert(context.deep_view() =~~= seq![address@]);
    context
}

/// Domain tag of the control account that holds a record's incoming value:
/// the bytes of `yield_account`.
pub const CONTROL_TAG: [u8; 13] = [121, 105, 101, 108, 100, 95, 97, 99, 99, 111, 117, 110, 116];

/// A control account as supplied to an operation: the configuration
/// record it belongs to, its own address, and the program that owns both.
#[derive(Debug, Clone, Copy)]
pub struct ControlAccount {
    pub record_address: Address,
    pub address: Address,
    pub program_id: Address,
}

/// The control account re-derives from its record with `nonce`.
pub open spec fn control_authorized(control: ControlAccount, nonce: u8) -> bool {
    control_address(CONTROL_TAG@, seq![control.record_address@], nonce, control.program_id@)
        == Some(control.address@)
}

/// Checks that a control account is the one derived from its record with
/// the stored nonce; `InvalidDerivation` otherwise.
pub fn authorize_control_account(control: &ControlAccount, nonce: u8) -> (r: Result<(), ErrorCode>)
    ensures
        r is Ok <==> control_authorized(*control, nonce),
        r is Err ==> r == Err::<(), ErrorCode>(ErrorCode::InvalidDerivation),
{
    let context = address_context(&control.record_address);
    authorize_control_address(
        &control.address,
        CONTROL_TAG.as_slice(),
        &context,
        nonce,
        &control.program_id,
    )
}

/// The control account's record re-derives from the token identifier `mint`
/// with the record's stored nonce `bump`.
pub open spec fn record_authorized(control: ControlAccount, mint: Seq<u8>, bump: u8) -> bool {
    control_address(STATE_TAG@, seq![mint], bump, control.program_id@) == Some(
        control.record_address@,
    )
}

/// Checks that the record a control account belongs to is the one derived
/// from `mint` with the stored nonce; `InvalidDerivation` otherwise.
pub fn authorize_record(control: &ControlAccount, mint: &Address, bump: u8) -> (r: Result<
    (),
    ErrorCode,
>)
    ensures
        r is Ok <==> record_authorized(*control, mint@, bump),
        r is Err ==> r == Err::<(), ErrorCode>(ErrorCode::InvalidDerivation),
{
    let context = address_context(mint);
    authorize_control_address(
        &control.record_address,
        STATE_TAG.as_slice(),
        &context,
        bump,
        &control.program_id,
    )
}

/// Byte-wise comparison of two addresses.
pub fn same_address(a: &Address, b: &Address) -> (r: bool)
    ensures
        r == (a@ == b@),
{
    let mut i: usize = 0;
    while i < 32
        invariant
            0 <= i <= 32,
            a@.len() == 32,
            b@.len() == 32,
            forall|j: int| 0 <= j < i ==> a@[j] == b@[j],
        decreases 32 - i,
    {
        if a[i] != b[i] {
            return false;
        }
        i = i + 1;
    }
    assert(a@ =~= b@);
    true
}

/// Deriving twice from the same tag and context gives the same address and
/// the same nonce: the outcome of derivation depends on those values alone.
pub proof fn lemma_derivation_idempotent(
    tag: Seq<u8>,
    context: Seq<Seq<u8>>,
    program_id: Seq<u8>,
    first: (Seq<u8>, u8),
    second: (Seq<u8>, u8),
)
    requires
        is_first_nonce(tag, context, first.1, program_id),
        control_address(tag, context, first.1, program_id) == Some(first.0),
        is_first_nonce(tag, context, second.1, program_id),
        control_address(tag, context, second.1, program_id) == Some(second.0),
    ensures
        first == second,
{
    if first.1 < second.1 {
        assert(control_address(tag, context, second.1, program_id) is None);
    }
    if second.1 < first.1 {
        assert(control_address(tag, context, first.1, program_id) is None);
    }
}

} // verus!
