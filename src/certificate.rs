//! Certificate bookkeeping: what moves into the certificate vault, and the
//! instruction data that transfers one compressed certificate.
use vstd::prelude::*;
use crate::address::{Address, same_address};
use crate::errors::ErrorCode;
use crate::state::State;

verus! {

/// The `n` low bytes of `x`, least significant first.
pub open spec fn le_bytes(x: nat, n: nat) -> Seq<u8>
    decreases n,
{
    if n == 0 {
        seq![]
    } else {
        seq![(x % 256) as u8] + le_bytes(x / 256, (n - 1) as nat)
    }
}

/// The instruction data of a compressed-certificate transfer: the
/// instruction's discriminator, the tree root, the data and creator hashes,
/// then the leaf nonce (eight bytes) and index (four bytes), little-endian.
pub open spec fn transfer_data(
    discriminator: Seq<u8>,
    root: Seq<u8>,
    data_hash: Seq<u8>,
    creator_hash: Seq<u8>,
    nonce: u64,
    index: u32,
) -> Seq<u8> {
    discriminator + root + data_hash + creator_hash + le_bytes(nonce as nat, 8) + le_bytes(
        index as nat,
        4,
    )
}

/// Accepts a supplied certificate vault only when it is the configured one;
/// `AccountMismatch` otherwise.
pub fn check_certificate_vault(state: &State, vault: &Address) -> (r: Result<(), ErrorCode>)
    ensures
        r is Ok <==> vault@ == state@.config.certificate_vault,
        r is Err ==> r == Err::<(), ErrorCode>(ErrorCode::AccountMismatch),
{
    if same_address(vault, &state.config.certificate_vault) {
        Ok(())
    } else {
        Err(ErrorCode::AccountMismatch)
    }
}

/// The amount of certificate tokens to move into the vault: all that is
/// held. `AccountMismatch` when the supplied vault is not the configured
/// one, then `NoCertificatesFound` when nothing is held.
pub fn store_certificates(state: &State, vault: &Address, held_amount: u64) -> (r: Result<
    u64,
    ErrorCode,
>)
    ensures
        vault@ != state@.config.certificate_vault ==> r == Err::<u64, ErrorCode>(
            ErrorCode::AccountMismatch,
        ),
        vault@ == state@.config.certificate_vault && held_amount == 0 ==> r == Err::<
            u64,
            ErrorCode,
        >(ErrorCode::NoCertificatesFound),
        vault@ == state@.config.certificate_vault && held_amount > 0 ==> r == Ok::<u64, ErrorCode>(
            held_amount,
        ),
{
    check_certificate_vault(state, vault)?;
    if held_amount == 0 {
        return Err(ErrorCode::NoCertificatesFound);
    }
    Ok(held_amount)
}

/// Appends `bytes` to `out`.
fn append_bytes(out: &mut Vec<u8>, bytes: &[u8])
    ensures
        final(out)@ == old(out)@ + bytes@,
{
    let mut i: usize = 0;
    while i < bytes.len()
        invariant
            0 <= i <= bytes@.len(),
            out@ == old(out)@ + bytes@.take(i as int),
        decreases bytes@.len() - i,
    {
        out.push(bytes[i]);
        i = i + 1;
        assert(out@ =~= old(out)@ + bytes@.take(i as int));
    }
    assert(bytes@.take(i as int) =~= bytes@);
}

/// Appends the `n` low bytes of `x`, least significant first.
fn append_le(out: &mut Vec<u8>, x: u64, n: u8)
    ensures
        final(out)@ == old(out)@ + le_bytes(x as nat, n as nat),
{
    let mut rest: u64 = x;
    let mut i: u8 = 0;
    while i < n
        invariant
            0 <= i <= n,
            out@ + le_bytes(rest as nat, (n - i) as nat) == old(out)@ + le_bytes(x as nat, n as nat),
        decreases n - i,
    {
        let ghost before = out@;
        assert(le_bytes(rest as nat, (n - i) as nat) == seq![(rest % 256) as u8] + le_bytes(
            (rest / 256) as nat,
            (n - i - 1) as nat,
        ));
        out.push((rest % 256) as u8);
        rest = rest / 256;
        i = i + 1;
        assert(before + (seq![(out@.last())] + le_bytes(rest as nat, (n - i) as nat)) =~= out@
            + le_bytes(rest as nat, (n - i) as nat));
    }
    assert(le_bytes(rest as nat, 0) =~= Seq::<u8>::empty());
    assert(out@ + Seq::<u8>::empty() =~= out@);
}

/// Builds the instruction data that transfers one compressed certificate
/// into the vault.
pub fn cnft_transfer_data(
    discriminator: &[u8; 8],
    root: &[u8; 32],
    data_hash: &[u8; 32],
    creator_hash: &[u8; 32],
    nonce: u64,
    index: u32,
) -> (r: Vec<u8>)
    ensures
        r@ == transfer_data(discriminator@, root@, data_hash@, creator_hash@, nonce, index),
{
    let mut data: Vec<u8> = Vec::new();
    append_bytes(&mut data, discriminator.as_slice());
    append_bytes(&mut data, root.as_slice());
    append_bytes(&mut data, data_hash.as_slice());
    append_bytes(&mut data, creator_hash.as_slice());
    append_le(&mut data, nonce, 8);
    append_le(&mut data, index as u64, 4);
    assert(data@ =~= transfer_data(discriminator@, root@, data_hash@, creator_hash@, nonce, index));
    data
}

} // verus!
