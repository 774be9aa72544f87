//! The outside programs that certificate transfers are sent to, by address.
use vstd::prelude::*;
use crate::address::{Address, same_address};
use crate::errors::ErrorCode;

verus! {

/// Address of the compressed-NFT program.
pub const MPL_BUBBLEGUM_ID: Address = [
    152, 139, 128, 235, 121, 53, 40, 105, 178, 36, 116, 95, 89, 221, 191, 138, 38, 88, 202, 19, 220,
    104, 129, 33, 38, 53, 28, 174, 7, 193, 165, 165,
];

/// Address of the account-compression program.
pub const SPL_ACCOUNT_COMPRESSION_ID: Address = [
    9, 42, 19, 238, 149, 196, 28, 186, 8, 166, 127, 90, 198, 126, 141, 247, 225, 218, 17, 98, 94, 29,
    100, 19, 127, 143, 79, 35, 131, 3, 127, 20,
];

/// The compressed-NFT program.
#[derive(Debug, Clone, Copy)]
pub struct MplBubblegum;

/// The account-compression program.
#[derive(Debug, Clone, Copy)]
pub struct SplAccountCompression;

impl MplBubblegum {
    /// The program's address.
    pub fn id() -> (r: Address)
        ensures
            r == MPL_BUBBLEGUM_ID,
    {
        MPL_BUBBLEGUM_ID
    }

    /// Accepts a supplied program account only at the program's address.
    pub fn check(supplied: &Address) -> (r: Result<(), ErrorCode>)
        ensures
            r is Ok <==> supplied@ == MPL_BUBBLEGUM_ID@,
            r is Err ==> r == Err::<(), ErrorCode>(ErrorCode::AccountMismatch),
    {
        let id = Self::id();
        if same_address(supplied, &id) {
            Ok(())
        } else {
            Err(ErrorCode::AccountMismatch)
        }
    }
}

impl SplAccountCompression {
    /// The program's address.
    pub fn id() -> (r: Address)
        ensures
            r == SPL_ACCOUNT_COMPRESSION_ID,
    {
        SPL_ACCOUNT_COMPRESSION_ID
    }

    /// Accepts a supplied program account only at the program's address.
    pub fn check(supplied: &Address) -> (r: Result<(), ErrorCode>)
        ensures
            r is Ok <==> supplied@ == SPL_ACCOUNT_COMPRESSION_ID@,
            r is Err ==> r == Err::<(), ErrorCode>(ErrorCode::AccountMismatch),
    {
        let id = Self::id();
        if same_address(supplied, &id) {
            Ok(())
        } else {
            Err(ErrorCode::AccountMismatch)
        }
    }
}

} // verus!
