//! Binding a proven identity handle to an account identifier.
use crate::error::CoreError;
use crate::hexcode::{encode_hex, hex_encode};
use crate::merkle::{sha256, sha256_of};
use vstd::prelude::*;

verus! {

/// The account identifier of an identity handle: the lowercase hexadecimal
/// text of the SHA-256 digest of its bytes.
pub open spec fn account_hash_of(handle: Seq<u8>) -> Seq<char> {
    hex_encode(sha256_of(handle))
}

/// Derives the account identifier of an identity handle.
pub fn derive_account_hash(handle: &[u8]) -> (r: String)
    ensures
        r@ == account_hash_of(handle@),
{
    let digest = sha256(handle);
    encode_hex(digest.as_slice())
}

/// Succeeds exactly when `claimed_account_hash` is the account identifier of
/// `handle`, compared character by character; fails with `AccountMismatch`
/// otherwise.
pub fn bind(handle: &[u8], claimed_account_hash: &String) -> (r: Result<(), CoreError>)
    ensures
        r is Ok <==> claimed_account_hash@ == account_hash_of(handle@),
        r is Err ==> r == Err::<(), CoreError>(CoreError::AccountMismatch),
{
    let derived = derive_account_hash(handle);
    if derived == *claimed_account_hash {
        Ok(())
    } else {
        Err(CoreError::AccountMismatch)
    }
}

} // verus!
