//! The host's byte strings of fixed length.

use soroban_sdk::{BytesN, Env};
use vstd::prelude::*;

verus! {

/// The handle to the host: a value that is only passed on.
#[verifier::external_type_specification]
#[verifier::external_body]
pub struct ExEnv(soroban_sdk::Env);

/// A byte string of fixed length that the host keeps.
#[verifier::external_type_specification]
#[verifier::external_body]
pub struct ExBytesN<const N: usize>(soroban_sdk::BytesN<N>);

/// The bytes that a byte string of the host holds.
pub uninterp spec fn bytes_of(bytes: BytesN<32>) -> Seq<u8>;

/// `soroban_sdk::BytesN::from_array` gives a byte string that holds the bytes of the array.
/// Nothing is said of a host whose budget is used up: it stops the caller.
#[verifier::external_body]
pub(crate) fn from_array(env: &Env, items: &[u8; 32]) -> (bytes: BytesN<32>)
    ensures
        bytes_of(bytes) == items@,
{
    BytesN::from_array(env, items)
}

/// `soroban_sdk::BytesN::to_array` gives the bytes that the byte string holds. Nothing is said
/// of a host whose budget is used up: it stops the caller.
#[verifier::external_body]
pub(crate) fn to_array(bytes: &BytesN<32>) -> (items: [u8; 32])
    ensures
        items@ == bytes_of(*bytes),
{
    bytes.to_array()
}

/// The placeholder for the hash of a project's metadata: 32 bytes, each of them 7.
pub fn test_metadata_hash(env: &Env) -> (hash: BytesN<32>)
    ensures
        bytes_of(hash) == Seq::new(32, |i: int| 7u8),
{
    let items: [u8; 32] = [7u8; 32];
    let hash = from_array(env, &items);
    assert(bytes_of(hash) =~= Seq::new(32, |i: int| 7u8));
    hash
}

} // verus!
