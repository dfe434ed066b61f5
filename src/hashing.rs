use vstd::prelude::*;

use crate::digest::{is_canonical, Digest};
use monerochan_stark::{inner_perm, InnerCompress};
use p3_baby_bear::BabyBear;
use p3_field::{AbstractField, PrimeField32};
use p3_symmetric::PseudoCompressionFunction;

verus! {

/// SHA-256 of a byte string.
pub uninterp spec fn sha256_of(data: Seq<u8>) -> Seq<u8>;

/// BLAKE3 of a byte string.
pub uninterp spec fn blake3_of(data: Seq<u8>) -> Seq<u8>;

/// The public-values input of the outer SNARK circuits: the SHA-256 digest of the public values
/// with its top three bits cleared, read as a big-endian integer and written in decimal.
pub uninterp spec fn bn254_input_of(public_values: Seq<u8>) -> Seq<char>;

/// The two-to-one Poseidon2 compression of two digests over BabyBear.
pub uninterp spec fn poseidon2_compress_of(left: [u32; 8], right: [u32; 8]) -> [u32; 8];

/// Relies on `monerochan_primitives::io::sha256_hash`: the SHA-256 digest of `data`, 32 bytes.
#[verifier::external_body]
pub(crate) fn sha256_hash(data: &[u8]) -> (r: Vec<u8>)
    ensures
        r@ == sha256_of(data@),
        r@.len() == 32,
{
    monerochan_primitives::io::sha256_hash(data)
}

/// Relies on `monerochan_primitives::io::blake3_hash`: the BLAKE3 digest of `data`, 32 bytes.
#[verifier::external_body]
pub(crate) fn blake3_hash(data: &[u8]) -> (r: Vec<u8>)
    ensures
        r@ == blake3_of(data@),
        r@.len() == 32,
{
    monerochan_primitives::io::blake3_hash(data)
}

/// Relies on the truncated Poseidon2 permutation of `monerochan_stark` (`InnerCompress` built
/// from `inner_perm`): the entries are read into BabyBear, and the result is read back out as
/// canonical values.
#[verifier::external_body]
pub(crate) fn compress_pair(left: &Digest, right: &Digest) -> (r: Digest)
    ensures
        r == poseidon2_compress_of(*left, *right),
        is_canonical(r),
{
    let l = left.map(BabyBear::from_wrapped_u32);
    let r = right.map(BabyBear::from_wrapped_u32);
    let out = InnerCompress::new(inner_perm()).compress([l, r]);
    out.map(|x| x.as_canonical_u32())
}

/// Relies on `monerochan_primitives::io::MONEROCHANPublicValues::hash_bn254`, written out by
/// `BigUint`'s decimal `to_string`.
#[verifier::external_body]
pub(crate) fn bn254_public_values_input(public_values: &[u8]) -> (r: String)
    ensures
        r@ == bn254_input_of(public_values@),
{
    monerochan_primitives::io::MONEROCHANPublicValues::from(public_values).hash_bn254().to_string()
}

} // verus!
