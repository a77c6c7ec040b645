//! Where fresh genomes come from: the host's seed, the caller and the index of
//! the running extrinsic are laid out as bytes and hashed down to sixteen.

use crate::types::{AccountId, BlockNumber};
use vstd::prelude::*;

verus! {

/// The `width` low bytes of `value`, least significant byte first.
pub open spec fn le_bytes(value: nat, width: nat) -> Seq<u8>
    decreases width,
{
    if width == 0 {
        Seq::empty()
    } else {
        seq![(value % 256) as u8] + le_bytes(value / 256, (width - 1) as nat)
    }
}

/// An optional index as bytes: a single zero when there is none, otherwise a
/// one followed by the four bytes of the index.
pub open spec fn index_bytes(index: Option<u32>) -> Seq<u8> {
    match index {
        None => seq![0u8],
        Some(i) => seq![1u8] + le_bytes(i as nat, 4),
    }
}

/// The bytes that are hashed for a genome: the seed, the block it was known
/// since, the caller, and the index of the running extrinsic, one after another.
pub open spec fn payload_spec(
    seed: Seq<u8>,
    since: BlockNumber,
    sender: AccountId,
    index: Option<u32>,
) -> Seq<u8> {
    seed + le_bytes(since as nat, 8) + le_bytes(sender as nat, 8) + index_bytes(index)
}

/// The 128-bit BLAKE2b digest of a byte string.
pub uninterp spec fn blake2_128_digest(data: Seq<u8>) -> Seq<u8>;

/// The genome drawn for `sender` from the given seed and extrinsic index.
pub open spec fn random_value_spec(
    seed: Seq<u8>,
    since: BlockNumber,
    sender: AccountId,
    index: Option<u32>,
) -> Seq<u8> {
    blake2_128_digest(payload_spec(seed, since, sender, index))
}

/// Calls `Encode::encode` of `parity-scale-codec`, as `frame_support` hands it
/// on, for the tuple `((seed, since), &sender, index)`. The contract claims the
/// SCALE layout of that tuple: the fields one after another, a byte array as
/// it is, an integer in little-endian order at its full width, and an option
/// as a marker byte followed by its content if it has any.
#[verifier::external_body]
fn encode_payload(seed: &[u8; 32], since: BlockNumber, sender: AccountId, index: Option<u32>) -> (bytes:
    Vec<u8>)
    ensures
        bytes@ == payload_spec(seed@, since, sender, index),
{
    frame_support::pallet_prelude::Encode::encode(&((*seed, since), &sender, index))
}

/// Calls `sp_io::hashing::blake2_128`. The contract claims only that the
/// sixteen bytes returned are the digest of the bytes given.
#[verifier::external_body]
fn blake2_128(data: &[u8]) -> (digest: [u8; 16])
    ensures
        digest@ == blake2_128_digest(data@),
{
    sp_io::hashing::blake2_128(data)
}

/// Lays out what is hashed for a genome.
pub fn payload(seed: &[u8; 32], since: BlockNumber, sender: AccountId, index: Option<u32>) -> (bytes:
    Vec<u8>)
    ensures
        bytes@ == payload_spec(seed@, since, sender, index),
        bytes@.len() == if index is Some { 53nat } else { 49nat },
{
    proof {
        lemma_le_bytes_len(since as nat, 8);
        lemma_le_bytes_len(sender as nat, 8);
        if let Some(i) = index {
            lemma_le_bytes_len(i as nat, 4);
        }
    }
    encode_payload(seed, since, sender, index)
}

/// Draws a genome: hashes the seed, the caller and the extrinsic index.
pub fn random_value(seed: &[u8; 32], since: BlockNumber, sender: AccountId, index: Option<u32>) -> (dna:
    [u8; 16])
    ensures
        dna@ == random_value_spec(seed@, since, sender, index),
{
    let bytes = payload(seed, since, sender, index);
    blake2_128(bytes.as_slice())
}

/// `le_bytes` gives exactly as many bytes as asked for.
pub proof fn lemma_le_bytes_len(value: nat, width: nat)
    ensures
        le_bytes(value, width).len() == width,
    decreases width,
{
    if width > 0 {
        lemma_le_bytes_len(value / 256, (width - 1) as nat);
    }
}

} // verus!
