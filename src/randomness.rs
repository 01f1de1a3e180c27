use parity_scale_codec::Encode;
use vstd::arithmetic::power::pow;
use vstd::prelude::*;

verus! {

/// What the host hands over for one command as a source of entropy.
#[derive(Clone, Copy, PartialEq, Eq, Debug)]
pub struct Entropy {
    /// The randomness seed of the current block.
    pub random_seed: [u8; 32],
    /// The position of the command in its block, where the host knows it.
    pub extrinsic_index: Option<u32>,
}

/// The `n` little-endian bytes of `x`.
pub open spec fn le_bytes(x: nat, n: nat) -> Seq<u8> {
    Seq::new(n, |i: int| ((x as int / pow(256, i as nat)) % 256) as u8)
}

/// SCALE encoding of an optional `u32`: a tag byte, then the value if any.
pub open spec fn option_u32_bytes(o: Option<u32>) -> Seq<u8> {
    match o {
        Some(v) => seq![1u8] + le_bytes(v as nat, 4),
        None => seq![0u8],
    }
}

/// SCALE encoding of the tuple (seed, sender, extrinsic index): the fields
/// one after the other, the seed as raw bytes.
pub open spec fn seed_payload(seed: Seq<u8>, sender: u64, extrinsic_index: Option<u32>) -> Seq<u8> {
    seed + le_bytes(sender as nat, 8) + option_u32_bytes(extrinsic_index)
}

/// The 128-bit Blake2b digest of `data`.
pub uninterp spec fn blake2_128_of(data: Seq<u8>) -> Seq<u8>;

/// Relies on `parity_scale_codec::Encode` for a tuple of a byte array, a
/// `u64` and an `Option<u32>`: fields concatenated, arrays without a length
/// prefix, integers little-endian, an option as a 0/1 tag then its value.
#[verifier::external_body]
fn encode_seed_payload(seed: &[u8; 32], sender: u64, extrinsic_index: Option<u32>) -> (r: Vec<u8>)
    ensures
        r@ == seed_payload(seed@, sender, extrinsic_index),
{
    (*seed, sender, extrinsic_index).encode()
}

/// Relies on `sp_io::hashing::blake2_128`: a 16-byte digest that depends on
/// the input bytes alone.
#[verifier::external_body]
fn blake2_128(data: &[u8]) -> (r: [u8; 16])
    ensures
        r@ == blake2_128_of(data@),
{
    sp_io::hashing::blake2_128(data)
}

/// Sixteen pseudo-random bytes for `sender`: the Blake2-128 digest of the
/// encoded (seed, sender, extrinsic index).
pub fn random_value(entropy: &Entropy, sender: u64) -> (r: [u8; 16])
    ensures
        r@ == blake2_128_of(seed_payload(entropy.random_seed@, sender, entropy.extrinsic_index)),
{
    let payload = encode_seed_payload(&entropy.random_seed, sender, entropy.extrinsic_index);
    blake2_128(payload.as_slice())
}

} // verus!
