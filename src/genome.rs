use parity_scale_codec::Encode;
use vstd::prelude::*;

verus! {

/// Bit `i` (0 = least significant) of a byte.
pub open spec fn bit_of(b: u8, i: u8) -> bool {
    (b >> i) & 1u8 == 1u8
}

/// Mixes two genome bytes: each bit comes from `dna1` where `selector` has a
/// one bit, and from `dna2` where it has a zero bit.
pub fn combine_dna(dna1: u8, dna2: u8, selector: u8) -> (r: u8)
    ensures
        r == (selector & dna1) | (!selector & dna2),
        forall|i: u8| #![auto] i < 8 ==> bit_of(r, i) == if bit_of(selector, i) {
            bit_of(dna1, i)
        } else {
            bit_of(dna2, i)
        },
{
    let r = (selector & dna1) | (!selector & dna2);
    assert(forall|i: u8| #![auto] i < 8 ==> bit_of(r, i) == if bit_of(selector, i) {
        bit_of(dna1, i)
    } else {
        bit_of(dna2, i)
    }) by (bit_vector)
        requires
            r == (selector & dna1) | (!selector & dna2),
    ;
    r
}

/// The child genome of genomes `a` and `b` under selector mask `s`: each bit
/// from `a` where `s` has a one bit, else from `b`.
pub open spec fn combined(a: Seq<u8>, b: Seq<u8>, s: Seq<u8>) -> Seq<u8> {
    Seq::new(16, |i: int| (s[i] & a[i]) | (!s[i] & b[i]))
}

/// Mixes two 16-byte genomes position by position with `combine_dna`.
pub fn combine_genomes(a: &[u8; 16], b: &[u8; 16], s: &[u8; 16]) -> (r: [u8; 16])
    ensures
        r@ == combined(a@, b@, s@),
{
    let mut r: [u8; 16] = [0u8; 16];
    let mut i: usize = 0;
    while i < 16
        invariant
            i <= 16,
            r@.len() == 16,
            forall|j: int| 0 <= j < i ==> r@[j] == (s@[j] & a@[j]) | (!s@[j] & b@[j]),
        decreases 16 - i,
    {
        let v = combine_dna(a[i], b[i], s[i]);
        r[i] = v;
        i = i + 1;
    }
    assert(r@ =~= combined(a@, b@, s@));
    r
}

/// `x` as `n` bytes, least significant first.
pub open spec fn le_bytes(x: nat, n: nat) -> Seq<u8>
    decreases n,
{
    if n == 0 {
        Seq::empty()
    } else {
        seq![(x % 256) as u8] + le_bytes(x / 256, (n - 1) as nat)
    }
}

/// The SCALE encoding of an optional `u32`: a zero byte, or a one byte and
/// the value's four little-endian bytes.
pub open spec fn option_u32_bytes(v: Option<u32>) -> Seq<u8> {
    match v {
        Some(x) => seq![1u8] + le_bytes(x as nat, 4),
        None => seq![0u8],
    }
}

/// The bytes hashed into a genome: the random seed, the account and the index
/// of the call within its block, SCALE encoded as a tuple.
pub open spec fn seed_payload(seed: Seq<u8>, who: u64, extrinsic_index: Option<u32>) -> Seq<u8> {
    seed + le_bytes(who as nat, 8) + option_u32_bytes(extrinsic_index)
}

/// The BLAKE2b-128 digest of `data`.
pub uninterp spec fn blake2_128_of(data: Seq<u8>) -> Seq<u8>;

/// Relies on parity-scale-codec's `Encode` for a tuple: the fields one after
/// another; a byte array as its bytes, a `u64` as eight little-endian bytes,
/// an `Option` as a tag byte (0 or 1) followed by the value.
#[verifier::external_body]
fn encode_seed_payload(seed: &[u8; 32], who: u64, extrinsic_index: Option<u32>) -> (r: Vec<u8>)
    ensures
        r@ == seed_payload(seed@, who, extrinsic_index),
{
    (seed, who, extrinsic_index).encode()
}

/// Relies on sp_io::hashing::blake2_128: the 16-byte BLAKE2b digest of `data`.
#[verifier::external_body]
fn blake2_128(data: &Vec<u8>) -> (r: [u8; 16])
    ensures
        r@ == blake2_128_of(data@),
{
    sp_io::hashing::blake2_128(data.as_slice())
}

/// The 16 random bytes for a call by `who`: the digest of the chain's random
/// seed, the account and the call's index within its block.
pub fn random_value(seed: &[u8; 32], who: u64, extrinsic_index: Option<u32>) -> (r: [u8; 16])
    ensures
        r@ == blake2_128_of(seed_payload(seed@, who, extrinsic_index)),
{
    let payload = encode_seed_payload(seed, who, extrinsic_index);
    blake2_128(&payload)
}

} // verus!
