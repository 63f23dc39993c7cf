use vstd::prelude::*;

verus! {

/// The Keccak-256 digest of a byte string. The digest is fixed by the input
/// bytes alone.
pub uninterp spec fn keccak256_of(input: Seq<u8>) -> Seq<u8>;

/// Relies on ink's `hash_bytes::<Keccak256>`: the Keccak-256 digest of the
/// input, written into a 32-byte buffer, a pure function of the input bytes.
#[verifier::external_body]
pub(crate) fn keccak256(input: &Vec<u8>) -> (out: Vec<u8>)
    ensures
        out@ == keccak256_of(input@),
        out@.len() == 32,
{
    let mut output = <ink::env::hash::Keccak256 as ink::env::hash::HashOutput>::Type::default();
    ink::env::hash_bytes::<ink::env::hash::Keccak256>(input.as_slice(), &mut output);
    output.to_vec()
}

/// The big-endian bytes of a 64-bit integer.
pub open spec fn u64_be_bytes(x: u64) -> Seq<u8> {
    seq![
        (x >> 56) as u8,
        (x >> 48) as u8,
        (x >> 40) as u8,
        (x >> 32) as u8,
        (x >> 24) as u8,
        (x >> 16) as u8,
        (x >> 8) as u8,
        x as u8,
    ]
}

/// The big-endian bytes of a 128-bit integer.
pub open spec fn u128_be_bytes(x: u128) -> Seq<u8> {
    seq![
        (x >> 120) as u8,
        (x >> 112) as u8,
        (x >> 104) as u8,
        (x >> 96) as u8,
        (x >> 88) as u8,
        (x >> 80) as u8,
        (x >> 72) as u8,
        (x >> 64) as u8,
        (x >> 56) as u8,
        (x >> 48) as u8,
        (x >> 40) as u8,
        (x >> 32) as u8,
        (x >> 24) as u8,
        (x >> 16) as u8,
        (x >> 8) as u8,
        x as u8,
    ]
}

} // verus!
