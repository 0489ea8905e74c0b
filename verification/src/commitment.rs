//! Commitments: the digest that binds a player to a value and a nonce, and
//! the test that a pair opens a commitment.

use vstd::prelude::*;

verus! {

/// The BLAKE2b digest of 256 bits of a byte string.
pub uninterp spec fn blake2x256(input: Seq<u8>) -> Seq<u8>;

/// Calls `ink::env::hash_bytes` with the `Blake2x256` hasher. The 32 bytes that
/// come back are the BLAKE2b-256 digest of `data`: they depend on `data` alone.
#[verifier::external_body]
fn blake2x256_digest(data: &Vec<u8>) -> (out: [u8; 32])
    ensures
        out@ == blake2x256(data@),
{
    let mut output = [0u8; 32];
    ink::env::hash_bytes::<ink::env::hash::Blake2x256>(data.as_slice(), &mut output);
    output
}

/// The first `n` bytes of `x` written in base 256, lowest digit first.
pub open spec fn le_digits(x: nat, n: nat) -> Seq<u8>
    decreases n,
{
    if n == 0 {
        Seq::<u8>::empty()
    } else {
        seq![(x % 256) as u8] + le_digits(x / 256, (n - 1) as nat)
    }
}

/// The 16 bytes of a `u128`, little-endian.
pub open spec fn le_bytes(x: u128) -> Seq<u8> {
    le_digits(x as nat, 16)
}

/// What is hashed to commit to `(value, nonce)`: the little-endian bytes of
/// the value, then those of the nonce.
pub open spec fn preimage(value: u128, nonce: u128) -> Seq<u8> {
    le_bytes(value) + le_bytes(nonce)
}

/// The digest that commits to `(value, nonce)`.
pub open spec fn commitment_digest(value: u128, nonce: u128) -> Seq<u8> {
    blake2x256(preimage(value, nonce))
}

/// `hash` is the commitment to `(value, nonce)`.
pub open spec fn opens(hash: crate::types::Hash, value: u128, nonce: u128) -> bool {
    hash@ == commitment_digest(value, nonce)
}

/// Appends the 16 little-endian bytes of `x` to `out`.
fn push_le_bytes(out: &mut Vec<u8>, x: u128)
    ensures
        final(out)@ == old(out)@ + le_bytes(x),
{
    let mut rest: u128 = x;
    let mut i: usize = 0;
    let ghost start = out@;
    assert(le_digits(x as nat, 0) =~= Seq::<u8>::empty());
    assert(out@ =~= start + Seq::<u8>::empty());
    while i < 16
        invariant
            i <= 16,
            start + le_bytes(x) == out@ + le_digits(rest as nat, (16 - i) as nat),
        decreases 16 - i,
    {
        let digit: u8 = (rest % 256) as u8;
        proof {
            let tail = le_digits(rest as nat / 256, (16 - i - 1) as nat);
            assert(le_digits(rest as nat, (16 - i) as nat) == seq![digit] + tail);
            assert(out@ + (seq![digit] + tail) =~= out@.push(digit) + tail);
        }
        out.push(digit);
        rest = rest / 256;
        i += 1;
    }
    assert(le_digits(rest as nat, 0) =~= Seq::<u8>::empty());
    assert(out@ + Seq::<u8>::empty() =~= out@);
}

/// Commits to `(value, nonce)`.
pub fn commit(value: u128, nonce: u128) -> (hash: crate::types::Hash)
    ensures
        opens(hash, value, nonce),
{
    let mut data: Vec<u8> = Vec::new();
    push_le_bytes(&mut data, value);
    push_le_bytes(&mut data, nonce);
    assert(data@ =~= preimage(value, nonce));
    crate::types::Hash { bytes: blake2x256_digest(&data) }
}

/// Tells whether `hash` is the commitment to `(value, nonce)`.
pub fn verify(hash: &crate::types::Hash, value: u128, nonce: u128) -> (ok: bool)
    ensures
        ok == opens(*hash, value, nonce),
{
    let expected = commit(value, nonce);
    proof {
        if hash@ == expected@ {
            assert(hash.bytes =~= expected.bytes);
        }
    }
    *hash == expected
}

/// A pair has one commitment: two hashes that open to the same pair are equal.
pub proof fn lemma_commitment_unique(
    a: crate::types::Hash,
    b: crate::types::Hash,
    value: u128,
    nonce: u128,
)
    requires
        opens(a, value, nonce),
        opens(b, value, nonce),
    ensures
        a == b,
{
    assert(a.bytes =~= b.bytes);
}

} // verus!
