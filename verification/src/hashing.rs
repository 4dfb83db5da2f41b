//! A fixed, versioned fingerprint function.
//!
//! Pinned-package identities double as lockfile keys, so equal inputs must
//! hash equally across processes and toolchain versions. A hasher whose
//! algorithm may silently change between releases cannot give that guarantee,
//! so the fingerprint here is pinned explicitly to 64-bit FNV-1a.

use vstd::prelude::*;

verus! {

/// Multiplier of the 64-bit FNV-1a hash.
pub const FNV_PRIME: u64 = 0x100000001b3;

/// Starting state of the 64-bit FNV-1a hash.
pub const FNV_OFFSET: u64 = 0xcbf29ce484222325;

/// One FNV-1a round: fold a single byte into the running state.
pub open spec fn fnv_step(h: u64, byte: u8) -> u64 {
    vstd::wrapping::u64_specs::wrapping_mul(h ^ (byte as u64), FNV_PRIME)
}

/// FNV-1a over a byte sequence, starting from state `h`.
pub open spec fn fnv_bytes(h: u64, bytes: Seq<u8>) -> u64
    decreases bytes.len(),
{
    if bytes.len() == 0 {
        h
    } else {
        fnv_bytes(fnv_step(h, bytes[0]), bytes.drop_first())
    }
}

/// FNV-1a over the UTF-8 encoding of a character sequence.
pub open spec fn fnv_chars(h: u64, s: Seq<char>) -> u64 {
    fnv_bytes(h, vstd::utf8::encode_utf8(s))
}

/// Folding one more byte onto the end of a sequence is one more round.
proof fn lemma_fnv_bytes_snoc(h: u64, bytes: Seq<u8>, byte: u8)
    ensures
        fnv_bytes(h, bytes.push(byte)) == fnv_step(fnv_bytes(h, bytes), byte),
    decreases bytes.len(),
{
    if bytes.len() == 0 {
        assert(bytes.push(byte)[0] == byte);
        assert(bytes.push(byte).drop_first() =~= Seq::<u8>::empty());
        assert(fnv_bytes(fnv_step(h, byte), Seq::<u8>::empty()) == fnv_step(h, byte));
        assert(fnv_bytes(h, bytes) == h);
    } else {
        assert(bytes.push(byte)[0] == bytes[0]);
        assert(bytes.push(byte).drop_first() =~= bytes.drop_first().push(byte));
        lemma_fnv_bytes_snoc(fnv_step(h, bytes[0]), bytes.drop_first(), byte);
    }
}

/// Fold a vector of bytes into the running state `h`.
pub fn fnv_bytes_vec(h: u64, bytes: &Vec<u8>) -> (r: u64)
    ensures
        r == fnv_bytes(h, bytes@),
{
    let mut acc: u64 = h;
    let mut i: usize = 0;
    while i < bytes.len()
        invariant
            i <= bytes.len(),
            acc == fnv_bytes(h, bytes@.subrange(0, i as int)),
        decreases bytes.len() - i,
    {
        proof {
            assert(bytes@.subrange(0, i + 1) =~= bytes@.subrange(0, i as int).push(bytes@[i as int]));
            lemma_fnv_bytes_snoc(h, bytes@.subrange(0, i as int), bytes@[i as int]);
        }
        acc = (acc ^ (bytes[i] as u64)).wrapping_mul(FNV_PRIME);
        i = i + 1;
    }
    proof {
        assert(bytes@.subrange(0, bytes@.len() as int) =~= bytes@);
    }
    acc
}

/// Fold a string's UTF-8 bytes into the running state `h`.
pub fn fnv_str(h: u64, s: &str) -> (r: u64)
    ensures
        r == fnv_chars(h, s@),
{
    let bytes = s.as_bytes_vec();
    fnv_bytes_vec(h, &bytes)
}

/// The little-endian byte at position `i` of a 64-bit value.
pub open spec fn u64_byte(x: u64, i: int) -> u8 {
    ((x >> (8 * i) as u64) & 0xff) as u8
}

/// Fold a 64-bit value into the running state `h`, least significant byte
/// first.
pub open spec fn spec_fnv_u64(h: u64, x: u64) -> u64 {
    let h0 = fnv_step(h, u64_byte(x, 0));
    let h1 = fnv_step(h0, u64_byte(x, 1));
    let h2 = fnv_step(h1, u64_byte(x, 2));
    let h3 = fnv_step(h2, u64_byte(x, 3));
    let h4 = fnv_step(h3, u64_byte(x, 4));
    let h5 = fnv_step(h4, u64_byte(x, 5));
    let h6 = fnv_step(h5, u64_byte(x, 6));
    let h7 = fnv_step(h6, u64_byte(x, 7));
    h7
}

/// The low byte extracted by masking fits in a `u8`.
proof fn lemma_low_byte_fits(y: u64)
    ensures
        (y & 0xff) < 256,
        ((y & 0xff) as u8) as u64 == y & 0xff,
{
    assert((y & 0xff) < 256) by (bit_vector);
}

/// Fold a 64-bit value into the running state `h`, least significant byte
/// first.
pub fn fnv_u64(h: u64, x: u64) -> (r: u64)
    ensures
        r == spec_fnv_u64(h, x),
{
    proof {
        lemma_low_byte_fits(x >> 0u64);
        lemma_low_byte_fits(x >> 8u64);
        lemma_low_byte_fits(x >> 16u64);
        lemma_low_byte_fits(x >> 24u64);
        lemma_low_byte_fits(x >> 32u64);
        lemma_low_byte_fits(x >> 40u64);
        lemma_low_byte_fits(x >> 48u64);
        lemma_low_byte_fits(x >> 56u64);
    }
    let mut acc: u64 = h;
    acc = (acc ^ (((x >> 0u64) & 0xff) as u64)).wrapping_mul(FNV_PRIME);
    acc = (acc ^ (((x >> 8u64) & 0xff) as u64)).wrapping_mul(FNV_PRIME);
    acc = (acc ^ (((x >> 16u64) & 0xff) as u64)).wrapping_mul(FNV_PRIME);
    acc = (acc ^ (((x >> 24u64) & 0xff) as u64)).wrapping_mul(FNV_PRIME);
    acc = (acc ^ (((x >> 32u64) & 0xff) as u64)).wrapping_mul(FNV_PRIME);
    acc = (acc ^ (((x >> 40u64) & 0xff) as u64)).wrapping_mul(FNV_PRIME);
    acc = (acc ^ (((x >> 48u64) & 0xff) as u64)).wrapping_mul(FNV_PRIME);
    acc = (acc ^ (((x >> 56u64) & 0xff) as u64)).wrapping_mul(FNV_PRIME);
    acc
}

} // verus!
