//! FNV-1a content hashes: the short 8-hex-digit form used to give a chunk
//! or a framework bundle a content-addressed file name, and the
//! `fnv1a:`-prefixed 16-digit form written to `nexa.lock`.
use vstd::prelude::*;

use crate::text::{hex_fixed, is_lower_hex, lemma_hex_fixed_shape, owned, push_hex_fixed};

verus! {

pub const FNV_OFFSET: u64 = 0xcbf29ce484222325;

pub const FNV_PRIME: u64 = 0x100000001b3;

/// FNV-1a over `bytes`: start from the offset basis, and for each byte
/// xor it in, then multiply by the prime modulo 2^64.
pub open spec fn fnv1a(bytes: Seq<u8>) -> u64
    decreases bytes.len(),
{
    if bytes.len() == 0 {
        FNV_OFFSET
    } else {
        vstd::wrapping::u64_specs::wrapping_mul(
            fnv1a(bytes.drop_last()) ^ (bytes.last() as u64),
            FNV_PRIME,
        )
    }
}

/// The 64-bit hash folded to 32 bits: high half xor low half.
pub open spec fn fold32(h: u64) -> u32 {
    (h ^ (h >> 32u64)) as u32
}

/// The short content hash of a text: 8 lowercase hex digits of the folded
/// FNV-1a hash of its UTF-8 bytes.
pub open spec fn short_hash_of(text: Seq<char>) -> Seq<char> {
    hex_fixed(fold32(fnv1a(vstd::utf8::encode_utf8(text))) as nat, 8)
}

/// The lockfile content hash of some bytes: `fnv1a:` and 16 lowercase hex
/// digits of the FNV-1a hash.
pub open spec fn fnv1a_hex_of(bytes: Seq<u8>) -> Seq<char> {
    "fnv1a:"@ + hex_fixed(fnv1a(bytes) as nat, 16)
}

/// FNV-1a of `bytes`.
pub fn fnv1a_u64(bytes: &[u8]) -> (h: u64)
    ensures
        h == fnv1a(bytes@),
{
    let mut hash: u64 = FNV_OFFSET;
    let mut i: usize = 0;
    while i < bytes.len()
        invariant
            i <= bytes@.len(),
            hash == fnv1a(bytes@.take(i as int)),
        decreases bytes@.len() - i,
    {
        assert(bytes@.take(i + 1).drop_last() =~= bytes@.take(i as int));
        hash = (hash ^ (bytes[i] as u64)).wrapping_mul(FNV_PRIME);
        i = i + 1;
    }
    assert(bytes@.take(i as int) =~= bytes@);
    hash
}

/// Short content hash (8 lowercase hex digits) of a text, the same for
/// equal contents: a content-addressed file name changes with its content
/// except in the rare case of a collision of the 32-bit hash.
pub fn short_hash(text: &str) -> (r: String)
    ensures
        r@ == short_hash_of(text@),
        r@.len() == 8,
        forall|i: int| 0 <= i < 8 ==> is_lower_hex(#[trigger] r@[i]),
{
    let h = fnv1a_u64(text.as_bytes());
    let folded: u32 = (h ^ (h >> 32u64)) as u32;
    let mut r = String::new();
    push_hex_fixed(&mut r, folded as u64, 8);
    proof {
        lemma_hex_fixed_shape(folded as nat, 8);
        assert(r@ =~= hex_fixed(folded as nat, 8));
    }
    r
}

/// The `fnv1a:`-prefixed 16-digit hash that `nexa.lock` records for an
/// embedded module.
pub fn fnv1a_hex(bytes: &[u8]) -> (r: String)
    ensures
        r@ == fnv1a_hex_of(bytes@),
{
    let h = fnv1a_u64(bytes);
    let mut r = owned("fnv1a:");
    push_hex_fixed(&mut r, h, 16);
    r
}

} // verus!

verus! {

/// Every short content hash is eight lowercase hexadecimal digits,
/// whatever the text.
pub proof fn law_short_hash_is_eight_lowercase_hex_digits(text: Seq<char>)
    ensures
        short_hash_of(text).len() == 8,
        forall|i: int| 0 <= i < 8 ==> is_lower_hex(#[trigger] short_hash_of(text)[i]),
{
    lemma_hex_fixed_shape(fold32(fnv1a(vstd::utf8::encode_utf8(text))) as nat, 8);
}

} // verus!
