//! Checksums and content hashes: CRC-32 (IEEE) for shard integrity and
//! SHA-256 rendered as lower-case hex for configuration identity.

use vstd::prelude::*;

use crate::text::{hex_char, hex_digit_str};

verus! {

/// One shift of the reflected CRC-32 register: shift right, and fold in the
/// reflected IEEE polynomial when a set bit leaves.
pub open spec fn crc32_bit_step(x: u32) -> u32 {
    if x & 1u32 == 1u32 {
        (x >> 1u32) ^ 0xEDB8_8320u32
    } else {
        x >> 1u32
    }
}

/// Eight register shifts: the contribution of one byte.
pub open spec fn crc32_shift8(x: u32) -> u32 {
    crc32_bit_step(
        crc32_bit_step(
            crc32_bit_step(
                crc32_bit_step(crc32_bit_step(crc32_bit_step(crc32_bit_step(crc32_bit_step(x))))),
            ),
        ),
    )
}

/// The register after feeding one more byte.
pub open spec fn crc32_byte_step(register: u32, b: u8) -> u32 {
    crc32_shift8(register ^ (b as u32))
}

/// The register after feeding `bytes`, starting from all ones.
pub open spec fn crc32_register(bytes: Seq<u8>) -> u32
    decreases bytes.len(),
{
    if bytes.len() == 0 {
        0xFFFF_FFFFu32
    } else {
        crc32_byte_step(crc32_register(bytes.drop_last()), bytes.last())
    }
}

/// The CRC-32 (IEEE 802.3, reflected, initial value and final xor all
/// ones) of a byte string.
pub open spec fn crc32_ieee(bytes: Seq<u8>) -> u32 {
    crc32_register(bytes) ^ 0xFFFF_FFFFu32
}

proof fn lemma_bit_step_injective(x: u32, y: u32)
    requires
        x != y,
    ensures
        crc32_bit_step(x) != crc32_bit_step(y),
{
    assert(x != y ==> (if x & 1u32 == 1u32 { (x >> 1u32) ^ 0xEDB8_8320u32 } else { x >> 1u32 }) != (
    if y & 1u32 == 1u32 {
        (y >> 1u32) ^ 0xEDB8_8320u32
    } else {
        y >> 1u32
    })) by (bit_vector);
}

proof fn lemma_byte_step_injective(s: u32, b: u8, t: u32, d: u8)
    requires
        s ^ (b as u32) != t ^ (d as u32),
    ensures
        crc32_byte_step(s, b) != crc32_byte_step(t, d),
{
    let x0 = s ^ (b as u32);
    let y0 = t ^ (d as u32);
    lemma_bit_step_injective(x0, y0);
    let (x1, y1) = (crc32_bit_step(x0), crc32_bit_step(y0));
    lemma_bit_step_injective(x1, y1);
    let (x2, y2) = (crc32_bit_step(x1), crc32_bit_step(y1));
    lemma_bit_step_injective(x2, y2);
    let (x3, y3) = (crc32_bit_step(x2), crc32_bit_step(y2));
    lemma_bit_step_injective(x3, y3);
    let (x4, y4) = (crc32_bit_step(x3), crc32_bit_step(y3));
    lemma_bit_step_injective(x4, y4);
    let (x5, y5) = (crc32_bit_step(x4), crc32_bit_step(y4));
    lemma_bit_step_injective(x5, y5);
    let (x6, y6) = (crc32_bit_step(x5), crc32_bit_step(y5));
    lemma_bit_step_injective(x6, y6);
    let (x7, y7) = (crc32_bit_step(x6), crc32_bit_step(y6));
    lemma_bit_step_injective(x7, y7);
}

/// The SHA-256 digest of a byte string, as `sha2::Sha256` computes it.
pub uninterp spec fn sha256_digest(bytes: Seq<u8>) -> Seq<u8>;

proof fn lemma_register_diverges(a: Seq<u8>, c: Seq<u8>, i: int)
    requires
        a.len() == c.len(),
        0 <= i < a.len(),
        a[i] != c[i],
        forall|j: int| 0 <= j < a.len() && j != i ==> a[j] == c[j],
    ensures
        crc32_register(a) != crc32_register(c),
    decreases a.len(),
{
    let s = crc32_register(a.drop_last());
    let t = crc32_register(c.drop_last());
    let b = a.last();
    let d = c.last();
    if i == a.len() - 1 {
        assert(a.drop_last() =~= c.drop_last());
        assert(b != d ==> s ^ (b as u32) != s ^ (d as u32)) by (bit_vector);
    } else {
        lemma_register_diverges(a.drop_last(), c.drop_last(), i);
        assert(s != t ==> s ^ (b as u32) != t ^ (b as u32)) by (bit_vector);
    }
    lemma_byte_step_injective(s, b, t, d);
}

/// A CRC-32 detects every single-byte error: changing any one byte of a
/// byte string changes its checksum.
pub proof fn lemma_crc32_detects_one_byte_change(bytes: Seq<u8>, i: int, v: u8)
    requires
        0 <= i < bytes.len(),
        v != bytes[i],
    ensures
        crc32_ieee(bytes.update(i, v)) != crc32_ieee(bytes),
{
    let changed = bytes.update(i, v);
    lemma_register_diverges(changed, bytes, i);
    let r1 = crc32_register(changed);
    let r2 = crc32_register(bytes);
    assert(r1 != r2 ==> r1 ^ 0xFFFF_FFFFu32 != r2 ^ 0xFFFF_FFFFu32) by (bit_vector);
}

/// `crc32fast::hash`: the CRC-32 (IEEE) of `bytes`. Claimed: the result is
/// the standard CRC-32 that `crc32_ieee` states bit by bit.
#[verifier::external_body]
pub(crate) fn crc32(bytes: &[u8]) -> (r: u32)
    ensures
        r == crc32_ieee(bytes@),
{
    crc32fast::hash(bytes)
}

/// `sha2::Sha256::digest`: the SHA-256 of `bytes`. Claimed: the result is
/// `sha256_digest(bytes)`, a fixed function of the bytes alone, and it is 32
/// bytes long.
#[verifier::external_body]
pub(crate) fn sha256(bytes: &[u8]) -> (r: Vec<u8>)
    ensures
        r@ == sha256_digest(bytes@),
        r@.len() == 32,
{
    <sha2::Sha256 as sha2::Digest>::digest(bytes).to_vec()
}

/// Lower-case hex of a byte string, two digits per byte, high nibble first.
pub open spec fn hex_lower(bytes: Seq<u8>) -> Seq<char>
    decreases bytes.len(),
{
    if bytes.len() == 0 {
        Seq::empty()
    } else {
        hex_lower(bytes.drop_last()) + seq![
            hex_char((bytes.last() / 16) as nat),
            hex_char((bytes.last() % 16) as nat),
        ]
    }
}

/// Render bytes as lower-case hex (`format!("{:x}", ..)` of a digest).
pub fn to_hex_lower(bytes: &[u8]) -> (r: String)
    ensures
        r@ == hex_lower(bytes@),
{
    let mut out = String::new();
    let mut i: usize = 0;
    while i < bytes.len()
        invariant
            i <= bytes@.len(),
            out@ == hex_lower(bytes@.take(i as int)),
        decreases bytes.len() - i,
    {
        let b = bytes[i];
        out.append(hex_digit_str(b / 16));
        out.append(hex_digit_str(b % 16));
        assert(bytes@.take(i + 1).drop_last() =~= bytes@.take(i as int));
        i = i + 1;
    }
    assert(bytes@.take(i as int) =~= bytes@);
    out
}

/// The SHA-256 of `bytes` as 64 lower-case hex digits.
pub fn sha256_hex(bytes: &[u8]) -> (r: String)
    ensures
        r@ == hex_lower(sha256_digest(bytes@)),
{
    let digest = sha256(bytes);
    to_hex_lower(digest.as_slice())
}

} // verus!
