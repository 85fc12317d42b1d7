//! Shard framing: a 16-byte header (magic, schema version, payload length,
//! CRC-32 of the payload, all little-endian `u32` after the magic) followed by
//! the encoded payload. Parsing validates magic, schema version, declared
//! length and checksum before anything is decoded, so a corrupt or truncated
//! shard fails visibly.

use vstd::prelude::*;
use vstd::bytes::{
    lemma_auto_spec_u32_to_from_le_bytes, spec_u32_from_le_bytes, spec_u32_to_le_bytes,
    u32_from_le_bytes, u32_to_le_bytes,
};
use vstd::slice::slice_subrange;

use crate::hashing::{crc32, crc32_ieee, lemma_crc32_detects_one_byte_change};
use crate::replay::schema::{
    check_contracts_spec, recorded_versions_current, ContractError, ReplayHeader, REPLAY_SCHEMA_VERSION, SHARD_MAGIC,
};

verus! {

/// Length of the fixed shard header.
pub const SHARD_HEADER_LEN: usize = 16;

/// Why shard bytes were refused.
#[derive(Debug, Clone, PartialEq, Eq)]
pub enum ShardError {
    /// Fewer bytes than the fixed header.
    TooShort { len: usize },
    /// The first four bytes are not the shard magic.
    BadMagic,
    /// The shard declares another schema version.
    SchemaVersion { found: u32 },
    /// The declared payload length disagrees with the bytes present.
    LengthMismatch { declared: u32, actual: usize },
    /// The payload's CRC-32 differs from the recorded one.
    ChecksumMismatch { actual: u32, expected: u32 },
    /// The payload does not decode (the decoder's message).
    Decode(String),
    /// The decoder consumed only part of the payload.
    TrailingBytes { consumed: usize, len: usize },
    /// The decoded shard header does not match the current contracts.
    Header(ContractError),
}

/// The magic as a sequence.
pub open spec fn magic_seq() -> Seq<u8> {
    seq![0x52u8, 0x36u8, 0x34u8, 0x53u8]
}

/// The little-endian `u32` at byte offset `at`.
pub open spec fn le32_at(b: Seq<u8>, at: int) -> u32 {
    spec_u32_from_le_bytes(b.subrange(at, at + 4))
}

/// The outcome of checking a shard's framing, before decoding.
pub open spec fn frame_check(b: Seq<u8>) -> Result<(), ShardError> {
    if b.len() < 16 {
        Err(ShardError::TooShort { len: b.len() as usize })
    } else if b.subrange(0, 4) != magic_seq() {
        Err(ShardError::BadMagic)
    } else if le32_at(b, 4) != REPLAY_SCHEMA_VERSION {
        Err(ShardError::SchemaVersion { found: le32_at(b, 4) })
    } else if b.len() != 16 + le32_at(b, 8) {
        Err(ShardError::LengthMismatch { declared: le32_at(b, 8), actual: (b.len() - 16) as usize })
    } else if crc32_ieee(b.skip(16)) != le32_at(b, 12) {
        Err(ShardError::ChecksumMismatch { actual: crc32_ieee(b.skip(16)), expected: le32_at(b, 12) })
    } else {
        Ok(())
    }
}

/// The bytes of a shard file framing `payload`. The length field holds the
/// payload length truncated to 32 bits.
pub open spec fn framed(payload: Seq<u8>) -> Seq<u8> {
    magic_seq() + spec_u32_to_le_bytes(REPLAY_SCHEMA_VERSION) + spec_u32_to_le_bytes(
        payload.len() as u32,
    ) + spec_u32_to_le_bytes(crc32_ieee(payload)) + payload
}

/// Check a shard's framing and return its payload.
pub fn check_shard_frame(bytes: &[u8]) -> (r: Result<&[u8], ShardError>)
    ensures
        frame_check(bytes@) is Ok ==> (r is Ok && r->Ok_0@ == bytes@.skip(16)),
        frame_check(bytes@) is Err ==> (r is Err && r->Err_0 == frame_check(bytes@)->Err_0),
{
    if bytes.len() < SHARD_HEADER_LEN {
        return Err(ShardError::TooShort { len: bytes.len() });
    }
    if !(bytes[0] == SHARD_MAGIC[0] && bytes[1] == SHARD_MAGIC[1] && bytes[2] == SHARD_MAGIC[2]
        && bytes[3] == SHARD_MAGIC[3]) {
        proof {
            if bytes@.subrange(0, 4) == magic_seq() {
                assert(bytes@.subrange(0, 4)[0] == bytes@[0]);
                assert(bytes@.subrange(0, 4)[1] == bytes@[1]);
                assert(bytes@.subrange(0, 4)[2] == bytes@[2]);
                assert(bytes@.subrange(0, 4)[3] == bytes@[3]);
            }
        }
        return Err(ShardError::BadMagic);
    }
    assert(bytes@.subrange(0, 4) =~= magic_seq());
    let version = u32_from_le_bytes(slice_subrange(bytes, 4, 8));
    if version != REPLAY_SCHEMA_VERSION {
        return Err(ShardError::SchemaVersion { found: version });
    }
    let payload_len = u32_from_le_bytes(slice_subrange(bytes, 8, 12));
    let crc = u32_from_le_bytes(slice_subrange(bytes, 12, 16));
    if bytes.len() as u64 != 16 + payload_len as u64 {
        return Err(ShardError::LengthMismatch { declared: payload_len, actual: bytes.len() - 16 });
    }
    let payload = slice_subrange(bytes, 16, bytes.len());
    assert(payload@ =~= bytes@.skip(16));
    let actual = crc32(payload);
    if actual != crc {
        return Err(ShardError::ChecksumMismatch { actual, expected: crc });
    }
    Ok(payload)
}

/// Frame an encoded payload as shard file bytes.
pub fn encode_shard_frame(payload: &[u8]) -> (r: Vec<u8>)
    ensures
        r@ == framed(payload@),
{
    let crc = crc32(payload);
    let mut bytes: Vec<u8> = Vec::new();
    bytes.push(SHARD_MAGIC[0]);
    bytes.push(SHARD_MAGIC[1]);
    bytes.push(SHARD_MAGIC[2]);
    bytes.push(SHARD_MAGIC[3]);
    assert(bytes@ =~= magic_seq());
    let mut v = u32_to_le_bytes(REPLAY_SCHEMA_VERSION);
    bytes.append(&mut v);
    let mut l = u32_to_le_bytes(payload.len() as u32);
    bytes.append(&mut l);
    let mut c = u32_to_le_bytes(crc);
    bytes.append(&mut c);
    let mut i: usize = 0;
    let ghost head = bytes@;
    while i < payload.len()
        invariant
            i <= payload@.len(),
            bytes@ == head + payload@.take(i as int),
        decreases payload.len() - i,
    {
        bytes.push(payload[i]);
        assert(bytes@ =~= head + payload@.take(i + 1));
        i = i + 1;
    }
    assert(payload@.take(i as int) =~= payload@);
    bytes
}

/// The final checks after decoding: the decoder must have consumed the whole
/// payload, and the decoded header must match the current contracts.
pub open spec fn decoded_check(consumed: usize, payload_len: usize, header: ReplayHeader) -> Result<(), ShardError> {
    if consumed != payload_len {
        Err(ShardError::TrailingBytes { consumed, len: payload_len })
    } else {
        match check_contracts_spec(header) {
            Ok(()) => Ok(()),
            Err(e) => Err(ShardError::Header(e)),
        }
    }
}

/// Accept a decoded shard: the whole payload consumed and a header that
/// matches the current contracts.
pub fn check_decoded_shard(consumed: usize, payload_len: usize, header: &ReplayHeader) -> (r: Result<(), ShardError>)
    ensures
        r == decoded_check(consumed, payload_len, *header),
        r is Ok <==> (consumed == payload_len && recorded_versions_current(*header)),
{
    if consumed != payload_len {
        return Err(ShardError::TrailingBytes { consumed, len: payload_len });
    }
    match header.check_contracts() {
        Ok(()) => Ok(()),
        Err(e) => Err(ShardError::Header(e)),
    }
}

/// Framing round trip: the bytes written for any payload whose length fits
/// the 32-bit length field pass every framing check and give back exactly
/// that payload.
pub proof fn lemma_frame_round_trip(payload: Seq<u8>)
    requires
        payload.len() <= u32::MAX,
    ensures
        frame_check(framed(payload)) is Ok,
        framed(payload).skip(16) == payload,
{
    lemma_auto_spec_u32_to_from_le_bytes();
    let b = framed(payload);
    let v = spec_u32_to_le_bytes(REPLAY_SCHEMA_VERSION);
    let l = spec_u32_to_le_bytes(payload.len() as u32);
    let c = spec_u32_to_le_bytes(crc32_ieee(payload));
    assert(b.subrange(0, 4) =~= magic_seq());
    assert(b.subrange(4, 8) =~= v);
    assert(b.subrange(8, 12) =~= l);
    assert(b.subrange(12, 16) =~= c);
    assert(b.skip(16) =~= payload);
}

proof fn lemma_changed_field(b: Seq<u8>, c: Seq<u8>, at: int, x: u32)
    requires
        0 <= at,
        at + 4 <= b.len(),
        b.len() == c.len(),
        b.subrange(at, at + 4) == spec_u32_to_le_bytes(x),
        c.subrange(at, at + 4) != b.subrange(at, at + 4),
    ensures
        le32_at(c, at) != x,
{
    lemma_auto_spec_u32_to_from_le_bytes();
    let field = c.subrange(at, at + 4);
    assert(spec_u32_to_le_bytes(spec_u32_from_le_bytes(field)) == field);
}

/// Any single-byte corruption of a framed shard is caught by the framing
/// checks: changing one byte of the bytes written for a payload, wherever it
/// lies (magic, schema version, length, checksum or payload), makes the
/// framing check fail.
pub proof fn lemma_frame_detects_one_byte_change(payload: Seq<u8>, i: int, v: u8)
    requires
        payload.len() <= u32::MAX,
        0 <= i < framed(payload).len(),
        v != framed(payload)[i],
    ensures
        frame_check(framed(payload).update(i, v)) is Err,
{
    lemma_frame_round_trip(payload);
    lemma_auto_spec_u32_to_from_le_bytes();
    let b = framed(payload);
    let c = b.update(i, v);
    assert(b.subrange(0, 4) =~= magic_seq());
    assert(b.subrange(4, 8) =~= spec_u32_to_le_bytes(REPLAY_SCHEMA_VERSION));
    assert(b.subrange(8, 12) =~= spec_u32_to_le_bytes(payload.len() as u32));
    assert(b.subrange(12, 16) =~= spec_u32_to_le_bytes(crc32_ieee(payload)));
    if i < 4 {
        assert(c.subrange(0, 4)[i] != magic_seq()[i]);
    } else if i < 8 {
        assert(c.subrange(4, 8)[i - 4] != b.subrange(4, 8)[i - 4]);
        lemma_changed_field(b, c, 4, REPLAY_SCHEMA_VERSION);
        assert(c.subrange(0, 4) =~= b.subrange(0, 4));
    } else if i < 12 {
        assert(c.subrange(8, 12)[i - 8] != b.subrange(8, 12)[i - 8]);
        lemma_changed_field(b, c, 8, payload.len() as u32);
        assert(c.subrange(0, 4) =~= b.subrange(0, 4));
        assert(c.subrange(4, 8) =~= b.subrange(4, 8));
    } else if i < 16 {
        assert(c.subrange(12, 16)[i - 12] != b.subrange(12, 16)[i - 12]);
        lemma_changed_field(b, c, 12, crc32_ieee(payload));
        assert(c.subrange(0, 4) =~= b.subrange(0, 4));
        assert(c.subrange(4, 8) =~= b.subrange(4, 8));
        assert(c.subrange(8, 12) =~= b.subrange(8, 12));
        assert(c.skip(16) =~= payload);
    } else {
        assert(c.subrange(0, 4) =~= b.subrange(0, 4));
        assert(c.subrange(4, 8) =~= b.subrange(4, 8));
        assert(c.subrange(8, 12) =~= b.subrange(8, 12));
        assert(c.subrange(12, 16) =~= b.subrange(12, 16));
        assert(b.skip(16)[i - 16] == b[i]);
        assert(c.skip(16) =~= payload.update(i - 16, v));
        lemma_crc32_detects_one_byte_change(payload, i - 16, v);
    }
}

} // verus!
