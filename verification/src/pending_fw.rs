//! The staged-image record: its on-wire/on-flash layout, the builder that
//! frames an image, and the validator that accepts or rejects a staged
//! record.
//!
//! Layout, big-endian throughout: `u32 payload_length` (the version and the
//! image, excluding this field and the trailing CRC), an 8-byte
//! [`Version`], the image bytes, then a `u32` CRC-32C over everything
//! before it.

use vstd::prelude::*;
use crate::frames::version::Version;

verus! {

/// A staged record longer than this is taken for uninitialised flash.
pub const MAX_PAYLOAD_LENGTH: u32 = 0x80000;

/// The CRC-32C (Castagnoli) checksum of a byte sequence, as
/// `crc32c_hw::compute` returns it: a function of the bytes alone.
pub uninterp spec fn crc32c_of(data: Seq<u8>) -> u32;

/// Relies on `crc32c_hw::compute`: the CRC-32C of the bytes, determined by
/// the bytes alone.
#[verifier::external_body]
pub(crate) fn crc32c(data: &[u8]) -> (r: u32)
    ensures
        r == crc32c_of(data@),
{
    crc32c_hw::compute(data)
}

/// Big-endian 4-byte form of a value below 2^32.
pub open spec fn be32_of(x: int) -> Seq<u8>
    recommends
        0 <= x <= 0xFFFFFFFF,
{
    seq![
        (x / 0x1000000) as u8,
        ((x / 0x10000) % 0x100) as u8,
        ((x / 0x100) % 0x100) as u8,
        (x % 0x100) as u8,
    ]
}

/// Value of a big-endian 4-byte field.
pub open spec fn be32_val(v: Seq<u8>) -> int
    recommends
        v.len() == 4,
{
    v[0] * 0x1000000 + v[1] * 0x10000 + v[2] * 0x100 + v[3]
}

/// Reading back the 4-byte form of any 32-bit value returns that value.
pub proof fn lemma_be32_round_trip(x: int)
    requires
        0 <= x <= 0xFFFFFFFF,
    ensures
        be32_val(be32_of(x)) == x,
{
    assert((x / 0x1000000) * 0x1000000 + ((x / 0x10000) % 0x100) * 0x10000 + ((x / 0x100) % 0x100)
        * 0x100 + x % 0x100 == x) by (nonlinear_arith)
        requires
            0 <= x <= 0xFFFFFFFF,
    ;
}

/// The big-endian `u32` at `off`.
fn be32_at(data: &[u8], off: usize) -> (r: u32)
    requires
        off + 4 <= data@.len(),
    ensures
        r == be32_val(data@.subrange(off as int, off as int + 4)),
{
    let r = (data[off] as u32) * 0x1000000 + (data[off + 1] as u32) * 0x10000 + (data[off
        + 2] as u32) * 0x100 + (data[off + 3] as u32);
    proof {
        let s = data@.subrange(off as int, off as int + 4);
        assert(s[0] == data@[off as int] && s[1] == data@[off as int + 1] && s[2] == data@[off
            as int + 2] && s[3] == data@[off as int + 3]);
    }
    r
}

/// The record framing an image: length, version, image, CRC.
pub open spec fn spec_record(version: Version, payload: Seq<u8>) -> Seq<u8> {
    be32_of(8 + payload.len() as int) + version.spec_bytes() + payload + be32_of(
        crc32c_of(be32_of(8 + payload.len() as int) + version.spec_bytes() + payload) as int,
    )
}

/// What the validator accepts: a region starting with a record whose length
/// is plausible, whose CRC over length, version and image matches, carrying
/// that version and image.
pub open spec fn spec_validate(data: Seq<u8>) -> Option<(Version, Seq<u8>)> {
    if data.len() < 4 {
        None
    } else {
        let length = be32_val(data.take(4));
        if length > MAX_PAYLOAD_LENGTH || length < 8 || data.len() < length + 8 {
            None
        } else {
            let body = data.take(4 + length);
            if crc32c_of(body) == be32_val(data.subrange(4 + length, 8 + length)) {
                Some((Version::spec_from_bytes(data.subrange(4, 12)), data.subrange(12, 4 + length)))
            } else {
                None
            }
        }
    }
}

/// Validates the staging region: reads the length, guards against
/// uninitialised flash, and checks the CRC; returns the embedded version
/// and image iff the record is intact.
pub fn get(data: &[u8]) -> (r: Option<(Version, Vec<u8>)>)
    ensures
        r is Some <==> spec_validate(data@) is Some,
        r matches Some(p) ==> spec_validate(data@) == Some((p.0, p.1@)),
{
    if data.len() < 4 {
        return None;
    }
    let length_field = be32_at(data, 0);
    proof {
        assert(data@.take(4) =~= data@.subrange(0, 4));
    }
    if length_field > MAX_PAYLOAD_LENGTH {
        return None;
    }
    let length = length_field as usize;
    if length < 8 {
        return None;
    }
    if data.len() < length + 8 {
        return None;
    }
    let version = Version::from_bytes(vstd::slice::slice_subrange(data, 4, 12));
    let body = vstd::slice::slice_subrange(data, 0, 4 + length);
    let expected = be32_at(data, 4 + length);
    let actual = crc32c(body);
    proof {
        assert(body@ =~= data@.take(4 + length as int));
    }
    if actual != expected {
        return None;
    }
    let payload = vstd::slice::slice_to_vec(vstd::slice::slice_subrange(data, 12, 4 + length));
    Some((version, payload))
}

/// Frames an image for upload: the record the device's validator accepts,
/// and what ends up at the staging region byte for byte.
pub fn make_record(version: &Version, payload: &[u8]) -> (r: Vec<u8>)
    requires
        payload@.len() + 8 <= u32::MAX,
    ensures
        r@ == spec_record(*version, payload@),
{
    let mut data: Vec<u8> = Vec::new();
    let length = (payload.len() + 8) as u32;
    let length_bytes = [(length / 0x1000000) as u8, ((length / 0x10000) % 0x100) as u8, ((length
        / 0x100) % 0x100) as u8, (length % 0x100) as u8];
    data.extend_from_slice(length_bytes.as_slice());
    let version_bytes = version.to_bytes();
    data.extend_from_slice(version_bytes.as_slice());
    data.extend_from_slice(payload);
    proof {
        assert(data@ =~= be32_of(8 + payload@.len() as int) + version.spec_bytes() + payload@);
    }
    let crc = crc32c(data.as_slice());
    let crc_bytes = [(crc / 0x1000000) as u8, ((crc / 0x10000) % 0x100) as u8, ((crc / 0x100)
        % 0x100) as u8, (crc % 0x100) as u8];
    data.extend_from_slice(crc_bytes.as_slice());
    proof {
        assert(data@ =~= spec_record(*version, payload@));
    }
    data
}

/// Validator soundness: a region holding a record framed by
/// [`spec_record`] — as [`make_record`] builds it — validates to exactly
/// the version and image framed.
pub proof fn lemma_validator_accepts_records(version: Version, payload: Seq<u8>)
    requires
        payload.len() + 8 <= MAX_PAYLOAD_LENGTH,
    ensures
        spec_validate(spec_record(version, payload)) == Some((version, payload)),
{
    let length = 8 + payload.len() as int;
    let body = be32_of(length) + version.spec_bytes() + payload;
    let record = spec_record(version, payload);
    assert(record.take(4) =~= be32_of(length));
    lemma_be32_round_trip(length);
    assert(record.len() == length + 8);
    assert(record.take(4 + length) =~= body);
    assert(record.subrange(4 + length, 8 + length) =~= be32_of(crc32c_of(body) as int));
    lemma_be32_round_trip(crc32c_of(body) as int);
    assert(record.subrange(4, 12) =~= version.spec_bytes());
    crate::frames::version::lemma_version_bytes_round_trip(version);
    assert(record.subrange(12, 4 + length) =~= payload);
}

} // verus!
