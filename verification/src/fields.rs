//! Primitive field decoders: variable-length counts, fixed-width
//! little-endian integers, reversed identifiers and length-prefixed blobs.

use vstd::prelude::*;

use crate::cursor::{ByteCursor, DecodeError};
use crate::transaction::Amount;

verus! {

/// Little-endian value of two bytes.
pub open spec fn le2(s: Seq<u8>) -> int {
    s[0] + 0x100 * (s[1] as int)
}

/// Little-endian value of four bytes.
pub open spec fn le4(s: Seq<u8>) -> int {
    s[0] + 0x100 * (s[1] as int) + 0x1_0000 * (s[2] as int) + 0x100_0000 * (s[3] as int)
}

/// Little-endian value of eight bytes.
pub open spec fn le8(s: Seq<u8>) -> int {
    s[0] + 0x100 * (s[1] as int) + 0x1_0000 * (s[2] as int) + 0x100_0000 * (s[3] as int)
        + 0x1_0000_0000 * (s[4] as int) + 0x100_0000_0000 * (s[5] as int)
        + 0x1_0000_0000_0000 * (s[6] as int) + 0x100_0000_0000_0000 * (s[7] as int)
}

/// The lowercase hexadecimal digit for a value below sixteen.
pub open spec fn hex_digit(n: u8) -> char
    recommends
        n < 16,
{
    if n < 10 {
        ((n + 0x30) as char)
    } else {
        ((n + 0x57) as char)
    }
}

/// The lowercase hexadecimal rendering of a byte sequence: two digits per
/// byte, high-order half first, in input order.
pub open spec fn hex_of(s: Seq<u8>) -> Seq<char> {
    Seq::new(
        2 * s.len(),
        |i: int| if i % 2 == 0 {
            hex_digit(s[i / 2] / 16)
        } else {
            hex_digit(s[i / 2] % 16)
        },
    )
}

/// A byte sequence in reverse order.
pub open spec fn rev_bytes(s: Seq<u8>) -> Seq<u8> {
    Seq::new(s.len(), |i: int| s[s.len() - 1 - i])
}

/// What a variable-length count at the front of `s` decodes to, with the
/// number of bytes its encoding occupies; `None` when `s` is too short.
pub open spec fn spec_compact_size(s: Seq<u8>) -> Option<(u64, int)> {
    if s.len() < 1 {
        None
    } else if s[0] <= 252 {
        Some((s[0] as u64, 1))
    } else if s[0] == 253 {
        if s.len() >= 3 {
            Some(((le2(s.subrange(1, 3)) as u64), 3))
        } else {
            None
        }
    } else if s[0] == 254 {
        if s.len() >= 5 {
            Some(((le4(s.subrange(1, 5)) as u64), 5))
        } else {
            None
        }
    } else {
        if s.len() >= 9 {
            Some(((le8(s.subrange(1, 9)) as u64), 9))
        } else {
            None
        }
    }
}

/// What a four-byte little-endian integer at the front of `s` decodes to.
pub open spec fn spec_u32_field(s: Seq<u8>) -> Option<(u32, int)> {
    if s.len() >= 4 {
        Some(((le4(s.subrange(0, 4)) as u32), 4))
    } else {
        None
    }
}

/// What an eight-byte little-endian amount at the front of `s` decodes to.
pub open spec fn spec_amount_field(s: Seq<u8>) -> Option<(u64, int)> {
    if s.len() >= 8 {
        Some(((le8(s.subrange(0, 8)) as u64), 8))
    } else {
        None
    }
}

/// What a thirty-two byte identifier at the front of `s` renders to: the
/// hexadecimal text of the bytes in reverse order.
pub open spec fn spec_txid_field(s: Seq<u8>) -> Option<(Seq<char>, int)> {
    if s.len() >= 32 {
        Some((hex_of(rev_bytes(s.subrange(0, 32))), 32))
    } else {
        None
    }
}

/// What a length-prefixed blob at the front of `s` holds: the raw blob
/// bytes, with the total number of bytes the count and the blob occupy.
pub open spec fn spec_blob_field(s: Seq<u8>) -> Option<(Seq<u8>, int)> {
    match spec_compact_size(s) {
        None => None,
        Some((n, k)) => if s.len() >= k + n {
            Some((s.subrange(k, k + n), k + n))
        } else {
            None
        },
    }
}

/// Identifier byte-order law: a decoded identifier renders the wire
/// bytes in reverse order, and reversing the rendered order once more
/// reproduces the original bytes exactly.
pub proof fn lemma_txid_round_trip(s: Seq<u8>)
    requires
        s.len() == 32,
    ensures
        spec_txid_field(s) == Some((hex_of(rev_bytes(s)), 32int)),
        rev_bytes(rev_bytes(s)) == s,
{
    assert(s.subrange(0, 32) =~= s);
    assert(rev_bytes(rev_bytes(s)) =~= s);
}

/// Blob length fidelity: when a count decodes to `n` and at least `n`
/// bytes follow its encoding, the blob field holds exactly those `n`
/// bytes and occupies exactly the count encoding plus `n` bytes.
pub proof fn lemma_blob_consumes(s: Seq<u8>, n: u64, k: int)
    requires
        spec_compact_size(s) == Some((n, k)),
        s.len() >= k + n,
    ensures
        spec_blob_field(s) == Some((s.subrange(k, k + n), k + n)),
{
}

/// Relies on `hex::encode`: for each input byte, in input order, it emits
/// the two lowercase hexadecimal digits of the byte, high-order half first.
#[verifier::external_body]
fn hex_encode(bytes: &Vec<u8>) -> (r: String)
    ensures
        r@ == hex_of(bytes@),
{
    hex::encode(bytes)
}

/// The little-endian value of four bytes, as an executable computation.
fn u32_from_le(b: &Vec<u8>) -> (r: u32)
    requires
        b@.len() == 4,
    ensures
        r == le4(b@),
{
    (b[0] as u32) + 0x100 * (b[1] as u32) + 0x1_0000 * (b[2] as u32) + 0x100_0000 * (b[3] as u32)
}

/// The little-endian value of eight bytes, as an executable computation.
fn u64_from_le(b: &Vec<u8>) -> (r: u64)
    requires
        b@.len() == 8,
    ensures
        r == le8(b@),
{
    (b[0] as u64) + 0x100 * (b[1] as u64) + 0x1_0000 * (b[2] as u64) + 0x100_0000 * (b[3] as u64)
        + 0x1_0000_0000 * (b[4] as u64) + 0x100_0000_0000 * (b[5] as u64)
        + 0x1_0000_0000_0000 * (b[6] as u64) + 0x100_0000_0000_0000 * (b[7] as u64)
}

/// Decode a variable-length count: one discriminant byte, then zero, two,
/// four or eight further bytes of little-endian payload. A longer than
/// minimal encoding is accepted. On failure the cursor does not move.
pub fn read_compact_size(cursor: &mut ByteCursor) -> (r: Result<u64, DecodeError>)
    requires
        old(cursor).wf(),
    ensures
        final(cursor).wf(),
        final(cursor).data() == old(cursor).data(),
        match spec_compact_size(old(cursor).remaining()) {
            Some((v, k)) => {
                &&& r == Ok::<u64, DecodeError>(v)
                &&& final(cursor).position() == old(cursor).position() + k
            },
            None => {
                &&& r == Err::<u64, DecodeError>(DecodeError::OutOfData)
                &&& final(cursor).position() == old(cursor).position()
            },
        },
{
    let rem = cursor.remaining_len();
    if rem < 1 {
        return Err(DecodeError::OutOfData);
    }
    let d = cursor.peek();
    if d <= 252 {
        let _discr = match cursor.take(1) {
            Ok(b) => b,
            Err(e) => return Err(e),
        };
        return Ok(d as u64);
    }
    let payload_len: usize = if d == 253 {
        2
    } else if d == 254 {
        4
    } else {
        8
    };
    if rem < 1 + payload_len {
        return Err(DecodeError::OutOfData);
    }
    let ghost pre = cursor.remaining();
    let _discr = match cursor.take(1) {
        Ok(b) => b,
        Err(e) => return Err(e),
    };
    let ghost mid = cursor.remaining();
    let payload = match cursor.take(payload_len) {
        Ok(b) => b,
        Err(e) => return Err(e),
    };
    proof {
        assert(mid =~= pre.subrange(1, pre.len() as int));
        assert(payload@ =~= pre.subrange(1, 1 + payload_len as int));
    }
    if d == 253 {
        Ok((payload[0] as u64) + 0x100 * (payload[1] as u64))
    } else if d == 254 {
        Ok(
            (payload[0] as u64) + 0x100 * (payload[1] as u64) + 0x1_0000 * (payload[2] as u64)
                + 0x100_0000 * (payload[3] as u64),
        )
    } else {
        Ok(u64_from_le(&payload))
    }
}

/// Decode a four-byte little-endian unsigned integer. On failure the
/// cursor does not move.
pub fn read_u32(cursor: &mut ByteCursor) -> (r: Result<u32, DecodeError>)
    requires
        old(cursor).wf(),
    ensures
        final(cursor).wf(),
        final(cursor).data() == old(cursor).data(),
        match spec_u32_field(old(cursor).remaining()) {
            Some((v, k)) => {
                &&& r == Ok::<u32, DecodeError>(v)
                &&& final(cursor).position() == old(cursor).position() + k
            },
            None => {
                &&& r == Err::<u32, DecodeError>(DecodeError::OutOfData)
                &&& final(cursor).position() == old(cursor).position()
            },
        },
{
    let b = match cursor.take(4) {
        Ok(b) => b,
        Err(e) => return Err(e),
    };
    Ok(u32_from_le(&b))
}

/// Decode an eight-byte little-endian amount of the smallest currency
/// unit. On failure the cursor does not move.
pub fn read_amount(cursor: &mut ByteCursor) -> (r: Result<Amount, DecodeError>)
    requires
        old(cursor).wf(),
    ensures
        final(cursor).wf(),
        final(cursor).data() == old(cursor).data(),
        match spec_amount_field(old(cursor).remaining()) {
            Some((v, k)) => {
                &&& r matches Ok(a) && a@ == v
                &&& final(cursor).position() == old(cursor).position() + k
            },
            None => {
                &&& r == Err::<Amount, DecodeError>(DecodeError::OutOfData)
                &&& final(cursor).position() == old(cursor).position()
            },
        },
{
    let b = match cursor.take(8) {
        Ok(b) => b,
        Err(e) => return Err(e),
    };
    Ok(Amount::from_sat(u64_from_le(&b)))
}

/// Decode a thirty-two byte identifier: the wire holds it in one byte
/// order, the rendered text uses the opposite order. On failure the
/// cursor does not move.
pub fn read_txid(cursor: &mut ByteCursor) -> (r: Result<String, DecodeError>)
    requires
        old(cursor).wf(),
    ensures
        final(cursor).wf(),
        final(cursor).data() == old(cursor).data(),
        match spec_txid_field(old(cursor).remaining()) {
            Some((t, k)) => {
                &&& r matches Ok(s) && s@ == t
                &&& final(cursor).position() == old(cursor).position() + k
            },
            None => {
                &&& r == Err::<String, DecodeError>(DecodeError::OutOfData)
                &&& final(cursor).position() == old(cursor).position()
            },
        },
{
    let b = match cursor.take(32) {
        Ok(b) => b,
        Err(e) => return Err(e),
    };
    let mut rev: Vec<u8> = Vec::new();
    let mut i: usize = 0;
    while i < 32
        invariant
            b@.len() == 32,
            i <= 32,
            rev@.len() == i,
            forall|j: int| 0 <= j < i ==> rev@[j] == b@[31 - j],
        decreases 32 - i,
    {
        let x = b[32 - 1 - i];
        rev.push(x);
        i = i + 1;
    }
    proof {
        assert(rev@ =~= rev_bytes(b@));
    }
    Ok(hex_encode(&rev))
}

/// Decode a length-prefixed opaque blob and render it as hexadecimal
/// text: a variable-length count `n`, then exactly `n` bytes. On success
/// the cursor advances by exactly the count encoding plus `n` bytes; on
/// failure it never moves backwards.
pub fn read_script(cursor: &mut ByteCursor) -> (r: Result<String, DecodeError>)
    requires
        old(cursor).wf(),
    ensures
        final(cursor).wf(),
        final(cursor).data() == old(cursor).data(),
        old(cursor).position() <= final(cursor).position(),
        match spec_blob_field(old(cursor).remaining()) {
            Some((blob, k)) => {
                &&& r matches Ok(s) && s@ == hex_of(blob)
                &&& final(cursor).position() == old(cursor).position() + k
            },
            None => r == Err::<String, DecodeError>(DecodeError::OutOfData),
        },
{
    let ghost pre = cursor.remaining();
    let n = match read_compact_size(cursor) {
        Ok(n) => n,
        Err(e) => return Err(e),
    };
    let ghost mid = cursor.remaining();
    let rem = cursor.remaining_len();
    if (rem as u64) < n {
        return Err(DecodeError::OutOfData);
    }
    let b = match cursor.take(n as usize) {
        Ok(b) => b,
        Err(e) => return Err(e),
    };
    proof {
        let k = spec_compact_size(pre)->Some_0.1;
        assert(mid =~= pre.subrange(k, pre.len() as int));
        assert(b@ =~= pre.subrange(k, k + n));
    }
    Ok(hex_encode(&b))
}

} // verus!
