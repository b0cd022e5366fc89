//! Tests for the cursor and the primitive field decoders.

use txdecode::cursor::{ByteCursor, DecodeError};
use txdecode::fields::{read_amount, read_compact_size, read_script, read_txid, read_u32};

#[test]
fn test_read_compact_size() {
    let bytes: Vec<u8> = vec![1];
    let mut cursor = ByteCursor::new(&bytes);
    let count = read_compact_size(&mut cursor).unwrap();
    assert_eq!(count, 1u64);

    let bytes: Vec<u8> = vec![253, 0, 1];
    let mut cursor = ByteCursor::new(&bytes);
    let count = read_compact_size(&mut cursor).unwrap();
    assert_eq!(count, 256u64);

    let bytes: Vec<u8> = vec![254, 0, 0, 1, 0];
    let mut cursor = ByteCursor::new(&bytes);
    let count = read_compact_size(&mut cursor).unwrap();
    assert_eq!(count, 65536u64);

    let bytes: Vec<u8> = vec![255, 0, 0, 0, 0, 0, 0, 0, 1];
    let mut cursor = ByteCursor::new(&bytes);
    let count = read_compact_size(&mut cursor).unwrap();
    assert_eq!(count, 256u64.pow(7));

    let hex_str = "fd204e";
    let decoded = hex::decode(hex_str).unwrap();
    let mut cursor = ByteCursor::new(&decoded);
    let count = read_compact_size(&mut cursor).unwrap();
    let expected_count = 20_000u64;
    assert_eq!(count, expected_count);
}

#[test]
fn compact_size_boundary_values() {
    // The largest one-byte form and the smallest payload forms.
    let bytes: Vec<u8> = vec![252];
    let mut cursor = ByteCursor::new(&bytes);
    assert_eq!(read_compact_size(&mut cursor).unwrap(), 252);

    // A non-minimal encoding of a small value is accepted as it stands.
    let bytes: Vec<u8> = vec![253, 1, 0];
    let mut cursor = ByteCursor::new(&bytes);
    assert_eq!(read_compact_size(&mut cursor).unwrap(), 1);

    let bytes: Vec<u8> = vec![255, 255, 255, 255, 255, 255, 255, 255, 255];
    let mut cursor = ByteCursor::new(&bytes);
    assert_eq!(read_compact_size(&mut cursor).unwrap(), u64::MAX);
}

#[test]
fn take_returns_exact_prefix_and_advances() {
    let bytes: Vec<u8> = vec![10, 20, 30, 40, 50];
    let mut cursor = ByteCursor::new(&bytes);
    assert_eq!(cursor.remaining_len(), 5);
    let first = cursor.take(2).unwrap();
    assert_eq!(first, vec![10, 20]);
    assert_eq!(cursor.remaining_len(), 3);
    let second = cursor.take(3).unwrap();
    assert_eq!(second, vec![30, 40, 50]);
    assert_eq!(cursor.remaining_len(), 0);
}

#[test]
fn take_too_many_fails_without_moving() {
    let bytes: Vec<u8> = vec![1, 2];
    let mut cursor = ByteCursor::new(&bytes);
    assert_eq!(cursor.take(3), Err(DecodeError::OutOfData));
    // The failed read did not consume anything.
    assert_eq!(cursor.remaining_len(), 2);
    assert_eq!(cursor.take(2).unwrap(), vec![1, 2]);
}

#[test]
fn short_read_fails_for_compact_size() {
    let bytes: Vec<u8> = vec![];
    let mut cursor = ByteCursor::new(&bytes);
    assert_eq!(read_compact_size(&mut cursor), Err(DecodeError::OutOfData));

    let bytes: Vec<u8> = vec![253, 0];
    let mut cursor = ByteCursor::new(&bytes);
    assert_eq!(read_compact_size(&mut cursor), Err(DecodeError::OutOfData));

    let bytes: Vec<u8> = vec![254, 0, 0, 1];
    let mut cursor = ByteCursor::new(&bytes);
    assert_eq!(read_compact_size(&mut cursor), Err(DecodeError::OutOfData));

    let bytes: Vec<u8> = vec![255, 0, 0, 0, 0, 0, 0, 1];
    let mut cursor = ByteCursor::new(&bytes);
    assert_eq!(read_compact_size(&mut cursor), Err(DecodeError::OutOfData));
}

#[test]
fn short_read_fails_for_u32() {
    let bytes: Vec<u8> = vec![1, 2, 3];
    let mut cursor = ByteCursor::new(&bytes);
    assert_eq!(read_u32(&mut cursor), Err(DecodeError::OutOfData));
}

#[test]
fn short_read_fails_for_amount() {
    let bytes: Vec<u8> = vec![0, 0, 0, 0, 0, 0, 0];
    let mut cursor = ByteCursor::new(&bytes);
    assert_eq!(read_amount(&mut cursor), Err(DecodeError::OutOfData));
}

#[test]
fn short_read_fails_for_txid() {
    let bytes: Vec<u8> = vec![0; 31];
    let mut cursor = ByteCursor::new(&bytes);
    assert_eq!(read_txid(&mut cursor), Err(DecodeError::OutOfData));
}

#[test]
fn short_read_fails_for_script() {
    // The count promises five bytes but only two follow.
    let bytes: Vec<u8> = vec![5, 1, 2];
    let mut cursor = ByteCursor::new(&bytes);
    assert_eq!(read_script(&mut cursor), Err(DecodeError::OutOfData));
}

#[test]
fn read_u32_is_little_endian() {
    let bytes: Vec<u8> = vec![0x78, 0x56, 0x34, 0x12];
    let mut cursor = ByteCursor::new(&bytes);
    assert_eq!(read_u32(&mut cursor).unwrap(), 0x12345678);
    assert_eq!(cursor.remaining_len(), 0);
}

#[test]
fn read_amount_is_little_endian() {
    let bytes: Vec<u8> = vec![0x40, 0x42, 0x0f, 0, 0, 0, 0, 0];
    let mut cursor = ByteCursor::new(&bytes);
    assert_eq!(read_amount(&mut cursor).unwrap().to_sat(), 1_000_000);
}

#[test]
fn txid_renders_reversed_bytes() {
    let bytes: Vec<u8> = (0u8..32).collect();
    let mut cursor = ByteCursor::new(&bytes);
    let txid = read_txid(&mut cursor).unwrap();
    assert_eq!(
        txid,
        "1f1e1d1c1b1a191817161514131211100f0e0d0c0b0a09080706050403020100"
    );
    // The rendered text is the hex of the input bytes in reverse order.
    let mut reversed = bytes.clone();
    reversed.reverse();
    assert_eq!(txid, hex::encode(&reversed));
    // Round trip: reversing the rendered bytes reproduces the input.
    let mut back = hex::decode(&txid).unwrap();
    back.reverse();
    assert_eq!(back, bytes);
}

#[test]
fn script_decodes_and_consumes_exactly() {
    // One count byte, three script bytes, one trailing byte.
    let bytes: Vec<u8> = vec![3, 0xaa, 0xbb, 0xcc, 0xff];
    let mut cursor = ByteCursor::new(&bytes);
    let script = read_script(&mut cursor).unwrap();
    assert_eq!(script, "aabbcc");
    // Exactly the count encoding plus the script bytes were consumed.
    assert_eq!(cursor.remaining_len(), 1);
}

#[test]
fn script_with_wide_count_consumes_exactly() {
    // A three-byte count encoding of 2, two script bytes, two trailing.
    let bytes: Vec<u8> = vec![253, 2, 0, 0x51, 0x52, 9, 9];
    let mut cursor = ByteCursor::new(&bytes);
    let script = read_script(&mut cursor).unwrap();
    assert_eq!(script, "5152");
    assert_eq!(cursor.remaining_len(), 2);
}

#[test]
fn empty_script_is_allowed() {
    let bytes: Vec<u8> = vec![0, 7];
    let mut cursor = ByteCursor::new(&bytes);
    assert_eq!(read_script(&mut cursor).unwrap(), "");
    assert_eq!(cursor.remaining_len(), 1);
}
