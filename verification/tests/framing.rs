//! Tests for the alignment helper, the block framer and the raw option
//! cursor.

use pcapng::dword_aligned;
use pcapng::read_block;
use pcapng::read_option;
use pcapng::ByteReader;
use pcapng::Error;
use pcapng::FormatError;

#[test]
fn align4_multiples_are_fixed_points() {
    assert_eq!(dword_aligned(0), 0);
    assert_eq!(dword_aligned(4), 4);
    assert_eq!(dword_aligned(8), 8);
    assert_eq!(dword_aligned(400), 400);
}

#[test]
fn align4_rounds_up_by_less_than_four() {
    assert_eq!(dword_aligned(1), 4);
    assert_eq!(dword_aligned(2), 4);
    assert_eq!(dword_aligned(3), 4);
    assert_eq!(dword_aligned(5), 8);
    assert_eq!(dword_aligned(7), 8);
    assert_eq!(dword_aligned(13), 16);
}

#[test]
fn align4_is_idempotent() {
    for n in 0..64usize {
        assert_eq!(dword_aligned(dword_aligned(n)), dword_aligned(n));
    }
}

#[test]
fn read_block_returns_type_and_truncated_payload() {
    // type 6, total_length 17 = 12 + 5 payload bytes, padded to 8 on the wire.
    let mut bytes = vec![6, 0, 0, 0, 17, 0, 0, 0];
    bytes.extend_from_slice(b"hello");
    bytes.extend_from_slice(&[0, 0, 0]); // padding
    bytes.extend_from_slice(&[17, 0, 0, 0]); // trailing length
    let mut r = ByteReader::new(bytes);
    let (block_type, payload) = read_block(&mut r).unwrap();
    assert_eq!(block_type, 6);
    assert_eq!(payload, b"hello".to_vec());
    assert!(r.eof());
}

#[test]
fn read_block_with_empty_payload() {
    let bytes = vec![1, 0, 0, 0, 12, 0, 0, 0, 12, 0, 0, 0];
    let mut r = ByteReader::new(bytes);
    let (block_type, payload) = read_block(&mut r).unwrap();
    assert_eq!(block_type, 1);
    assert!(payload.is_empty());
}

#[test]
fn read_block_reports_mismatched_trailing_length() {
    let mut bytes = vec![6, 0, 0, 0, 16, 0, 0, 0];
    bytes.extend_from_slice(&[9, 9, 9, 9]); // 4 payload bytes
    bytes.extend_from_slice(&[99, 0, 0, 0]); // trailing length differs
    let mut r = ByteReader::new(bytes);
    assert_eq!(
        read_block(&mut r),
        Err(Error::FormatError(FormatError::LengthMismatch))
    );
}

#[test]
fn read_block_reports_truncated_stream() {
    // declared total_length 32, but only 16 bytes follow the header.
    let mut bytes = vec![6, 0, 0, 0, 32, 0, 0, 0];
    bytes.extend_from_slice(&[0; 8]);
    let mut r = ByteReader::new(bytes);
    assert_eq!(read_block(&mut r), Err(Error::Io));
}

#[test]
fn read_block_rejects_total_length_below_envelope() {
    let bytes = vec![6, 0, 0, 0, 7, 0, 0, 0, 7, 0, 0, 0];
    let mut r = ByteReader::new(bytes);
    assert_eq!(read_block(&mut r), Err(Error::Io));
}

#[test]
fn read_option_consumes_padding_but_exposes_logical_bytes() {
    // code 1, length 5: the value occupies 8 bytes on the wire.
    let mut bytes = vec![1, 0, 5, 0];
    bytes.extend_from_slice(b"abcde");
    bytes.extend_from_slice(&[0, 0, 0]); // padding
    bytes.push(0xAA); // one byte after the record
    let mut r = ByteReader::new(bytes);
    let (code, value) = read_option(&mut r).unwrap();
    assert_eq!(code, 1);
    assert_eq!(value, b"abcde".to_vec());
    assert_eq!(r.remaining_len(), 1);
}

#[test]
fn read_option_reports_short_value() {
    // declared length 6 needs 8 padded bytes; only 4 are present.
    let bytes = vec![1, 0, 6, 0, 1, 2, 3, 4];
    let mut r = ByteReader::new(bytes);
    assert_eq!(read_option(&mut r), Err(Error::Io));
}

#[test]
fn byte_reader_primitives_read_little_endian() {
    let bytes = vec![0x34, 0x12, 0x78, 0x56, 0x34, 0x12, 7];
    let mut r = ByteReader::new(bytes);
    assert_eq!(r.read_le_u16(), Ok(0x1234));
    assert_eq!(r.read_le_u32(), Ok(0x12345678));
    assert!(!r.eof());
    assert_eq!(r.read_byte(), Ok(7));
    assert!(r.eof());
    assert_eq!(r.read_byte(), Err(Error::Io));
}

#[test]
fn byte_reader_short_u64_is_io_error() {
    let mut r = ByteReader::new(vec![1, 2, 3, 4, 5, 6, 7]);
    assert_eq!(r.read_le_u64(), Err(Error::Io));
}
