//! Tests for the four per-block-type decoders.

use pcapng::ByteReader;
use pcapng::EnhancedPacketBlock;
use pcapng::EnhancedPacketBlockOption;
use pcapng::Error;
use pcapng::FormatError;
use pcapng::InterfaceDescriptionBlock;
use pcapng::InterfaceDescriptionOption;
use pcapng::InterfaceStatisticsBlock;
use pcapng::InterfaceStatisticsOption;
use pcapng::SectionHeaderBlock;
use pcapng::SectionHeaderOption;

fn section_header_prefix(magic: [u8; 4]) -> Vec<u8> {
    let mut bytes = magic.to_vec();
    bytes.extend_from_slice(&[1, 0]); // major = 1
    bytes.extend_from_slice(&[0, 0]); // minor = 0
    bytes.extend_from_slice(&[0xFF; 8]); // section length unspecified
    bytes
}

#[test]
fn section_header_round_trip_with_comment() {
    let mut bytes = section_header_prefix([0x4D, 0x3C, 0x2B, 0x1A]);
    bytes.extend_from_slice(&[1, 0, 4, 0]); // Comment, length 4
    bytes.extend_from_slice(b"test");
    bytes.extend_from_slice(&[0, 0, 0, 0]); // terminator
    let mut r = ByteReader::new(bytes);
    let block = SectionHeaderBlock::read(&mut r).unwrap();
    assert_eq!(block.magic, 0x1A2B3C4D);
    assert_eq!(block.major_version, 1);
    assert_eq!(block.minor_version, 0);
    assert_eq!(block.section_length, u64::MAX);
    assert_eq!(
        block.options,
        vec![SectionHeaderOption::Comment("test".to_string())]
    );
}

#[test]
fn section_header_rejects_wrong_magic() {
    let mut bytes = section_header_prefix([0x1A, 0x2B, 0x3C, 0x4D]);
    bytes.extend_from_slice(&[0, 0, 0, 0]);
    let mut r = ByteReader::new(bytes);
    assert_eq!(
        SectionHeaderBlock::read(&mut r),
        Err(Error::FormatError(FormatError::UnsupportedEndianness))
    );
}

#[test]
fn section_header_rejects_invalid_text() {
    let mut bytes = section_header_prefix([0x4D, 0x3C, 0x2B, 0x1A]);
    bytes.extend_from_slice(&[1, 0, 4, 0]);
    bytes.extend_from_slice(&[0xFF, 0xFE, 0xFD, 0xFC]); // not valid UTF-8
    bytes.extend_from_slice(&[0, 0, 0, 0]);
    let mut r = ByteReader::new(bytes);
    let err = SectionHeaderBlock::read(&mut r).unwrap_err();
    assert_eq!(err, Error::FormatError(FormatError::Utf8Error));
    // Corrupt metadata is distinguishable from an unsupported extension.
    assert_ne!(err, Error::FormatError(FormatError::UnknownOption));
}

#[test]
fn section_header_all_string_options() {
    let mut bytes = section_header_prefix([0x4D, 0x3C, 0x2B, 0x1A]);
    bytes.extend_from_slice(&[2, 0, 2, 0]); // Hardware, length 2, padded
    bytes.extend_from_slice(b"hw");
    bytes.extend_from_slice(&[0, 0]);
    bytes.extend_from_slice(&[3, 0, 5, 0]); // OS, length 5, padded
    bytes.extend_from_slice(b"linux");
    bytes.extend_from_slice(&[0, 0, 0]);
    bytes.extend_from_slice(&[4, 0, 4, 0]); // UserApplication, length 4
    bytes.extend_from_slice(b"dump");
    bytes.extend_from_slice(&[0, 0, 0, 0]); // terminator
    let mut r = ByteReader::new(bytes);
    let block = SectionHeaderBlock::read(&mut r).unwrap();
    assert_eq!(
        block.options,
        vec![
            SectionHeaderOption::Hardware("hw".to_string()),
            SectionHeaderOption::OS("linux".to_string()),
            SectionHeaderOption::UserApplication("dump".to_string()),
        ]
    );
}

#[test]
fn section_header_without_options_bytes() {
    let bytes = section_header_prefix([0x4D, 0x3C, 0x2B, 0x1A]);
    let mut r = ByteReader::new(bytes);
    let block = SectionHeaderBlock::read(&mut r).unwrap();
    assert!(block.options.is_empty());
}

#[test]
fn option_chain_stops_at_exhaustion_without_terminator() {
    let mut bytes = section_header_prefix([0x4D, 0x3C, 0x2B, 0x1A]);
    bytes.extend_from_slice(&[1, 0, 4, 0]);
    bytes.extend_from_slice(b"last");
    let mut r = ByteReader::new(bytes);
    let block = SectionHeaderBlock::read(&mut r).unwrap();
    assert_eq!(
        block.options,
        vec![SectionHeaderOption::Comment("last".to_string())]
    );
}

#[test]
fn option_chain_stops_at_terminator_and_ignores_the_rest() {
    let mut bytes = section_header_prefix([0x4D, 0x3C, 0x2B, 0x1A]);
    bytes.extend_from_slice(&[0, 0, 0, 0]); // terminator
    bytes.extend_from_slice(&[99, 0, 99, 99]); // never looked at
    let mut r = ByteReader::new(bytes);
    let block = SectionHeaderBlock::read(&mut r).unwrap();
    assert!(block.options.is_empty());
    assert_eq!(r.remaining_len(), 4);
}

#[test]
fn interface_description_fixed_fields_and_reserved() {
    let mut bytes = vec![1, 0]; // link type 1
    bytes.extend_from_slice(&[0xEE, 0xEE]); // reserved, consumed unused
    bytes.extend_from_slice(&[0, 4, 0, 0]); // snap_len = 1024
    bytes.extend_from_slice(&[0, 0, 0, 0]);
    let mut r = ByteReader::new(bytes);
    let block = InterfaceDescriptionBlock::read(&mut r).unwrap();
    assert_eq!(block.link_type, 1);
    assert_eq!(block.snap_len, 1024);
    assert!(block.options.is_empty());
}

#[test]
fn interface_description_structured_options() {
    let mut bytes = vec![1, 0, 0, 0, 0xFF, 0xFF, 0, 0];
    bytes.extend_from_slice(&[4, 0, 8, 0]); // Ipv4Addr, length 8
    bytes.extend_from_slice(&[1, 0, 0, 10]); // address 10.0.0.1 little-endian
    bytes.extend_from_slice(&[0, 0, 0xFF, 0xFF]); // netmask
    bytes.extend_from_slice(&[6, 0, 6, 0]); // MacAddr, length 6, padded
    bytes.extend_from_slice(&[1, 2, 3, 4, 5, 6]);
    bytes.extend_from_slice(&[0, 0]);
    bytes.extend_from_slice(&[9, 0, 1, 0]); // TsResolution, length 1, padded
    bytes.push(6);
    bytes.extend_from_slice(&[0, 0, 0]);
    bytes.extend_from_slice(&[2, 0, 4, 0]); // Name, length 4
    bytes.extend_from_slice(b"eth0");
    bytes.extend_from_slice(&[0, 0, 0, 0]); // terminator
    let mut r = ByteReader::new(bytes);
    let block = InterfaceDescriptionBlock::read(&mut r).unwrap();
    assert_eq!(
        block.options,
        vec![
            InterfaceDescriptionOption::Ipv4Addr(0x0A000001, 0xFFFF0000),
            InterfaceDescriptionOption::MacAddr(0x060504030201),
            InterfaceDescriptionOption::TsResolution(6),
            InterfaceDescriptionOption::Name("eth0".to_string()),
        ]
    );
}

#[test]
fn interface_description_rejects_unknown_option() {
    let mut bytes = vec![1, 0, 0, 0, 0xFF, 0xFF, 0, 0];
    bytes.extend_from_slice(&[99, 0, 0, 0]); // option code 99
    bytes.extend_from_slice(&[0, 0, 0, 0]);
    let mut r = ByteReader::new(bytes);
    assert_eq!(
        InterfaceDescriptionBlock::read(&mut r),
        Err(Error::FormatError(FormatError::UnknownOption))
    );
}

#[test]
fn interface_description_short_ipv4_value_is_io_error() {
    let mut bytes = vec![1, 0, 0, 0, 0xFF, 0xFF, 0, 0];
    bytes.extend_from_slice(&[4, 0, 4, 0]); // Ipv4Addr but only 4 value bytes
    bytes.extend_from_slice(&[1, 2, 3, 4]);
    bytes.extend_from_slice(&[0, 0, 0, 0]);
    let mut r = ByteReader::new(bytes);
    assert_eq!(InterfaceDescriptionBlock::read(&mut r), Err(Error::Io));
}

#[test]
fn interface_statistics_counters() {
    let mut bytes = vec![2, 0, 0, 0]; // interface id 2
    bytes.extend_from_slice(&[0, 0, 0, 0, 0, 0, 0, 0]); // timestamp 0
    bytes.extend_from_slice(&[2, 0, 8, 0]); // StartTime
    bytes.extend_from_slice(&[0x10, 0, 0, 0, 0, 0, 0, 0]);
    bytes.extend_from_slice(&[4, 0, 8, 0]); // Received
    bytes.extend_from_slice(&[0x2A, 0, 0, 0, 0, 0, 0, 0]);
    bytes.extend_from_slice(&[8, 0, 8, 0]); // Delivered
    bytes.extend_from_slice(&[0x29, 0, 0, 0, 0, 0, 0, 0]);
    bytes.extend_from_slice(&[0, 0, 0, 0]); // terminator
    let mut r = ByteReader::new(bytes);
    let block = InterfaceStatisticsBlock::read(&mut r).unwrap();
    assert_eq!(block.interface_id, 2);
    assert_eq!(block.timestamp, 0);
    assert_eq!(
        block.options,
        vec![
            InterfaceStatisticsOption::StartTime(0x10),
            InterfaceStatisticsOption::Received(42),
            InterfaceStatisticsOption::Delivered(41),
        ]
    );
}

#[test]
fn interface_statistics_short_counter_is_io_error() {
    let mut bytes = vec![2, 0, 0, 0];
    bytes.extend_from_slice(&[0; 8]);
    bytes.extend_from_slice(&[5, 0, 4, 0]); // Dropped with only 4 value bytes
    bytes.extend_from_slice(&[7, 0, 0, 0]);
    bytes.extend_from_slice(&[0, 0, 0, 0]);
    let mut r = ByteReader::new(bytes);
    assert_eq!(InterfaceStatisticsBlock::read(&mut r), Err(Error::Io));
}

#[test]
fn interface_statistics_rejects_unknown_option() {
    let mut bytes = vec![2, 0, 0, 0];
    bytes.extend_from_slice(&[0; 8]);
    bytes.extend_from_slice(&[9, 0, 0, 0]);
    bytes.extend_from_slice(&[0, 0, 0, 0]);
    let mut r = ByteReader::new(bytes);
    assert_eq!(
        InterfaceStatisticsBlock::read(&mut r),
        Err(Error::FormatError(FormatError::UnknownOption))
    );
}

#[test]
fn enhanced_packet_truncates_padded_data() {
    let mut bytes = vec![3, 0, 0, 0]; // interface id 3
    bytes.extend_from_slice(&[0xD2, 0x02, 0x96, 0x49, 0, 0, 0, 0]); // timestamp
    bytes.extend_from_slice(&[5, 0, 0, 0]); // captured_len = 5
    bytes.extend_from_slice(&[64, 0, 0, 0]); // actual packet length = 64
    bytes.extend_from_slice(b"hello");
    bytes.extend_from_slice(&[0, 0, 0]); // padding
    bytes.extend_from_slice(&[1, 0, 2, 0]); // Comment, length 2, padded
    bytes.extend_from_slice(b"ok");
    bytes.extend_from_slice(&[0, 0]);
    bytes.extend_from_slice(&[0, 0, 0, 0]); // terminator
    let mut r = ByteReader::new(bytes);
    let block = EnhancedPacketBlock::read(&mut r).unwrap();
    assert_eq!(block.interface_id, 3);
    assert_eq!(block.timestamp, 0x499602D2);
    assert_eq!(block.captured_len, 5);
    assert_eq!(block.len, 64);
    assert_eq!(block.data, b"hello".to_vec());
    assert_eq!(
        block.options,
        vec![EnhancedPacketBlockOption::Comment("ok".to_string())]
    );
}

#[test]
fn enhanced_packet_truncated_data_is_io_error() {
    let mut bytes = vec![3, 0, 0, 0];
    bytes.extend_from_slice(&[0; 8]);
    bytes.extend_from_slice(&[16, 0, 0, 0]); // captured_len = 16
    bytes.extend_from_slice(&[16, 0, 0, 0]);
    bytes.extend_from_slice(&[1, 2, 3, 4]); // far fewer than 16 bytes
    let mut r = ByteReader::new(bytes);
    assert_eq!(EnhancedPacketBlock::read(&mut r), Err(Error::Io));
}

#[test]
fn enhanced_packet_rejects_unknown_option() {
    let mut bytes = vec![3, 0, 0, 0];
    bytes.extend_from_slice(&[0; 8]);
    bytes.extend_from_slice(&[0, 0, 0, 0]); // captured_len = 0
    bytes.extend_from_slice(&[0, 0, 0, 0]);
    bytes.extend_from_slice(&[7, 0, 0, 0]); // code 7 is not decoded here
    bytes.extend_from_slice(&[0, 0, 0, 0]);
    let mut r = ByteReader::new(bytes);
    assert_eq!(
        EnhancedPacketBlock::read(&mut r),
        Err(Error::FormatError(FormatError::UnknownOption))
    );
}

#[test]
fn terminator_record_consumes_its_declared_value() {
    let mut bytes = section_header_prefix([0x4D, 0x3C, 0x2B, 0x1A]);
    bytes.extend_from_slice(&[0, 0, 4, 0]); // terminator with a 4-byte value
    bytes.extend_from_slice(&[9, 9, 9, 9]);
    bytes.push(0x55); // one byte after the terminator record
    let mut r = ByteReader::new(bytes);
    let block = SectionHeaderBlock::read(&mut r).unwrap();
    assert!(block.options.is_empty());
    assert_eq!(r.remaining_len(), 1);
}

#[test]
fn format_errors_convert_into_the_unified_error() {
    assert_eq!(
        Error::from(FormatError::UnknownOption),
        Error::FormatError(FormatError::UnknownOption)
    );
    assert_eq!(
        Error::from(FormatError::Utf8Error),
        Error::FormatError(FormatError::Utf8Error)
    );
}

#[test]
fn framer_then_decoder_pipeline() {
    // A complete Section Header block on the wire: envelope around the
    // payload that SectionHeaderBlock::read consumes.
    let mut payload = section_header_prefix([0x4D, 0x3C, 0x2B, 0x1A]);
    payload.extend_from_slice(&[1, 0, 4, 0]);
    payload.extend_from_slice(b"test");
    payload.extend_from_slice(&[0, 0, 0, 0]);
    let total_len = (payload.len() + 12) as u32;
    let mut wire = vec![0x0A, 0x0D, 0x0D, 0x0A]; // section header type tag
    wire.extend_from_slice(&total_len.to_le_bytes());
    wire.extend_from_slice(&payload);
    wire.extend_from_slice(&total_len.to_le_bytes());

    let mut stream = pcapng::ByteReader::new(wire);
    let (block_type, data) = pcapng::read_block(&mut stream).unwrap();
    assert_eq!(block_type, 0x0A0D0D0A);
    assert!(stream.eof());
    let mut payload_reader = pcapng::ByteReader::new(data);
    let block = SectionHeaderBlock::read(&mut payload_reader).unwrap();
    assert_eq!(block.magic, 0x1A2B3C4D);
    assert_eq!(
        block.options,
        vec![SectionHeaderOption::Comment("test".to_string())]
    );
}

#[test]
fn block_union_carries_each_kind() {
    let bytes = section_header_prefix([0x4D, 0x3C, 0x2B, 0x1A]);
    let mut r = ByteReader::new(bytes);
    let section = SectionHeaderBlock::read(&mut r).unwrap();
    let block = pcapng::Block::SectionHeader(section.clone());
    match block {
        pcapng::Block::SectionHeader(inner) => assert_eq!(inner, section),
        _ => panic!("wrong variant"),
    }
}
