//! Decoder for the block-based capture container format: length-framed
//! binary records ("blocks"), each optionally followed by a chain of
//! code-length-value ("option") records padded to 32-bit boundaries.
//!
//! The framer in `block` extracts a raw `(type, payload)` pair from a
//! `ByteReader`, the caller dispatches on the type tag, and the matching
//! per-block-type decoder turns the payload into a typed block value,
//! running the generic option cursor of `options` over the trailing option
//! chain. Every decoder's contract equates its result with a spec-level
//! parse of the bytes it was given.

mod align;
mod block;
mod bytes;
mod enhanced_packet;
mod error;
mod interface_description;
mod interface_statistics;
mod options;
mod reader;
mod section_header;
mod text;

pub use align::dword_aligned;
pub use align::lemma_align4_properties;
pub use align::spec_align4;
pub use block::lemma_block_framing;
pub use block::read_block;
pub use block::spec_read_block;
pub use block::Block;
pub use bytes::spec_le_u16;
pub use bytes::spec_le_u32;
pub use bytes::spec_le_u48;
pub use bytes::spec_le_u64;
pub use enhanced_packet::lemma_enhanced_packet_options_follow_raw;
pub use enhanced_packet::spec_enhanced_packet;
pub use enhanced_packet::spec_enhanced_packet_option;
pub use enhanced_packet::spec_enhanced_packet_options;
pub use enhanced_packet::EnhancedPacketBlock;
pub use enhanced_packet::EnhancedPacketBlockOption;
pub use enhanced_packet::EnhancedPacketBlockOptionV;
pub use enhanced_packet::EnhancedPacketBlockV;
pub use error::Error;
pub use error::FormatError;
pub use interface_description::lemma_interface_description_options_follow_raw;
pub use interface_description::spec_interface_description;
pub use interface_description::spec_interface_description_option;
pub use interface_description::spec_interface_description_options;
pub use interface_description::InterfaceDescriptionBlock;
pub use interface_description::InterfaceDescriptionBlockV;
pub use interface_description::InterfaceDescriptionOption;
pub use interface_description::InterfaceDescriptionOptionV;
pub use interface_statistics::lemma_interface_statistics_options_follow_raw;
pub use interface_statistics::spec_interface_statistics;
pub use interface_statistics::spec_interface_statistics_option;
pub use interface_statistics::spec_interface_statistics_options;
pub use interface_statistics::InterfaceStatisticsBlock;
pub use interface_statistics::InterfaceStatisticsBlockV;
pub use interface_statistics::InterfaceStatisticsOption;
pub use interface_statistics::InterfaceStatisticsOptionV;
pub use options::lemma_option_chain_no_terminator;
pub use options::lemma_option_padding;
pub use options::read_option;
pub use options::spec_raw_options;
pub use options::spec_read_option;
pub use reader::ByteReader;
pub use section_header::lemma_section_header_options_follow_raw;
pub use section_header::spec_section_header;
pub use section_header::spec_section_header_option;
pub use section_header::spec_section_header_options;
pub use section_header::SectionHeaderBlock;
pub use section_header::SectionHeaderBlockV;
pub use section_header::SectionHeaderOption;
pub use section_header::SectionHeaderOptionV;
pub use section_header::SECTION_HEADER_MAGIC;
pub use text::utf8_decode;
