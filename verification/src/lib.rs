//! Codec for IEEE C37.118.2 synchrophasor frames: CRC-CCITT integrity
//! checking, prefix and command frame encoding, configuration and data
//! frame parsing, and configuration-driven columnar extraction.

pub mod accessors;
mod bytes_be;
pub mod columnar;
mod crc;
mod errors;
pub mod frame_parser;
pub mod frames;
pub mod measurements;
pub mod names;

pub use crate::bytes_be::be16_at;
pub use crate::bytes_be::be32_at;
pub use crate::bytes_be::u16_be;
pub use crate::bytes_be::u32_be;
pub use crate::crc::calculate_crc;
pub use crate::crc::crc16;
pub use crate::errors::ParseError;
pub use crate::frames::CommandFrame2011;
pub use crate::frames::HeaderFrame2011;
pub use crate::frames::PrefixFrame2011;
