//! The HUS and VIP formats: one attribute byte and two delta bytes for each
//! stitch, in three compressed streams that follow the header and the
//! threads.

pub mod attributes;
pub mod coords;
pub mod grouping;
pub mod header;
pub mod reader;

pub use crate::hus::attributes::{classify, read_attributes, HusVipStitchType};
pub use crate::hus::coords::decode_deltas;
pub use crate::hus::grouping::convert_stitches;
pub use crate::hus::header::PatternHeader;
pub use crate::hus::reader::{
    assemble, check_aligned, compressed_stream, decompressed, CompressionLevel, Decoding,
    HusVipPatternReader, Progress, Stream,
};
