//! Decoders for embroidery-machine pattern files.
//!
//! Each format is read from a byte source into one canonical model, the
//! [`Pattern`]: color groups of stitch groups of stitches. The crate holds
//! the fixed header of a VP3 file and the stitch streams of HUS and VIP
//! files. It neither decompresses nor does it read files: the caller hands
//! it bytes, and decompresses the streams that the HUS reader asks for.

pub mod error;
pub mod hus;
pub mod pattern;
pub mod source;
pub mod vp3;

pub use crate::error::{ErrorKind, ReadError, StructuralError};
pub use crate::hus::{
    CompressionLevel, Decoding, HusVipPatternReader, HusVipStitchType, PatternHeader, Progress,
    Stream,
};
pub use crate::pattern::{
    Color, ColorGroup, Pattern, PatternAttribute, Stitch, StitchGroup, Thread,
};
pub use crate::vp3::{read_hoop, read_pattern_header, Vp3Header, Vp3Hoop};
