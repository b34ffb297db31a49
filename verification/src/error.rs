//! The errors a decode can end in, the four kinds they fall into, and what a
//! probe makes of them.

use vstd::prelude::*;

verus! {

/// The kind of a [`ReadError`]. A dispatcher that tries several formats goes
/// on to the next one after a `FormatMismatch`; every other kind ends the load.
#[derive(Clone, Copy, Debug, PartialEq, Eq, Structural)]
pub enum ErrorKind {
    FormatMismatch,
    Truncated,
    DecompressionFailure,
    StructuralInvariantViolation,
}

/// A broken rule among the decompressed streams of one pattern.
#[derive(Clone, Debug, PartialEq, Eq)]
pub enum StructuralError {
    /// The header declares one number of stitches and the attribute stream
    /// holds another.
    StitchCount { declared: usize, actual: usize },
    /// The byte at `index` of the attribute stream is no known stitch type.
    UnknownAttribute { index: usize, value: u8 },
    /// The end marker stands at each of `indices`, none of which is the last
    /// position of the attribute stream.
    MisplacedLastStitch { indices: Vec<usize> },
    /// The three streams do not hold the same number of elements.
    StreamLengths { attributes: usize, x_coords: usize, y_coords: usize },
}

/// What a [`StructuralError`] says, over mathematical values.
pub enum StructuralErrorView {
    StitchCount { declared: nat, actual: nat },
    UnknownAttribute { index: nat, value: u8 },
    MisplacedLastStitch { indices: Seq<nat> },
    StreamLengths { attributes: nat, x_coords: nat, y_coords: nat },
}

impl View for StructuralError {
    type V = StructuralErrorView;

    open spec fn view(&self) -> StructuralErrorView {
        match *self {
            StructuralError::StitchCount { declared, actual } => StructuralErrorView::StitchCount {
                declared: declared as nat,
                actual: actual as nat,
            },
            StructuralError::UnknownAttribute { index, value } => {
                StructuralErrorView::UnknownAttribute { index: index as nat, value }
            },
            StructuralError::MisplacedLastStitch { indices } => {
                StructuralErrorView::MisplacedLastStitch {
                    indices: indices@.map_values(|i: usize| i as nat),
                }
            },
            StructuralError::StreamLengths { attributes, x_coords, y_coords } => {
                StructuralErrorView::StreamLengths {
                    attributes: attributes as nat,
                    x_coords: x_coords as nat,
                    y_coords: y_coords as nat,
                }
            },
        }
    }
}

/// Why a decode failed.
#[derive(Clone, Debug, PartialEq, Eq)]
pub enum ReadError {
    /// A magic sequence was read in full and is not the expected one.
    MagicMismatch { expected: Vec<u8>, actual: Vec<u8> },
    /// The code units of the wide string `field` are not valid UTF-16.
    InvalidText { field: String },
    /// The source ended before the bytes that were asked for.
    Truncated,
    /// The decompressor rejected a stream; the string is its diagnostic.
    Decompression(String),
    /// The decompressed streams break one of the pattern's rules.
    Invariant(StructuralError),
}

/// What a [`ReadError`] says, over mathematical values.
pub enum ReadErrorView {
    MagicMismatch { expected: Seq<u8>, actual: Seq<u8> },
    InvalidText { field: Seq<char> },
    Truncated,
    Decompression(Seq<char>),
    Invariant(StructuralErrorView),
}

impl View for ReadError {
    type V = ReadErrorView;

    open spec fn view(&self) -> ReadErrorView {
        match *self {
            ReadError::MagicMismatch { expected, actual } => ReadErrorView::MagicMismatch {
                expected: expected@,
                actual: actual@,
            },
            ReadError::InvalidText { field } => ReadErrorView::InvalidText { field: field@ },
            ReadError::Truncated => ReadErrorView::Truncated,
            ReadError::Decompression(diagnostic) => ReadErrorView::Decompression(diagnostic@),
            ReadError::Invariant(broken) => ReadErrorView::Invariant(broken@),
        }
    }
}

impl ReadErrorView {
    /// The kind of the error: a magic sequence or a text field that does not
    /// fit the format is a format mismatch.
    pub open spec fn kind(self) -> ErrorKind {
        match self {
            ReadErrorView::MagicMismatch { .. } => ErrorKind::FormatMismatch,
            ReadErrorView::InvalidText { .. } => ErrorKind::FormatMismatch,
            ReadErrorView::Truncated => ErrorKind::Truncated,
            ReadErrorView::Decompression(_) => ErrorKind::DecompressionFailure,
            ReadErrorView::Invariant(_) => ErrorKind::StructuralInvariantViolation,
        }
    }
}

impl ReadError {
    /// The kind of this error.
    pub fn kind(&self) -> (kind: ErrorKind)
        ensures
            kind == self@.kind(),
    {
        match self {
            ReadError::MagicMismatch { .. } => ErrorKind::FormatMismatch,
            ReadError::InvalidText { .. } => ErrorKind::FormatMismatch,
            ReadError::Truncated => ErrorKind::Truncated,
            ReadError::Decompression(_) => ErrorKind::DecompressionFailure,
            ReadError::Invariant(_) => ErrorKind::StructuralInvariantViolation,
        }
    }
}

/// What a probe says of a source, given how the read of its header ended:
/// a header that was read says that the source is of the format, a format
/// mismatch that it is not, and any other error is handed on.
pub fn loadable<T>(parsed: Result<T, ReadError>) -> (r: Result<bool, ReadError>)
    ensures
        match parsed {
            Ok(_) => r == Ok::<bool, ReadError>(true),
            Err(error) => if error@.kind() == ErrorKind::FormatMismatch {
                r == Ok::<bool, ReadError>(false)
            } else {
                r == Err::<bool, ReadError>(error)
            },
        },
{
    match parsed {
        Ok(_) => Ok(true),
        Err(error) => match error.kind() {
            ErrorKind::FormatMismatch => Ok(false),
            _ => Err(error),
        },
    }
}

} // verus!
