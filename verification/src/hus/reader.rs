//! The reader of HUS and VIP files. The three streams of a file are
//! compressed, and the reader does not decompress: it hands each stream out
//! and goes on when it is given the decompressed bytes.

use crate::error::{
    loadable, ErrorKind, ReadError, ReadErrorView, StructuralError, StructuralErrorView,
};
use crate::hus::attributes::{attributes_outcome, read_attributes, HusVipStitchType};
use crate::hus::coords::{decode_deltas, positions};
use crate::hus::grouping::{convert_stitches, grouped};
use crate::hus::header::PatternHeader;
use crate::pattern::{
    color_groups_view, ColorGroup, ColorGroupView, Pattern, PatternAttribute,
    PatternAttributeView, PatternView, Thread,
};
use crate::source::{rest_after, take_bytes};
use vstd::prelude::*;
use vstd::slice::slice_to_vec;

verus! {

/// The pattern that the three decoded streams give under the title `title`,
/// or the rule that they break: they must hold the same number of elements.
pub open spec fn pattern_outcome(
    title: Seq<char>,
    threads: Seq<Thread>,
    attributes: Seq<HusVipStitchType>,
    x_coords: Seq<i32>,
    y_coords: Seq<i32>,
) -> Result<PatternView, StructuralErrorView> {
    if attributes.len() != x_coords.len() || attributes.len() != y_coords.len() {
        Err(
            StructuralErrorView::StreamLengths {
                attributes: attributes.len(),
                x_coords: x_coords.len(),
                y_coords: y_coords.len(),
            },
        )
    } else {
        Ok(assembled(title, grouped(threads, attributes, x_coords, y_coords)))
    }
}

/// Checks that the three decoded streams hold the same number of elements.
/// It fails exactly if they do not, and then names the three lengths.
pub fn check_aligned(attributes: &[HusVipStitchType], x_coords: &[i32], y_coords: &[i32]) -> (r:
    Result<(), ReadError>)
    ensures
        match r {
            Ok(_) => attributes@.len() == x_coords@.len() && attributes@.len() == y_coords@.len(),
            Err(error) => (attributes@.len() != x_coords@.len() || attributes@.len()
                != y_coords@.len()) && error@ == ReadErrorView::Invariant(
                StructuralErrorView::StreamLengths {
                    attributes: attributes@.len(),
                    x_coords: x_coords@.len(),
                    y_coords: y_coords@.len(),
                },
            ),
        },
{
    if attributes.len() != x_coords.len() || attributes.len() != y_coords.len() {
        Err(
            ReadError::Invariant(
                StructuralError::StreamLengths {
                    attributes: attributes.len(),
                    x_coords: x_coords.len(),
                    y_coords: y_coords.len(),
                },
            ),
        )
    } else {
        Ok(())
    }
}

/// The pattern with the title `title` and the color groups `color_groups`:
/// the title is its name and, unless it is empty, its one attribute.
pub open spec fn assembled(title: Seq<char>, color_groups: Seq<ColorGroupView>) -> PatternView {
    PatternView {
        name: title,
        attributes: if title.len() > 0 {
            seq![PatternAttributeView::Title(title)]
        } else {
            Seq::empty()
        },
        color_groups,
    }
}

/// Puts the pattern together from the title of the header and the grouped
/// stitches.
pub fn assemble(title: String, color_groups: Vec<ColorGroup>) -> (pattern: Pattern)
    ensures
        pattern@ == assembled(title@, color_groups_view(color_groups@)),
        pattern.color_groups == color_groups,
{
    let mut pattern_attrs: Vec<PatternAttribute> = Vec::new();
    if !title.as_str().is_empty() {
        pattern_attrs.push(PatternAttribute::Title(title.clone()));
    }
    let pattern = Pattern { name: title, attributes: pattern_attrs, color_groups };
    assert(pattern@.attributes == assembled(title@, pattern@.color_groups).attributes);
    pattern
}

/// One of the three compressed streams that follow the threads in a file.
#[derive(Clone, Copy, Debug, PartialEq, Eq, Hash, Structural)]
pub enum Stream {
    Attributes,
    XCoords,
    YCoords,
}

/// The bytes of the next compressed stream at the front of `source`: as many
/// as `len` says, or all that is left where it says nothing.
pub open spec fn stream_bytes(source: Seq<u8>, len: Option<usize>) -> Result<
    Seq<u8>,
    ReadErrorView,
> {
    match len {
        Some(len) => if len <= source.len() {
            Ok(source.take(len as int))
        } else {
            Err(ReadErrorView::Truncated)
        },
        None => Ok(source),
    }
}

/// What is left of `source` once a compressed stream was taken from it.
pub open spec fn stream_rest(source: Seq<u8>, len: Option<usize>) -> Seq<u8> {
    match len {
        Some(len) => rest_after(source, len as nat),
        None => Seq::empty(),
    }
}

/// Takes the next compressed stream off the source: exactly `len` bytes, or
/// all that is left where no length is given. A length beyond what is left
/// is refused before anything is copied: the stream that is handed out is
/// never longer than the source.
pub fn compressed_stream(reader: &mut &[u8], len: Option<usize>) -> (r: Result<
    Vec<u8>,
    ReadError,
>)
    ensures
        final(reader)@ == stream_rest(old(reader)@, len),
        match r {
            Ok(compressed) => compressed@.len() <= old(reader)@.len() && stream_bytes(
                old(reader)@,
                len,
            ) == Ok::<Seq<u8>, ReadErrorView>(compressed@),
            Err(error) => stream_bytes(old(reader)@, len) == Err::<Seq<u8>, ReadErrorView>(
                error@,
            ),
        },
{
    let wanted = match len {
        Some(len) => len,
        None => reader.len(),
    };
    assert(len is None ==> reader@.take(wanted as int) == reader@);
    match take_bytes(reader, wanted) {
        Ok(bytes) => Ok(slice_to_vec(bytes)),
        Err(error) => Err(error),
    }
}

/// What the decompressor returned for a stream, over mathematical values:
/// the decompressed bytes, or its diagnostic.
pub open spec fn returned(outcome: Result<Vec<u8>, String>) -> Result<Seq<u8>, Seq<char>> {
    match outcome {
        Ok(payload) => Ok(payload@),
        Err(diagnostic) => Err(diagnostic@),
    }
}

/// What the decode makes of what the decompressor returned: a diagnostic is
/// a decompression failure.
pub open spec fn payload_outcome(returned: Result<Seq<u8>, Seq<char>>) -> Result<
    Seq<u8>,
    ReadErrorView,
> {
    match returned {
        Ok(payload) => Ok(payload),
        Err(diagnostic) => Err(ReadErrorView::Decompression(diagnostic)),
    }
}

/// Takes what the decompressor has made of a stream: its bytes, or its
/// diagnostic as a decompression failure.
pub fn decompressed(outcome: Result<Vec<u8>, String>) -> (r: Result<Vec<u8>, ReadError>)
    ensures
        match r {
            Ok(payload) => outcome == Ok::<Vec<u8>, String>(payload),
            Err(error) => outcome is Err && payload_outcome(returned(outcome)) == Err::<
                Seq<u8>,
                ReadErrorView,
            >(error@),
        },
{
    match outcome {
        Ok(payload) => Ok(payload),
        Err(diagnostic) => Err(ReadError::Decompression(diagnostic)),
    }
}

/// How a stream is compressed: the level of the archive scheme that the
/// decompressor is to be run at.
#[derive(Clone, Copy, Debug, PartialEq, Eq, Hash, Structural)]
pub enum CompressionLevel {
    Level0,
    Level1,
    Level2,
    Level3,
    Level4,
}

/// The level at which the streams of HUS and VIP files are compressed.
pub open spec fn stream_level() -> CompressionLevel {
    CompressionLevel::Level4
}

/// A decode that waits for one of its streams to be decompressed.
#[derive(Clone, Debug, PartialEq, Eq)]
pub struct Decoding {
    pub header: PatternHeader,
    pub threads: Vec<Thread>,
    /// The stream that was handed out to be decompressed.
    pub awaiting: Stream,
    /// The stitch types, once the attribute stream was read.
    pub attributes: Vec<HusVipStitchType>,
    /// The x positions, once the stream of x deltas was read.
    pub x_coords: Vec<i32>,
}

pub struct DecodingView {
    pub header: PatternHeader,
    pub threads: Seq<Thread>,
    pub awaiting: Stream,
    pub attributes: Seq<HusVipStitchType>,
    pub x_coords: Seq<i32>,
}

impl View for Decoding {
    type V = DecodingView;

    open spec fn view(&self) -> DecodingView {
        DecodingView {
            header: self.header,
            threads: self.threads@,
            awaiting: self.awaiting,
            attributes: self.attributes@,
            x_coords: self.x_coords@,
        }
    }
}

/// How far a decode has come.
#[derive(Clone, Debug, PartialEq, Eq)]
pub enum Progress {
    /// The bytes `compressed` are to be decompressed at the level `level`;
    /// the decode goes on when `resume` is given `decoding` and what the
    /// decompressor returned.
    Decompress { decoding: Decoding, compressed: Vec<u8>, level: CompressionLevel },
    /// The pattern is decoded.
    Finished(Pattern),
}

pub enum ProgressView {
    Decompress { decoding: DecodingView, compressed: Seq<u8>, level: CompressionLevel },
    Finished(PatternView),
}

impl View for Progress {
    type V = ProgressView;

    open spec fn view(&self) -> ProgressView {
        match *self {
            Progress::Decompress { decoding, compressed, level } => ProgressView::Decompress {
                decoding: decoding@,
                compressed: compressed@,
                level,
            },
            Progress::Finished(pattern) => ProgressView::Finished(pattern@),
        }
    }
}

/// The request for the stream `stream`: its compressed bytes are taken off
/// `source`, as many as `len` says, and the decode waits for them.
pub open spec fn requested(
    decoding: DecodingView,
    stream: Stream,
    source: Seq<u8>,
    len: Option<usize>,
) -> Result<ProgressView, ReadErrorView> {
    match stream_bytes(source, len) {
        Ok(compressed) => Ok(
            ProgressView::Decompress {
                decoding: DecodingView { awaiting: stream, ..decoding },
                compressed,
                level: stream_level(),
            },
        ),
        Err(error) => Err(error),
    }
}

/// The first step of a decode: the request for the attribute stream, whose
/// length the header gives.
pub open spec fn begun(header: PatternHeader, threads: Seq<Thread>, source: Seq<u8>) -> Result<
    ProgressView,
    ReadErrorView,
> {
    requested(
        DecodingView {
            header,
            threads,
            awaiting: Stream::Attributes,
            attributes: Seq::empty(),
            x_coords: Seq::empty(),
        },
        Stream::Attributes,
        source,
        Some(header.attribute_bytes),
    )
}

/// The next step of the decode `decoding`, which has waited for a stream
/// for which the decompressor has returned `returned`.
///
/// After the attribute stream, which must be accepted, the stream of x
/// deltas is requested with the length that the header gives; after that
/// the stream of y deltas, which is the rest of the source; after that the
/// pattern is put together.
pub open spec fn resumed(
    decoding: DecodingView,
    returned: Result<Seq<u8>, Seq<char>>,
    source: Seq<u8>,
) -> Result<ProgressView, ReadErrorView> {
    match payload_outcome(returned) {
        Err(error) => Err(error),
        Ok(payload) => match decoding.awaiting {
            Stream::Attributes => match attributes_outcome(
                decoding.header.number_of_stitches as nat,
                payload,
            ) {
                Ok(attributes) => requested(
                    DecodingView { attributes, ..decoding },
                    Stream::XCoords,
                    source,
                    Some(decoding.header.x_offset_bytes),
                ),
                Err(broken) => Err(ReadErrorView::Invariant(broken)),
            },
            Stream::XCoords => requested(
                DecodingView { x_coords: positions(payload), ..decoding },
                Stream::YCoords,
                source,
                None,
            ),
            Stream::YCoords => match pattern_outcome(
                decoding.header.title@,
                decoding.threads,
                decoding.attributes,
                decoding.x_coords,
                positions(payload),
            ) {
                Ok(pattern) => Ok(ProgressView::Finished(pattern)),
                Err(broken) => Err(ReadErrorView::Invariant(broken)),
            },
        },
    }
}

/// What is left of `source` after the step: a stream is taken off it only
/// where the step comes to request one.
pub open spec fn resumed_rest(
    decoding: DecodingView,
    returned: Result<Seq<u8>, Seq<char>>,
    source: Seq<u8>,
) -> Seq<u8> {
    match returned {
        Err(_) => source,
        Ok(payload) => match decoding.awaiting {
            Stream::Attributes => if attributes_outcome(
                decoding.header.number_of_stitches as nat,
                payload,
            ) is Ok {
                stream_rest(source, Some(decoding.header.x_offset_bytes))
            } else {
                source
            },
            Stream::XCoords => stream_rest(source, None),
            Stream::YCoords => source,
        },
    }
}

/// The reader of HUS and VIP files.
#[derive(Default)]
pub struct HusVipPatternReader {}

impl HusVipPatternReader {
    /// Whether a source is a file of these formats, judged by the outcome of
    /// reading its header: a header that was read says yes, a format
    /// mismatch says no, and any other error is handed on.
    pub fn is_loadable(&self, header: Result<PatternHeader, ReadError>) -> (r: Result<
        bool,
        ReadError,
    >)
        ensures
            match header {
                Ok(_) => r == Ok::<bool, ReadError>(true),
                Err(error) => if error@.kind() == ErrorKind::FormatMismatch {
                    r == Ok::<bool, ReadError>(false)
                } else {
                    r == Err::<bool, ReadError>(error)
                },
            },
    {
        loadable(header)
    }

    /// Begins to read the pattern that follows the header and the threads in
    /// `item`: takes the compressed attribute stream off the source and asks
    /// for it to be decompressed.
    pub fn read_pattern(
        &self,
        header: PatternHeader,
        threads: Vec<Thread>,
        item: &mut &[u8],
    ) -> (r: Result<Progress, ReadError>)
        ensures
            final(item)@ == stream_rest(old(item)@, Some(header.attribute_bytes)),
            match r {
                Ok(progress) => begun(header, threads@, old(item)@) == Ok::<
                    ProgressView,
                    ReadErrorView,
                >(progress@),
                Err(error) => begun(header, threads@, old(item)@) == Err::<
                    ProgressView,
                    ReadErrorView,
                >(error@),
            },
    {
        let compressed = compressed_stream(item, Some(header.attribute_len()))?;
        Ok(
            Progress::Decompress {
                decoding: Decoding {
                    header,
                    threads,
                    awaiting: Stream::Attributes,
                    attributes: Vec::new(),
                    x_coords: Vec::new(),
                },
                compressed,
                level: CompressionLevel::Level4,
            },
        )
    }

    /// Goes on with a decode that has waited for a stream: `outcome` is what
    /// the decompressor returned for the bytes that were handed out.
    ///
    /// A failure of the decompressor ends the decode. Otherwise the stream
    /// is decoded, and the next stream is taken off `item` and requested,
    /// or, after the last stream, the pattern is put together.
    pub fn resume(
        &self,
        decoding: Decoding,
        outcome: Result<Vec<u8>, String>,
        item: &mut &[u8],
    ) -> (r: Result<Progress, ReadError>)
        ensures
            final(item)@ == resumed_rest(decoding@, returned(outcome), old(item)@),
            match r {
                Ok(progress) => resumed(decoding@, returned(outcome), old(item)@) == Ok::<
                    ProgressView,
                    ReadErrorView,
                >(progress@) && (progress matches Progress::Finished(pattern)
                    ==> pattern.well_formed()),
                Err(error) => resumed(decoding@, returned(outcome), old(item)@) == Err::<
                    ProgressView,
                    ReadErrorView,
                >(error@),
            },
    {
        let payload = decompressed(outcome)?;
        let Decoding { header, threads, awaiting, attributes, x_coords } = decoding;
        match awaiting {
            Stream::Attributes => {
                let attributes = read_attributes(&header, payload.as_slice())?;
                let compressed = compressed_stream(item, Some(header.x_offset_len()))?;
                Ok(
                    Progress::Decompress {
                        decoding: Decoding {
                            header,
                            threads,
                            awaiting: Stream::XCoords,
                            attributes,
                            x_coords,
                        },
                        compressed,
                        level: CompressionLevel::Level4,
                    },
                )
            },
            Stream::XCoords => {
                let x_coords = decode_deltas(payload.as_slice());
                let compressed = compressed_stream(item, None)?;
                Ok(
                    Progress::Decompress {
                        decoding: Decoding {
                            header,
                            threads,
                            awaiting: Stream::YCoords,
                            attributes,
                            x_coords,
                        },
                        compressed,
                        level: CompressionLevel::Level4,
                    },
                )
            },
            Stream::YCoords => {
                let y_coords = decode_deltas(payload.as_slice());
                check_aligned(attributes.as_slice(), x_coords.as_slice(), y_coords.as_slice())?;
                let color_groups = convert_stitches(
                    threads,
                    attributes.as_slice(),
                    x_coords.as_slice(),
                    y_coords.as_slice(),
                );
                Ok(Progress::Finished(assemble(header.title, color_groups)))
            },
        }
    }
}

/// The pattern is put together exactly if the three decoded streams hold
/// the same number of elements; streams that differ in length give the
/// error that names the three lengths, and never a pattern.
pub proof fn lemma_pattern_needs_equal_lengths(
    title: Seq<char>,
    threads: Seq<Thread>,
    attributes: Seq<HusVipStitchType>,
    x_coords: Seq<i32>,
    y_coords: Seq<i32>,
)
    ensures
        pattern_outcome(title, threads, attributes, x_coords, y_coords) is Ok <==> attributes.len()
            == x_coords.len() && attributes.len() == y_coords.len(),
        pattern_outcome(title, threads, attributes, x_coords, y_coords) is Err ==> pattern_outcome(
            title,
            threads,
            attributes,
            x_coords,
            y_coords,
        ) == Err::<PatternView, StructuralErrorView>(
            StructuralErrorView::StreamLengths {
                attributes: attributes.len(),
                x_coords: x_coords.len(),
                y_coords: y_coords.len(),
            },
        ),
{
}

/// What a caller comes to who begins a decode and resumes it each time with
/// what `inflate` makes of the bytes that were handed out, for at most
/// `rounds` rounds.
pub open spec fn driven(
    progress: Result<ProgressView, ReadErrorView>,
    source: Seq<u8>,
    inflate: spec_fn(Seq<u8>, CompressionLevel) -> Result<Seq<u8>, Seq<char>>,
    rounds: nat,
) -> Result<ProgressView, ReadErrorView>
    decreases rounds,
{
    match progress {
        Ok(ProgressView::Decompress { decoding, compressed, level }) => if rounds == 0 {
            progress
        } else {
            driven(
                resumed(decoding, inflate(compressed, level), source),
                resumed_rest(decoding, inflate(compressed, level), source),
                inflate,
                (rounds - 1) as nat,
            )
        },
        _ => progress,
    }
}

/// The pattern that the body of a file gives under the decompressor
/// `inflate`: the attribute stream and the stream of x deltas have the
/// lengths that the header gives, the stream of y deltas is the rest; each
/// is decompressed at the level of these formats and decoded in turn, and
/// the first failure ends the decode.
pub open spec fn decoded(
    header: PatternHeader,
    threads: Seq<Thread>,
    source: Seq<u8>,
    inflate: spec_fn(Seq<u8>, CompressionLevel) -> Result<Seq<u8>, Seq<char>>,
) -> Result<PatternView, ReadErrorView> {
    let attribute_len = header.attribute_bytes as int;
    let x_len = header.x_offset_bytes as int;
    let after_attributes = source.skip(attribute_len);
    let attributes = payload_outcome(inflate(source.take(attribute_len), stream_level()));
    let x_deltas = payload_outcome(inflate(after_attributes.take(x_len), stream_level()));
    let y_deltas = payload_outcome(inflate(after_attributes.skip(x_len), stream_level()));
    if source.len() < attribute_len {
        Err(ReadErrorView::Truncated)
    } else if attributes is Err {
        Err(attributes->Err_0)
    } else if attributes_outcome(header.number_of_stitches as nat, attributes->Ok_0) is Err {
        Err(
            ReadErrorView::Invariant(
                attributes_outcome(header.number_of_stitches as nat, attributes->Ok_0)->Err_0,
            ),
        )
    } else if after_attributes.len() < x_len {
        Err(ReadErrorView::Truncated)
    } else if x_deltas is Err {
        Err(x_deltas->Err_0)
    } else if y_deltas is Err {
        Err(y_deltas->Err_0)
    } else {
        match pattern_outcome(
            header.title@,
            threads,
            attributes_outcome(header.number_of_stitches as nat, attributes->Ok_0)->Ok_0,
            positions(x_deltas->Ok_0),
            positions(y_deltas->Ok_0),
        ) {
            Ok(pattern) => Ok(pattern),
            Err(broken) => Err(ReadErrorView::Invariant(broken)),
        }
    }
}

/// A decode that is begun and resumed three times, each time with what the
/// decompressor makes of the bytes that were handed out, ends with the
/// pattern that the body of the file gives, or with the first failure.
pub proof fn lemma_three_rounds_decode(
    header: PatternHeader,
    threads: Seq<Thread>,
    source: Seq<u8>,
    inflate: spec_fn(Seq<u8>, CompressionLevel) -> Result<Seq<u8>, Seq<char>>,
)
    ensures
        match decoded(header, threads, source, inflate) {
            Ok(pattern) => driven(
                begun(header, threads, source),
                stream_rest(source, Some(header.attribute_bytes)),
                inflate,
                3,
            ) == Ok::<ProgressView, ReadErrorView>(ProgressView::Finished(pattern)),
            Err(error) => driven(
                begun(header, threads, source),
                stream_rest(source, Some(header.attribute_bytes)),
                inflate,
                3,
            ) == Err::<ProgressView, ReadErrorView>(error),
        },
{
    reveal_with_fuel(driven, 4);
}

} // verus!
