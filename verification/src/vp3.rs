//! The header of a VP3 file: two wide strings, the hoop and the number of
//! threads, held together by fixed magic sequences.

use crate::error::{loadable, ErrorKind, ReadError, ReadErrorView};
use crate::source::{
    i32_value, magic_outcome, read_exact_magic, read_i32, read_u16, read_u32,
    read_wide_string_field, rest_after, u16_value, u32_value, wide_string_outcome,
    wide_string_rest, Endian,
};
use vstd::prelude::*;

verus! {

/// The hoop of a VP3 pattern, every field as the file gives it.
#[derive(Clone, Copy, Debug, PartialEq, Eq, Structural)]
pub struct Vp3Hoop {
    pub right: i32,
    pub bottom: i32,
    pub left: i32,
    pub top: i32,
    /// Of unknown meaning, perhaps the number of stitches; kept as read.
    pub unknown_a: u32,
    /// Of unknown meaning, perhaps the number of threads; kept as read.
    pub unknown_b: u16,
    pub bytes_remaining: usize,
    pub x_offset: i32,
    pub y_offset: i32,
    /// The bounds of the hoop once more, about its center.
    pub right2: i32,
    pub left2: i32,
    pub bottom2: i32,
    pub top2: i32,
    pub width: i32,
    pub height: i32,
}

/// The header of a VP3 file.
#[derive(Clone, Debug, PartialEq, Eq)]
pub struct Vp3Header {
    pub file_comment_string: String,
    pub hoop: Vp3Hoop,
    pub another_software_vendor_string: String,
    pub number_of_threads: usize,
}

pub struct Vp3HeaderView {
    pub file_comment_string: Seq<char>,
    pub hoop: Vp3Hoop,
    pub another_software_vendor_string: Seq<char>,
    pub number_of_threads: nat,
}

impl View for Vp3Header {
    type V = Vp3HeaderView;

    open spec fn view(&self) -> Vp3HeaderView {
        Vp3HeaderView {
            file_comment_string: self.file_comment_string@,
            hoop: self.hoop,
            another_software_vendor_string: self.another_software_vendor_string@,
            number_of_threads: self.number_of_threads as nat,
        }
    }
}

/// The number of bytes that a hoop takes in the file.
pub open spec fn hoop_len() -> nat {
    67
}

/// The magic sequence after the two unknown fields of the hoop.
pub open spec fn hoop_magic() -> Seq<u8> {
    seq![0x0Cu8, 0x00u8, 0x01u8, 0x00u8, 0x03u8, 0x00u8]
}

/// The magic sequence after the offsets of the hoop.
pub open spec fn hoop_padding() -> Seq<u8> {
    seq![0x00u8, 0x00u8, 0x00u8]
}

/// What the bytes at the front of `source` give as a hoop. The fields stand
/// at fixed places; the first field or magic sequence that cannot be read
/// decides the error.
pub open spec fn hoop_outcome(source: Seq<u8>) -> Result<Vp3Hoop, ReadErrorView> {
    if source.len() < 22 {
        Err(ReadErrorView::Truncated)
    } else if magic_outcome(source.skip(22), hoop_magic()) is Err {
        Err(magic_outcome(source.skip(22), hoop_magic())->Err_0)
    } else if source.len() < 40 {
        Err(ReadErrorView::Truncated)
    } else if magic_outcome(source.skip(40), hoop_padding()) is Err {
        Err(magic_outcome(source.skip(40), hoop_padding())->Err_0)
    } else if source.len() < 67 {
        Err(ReadErrorView::Truncated)
    } else {
        Ok(
            Vp3Hoop {
                left: i32_value(source, Endian::Big) as i32,
                top: i32_value(source.skip(4), Endian::Big) as i32,
                right: i32_value(source.skip(8), Endian::Big) as i32,
                bottom: i32_value(source.skip(12), Endian::Big) as i32,
                unknown_a: u32_value(source.skip(16), Endian::Big) as u32,
                unknown_b: u16_value(source.skip(20), Endian::Big) as u16,
                bytes_remaining: u32_value(source.skip(28), Endian::Big) as usize,
                y_offset: i32_value(source.skip(32), Endian::Big) as i32,
                x_offset: i32_value(source.skip(36), Endian::Big) as i32,
                right2: i32_value(source.skip(43), Endian::Big) as i32,
                left2: i32_value(source.skip(47), Endian::Big) as i32,
                bottom2: i32_value(source.skip(51), Endian::Big) as i32,
                top2: i32_value(source.skip(55), Endian::Big) as i32,
                width: i32_value(source.skip(59), Endian::Big) as i32,
                height: i32_value(source.skip(63), Endian::Big) as i32,
            },
        )
    }
}

/// What is left of `source` once the hoop at its front was read, or the read
/// failed: after a magic sequence that does not match, what follows it;
/// after a truncated read, nothing.
pub open spec fn hoop_rest(source: Seq<u8>) -> Seq<u8> {
    match hoop_outcome(source) {
        Ok(_) => source.skip(67),
        Err(ReadErrorView::MagicMismatch { .. }) => if magic_outcome(
            source.skip(22),
            hoop_magic(),
        ) is Err {
            source.skip(28)
        } else {
            source.skip(43)
        },
        Err(_) => Seq::empty(),
    }
}

/// Reads the hoop of a VP3 header.
pub fn read_hoop(reader: &mut &[u8]) -> (r: Result<Vp3Hoop, ReadError>)
    ensures
        final(reader)@ == hoop_rest(old(reader)@),
        match r {
            Ok(hoop) => hoop_outcome(old(reader)@) == Ok::<Vp3Hoop, ReadErrorView>(hoop),
            Err(error) => hoop_outcome(old(reader)@) == Err::<Vp3Hoop, ReadErrorView>(error@),
        },
{
    let ghost source = reader@;
    let left = read_i32(reader, Endian::Big)?;
    let top = read_i32(reader, Endian::Big)?;
    let right = read_i32(reader, Endian::Big)?;
    let bottom = read_i32(reader, Endian::Big)?;
    assert(reader@ == source.skip(16));

    // Probably the number of stitches.
    let unknown_a = read_u32(reader, Endian::Big)?;
    // Probably the number of threads.
    let unknown_b = read_u16(reader, Endian::Big)?;
    assert(reader@ == source.skip(22));

    let magic: [u8; 6] = [0x0C, 0x00, 0x01, 0x00, 0x03, 0x00];
    read_exact_magic(reader, magic.as_slice())?;
    assert(reader@ == source.skip(28));

    let bytes_remaining = read_u32(reader, Endian::Big)?;

    let y_offset = read_i32(reader, Endian::Big)?;
    let x_offset = read_i32(reader, Endian::Big)?;
    assert(reader@ == source.skip(40));

    let padding: [u8; 3] = [0x00, 0x00, 0x00];
    read_exact_magic(reader, padding.as_slice())?;
    assert(reader@ == source.skip(43));

    // The bounds of the hoop about its center.
    let right2 = read_i32(reader, Endian::Big)?;
    let left2 = read_i32(reader, Endian::Big)?;
    let bottom2 = read_i32(reader, Endian::Big)?;
    let top2 = read_i32(reader, Endian::Big)?;
    assert(reader@ == source.skip(59));

    let width = read_i32(reader, Endian::Big)?;
    let height = read_i32(reader, Endian::Big)?;

    Ok(
        Vp3Hoop {
            right,
            bottom,
            left,
            top,
            unknown_a,
            unknown_b,
            bytes_remaining: bytes_remaining as usize,
            x_offset,
            y_offset,
            right2,
            left2,
            bottom2,
            top2,
            width,
            height,
        },
    )
}

/// The magic sequence after the hoop.
pub open spec fn geometry_magic() -> Seq<u8> {
    seq![
        0x00u8, 0x00u8, 0x64u8, 0x64u8, 0x00u8, 0x00u8, 0x10u8, 0x00u8, 0x00u8, 0x00u8,
        0x00u8, 0x00u8, 0x00u8, 0x00u8, 0x00u8, 0x00u8, 0x00u8, 0x00u8, 0x10u8, 0x00u8,
    ]
}

/// The magic sequence before the second vendor string.
pub open spec fn vendor_magic() -> Seq<u8> {
    seq![0x78u8, 0x78u8, 0x50u8, 0x50u8, 0x01u8, 0x00u8]
}

/// What is left of `source` before each field of the header, were every
/// field before it read.
pub struct HeaderLayout {
    pub hoop: Seq<u8>,
    pub geometry_magic: Seq<u8>,
    pub vendor_magic: Seq<u8>,
    pub vendor_string: Seq<u8>,
    pub number_of_threads: Seq<u8>,
}

/// Where the fields of the header at the front of `source` stand.
pub open spec fn header_layout(source: Seq<u8>) -> HeaderLayout {
    let hoop = wide_string_rest(source);
    let geometry_magic = hoop_rest(hoop);
    let vendor_magic = rest_after(geometry_magic, 20);
    let vendor_string = rest_after(vendor_magic, 6);
    let number_of_threads = wide_string_rest(vendor_string);
    HeaderLayout { hoop, geometry_magic, vendor_magic, vendor_string, number_of_threads }
}

/// What the bytes at the front of `source` give as a header: the fields are
/// read in order, and the first that cannot be read decides the error.
pub open spec fn header_outcome(source: Seq<u8>) -> Result<Vp3HeaderView, ReadErrorView> {
    let at = header_layout(source);
    let comment = wide_string_outcome(source, "file_comment_string"@);
    let hoop = hoop_outcome(at.hoop);
    let vendor = wide_string_outcome(at.vendor_string, "another_software_vendor_string"@);
    if comment is Err {
        Err(comment->Err_0)
    } else if hoop is Err {
        Err(hoop->Err_0)
    } else if magic_outcome(at.geometry_magic, geometry_magic()) is Err {
        Err(magic_outcome(at.geometry_magic, geometry_magic())->Err_0)
    } else if magic_outcome(at.vendor_magic, vendor_magic()) is Err {
        Err(magic_outcome(at.vendor_magic, vendor_magic())->Err_0)
    } else if vendor is Err {
        Err(vendor->Err_0)
    } else if at.number_of_threads.len() < 2 {
        Err(ReadErrorView::Truncated)
    } else {
        Ok(
            Vp3HeaderView {
                file_comment_string: comment->Ok_0,
                hoop: hoop->Ok_0,
                another_software_vendor_string: vendor->Ok_0,
                number_of_threads: u16_value(at.number_of_threads, Endian::Big) as nat,
            },
        )
    }
}

/// What is left of `source` once the header at its front was read, or the
/// read failed: what the last field that was tried has left.
pub open spec fn header_rest(source: Seq<u8>) -> Seq<u8> {
    let at = header_layout(source);
    if wide_string_outcome(source, "file_comment_string"@) is Err {
        at.hoop
    } else if hoop_outcome(at.hoop) is Err {
        at.geometry_magic
    } else if magic_outcome(at.geometry_magic, geometry_magic()) is Err {
        at.vendor_magic
    } else if magic_outcome(at.vendor_magic, vendor_magic()) is Err {
        at.vendor_string
    } else if wide_string_outcome(at.vendor_string, "another_software_vendor_string"@) is Err {
        at.number_of_threads
    } else {
        rest_after(at.number_of_threads, 2)
    }
}

/// Reads the header of a VP3 file: the file comment, the hoop, two magic
/// sequences, the second vendor string and the number of threads.
pub fn read_pattern_header(reader: &mut &[u8]) -> (r: Result<Vp3Header, ReadError>)
    ensures
        final(reader)@ == header_rest(old(reader)@),
        match r {
            Ok(header) => header_outcome(old(reader)@) == Ok::<Vp3HeaderView, ReadErrorView>(
                header@,
            ),
            Err(error) => header_outcome(old(reader)@) == Err::<Vp3HeaderView, ReadErrorView>(
                error@,
            ),
        },
{
    let file_comment_string = read_wide_string_field(reader, "file_comment_string")?;

    let hoop = read_hoop(reader)?;

    let geometry: [u8; 20] = [
        0x00, 0x00, 0x64, 0x64, 0x00, 0x00, 0x10, 0x00, 0x00, 0x00, 0x00, 0x00, 0x00, 0x00, 0x00,
        0x00, 0x00, 0x00, 0x10, 0x00,
    ];
    read_exact_magic(reader, geometry.as_slice())?;

    let vendor: [u8; 6] = [0x78, 0x78, 0x50, 0x50, 0x01, 0x00];
    read_exact_magic(reader, vendor.as_slice())?;

    let another_software_vendor_string = read_wide_string_field(
        reader,
        "another_software_vendor_string",
    )?;

    let number_of_threads = read_u16(reader, Endian::Big)?;

    Ok(
        Vp3Header {
            file_comment_string,
            hoop,
            another_software_vendor_string,
            number_of_threads: number_of_threads as usize,
        },
    )
}

/// Whether the source begins with the header of a VP3 file. The source is
/// read as far as the header is, or as the read of the header comes.
pub fn is_loadable(reader: &mut &[u8]) -> (r: Result<bool, ReadError>)
    ensures
        final(reader)@ == header_rest(old(reader)@),
        match header_outcome(old(reader)@) {
            Ok(_) => r == Ok::<bool, ReadError>(true),
            Err(error) => if error.kind() == ErrorKind::FormatMismatch {
                r == Ok::<bool, ReadError>(false)
            } else {
                r matches Err(handed_on) && handed_on@ == error
            },
        },
{
    loadable(read_pattern_header(reader))
}

} // verus!
