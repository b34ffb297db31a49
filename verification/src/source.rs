//! Reading fixed-width fields from a byte source.
//!
//! The source is a slice that shrinks from the front as fields are read. A
//! read that asks for more bytes than are left fails as truncated and leaves
//! the source empty: what was there has been consumed.

use crate::error::{ReadError, ReadErrorView};
use byteorder::{BigEndian, ByteOrder, LittleEndian};
use vstd::prelude::*;
use vstd::slice::{slice_subrange, slice_to_vec};

verus! {

/// The order in which the bytes of a number stand in the source.
#[derive(Clone, Copy, Debug, PartialEq, Eq, Hash, Structural)]
pub enum Endian {
    /// The most significant byte comes first.
    Big,
    /// The least significant byte comes first.
    Little,
}

/// The number that the first two bytes stand for in the given order.
pub open spec fn u16_value(bytes: Seq<u8>, endian: Endian) -> int {
    match endian {
        Endian::Big => bytes[0] as int * 0x100 + bytes[1] as int,
        Endian::Little => bytes[1] as int * 0x100 + bytes[0] as int,
    }
}

/// The number that the first four bytes stand for in the given order.
pub open spec fn u32_value(bytes: Seq<u8>, endian: Endian) -> int {
    match endian {
        Endian::Big => bytes[0] as int * 0x100_0000 + bytes[1] as int * 0x1_0000 + bytes[2] as int
            * 0x100 + bytes[3] as int,
        Endian::Little => bytes[3] as int * 0x100_0000 + bytes[2] as int * 0x1_0000
            + bytes[1] as int * 0x100 + bytes[0] as int,
    }
}

/// The number that the first byte stands for in two's complement.
pub open spec fn i8_value(bytes: Seq<u8>) -> int {
    if bytes[0] >= 0x80 {
        bytes[0] as int - 0x100
    } else {
        bytes[0] as int
    }
}

/// The number that the first two bytes stand for in two's complement.
pub open spec fn i16_value(bytes: Seq<u8>, endian: Endian) -> int {
    if u16_value(bytes, endian) >= 0x8000 {
        u16_value(bytes, endian) - 0x1_0000
    } else {
        u16_value(bytes, endian)
    }
}

/// The number that the first four bytes stand for in two's complement.
pub open spec fn i32_value(bytes: Seq<u8>, endian: Endian) -> int {
    if u32_value(bytes, endian) >= 0x8000_0000 {
        u32_value(bytes, endian) - 0x1_0000_0000
    } else {
        u32_value(bytes, endian)
    }
}

/// What is left of `source` once `n` bytes were asked of it.
pub open spec fn rest_after(source: Seq<u8>, n: nat) -> Seq<u8> {
    if n <= source.len() {
        source.skip(n as int)
    } else {
        Seq::empty()
    }
}

/// `byteorder::BigEndian::read_u16`: the first two bytes of `bytes` as a
/// big-endian number. The call panics on fewer than two bytes.
#[verifier::external_body]
fn big_endian_u16(bytes: &[u8]) -> (value: u16)
    requires
        bytes@.len() >= 2,
    ensures
        value == u16_value(bytes@, Endian::Big),
{
    BigEndian::read_u16(bytes)
}

/// `byteorder::LittleEndian::read_u16`: the first two bytes of `bytes` as a
/// little-endian number. The call panics on fewer than two bytes.
#[verifier::external_body]
fn little_endian_u16(bytes: &[u8]) -> (value: u16)
    requires
        bytes@.len() >= 2,
    ensures
        value == u16_value(bytes@, Endian::Little),
{
    LittleEndian::read_u16(bytes)
}

/// `byteorder::BigEndian::read_i16`: the first two bytes of `bytes` as a
/// big-endian number in two's complement. The call panics on fewer than two
/// bytes.
#[verifier::external_body]
fn big_endian_i16(bytes: &[u8]) -> (value: i16)
    requires
        bytes@.len() >= 2,
    ensures
        value == i16_value(bytes@, Endian::Big),
{
    BigEndian::read_i16(bytes)
}

/// `byteorder::LittleEndian::read_i16`: the first two bytes of `bytes` as a
/// little-endian number in two's complement. The call panics on fewer than
/// two bytes.
#[verifier::external_body]
fn little_endian_i16(bytes: &[u8]) -> (value: i16)
    requires
        bytes@.len() >= 2,
    ensures
        value == i16_value(bytes@, Endian::Little),
{
    LittleEndian::read_i16(bytes)
}

/// `byteorder::BigEndian::read_u32`: the first four bytes of `bytes` as a
/// big-endian number. The call panics on fewer than four bytes.
#[verifier::external_body]
fn big_endian_u32(bytes: &[u8]) -> (value: u32)
    requires
        bytes@.len() >= 4,
    ensures
        value == u32_value(bytes@, Endian::Big),
{
    BigEndian::read_u32(bytes)
}

/// `byteorder::LittleEndian::read_u32`: the first four bytes of `bytes` as a
/// little-endian number. The call panics on fewer than four bytes.
#[verifier::external_body]
fn little_endian_u32(bytes: &[u8]) -> (value: u32)
    requires
        bytes@.len() >= 4,
    ensures
        value == u32_value(bytes@, Endian::Little),
{
    LittleEndian::read_u32(bytes)
}

/// `byteorder::BigEndian::read_i32`: the first four bytes of `bytes` as a
/// big-endian number in two's complement. The call panics on fewer than four
/// bytes.
#[verifier::external_body]
fn big_endian_i32(bytes: &[u8]) -> (value: i32)
    requires
        bytes@.len() >= 4,
    ensures
        value == i32_value(bytes@, Endian::Big),
{
    BigEndian::read_i32(bytes)
}

/// `byteorder::LittleEndian::read_i32`: the first four bytes of `bytes` as a
/// little-endian number in two's complement. The call panics on fewer than
/// four bytes.
#[verifier::external_body]
fn little_endian_i32(bytes: &[u8]) -> (value: i32)
    requires
        bytes@.len() >= 4,
    ensures
        value == i32_value(bytes@, Endian::Little),
{
    LittleEndian::read_i32(bytes)
}

/// Takes the next `n` bytes off the source.
pub fn take_bytes<'a>(reader: &mut &'a [u8], n: usize) -> (r: Result<&'a [u8], ReadError>)
    ensures
        final(reader)@ == rest_after(old(reader)@, n as nat),
        match r {
            Ok(bytes) => n <= old(reader)@.len() && bytes@ == old(reader)@.take(n as int),
            Err(error) => n > old(reader)@.len() && error@ == ReadErrorView::Truncated,
        },
{
    let source: &'a [u8] = *reader;
    if n <= source.len() {
        *reader = slice_subrange(source, n, source.len());
        Ok(slice_subrange(source, 0, n))
    } else {
        *reader = slice_subrange(source, source.len(), source.len());
        Err(ReadError::Truncated)
    }
}

/// Reads an unsigned 8-bit integer.
pub fn read_u8(reader: &mut &[u8]) -> (r: Result<u8, ReadError>)
    ensures
        final(reader)@ == rest_after(old(reader)@, 1),
        match r {
            Ok(value) => 1 <= old(reader)@.len() && value == old(reader)@[0],
            Err(error) => 1 > old(reader)@.len() && error@ == ReadErrorView::Truncated,
        },
{
    match take_bytes(reader, 1) {
        Ok(bytes) => Ok(bytes[0]),
        Err(error) => Err(error),
    }
}

/// Reads a signed 8-bit integer.
pub fn read_i8(reader: &mut &[u8]) -> (r: Result<i8, ReadError>)
    ensures
        final(reader)@ == rest_after(old(reader)@, 1),
        match r {
            Ok(value) => 1 <= old(reader)@.len() && value == i8_value(old(reader)@),
            Err(error) => 1 > old(reader)@.len() && error@ == ReadErrorView::Truncated,
        },
{
    match take_bytes(reader, 1) {
        Ok(bytes) => {
            let byte = bytes[0];
            if byte >= 0x80 {
                Ok((byte as i16 - 0x100) as i8)
            } else {
                Ok(byte as i8)
            }
        },
        Err(error) => Err(error),
    }
}

/// Reads an unsigned 16-bit integer in the given byte order.
pub fn read_u16(reader: &mut &[u8], endian: Endian) -> (r: Result<u16, ReadError>)
    ensures
        final(reader)@ == rest_after(old(reader)@, 2),
        match r {
            Ok(value) => 2 <= old(reader)@.len() && value == u16_value(old(reader)@, endian),
            Err(error) => 2 > old(reader)@.len() && error@ == ReadErrorView::Truncated,
        },
{
    match take_bytes(reader, 2) {
        Ok(bytes) => match endian {
            Endian::Big => Ok(big_endian_u16(bytes)),
            Endian::Little => Ok(little_endian_u16(bytes)),
        },
        Err(error) => Err(error),
    }
}

/// Reads a signed 16-bit integer in the given byte order.
pub fn read_i16(reader: &mut &[u8], endian: Endian) -> (r: Result<i16, ReadError>)
    ensures
        final(reader)@ == rest_after(old(reader)@, 2),
        match r {
            Ok(value) => 2 <= old(reader)@.len() && value == i16_value(old(reader)@, endian),
            Err(error) => 2 > old(reader)@.len() && error@ == ReadErrorView::Truncated,
        },
{
    match take_bytes(reader, 2) {
        Ok(bytes) => match endian {
            Endian::Big => Ok(big_endian_i16(bytes)),
            Endian::Little => Ok(little_endian_i16(bytes)),
        },
        Err(error) => Err(error),
    }
}

/// Reads an unsigned 32-bit integer in the given byte order.
pub fn read_u32(reader: &mut &[u8], endian: Endian) -> (r: Result<u32, ReadError>)
    ensures
        final(reader)@ == rest_after(old(reader)@, 4),
        match r {
            Ok(value) => 4 <= old(reader)@.len() && value == u32_value(old(reader)@, endian),
            Err(error) => 4 > old(reader)@.len() && error@ == ReadErrorView::Truncated,
        },
{
    match take_bytes(reader, 4) {
        Ok(bytes) => match endian {
            Endian::Big => Ok(big_endian_u32(bytes)),
            Endian::Little => Ok(little_endian_u32(bytes)),
        },
        Err(error) => Err(error),
    }
}

/// Reads a signed 32-bit integer in the given byte order.
pub fn read_i32(reader: &mut &[u8], endian: Endian) -> (r: Result<i32, ReadError>)
    ensures
        final(reader)@ == rest_after(old(reader)@, 4),
        match r {
            Ok(value) => 4 <= old(reader)@.len() && value == i32_value(old(reader)@, endian),
            Err(error) => 4 > old(reader)@.len() && error@ == ReadErrorView::Truncated,
        },
{
    match take_bytes(reader, 4) {
        Ok(bytes) => match endian {
            Endian::Big => Ok(big_endian_i32(bytes)),
            Endian::Little => Ok(little_endian_i32(bytes)),
        },
        Err(error) => Err(error),
    }
}

/// Whether two slices hold the same bytes.
fn same_bytes(left: &[u8], right: &[u8]) -> (same: bool)
    ensures
        same == (left@ == right@),
{
    if left.len() != right.len() {
        return false;
    }
    let mut i: usize = 0;
    while i < left.len()
        invariant
            i <= left@.len(),
            left@.len() == right@.len(),
            forall|j: int| 0 <= j < i ==> left@[j] == right@[j],
        decreases left@.len() - i,
    {
        if left[i] != right[i] {
            return false;
        }
        i += 1;
    }
    assert(left@ =~= right@);
    true
}

/// What the check of a magic sequence gives: the next bytes of the source,
/// as many as `expected` holds, must be those of `expected`.
pub open spec fn magic_outcome(source: Seq<u8>, expected: Seq<u8>) -> Result<(), ReadErrorView> {
    if source.len() < expected.len() {
        Err(ReadErrorView::Truncated)
    } else if source.take(expected.len() as int) == expected {
        Ok(())
    } else {
        Err(
            ReadErrorView::MagicMismatch {
                expected,
                actual: source.take(expected.len() as int),
            },
        )
    }
}

/// Reads as many bytes as `expected` holds and checks that they are the
/// same. A mismatch says that the source is not of the format; the error
/// carries both sequences.
pub fn read_exact_magic(reader: &mut &[u8], expected: &[u8]) -> (r: Result<(), ReadError>)
    ensures
        final(reader)@ == rest_after(old(reader)@, expected@.len()),
        match r {
            Ok(done) => magic_outcome(old(reader)@, expected@) == Ok::<(), ReadErrorView>(()),
            Err(error) => magic_outcome(old(reader)@, expected@) == Err::<(), ReadErrorView>(
                error@,
            ),
        },
{
    match take_bytes(reader, expected.len()) {
        Ok(actual) => {
            if same_bytes(actual, expected) {
                Ok(())
            } else {
                Err(
                    ReadError::MagicMismatch {
                        expected: slice_to_vec(expected),
                        actual: slice_to_vec(actual),
                    },
                )
            }
        },
        Err(error) => Err(error),
    }
}

/// The text that UTF-16 code units stand for, if they stand for one.
pub uninterp spec fn utf16_text(units: Seq<u16>) -> Option<Seq<char>>;

/// `String::from_utf16`: the text that the code units encode, and nothing
/// where they are not valid UTF-16.
#[verifier::external_body]
fn decode_utf16(units: &[u16]) -> (decoded: Option<String>)
    ensures
        match decoded {
            Some(text) => utf16_text(units@) == Some(text@),
            None => utf16_text(units@) is None,
        },
{
    String::from_utf16(units).ok()
}

/// The code units of the wide string at the front of `source`: the count
/// field says how many follow it, two bytes each in big-endian order.
pub open spec fn wide_units(source: Seq<u8>) -> Seq<u16> {
    Seq::new(
        u16_value(source, Endian::Big) as nat,
        |i: int| u16_value(source.subrange(2 + 2 * i, 4 + 2 * i), Endian::Big) as u16,
    )
}

/// The source holds the whole wide string at its front: the count field and
/// the code units that it announces.
pub open spec fn wide_string_complete(source: Seq<u8>) -> bool {
    source.len() >= 2 && source.len() >= 2 + 2 * u16_value(source, Endian::Big)
}

/// What is left of `source` once the wide string at its front was read.
pub open spec fn wide_string_rest(source: Seq<u8>) -> Seq<u8> {
    if wide_string_complete(source) {
        source.skip(2 + 2 * u16_value(source, Endian::Big))
    } else {
        Seq::empty()
    }
}

/// Reads the code units of a length-prefixed wide string: a 16-bit count in
/// big-endian order, then that many code units of two bytes each.
pub fn read_wide_units(reader: &mut &[u8]) -> (r: Result<Vec<u16>, ReadError>)
    ensures
        final(reader)@ == wide_string_rest(old(reader)@),
        match r {
            Ok(units) => wide_string_complete(old(reader)@) && units@ == wide_units(
                old(reader)@,
            ),
            Err(error) => !wide_string_complete(old(reader)@) && error@
                == ReadErrorView::Truncated,
        },
{
    let ghost source = reader@;
    let count = match read_u16(reader, Endian::Big) {
        Ok(count) => count as usize,
        Err(error) => {
            return Err(error);
        },
    };
    let bytes = match take_bytes(reader, 2 * count) {
        Ok(bytes) => bytes,
        Err(error) => {
            return Err(error);
        },
    };
    let mut units: Vec<u16> = Vec::new();
    let mut i: usize = 0;
    while i < count
        invariant
            i <= count,
            count == u16_value(source, Endian::Big),
            bytes@ == source.skip(2).take(2 * count),
            source.len() >= 2 + 2 * count,
            units@.len() == i,
            forall|j: int| 0 <= j < i ==> units@[j] == wide_units(source)[j],
        decreases count - i,
    {
        let pair = slice_subrange(bytes, 2 * i, 2 * i + 2);
        units.push(big_endian_u16(pair));
        i += 1;
    }
    Ok(units)
}

/// What decoded code units give as the text field `name`: the text, or the
/// error that names the field.
pub fn text_field(decoded: Option<String>, name: &str) -> (r: Result<String, ReadError>)
    ensures
        match decoded {
            Some(text) => r == Ok::<String, ReadError>(text),
            None => r matches Err(error) && error@ == (ReadErrorView::InvalidText {
                field: name@,
            }),
        },
{
    match decoded {
        Some(text) => Ok(text),
        None => Err(ReadError::InvalidText { field: name.to_owned() }),
    }
}

/// What reading the wide string field `name` at the front of `source` gives.
pub open spec fn wide_string_outcome(source: Seq<u8>, name: Seq<char>) -> Result<
    Seq<char>,
    ReadErrorView,
> {
    if !wide_string_complete(source) {
        Err(ReadErrorView::Truncated)
    } else {
        match utf16_text(wide_units(source)) {
            Some(text) => Ok(text),
            None => Err(ReadErrorView::InvalidText { field: name }),
        }
    }
}

/// Reads a length-prefixed wide string and decodes it as UTF-16. `name`
/// names the field in the error for code units that are no valid text.
pub fn read_wide_string_field(reader: &mut &[u8], name: &str) -> (r: Result<String, ReadError>)
    ensures
        final(reader)@ == wide_string_rest(old(reader)@),
        match r {
            Ok(text) => wide_string_outcome(old(reader)@, name@) == Ok::<
                Seq<char>,
                ReadErrorView,
            >(text@),
            Err(error) => wide_string_outcome(old(reader)@, name@) == Err::<
                Seq<char>,
                ReadErrorView,
            >(error@),
        },
{
    match read_wide_units(reader) {
        Ok(units) => text_field(decode_utf16(units.as_slice()), name),
        Err(error) => Err(error),
    }
}

} // verus!
