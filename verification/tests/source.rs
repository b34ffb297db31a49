use embroidery_formats::source::{
    read_i16, read_i32, read_i8, read_u16, read_u32, read_u8, take_bytes, text_field, Endian,
};
use embroidery_formats::error::loadable;
use embroidery_formats::{ErrorKind, ReadError, StructuralError};

#[test]
fn bytes_are_taken_from_the_front() {
    let mut source: &[u8] = &[1, 2, 3, 4];
    assert_eq!(take_bytes(&mut source, 3), Ok(&[1u8, 2, 3][..]));
    assert_eq!(source, &[4]);
    assert_eq!(take_bytes(&mut source, 0), Ok(&[][..]));
    assert_eq!(source, &[4]);
    assert_eq!(take_bytes(&mut source, 2), Err(ReadError::Truncated));
    assert!(source.is_empty());
}

#[test]
fn eight_bit_integers() {
    let mut source: &[u8] = &[0x7F, 0x80, 0xFF, 0x00];
    assert_eq!(read_u8(&mut source), Ok(0x7F));
    assert_eq!(read_u8(&mut source), Ok(0x80));
    assert_eq!(read_i8(&mut source), Ok(-1));
    assert_eq!(read_i8(&mut source), Ok(0));
    assert_eq!(read_i8(&mut source), Err(ReadError::Truncated));
    assert_eq!(read_u8(&mut source), Err(ReadError::Truncated));
    let mut source: &[u8] = &[0x80, 0x7F];
    assert_eq!(read_i8(&mut source), Ok(-128));
    assert_eq!(read_i8(&mut source), Ok(127));
}

#[test]
fn sixteen_bit_integers() {
    let mut source: &[u8] = &[0x12, 0x34, 0x12, 0x34, 0xFF, 0xFE, 0xFF, 0xFE, 0x80, 0x00, 0x09];
    assert_eq!(read_u16(&mut source, Endian::Big), Ok(0x1234));
    assert_eq!(read_u16(&mut source, Endian::Little), Ok(0x3412));
    assert_eq!(read_i16(&mut source, Endian::Big), Ok(-2));
    assert_eq!(read_i16(&mut source, Endian::Little), Ok(-257));
    assert_eq!(read_i16(&mut source, Endian::Big), Ok(-32768));
    assert_eq!(source, &[0x09]);
    assert_eq!(read_u16(&mut source, Endian::Big), Err(ReadError::Truncated));
    assert!(source.is_empty());
    assert_eq!(read_i16(&mut source, Endian::Little), Err(ReadError::Truncated));
}

#[test]
fn thirty_two_bit_integers() {
    let mut source: &[u8] = &[
        0x00, 0x00, 0xF2, 0x30, 0x30, 0xF2, 0x00, 0x00, 0xFF, 0xFF, 0x0D, 0xD0, 0xD0, 0x0D, 0xFF, 0xFF, 0xFF,
        0xFF, 0xFF, 0xFF, 0x01,
    ];
    assert_eq!(read_u32(&mut source, Endian::Big), Ok(62_000));
    assert_eq!(read_u32(&mut source, Endian::Little), Ok(62_000));
    assert_eq!(read_i32(&mut source, Endian::Big), Ok(-62_000));
    assert_eq!(read_i32(&mut source, Endian::Little), Ok(-62_000));
    assert_eq!(read_u32(&mut source, Endian::Little), Ok(u32::MAX));
    assert_eq!(source, &[0x01]);
    assert_eq!(read_i32(&mut source, Endian::Big), Err(ReadError::Truncated));
    assert!(source.is_empty());
    assert_eq!(read_u32(&mut source, Endian::Big), Err(ReadError::Truncated));

    let mut source: &[u8] = &[0x80, 0x00, 0x00, 0x00, 0x7F, 0xFF, 0xFF, 0xFF, 0x01, 0x02, 0x03, 0x04];
    assert_eq!(read_i32(&mut source, Endian::Big), Ok(i32::MIN));
    assert_eq!(read_i32(&mut source, Endian::Big), Ok(i32::MAX));
    assert_eq!(read_u32(&mut source, Endian::Little), Ok(0x0403_0201));
}

#[test]
fn text_field_names_the_field() {
    assert_eq!(text_field(Some("abc".to_string()), "title"), Ok("abc".to_string()));
    assert_eq!(text_field(None, "title"), Err(ReadError::InvalidText { field: "title".to_string() }));
}

#[test]
fn error_kinds() {
    let mismatch = ReadError::MagicMismatch { expected: vec![1], actual: vec![2] };
    assert_eq!(mismatch.kind(), ErrorKind::FormatMismatch);
    assert_eq!(ReadError::InvalidText { field: String::new() }.kind(), ErrorKind::FormatMismatch);
    assert_eq!(ReadError::Truncated.kind(), ErrorKind::Truncated);
    assert_eq!(ReadError::Decompression(String::new()).kind(), ErrorKind::DecompressionFailure);
    let broken = StructuralError::UnknownAttribute { index: 0, value: 0 };
    assert_eq!(ReadError::Invariant(broken).kind(), ErrorKind::StructuralInvariantViolation);
}

#[test]
fn probe_goes_by_the_kind_of_error() {
    assert_eq!(loadable(Ok(5u8)), Ok(true));
    let mismatch = ReadError::MagicMismatch { expected: vec![1], actual: vec![2] };
    assert_eq!(loadable::<u8>(Err(mismatch)), Ok(false));
    assert_eq!(loadable::<u8>(Err(ReadError::Truncated)), Err(ReadError::Truncated));
}
