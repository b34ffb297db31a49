use embroidery_formats::hus::decode_deltas;
use embroidery_formats::hus::convert_stitches;
use embroidery_formats::hus::{
    assemble, check_aligned, classify, compressed_stream, decompressed, read_attributes,
    CompressionLevel, HusVipPatternReader, PatternHeader, Progress, Stream,
};
use embroidery_formats::{
    Color, ColorGroup, ErrorKind, Pattern, PatternAttribute, ReadError, Stitch, StitchGroup,
    StructuralError, Thread,
};

use embroidery_formats::hus::HusVipStitchType::{ColorChange, Jump, LastStitch, Normal};

fn header(title: &str, stitches: usize, attribute_bytes: usize, x_offset_bytes: usize) -> PatternHeader {
    PatternHeader {
        title: title.to_string(),
        number_of_stitches: stitches,
        attribute_bytes,
        x_offset_bytes,
    }
}

fn thread(name: &str, red: u8) -> Thread {
    Thread {
        color: Color { red, green: 0, blue: 127 },
        name: name.to_string(),
        code: format!("HUS:{}", red),
        manufacturer: None,
        attributes: vec![],
    }
}

fn group(points: &[(i32, i32)]) -> StitchGroup {
    StitchGroup {
        stitches: points.iter().map(|&(x, y)| Stitch { x, y }).collect(),
        cut: true,
        trim: true,
    }
}

fn pack(data: &[u8]) -> Vec<u8> {
    archivelib::do_compress_level(data, archivelib::CompressionLevel::Level4).unwrap().into_vec()
}

fn unpack(data: &[u8], level: CompressionLevel) -> Result<Vec<u8>, String> {
    let level = match level {
        CompressionLevel::Level0 => archivelib::CompressionLevel::Level0,
        CompressionLevel::Level1 => archivelib::CompressionLevel::Level1,
        CompressionLevel::Level2 => archivelib::CompressionLevel::Level2,
        CompressionLevel::Level3 => archivelib::CompressionLevel::Level3,
        CompressionLevel::Level4 => archivelib::CompressionLevel::Level4,
    };
    archivelib::do_decompress_level(data, level).map(|bytes| bytes.into_vec())
}

fn drive(
    header: PatternHeader,
    threads: Vec<Thread>,
    source: &mut &[u8],
    rounds: &mut usize,
) -> Result<Pattern, ReadError> {
    let reader = HusVipPatternReader::default();
    let mut progress = reader.read_pattern(header, threads, source)?;
    loop {
        match progress {
            Progress::Finished(pattern) => return Ok(pattern),
            Progress::Decompress { decoding, compressed, level } => {
                *rounds += 1;
                progress = reader.resume(decoding, unpack(&compressed, level), source)?;
            },
        }
    }
}

#[test]
fn attribute_codes() {
    assert_eq!(classify(0x80), Some(Normal));
    assert_eq!(classify(0x81), Some(Jump));
    assert_eq!(classify(0x84), Some(ColorChange));
    assert_eq!(classify(0x90), Some(LastStitch));
    assert_eq!(classify(0x88), Some(Jump));
    for code in [0x00u8, 0x7F, 0x82, 0x83, 0x85, 0x87, 0x89, 0x8F, 0x91, 0xFF] {
        assert_eq!(classify(code), None, "code {:#x}", code);
    }
}

#[test]
fn attributes_are_classified_in_order() {
    let payload = [0x80, 0x81, 0x80, 0x88, 0x84, 0x80, 0x90];
    assert_eq!(
        read_attributes(&header("", 7, 0, 0), &payload),
        Ok(vec![Normal, Jump, Normal, Jump, ColorChange, Normal, LastStitch])
    );
}

#[test]
fn attributes_need_no_end_marker() {
    assert_eq!(read_attributes(&header("", 2, 0, 0), &[0x80, 0x81]), Ok(vec![Normal, Jump]));
    assert_eq!(read_attributes(&header("", 0, 0, 0), &[]), Ok(vec![]));
    assert_eq!(read_attributes(&header("", 1, 0, 0), &[0x90]), Ok(vec![LastStitch]));
}

#[test]
fn unknown_attribute_names_index_and_value() {
    let payload = [0x80, 0x80, 0x81, 0x7F, 0x80, 0x90];
    let error = read_attributes(&header("", 6, 0, 0), &payload).unwrap_err();
    assert_eq!(
        error,
        ReadError::Invariant(StructuralError::UnknownAttribute { index: 3, value: 0x7F })
    );
    assert_eq!(error.kind(), ErrorKind::StructuralInvariantViolation);
}

#[test]
fn first_unknown_attribute_is_reported() {
    let payload = [0x80, 0x01, 0x02, 0x90];
    assert_eq!(
        read_attributes(&header("", 4, 0, 0), &payload),
        Err(ReadError::Invariant(StructuralError::UnknownAttribute { index: 1, value: 0x01 }))
    );
    // An unknown byte is reported before a misplaced end marker.
    let payload = [0x90, 0x80, 0x03, 0x90];
    assert_eq!(
        read_attributes(&header("", 4, 0, 0), &payload),
        Err(ReadError::Invariant(StructuralError::UnknownAttribute { index: 2, value: 0x03 }))
    );
}

#[test]
fn declared_count_must_be_the_payload_length() {
    let payload = [0x80, 0x80, 0x80, 0x80, 0x80, 0x80, 0x80, 0x90];
    let error = read_attributes(&header("", 10, 0, 0), &payload).unwrap_err();
    assert_eq!(error, ReadError::Invariant(StructuralError::StitchCount { declared: 10, actual: 8 }));
    assert_eq!(error.kind(), ErrorKind::StructuralInvariantViolation);
    // The counts are held against each other before any byte is looked at.
    assert_eq!(
        read_attributes(&header("", 1, 0, 0), &[0x00, 0x00]),
        Err(ReadError::Invariant(StructuralError::StitchCount { declared: 1, actual: 2 }))
    );
}

#[test]
fn misplaced_end_markers_are_listed() {
    let payload = [0x80, 0x90, 0x80, 0x90, 0x90];
    assert_eq!(
        read_attributes(&header("", 5, 0, 0), &payload),
        Err(ReadError::Invariant(StructuralError::MisplacedLastStitch { indices: vec![1, 3] }))
    );
    let payload = [0x90, 0x80];
    assert_eq!(
        read_attributes(&header("", 2, 0, 0), &payload),
        Err(ReadError::Invariant(StructuralError::MisplacedLastStitch { indices: vec![0] }))
    );
    let payload = [0x90, 0x90];
    assert_eq!(
        read_attributes(&header("", 2, 0, 0), &payload),
        Err(ReadError::Invariant(StructuralError::MisplacedLastStitch { indices: vec![0] }))
    );
}

#[test]
fn deltas_are_summed() {
    assert_eq!(decode_deltas(&[0, 1, 5, 2, 9, 0]), vec![0, 1, 6, 8, 17, 17]);
    assert_eq!(decode_deltas(&[]), Vec::<i32>::new());
}

#[test]
fn deltas_are_signed_bytes() {
    assert_eq!(decode_deltas(&[0xFF, 0x80, 0x7F, 0x01, 0x81]), vec![-1, -129, -2, -1, -128]);
    assert_eq!(decode_deltas(&[0x7F, 0x7F, 0x7F]), vec![127, 254, 381]);
    assert_eq!(decode_deltas(&[0x80, 0x80, 0x80]), vec![-128, -256, -384]);
}

#[test]
fn differences_of_positions_give_the_bytes_back() {
    let payload: Vec<u8> = (0..=255u8).chain([0x80, 0x80, 0x7F, 0x00, 0xFF]).collect();
    let coords = decode_deltas(&payload);
    assert_eq!(coords.len(), payload.len());
    let mut before = 0i32;
    let mut sum = 0i64;
    for (i, &coord) in coords.iter().enumerate() {
        sum += i64::from(payload[i] as i8);
        assert_eq!(i64::from(coord), sum);
        let delta = coord.wrapping_sub(before);
        assert_eq!(delta as u8, payload[i]);
        assert_eq!(delta, i32::from(payload[i] as i8));
        before = coord;
    }
}

#[test]
fn a_sum_beyond_32_bits_wraps_around() {
    let payload = vec![0x7Fu8; 16_909_321];
    let coords = decode_deltas(&payload);
    assert_eq!(coords[16_909_319], 2_147_483_640);
    assert_eq!(coords[16_909_320], -2_147_483_529);
    assert_eq!(coords[16_909_320].wrapping_sub(coords[16_909_319]), 127);
}

#[test]
fn jump_then_color_change_then_end() {
    let attributes = [Normal, Normal, Jump, Normal, ColorChange, LastStitch];
    let xs = decode_deltas(&[0, 1, 5, 2, 9, 0]);
    let ys = decode_deltas(&[0, 1, 5, 2, 9, 0]);
    let threads = vec![thread("Dark Blue", 13), thread("Red", 3)];
    let color_groups = convert_stitches(threads, &attributes, &xs, &ys);
    // The color change closes the one color that was stitched, and nothing
    // is stitched between it and the end marker.
    assert_eq!(color_groups.len(), 1);
    let first = &color_groups[0];
    assert_eq!(first.thread, Some(thread("Dark Blue", 13)));
    assert_eq!(first.stitch_groups.len(), 2);
    assert_eq!(first.stitch_groups[0].stitches.len(), 2);
    assert_eq!(first.stitch_groups[1].stitches.len(), 2);
    assert_eq!(first.stitch_groups[0], group(&[(0, 0), (1, 1)]));
    // The second run begins at the point of the jump.
    assert_eq!(first.stitch_groups[1], group(&[(6, 6), (8, 8)]));
    for stitch_group in &first.stitch_groups {
        assert!(stitch_group.cut);
        assert!(stitch_group.trim);
    }
}

#[test]
fn a_stitch_after_the_color_change_opens_a_second_color() {
    let attributes = [Normal, Normal, Jump, Normal, ColorChange, Normal, LastStitch];
    let xs = [0, 1, 6, 8, 17, 20, 20];
    let ys = [0, -1, -6, -8, -17, -20, -20];
    let threads = vec![thread("Dark Blue", 13), thread("Red", 3)];
    assert_eq!(
        convert_stitches(threads, &attributes, &xs, &ys),
        vec![
            ColorGroup {
                thread: Some(thread("Dark Blue", 13)),
                stitch_groups: vec![group(&[(0, 0), (1, -1)]), group(&[(6, -6), (8, -8)])],
            },
            ColorGroup {
                thread: Some(thread("Red", 3)),
                stitch_groups: vec![group(&[(17, -17), (20, -20)])],
            },
        ]
    );
}

#[test]
fn only_the_latest_jump_is_kept() {
    let attributes = [Jump, Jump, ColorChange, Jump, Normal, Normal];
    let xs = [1, 2, 3, 4, 5, 6];
    let ys = [10, 20, 30, 40, 50, 60];
    assert_eq!(
        convert_stitches(vec![], &attributes, &xs, &ys),
        vec![ColorGroup { thread: None, stitch_groups: vec![group(&[(4, 40), (5, 50), (6, 60)])] }]
    );
}

#[test]
fn threads_run_out_and_are_left_over() {
    let attributes = [Normal, ColorChange, Normal, ColorChange, Normal];
    let xs = [1, 2, 3, 4, 5];
    let ys = [1, 2, 3, 4, 5];
    let with_one = convert_stitches(vec![thread("a", 1)], &attributes, &xs, &ys);
    assert_eq!(with_one.len(), 3);
    assert_eq!(with_one[0].thread, Some(thread("a", 1)));
    assert_eq!(with_one[1].thread, None);
    assert_eq!(with_one[2].thread, None);
    assert_eq!(with_one[1].stitch_groups, vec![group(&[(2, 2), (3, 3)])]);
    assert_eq!(with_one[2].stitch_groups, vec![group(&[(4, 4), (5, 5)])]);

    let threads = vec![thread("a", 1), thread("b", 2), thread("c", 3), thread("d", 4)];
    let with_four = convert_stitches(threads, &attributes, &xs, &ys);
    assert_eq!(with_four.len(), 3);
    assert_eq!(with_four[0].thread, Some(thread("a", 1)));
    assert_eq!(with_four[1].thread, Some(thread("b", 2)));
    assert_eq!(with_four[2].thread, Some(thread("c", 3)));
}

#[test]
fn nothing_stitched_gives_no_color_group() {
    assert_eq!(convert_stitches(vec![thread("a", 1)], &[], &[], &[]), vec![]);
    let attributes = [Jump, ColorChange, Jump, LastStitch];
    assert_eq!(convert_stitches(vec![thread("a", 1)], &attributes, &[1, 2, 3, 4], &[1, 2, 3, 4]), vec![]);
    // A stitch after the end marker is not reached.
    let attributes = [LastStitch, Normal, Normal];
    assert_eq!(convert_stitches(vec![], &attributes, &[1, 2, 3], &[1, 2, 3]), vec![]);
}

#[test]
fn the_end_marker_ends_the_pass() {
    let attributes = [Normal, LastStitch, Normal, ColorChange, Normal];
    let xs = [1, 2, 3, 4, 5];
    let ys = [1, 2, 3, 4, 5];
    assert_eq!(
        convert_stitches(vec![], &attributes, &xs, &ys),
        vec![ColorGroup { thread: None, stitch_groups: vec![group(&[(1, 1)])] }]
    );
}

#[test]
fn consecutive_color_changes_close_one_color() {
    let attributes = [Normal, ColorChange, ColorChange, Jump, Normal];
    let xs = [1, 2, 3, 4, 5];
    let ys = [0, 0, 0, 0, 0];
    let color_groups = convert_stitches(vec![thread("a", 1), thread("b", 2)], &attributes, &xs, &ys);
    assert_eq!(
        color_groups,
        vec![
            ColorGroup { thread: Some(thread("a", 1)), stitch_groups: vec![group(&[(1, 0)])] },
            ColorGroup { thread: Some(thread("b", 2)), stitch_groups: vec![group(&[(4, 0), (5, 0)])] },
        ]
    );
}

#[test]
fn grouping_goes_as_far_as_all_streams_reach() {
    let attributes = [Normal, Normal, Normal, Normal];
    assert_eq!(
        convert_stitches(vec![], &attributes, &[1, 2, 3], &[7, 8]),
        vec![ColorGroup { thread: None, stitch_groups: vec![group(&[(1, 7), (2, 8)])] }]
    );
}

#[test]
fn grouping_twice_gives_the_same() {
    let attributes = [Normal, Jump, Normal, ColorChange, Normal, Normal, LastStitch];
    let xs = [3, -4, 5, -6, 7, -8, 9];
    let ys = [1, 1, 2, 3, 5, 8, 13];
    let threads = vec![thread("a", 1), thread("b", 2)];
    let first = convert_stitches(threads.clone(), &attributes, &xs, &ys);
    let second = convert_stitches(threads, &attributes, &xs, &ys);
    assert_eq!(first, second);
    assert_eq!(first.len(), 2);
    assert!(first.iter().all(|color| !color.stitch_groups.is_empty()));
    assert!(first.iter().flat_map(|color| &color.stitch_groups).all(|run| !run.stitches.is_empty()));
}

#[test]
fn streams_of_different_lengths_are_refused() {
    let attributes = [Normal, Normal, LastStitch];
    let error = check_aligned(&attributes, &[1, 2, 3], &[1, 2]).unwrap_err();
    assert_eq!(
        error,
        ReadError::Invariant(StructuralError::StreamLengths { attributes: 3, x_coords: 3, y_coords: 2 })
    );
    assert_eq!(error.kind(), ErrorKind::StructuralInvariantViolation);
    assert_eq!(
        check_aligned(&attributes, &[1, 2, 3, 4], &[1, 2, 3]),
        Err(ReadError::Invariant(StructuralError::StreamLengths { attributes: 3, x_coords: 4, y_coords: 3 }))
    );
    assert_eq!(
        check_aligned(&[], &[1], &[1]),
        Err(ReadError::Invariant(StructuralError::StreamLengths { attributes: 0, x_coords: 1, y_coords: 1 }))
    );
    assert_eq!(check_aligned(&attributes, &[1, 2, 3], &[4, 5, 6]), Ok(()));
    assert_eq!(check_aligned(&[], &[], &[]), Ok(()));
}

#[test]
fn title_becomes_name_and_attribute() {
    let color_groups = vec![ColorGroup {
        thread: Some(thread("a", 1)),
        stitch_groups: vec![group(&[(5, -5)])],
    }];
    assert_eq!(
        assemble("Bird".to_string(), color_groups.clone()),
        Pattern {
            name: "Bird".to_string(),
            attributes: vec![PatternAttribute::Title("Bird".to_string())],
            color_groups,
        }
    );
    assert_eq!(
        assemble(String::new(), vec![]),
        Pattern { name: String::new(), attributes: vec![], color_groups: vec![] }
    );
}

#[test]
fn header_lengths() {
    let header = header("t", 5, 11, 7);
    assert_eq!(header.attribute_len(), 11);
    assert_eq!(header.x_offset_len(), 7);
}

#[test]
fn corrupted_magic_makes_the_prober_say_no() {
    let reader = HusVipPatternReader::default();
    let mut corrupted: &[u8] = &[0x5D, 0xFC, 0x90, 0x00, 0x01];
    let checked = embroidery_formats::source::read_exact_magic(&mut corrupted, &[0x5D, 0xFC, 0x90, 0x01]);
    assert_eq!(
        checked,
        Err(ReadError::MagicMismatch {
            expected: vec![0x5D, 0xFC, 0x90, 0x01],
            actual: vec![0x5D, 0xFC, 0x90, 0x00],
        })
    );
    assert_eq!(reader.is_loadable(checked.map(|_| header("", 0, 0, 0))), Ok(false));
}

#[test]
fn prober_hands_other_errors_on() {
    let reader = HusVipPatternReader::default();
    assert_eq!(reader.is_loadable(Ok(header("x", 1, 2, 3))), Ok(true));
    assert_eq!(
        reader.is_loadable(Err(ReadError::InvalidText { field: "title".to_string() })),
        Ok(false)
    );
    assert_eq!(reader.is_loadable(Err(ReadError::Truncated)), Err(ReadError::Truncated));
    assert_eq!(
        reader.is_loadable(Err(ReadError::Decompression("bad".to_string()))),
        Err(ReadError::Decompression("bad".to_string()))
    );
    let broken = ReadError::Invariant(StructuralError::StitchCount { declared: 1, actual: 2 });
    assert_eq!(reader.is_loadable(Err(broken.clone())), Err(broken));
}

#[test]
fn compressed_stream_takes_a_length_or_the_rest() {
    let mut source: &[u8] = &[1, 2, 3, 4, 5];
    assert_eq!(compressed_stream(&mut source, Some(2)), Ok(vec![1, 2]));
    assert_eq!(source, &[3, 4, 5]);
    assert_eq!(compressed_stream(&mut source, Some(0)), Ok(vec![]));
    assert_eq!(compressed_stream(&mut source, None), Ok(vec![3, 4, 5]));
    assert!(source.is_empty());
    assert_eq!(compressed_stream(&mut source, None), Ok(vec![]));

    let mut source: &[u8] = &[1, 2, 3];
    assert_eq!(compressed_stream(&mut source, Some(4)), Err(ReadError::Truncated));
    assert!(source.is_empty());
}

#[test]
fn decompressor_diagnostic_is_kept() {
    assert_eq!(decompressed(Ok(vec![1, 2])), Ok(vec![1, 2]));
    assert_eq!(
        decompressed(Err("Invariant Failure".to_string())),
        Err(ReadError::Decompression("Invariant Failure".to_string()))
    );
}

#[test]
fn pattern_is_decoded_in_three_rounds() {
    let attributes = pack(&[0x80, 0x80, 0x81, 0x80, 0x84, 0x80, 0x90]);
    let xs = pack(&[0, 1, 5, 2, 9, 3, 0]);
    let ys = pack(&[0, 0xFF, 0xFB, 0xFE, 0xF7, 0xFD, 0]);
    let mut file = attributes.clone();
    file.extend_from_slice(&xs);
    file.extend_from_slice(&ys);
    let mut source = &file[..];
    let mut rounds = 0;
    let pattern = drive(
        header("Star", 7, attributes.len(), xs.len()),
        vec![thread("Red", 3), thread("Dark Blue", 13), thread("Green", 5)],
        &mut source,
        &mut rounds,
    )
    .unwrap();
    assert_eq!(rounds, 3);
    assert!(source.is_empty());
    assert_eq!(
        pattern,
        Pattern {
            name: "Star".to_string(),
            attributes: vec![PatternAttribute::Title("Star".to_string())],
            color_groups: vec![
                ColorGroup {
                    thread: Some(thread("Red", 3)),
                    stitch_groups: vec![group(&[(0, 0), (1, -1)]), group(&[(6, -6), (8, -8)])],
                },
                ColorGroup {
                    thread: Some(thread("Dark Blue", 13)),
                    stitch_groups: vec![group(&[(17, -17), (20, -20)])],
                },
            ],
        }
    );
}

#[test]
fn first_step_asks_for_the_attribute_stream() {
    let reader = HusVipPatternReader::default();
    let mut source: &[u8] = &[9, 8, 7, 6, 5];
    let progress = reader.read_pattern(header("t", 1, 2, 2), vec![thread("a", 1)], &mut source).unwrap();
    assert_eq!(source, &[7, 6, 5]);
    match progress {
        Progress::Decompress { decoding, compressed, level } => {
            assert_eq!(compressed, vec![9, 8]);
            assert_eq!(level, CompressionLevel::Level4);
            assert_eq!(decoding.awaiting, Stream::Attributes);
            assert_eq!(decoding.header, header("t", 1, 2, 2));
            assert_eq!(decoding.threads, vec![thread("a", 1)]);
            assert!(decoding.attributes.is_empty());
            assert!(decoding.x_coords.is_empty());

            let progress = reader.resume(decoding, Ok(vec![0x80]), &mut source).unwrap();
            assert_eq!(source, &[5]);
            match progress {
                Progress::Decompress { decoding, compressed, level } => {
                    assert_eq!(compressed, vec![7, 6]);
                    assert_eq!(level, CompressionLevel::Level4);
                    assert_eq!(decoding.awaiting, Stream::XCoords);
                    assert_eq!(decoding.attributes, vec![Normal]);

                    let progress = reader.resume(decoding, Ok(vec![0xFE]), &mut source).unwrap();
                    assert!(source.is_empty());
                    match progress {
                        Progress::Decompress { decoding, compressed, level } => {
                            assert_eq!(compressed, vec![5]);
                            assert_eq!(level, CompressionLevel::Level4);
                            assert_eq!(decoding.awaiting, Stream::YCoords);
                            assert_eq!(decoding.x_coords, vec![-2]);
                            let done = reader.resume(decoding, Ok(vec![0x03]), &mut source).unwrap();
                            assert_eq!(
                                done,
                                Progress::Finished(Pattern {
                                    name: "t".to_string(),
                                    attributes: vec![PatternAttribute::Title("t".to_string())],
                                    color_groups: vec![ColorGroup {
                                        thread: Some(thread("a", 1)),
                                        stitch_groups: vec![group(&[(-2, 3)])],
                                    }],
                                })
                            );
                        },
                        other => panic!("unexpected {:?}", other),
                    }
                },
                other => panic!("unexpected {:?}", other),
            }
        },
        other => panic!("unexpected {:?}", other),
    }
}

#[test]
fn decode_fails_on_streams_of_different_lengths() {
    let attributes = pack(&[0x80, 0x80, 0x90]);
    let xs = pack(&[1, 2, 3]);
    let ys = pack(&[1, 2]);
    let mut file = attributes.clone();
    file.extend_from_slice(&xs);
    file.extend_from_slice(&ys);
    let mut rounds = 0;
    let outcome = drive(header("", 3, attributes.len(), xs.len()), vec![], &mut &file[..], &mut rounds);
    assert_eq!(
        outcome,
        Err(ReadError::Invariant(StructuralError::StreamLengths { attributes: 3, x_coords: 3, y_coords: 2 }))
    );
    assert_eq!(rounds, 3);
}

#[test]
fn decode_stops_at_the_first_failure() {
    let attributes = pack(&[0x80, 0x42, 0x90]);
    let mut rounds = 0;
    // The attribute stream is refused before the missing coordinate streams are looked for.
    let outcome = drive(header("", 3, attributes.len(), 1000), vec![], &mut &attributes[..], &mut rounds);
    assert_eq!(
        outcome,
        Err(ReadError::Invariant(StructuralError::UnknownAttribute { index: 1, value: 0x42 }))
    );
    assert_eq!(rounds, 1);

    let good = pack(&[0x80, 0x80, 0x90]);
    let mut rounds = 0;
    let outcome = drive(header("", 3, good.len(), 1000), vec![], &mut &good[..], &mut rounds);
    assert_eq!(outcome, Err(ReadError::Truncated));
    assert_eq!(rounds, 1);

    let mut rounds = 0;
    let outcome = drive(header("", 3, good.len() + 1, 0), vec![], &mut &good[..], &mut rounds);
    assert_eq!(outcome, Err(ReadError::Truncated));
    assert_eq!(rounds, 0);

    let mut rounds = 0;
    let outcome = drive(header("", 4, good.len(), 0), vec![], &mut &good[..], &mut rounds);
    assert_eq!(
        outcome,
        Err(ReadError::Invariant(StructuralError::StitchCount { declared: 4, actual: 3 }))
    );
    assert_eq!(rounds, 1);
}

#[test]
fn decompression_failure_ends_the_decode() {
    let reader = HusVipPatternReader::default();
    let mut source: &[u8] = &[1, 2, 3];
    let progress = reader.read_pattern(header("", 0, 1, 1), vec![], &mut source).unwrap();
    match progress {
        Progress::Decompress { decoding, .. } => {
            let outcome = reader.resume(decoding, Err("Binary tree error: Type1".to_string()), &mut source);
            assert_eq!(outcome, Err(ReadError::Decompression("Binary tree error: Type1".to_string())));
            assert_eq!(outcome.unwrap_err().kind(), ErrorKind::DecompressionFailure);
            assert_eq!(source, &[2, 3]);
        },
        other => panic!("unexpected {:?}", other),
    }
}

#[test]
fn corrupt_stream_is_a_decompression_failure() {
    let corrupt = [0x00, 0x01, 0x09, 0x00, 0x00, 0x00, 0x00, 0x00];
    let mut rounds = 0;
    let outcome = drive(header("", 0, corrupt.len(), 0), vec![], &mut &corrupt[..], &mut rounds);
    assert_eq!(outcome, Err(ReadError::Decompression("Binary tree error: Type1".to_string())));
    assert_eq!(rounds, 1);
}
