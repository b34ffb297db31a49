//! The attribute stream of a HUS or VIP file: one byte for each stitch,
//! which says what the machine does there.

use crate::error::{ReadError, ReadErrorView, StructuralError, StructuralErrorView};
use crate::hus::header::PatternHeader;
use vstd::prelude::*;

verus! {

/// What the machine does at one element of the stitch streams.
#[derive(Clone, Copy, Debug, PartialEq, Eq, Hash, Structural)]
pub enum HusVipStitchType {
    Normal,
    Jump,
    ColorChange,
    LastStitch,
}

/// The stitch type that an attribute byte stands for. The code 0x88 is known
/// to occur and is read as a jump.
pub open spec fn stitch_type_of(code: u8) -> Option<HusVipStitchType> {
    if code == 0x80 {
        Some(HusVipStitchType::Normal)
    } else if code == 0x81 || code == 0x88 {
        Some(HusVipStitchType::Jump)
    } else if code == 0x84 {
        Some(HusVipStitchType::ColorChange)
    } else if code == 0x90 {
        Some(HusVipStitchType::LastStitch)
    } else {
        None
    }
}

/// The stitch type of an attribute byte, if the byte is a known code.
pub fn classify(code: u8) -> (kind: Option<HusVipStitchType>)
    ensures
        kind == stitch_type_of(code),
{
    match code {
        0x80 => Some(HusVipStitchType::Normal),
        0x81 => Some(HusVipStitchType::Jump),
        0x84 => Some(HusVipStitchType::ColorChange),
        0x90 => Some(HusVipStitchType::LastStitch),
        0x88 => Some(HusVipStitchType::Jump),
        _ => None,
    }
}

/// The byte at `index` is no known code.
pub open spec fn unknown_at(payload: Seq<u8>, index: int) -> bool {
    0 <= index < payload.len() && stitch_type_of(payload[index]) is None
}

/// The first index of `payload` that holds no known code.
pub open spec fn first_unknown(payload: Seq<u8>) -> int {
    choose|index: int|
        unknown_at(payload, index) && forall|before: int|
            0 <= before < index ==> !unknown_at(payload, before)
}

/// The stitch types of the bytes, where every byte is a known code.
pub open spec fn stitch_types(payload: Seq<u8>) -> Seq<HusVipStitchType> {
    payload.map_values(|code: u8| stitch_type_of(code).unwrap())
}

/// The indices below `n` at which the end marker stands, ascending.
pub open spec fn end_markers_below(attributes: Seq<HusVipStitchType>, n: nat) -> Seq<nat>
    decreases n,
{
    if n == 0 {
        Seq::empty()
    } else if attributes[n - 1] == HusVipStitchType::LastStitch {
        end_markers_below(attributes, (n - 1) as nat).push((n - 1) as nat)
    } else {
        end_markers_below(attributes, (n - 1) as nat)
    }
}

/// The indices at which the end marker stands though they are not the last
/// position, ascending.
pub open spec fn misplaced_end_markers(attributes: Seq<HusVipStitchType>) -> Seq<nat> {
    if attributes.len() == 0 {
        Seq::empty()
    } else {
        end_markers_below(attributes, (attributes.len() - 1) as nat)
    }
}

/// What the decompressed attribute stream `payload` gives under a header
/// that declares `declared` stitches: the stitch types, or the first rule
/// that is broken. The count is held against the header first, then every
/// byte must be a known code, then the end marker may only stand last.
pub open spec fn attributes_outcome(declared: nat, payload: Seq<u8>) -> Result<
    Seq<HusVipStitchType>,
    StructuralErrorView,
> {
    if payload.len() != declared {
        Err(StructuralErrorView::StitchCount { declared, actual: payload.len() })
    } else if exists|index: int| unknown_at(payload, index) {
        Err(
            StructuralErrorView::UnknownAttribute {
                index: first_unknown(payload) as nat,
                value: payload[first_unknown(payload)],
            },
        )
    } else if misplaced_end_markers(stitch_types(payload)).len() > 0 {
        Err(
            StructuralErrorView::MisplacedLastStitch {
                indices: misplaced_end_markers(stitch_types(payload)),
            },
        )
    } else {
        Ok(stitch_types(payload))
    }
}

/// The index `index` holds an unknown code and none before it does: it is
/// the first unknown.
proof fn lemma_first_unknown(payload: Seq<u8>, index: int)
    requires
        unknown_at(payload, index),
        forall|before: int| 0 <= before < index ==> !unknown_at(payload, before),
    ensures
        first_unknown(payload) == index,
{
}

/// Classifies the decompressed attribute stream of a pattern and checks it.
///
/// The stream must hold as many bytes as the header declares stitches, every
/// byte must be a known code, and the end marker may stand at the last
/// position only. The error names the two counts, or the first unknown byte
/// with its index, or every index at which an end marker is misplaced.
pub fn read_attributes(header: &PatternHeader, payload: &[u8]) -> (r: Result<
    Vec<HusVipStitchType>,
    ReadError,
>)
    ensures
        match r {
            Ok(attributes) => attributes_outcome(
                header.number_of_stitches as nat,
                payload@,
            ) == Ok::<Seq<HusVipStitchType>, StructuralErrorView>(attributes@),
            Err(error) => error@ matches ReadErrorView::Invariant(broken) && attributes_outcome(
                header.number_of_stitches as nat,
                payload@,
            ) == Err::<Seq<HusVipStitchType>, StructuralErrorView>(broken),
        },
{
    if payload.len() != header.number_of_stitches {
        return Err(
            ReadError::Invariant(
                StructuralError::StitchCount {
                    declared: header.number_of_stitches,
                    actual: payload.len(),
                },
            ),
        );
    }
    let mut attributes: Vec<HusVipStitchType> = Vec::with_capacity(payload.len());
    let mut i: usize = 0;
    while i < payload.len()
        invariant
            i <= payload@.len(),
            payload@.len() == header.number_of_stitches,
            attributes@ == stitch_types(payload@.take(i as int)),
            forall|before: int| 0 <= before < i ==> !unknown_at(payload@, before),
        decreases payload@.len() - i,
    {
        match classify(payload[i]) {
            Some(kind) => {
                attributes.push(kind);
                assert(payload@.take(i + 1) == payload@.take(i as int).push(payload@[i as int]));
            },
            None => {
                proof {
                    lemma_first_unknown(payload@, i as int);
                }
                return Err(
                    ReadError::Invariant(
                        StructuralError::UnknownAttribute { index: i, value: payload[i] },
                    ),
                );
            },
        }
        i += 1;
    }
    assert(payload@.take(i as int) == payload@);
    let mut misplaced: Vec<usize> = Vec::new();
    let last: usize = if attributes.len() > 0 {
        attributes.len() - 1
    } else {
        0
    };
    let mut j: usize = 0;
    while j < last
        invariant
            j <= last,
            last < attributes@.len() || last == 0,
            misplaced@.map_values(|index: usize| index as nat) == end_markers_below(
                attributes@,
                j as nat,
            ),
        decreases last - j,
    {
        match attributes[j] {
            HusVipStitchType::LastStitch => {
                misplaced.push(j);
            },
            _ => {},
        }
        j += 1;
    }
    if misplaced.len() > 0 {
        Err(ReadError::Invariant(StructuralError::MisplacedLastStitch { indices: misplaced }))
    } else {
        Ok(attributes)
    }
}

/// What `end_markers_below` holds: exactly the indices below `n` with an end
/// marker, each once, ascending.
proof fn lemma_end_markers_below(attributes: Seq<HusVipStitchType>, n: nat)
    requires
        n <= attributes.len(),
    ensures
        forall|k: int|
            0 <= k < end_markers_below(attributes, n).len() ==> (#[trigger] end_markers_below(
                attributes,
                n,
            )[k]) < n && attributes[end_markers_below(attributes, n)[k] as int]
                == HusVipStitchType::LastStitch,
        forall|k: int, l: int|
            0 <= k < l < end_markers_below(attributes, n).len() ==> (#[trigger] end_markers_below(
                attributes,
                n,
            )[k]) < (#[trigger] end_markers_below(attributes, n)[l]),
        forall|index: nat|
            index < n && attributes[index as int] == HusVipStitchType::LastStitch
                ==> #[trigger] end_markers_below(attributes, n).contains(index),
    decreases n,
{
    if n > 0 {
        lemma_end_markers_below(attributes, (n - 1) as nat);
        let rest = end_markers_below(attributes, (n - 1) as nat);
        let all = end_markers_below(attributes, n);
        if attributes[n - 1] == HusVipStitchType::LastStitch {
            assert(all[rest.len() as int] == (n - 1) as nat);
            assert forall|index: nat|
                index < n && attributes[index as int]
                    == HusVipStitchType::LastStitch implies #[trigger] all.contains(index) by {
                if index < n - 1 {
                    assert(rest.contains(index));
                    let k = choose|k: int| 0 <= k < rest.len() && rest[k] == index;
                    assert(all[k] == index);
                }
            }
        }
    }
}

/// Below an index that holds an unknown code there is a first such index.
proof fn lemma_first_unknown_exists(payload: Seq<u8>, index: int)
    requires
        unknown_at(payload, index),
    ensures
        unknown_at(payload, first_unknown(payload)),
        first_unknown(payload) <= index,
        forall|before: int| 0 <= before < first_unknown(payload) ==> !unknown_at(payload, before),
    decreases index,
{
    if exists|before: int| 0 <= before < index && unknown_at(payload, before) {
        let before = choose|before: int| 0 <= before < index && unknown_at(payload, before);
        lemma_first_unknown_exists(payload, before);
    } else {
        lemma_first_unknown(payload, index);
    }
}

/// A stream of the declared length that holds an unknown code is refused
/// with the first index that holds one, and the byte that stands there: no
/// index before it holds an unknown code.
pub proof fn lemma_first_unknown_reported(declared: nat, payload: Seq<u8>, index: int)
    requires
        payload.len() == declared,
        unknown_at(payload, index),
    ensures
        attributes_outcome(declared, payload) == Err::<Seq<HusVipStitchType>, StructuralErrorView>(
            StructuralErrorView::UnknownAttribute {
                index: first_unknown(payload) as nat,
                value: payload[first_unknown(payload)],
            },
        ),
        0 <= first_unknown(payload) <= index,
        unknown_at(payload, first_unknown(payload)),
        forall|before: int| 0 <= before < first_unknown(payload) ==> !unknown_at(payload, before),
{
    lemma_first_unknown_exists(payload, index);
}

/// An end marker stands before the last position of the stream.
pub open spec fn end_marker_misplaced(payload: Seq<u8>) -> bool {
    exists|index: int|
        0 <= index < payload.len() - 1 && stitch_type_of(#[trigger] payload[index]) == Some(
            HusVipStitchType::LastStitch,
        )
}

/// Where the attribute stream is accepted, the end marker occurs at most
/// once and only as the last element. Where every byte is a known code and
/// the count is the declared one, but an end marker stands before the last
/// position, the stream is refused with the indices of all such end markers,
/// ascending, the last position not among them.
pub proof fn lemma_end_marker_only_last(declared: nat, payload: Seq<u8>)
    ensures
        attributes_outcome(declared, payload) matches Ok(attributes) ==> forall|index: int|
            0 <= index < attributes.len() && attributes[index] == HusVipStitchType::LastStitch
                ==> index == attributes.len() - 1,
        payload.len() == declared && (forall|index: int| !unknown_at(payload, index))
            && end_marker_misplaced(payload) ==> attributes_outcome(declared, payload) == Err::<
            Seq<HusVipStitchType>,
            StructuralErrorView,
        >(
            StructuralErrorView::MisplacedLastStitch {
                indices: misplaced_end_markers(stitch_types(payload)),
            },
        ),
        forall|index: nat|
            misplaced_end_markers(stitch_types(payload)).contains(index) <==> index + 1
                < payload.len() && stitch_types(payload)[index as int]
                == HusVipStitchType::LastStitch,
        forall|k: int, l: int|
            0 <= k < l < misplaced_end_markers(stitch_types(payload)).len()
                ==> misplaced_end_markers(stitch_types(payload))[k] < misplaced_end_markers(
                stitch_types(payload),
            )[l],
{
    let attributes = stitch_types(payload);
    if attributes.len() > 0 {
        lemma_end_markers_below(attributes, (attributes.len() - 1) as nat);
    }
    let indices = misplaced_end_markers(attributes);
    assert forall|index: nat| indices.contains(index) implies index + 1 < payload.len()
        && attributes[index as int] == HusVipStitchType::LastStitch by {
        let k = choose|k: int| 0 <= k < indices.len() && indices[k] == index;
    }
    if payload.len() == declared && (forall|index: int| !unknown_at(payload, index))
        && end_marker_misplaced(payload) {
        let index = choose|index: int|
            0 <= index < payload.len() - 1 && stitch_type_of(#[trigger] payload[index]) == Some(
                HusVipStitchType::LastStitch,
            );
        assert(attributes[index] == HusVipStitchType::LastStitch);
    }
}

} // verus!
