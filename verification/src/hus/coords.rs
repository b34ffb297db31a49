//! The coordinate streams of a HUS or VIP file: each byte is a signed step
//! in tenths of a millimeter, and a position is the sum of the steps so far.

use vstd::prelude::*;

verus! {

/// The step that a byte of a coordinate stream stands for: the byte read as
/// a signed 8-bit number.
pub open spec fn delta_of(byte: u8) -> int {
    if byte < 0x80 {
        byte as int
    } else {
        byte as int - 0x100
    }
}

/// The byte that stands for a step.
pub open spec fn byte_of(delta: int) -> int {
    if delta < 0 {
        delta + 0x100
    } else {
        delta
    }
}

/// The sum of the first `n` steps of the stream.
pub open spec fn delta_sum(payload: Seq<u8>, n: nat) -> int
    decreases n,
{
    if n == 0 {
        0
    } else {
        delta_sum(payload, (n - 1) as nat) + delta_of(payload[n - 1])
    }
}

/// The position after the first `n` steps of the stream, starting at zero.
/// A sum that leaves the range of 32 bits wraps around.
pub open spec fn position(payload: Seq<u8>, n: nat) -> i32
    decreases n,
{
    if n == 0 {
        0i32
    } else {
        vstd::wrapping::i32_specs::wrapping_add(
            position(payload, (n - 1) as nat),
            delta_of(payload[n - 1]) as i32,
        )
    }
}

/// The positions that the stream gives: one after each step.
pub open spec fn positions(payload: Seq<u8>) -> Seq<i32> {
    Seq::new(payload.len(), |i: int| position(payload, (i + 1) as nat))
}

/// The step that a byte stands for.
fn step_of(byte: u8) -> (delta: i32)
    ensures
        delta == delta_of(byte),
{
    if byte < 0x80 {
        byte as i32
    } else {
        byte as i32 - 0x100
    }
}

/// Turns the steps of a decompressed coordinate stream into positions: the
/// running sums of the signed bytes, one for each byte.
pub fn decode_deltas(payload: &[u8]) -> (coords: Vec<i32>)
    ensures
        coords@ == positions(payload@),
{
    let mut current: i32 = 0;
    let mut coords: Vec<i32> = Vec::new();
    let mut i: usize = 0;
    while i < payload.len()
        invariant
            i <= payload@.len(),
            current == position(payload@, i as nat),
            coords@.len() == i,
            forall|j: int| 0 <= j < i ==> coords@[j] == position(payload@, (j + 1) as nat),
        decreases payload@.len() - i,
    {
        current = current.wrapping_add(step_of(payload[i]));
        coords.push(current);
        i += 1;
    }
    coords
}

/// The positions are the sums of the steps so far, as long as no such sum
/// leaves the range of 32 bits.
pub proof fn lemma_positions_are_prefix_sums(payload: Seq<u8>)
    requires
        forall|n: nat|
            n <= payload.len() ==> i32::MIN <= #[trigger] delta_sum(payload, n) <= i32::MAX,
    ensures
        forall|i: int|
            0 <= i < payload.len() ==> #[trigger] positions(payload)[i] == delta_sum(
                payload,
                (i + 1) as nat,
            ),
{
    assert forall|i: int| 0 <= i < payload.len() implies #[trigger] positions(payload)[i]
        == delta_sum(payload, (i + 1) as nat) by {
        lemma_position_is_sum(payload, (i + 1) as nat);
    }
}

/// While no sum leaves the range of 32 bits, the position after `n` steps is
/// the sum of these steps.
proof fn lemma_position_is_sum(payload: Seq<u8>, n: nat)
    requires
        n <= payload.len(),
        forall|m: nat|
            m <= payload.len() ==> i32::MIN <= #[trigger] delta_sum(payload, m) <= i32::MAX,
    ensures
        position(payload, n) == delta_sum(payload, n),
    decreases n,
{
    if n > 0 {
        lemma_position_is_sum(payload, (n - 1) as nat);
    }
}

/// No sum of steps is further from zero than 128 for each step.
proof fn lemma_delta_sum_bound(payload: Seq<u8>, n: nat)
    ensures
        -128 * n <= delta_sum(payload, n) <= 127 * n,
    decreases n,
{
    if n > 0 {
        lemma_delta_sum_bound(payload, (n - 1) as nat);
    }
}

/// A stream of at most 2^24 steps has no sum that leaves the range of 32
/// bits: its positions are the sums of its steps.
pub proof fn lemma_short_stream_never_wraps(payload: Seq<u8>)
    requires
        payload.len() <= 0x100_0000,
    ensures
        forall|n: nat|
            n <= payload.len() ==> i32::MIN <= #[trigger] delta_sum(payload, n) <= i32::MAX,
        forall|i: int|
            0 <= i < payload.len() ==> #[trigger] positions(payload)[i] == delta_sum(
                payload,
                (i + 1) as nat,
            ),
{
    assert forall|n: nat| n <= payload.len() implies i32::MIN <= #[trigger] delta_sum(
        payload,
        n,
    ) <= i32::MAX by {
        lemma_delta_sum_bound(payload, n);
    }
    lemma_positions_are_prefix_sums(payload);
}

/// The position before the step at `index`: zero before the first.
pub open spec fn position_before(coords: Seq<i32>, index: int) -> i32 {
    if index == 0 {
        0i32
    } else {
        coords[index - 1]
    }
}

/// Taking the differences of the positions gives the steps back, and with
/// them the bytes of the stream, whether or not a sum has wrapped around.
pub proof fn lemma_differences_give_deltas(payload: Seq<u8>)
    ensures
        forall|i: int|
            0 <= i < payload.len() ==> vstd::wrapping::i32_specs::wrapping_sub(
                #[trigger] positions(payload)[i],
                position_before(positions(payload), i),
            ) == delta_of(payload[i]),
        forall|i: int|
            0 <= i < payload.len() ==> byte_of(delta_of(#[trigger] payload[i])) == payload[i],
{
    assert forall|i: int| 0 <= i < payload.len() implies vstd::wrapping::i32_specs::wrapping_sub(
        #[trigger] positions(payload)[i],
        position_before(positions(payload), i),
    ) == delta_of(payload[i]) by {
        assert(position_before(positions(payload), i) == position(payload, i as nat));
    }
}

} // verus!
