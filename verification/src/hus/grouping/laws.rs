//! What holds of the result of the grouping pass, whatever the streams.

use crate::hus::attributes::HusVipStitchType;
use crate::hus::grouping::{aligned_len, grouped, run, threaded, threaded_group, Grouping};
use crate::pattern::{
    color_groups_view, stitch_groups_view, ColorGroup, ColorGroupView, Stitch, StitchGroupView,
    Thread,
};
use vstd::prelude::*;

verus! {

impl Grouping {
    /// Every closed run holds a stitch and every closed color a run.
    pub open spec fn closed_hold(self) -> bool {
        &&& forall|g: int|
            0 <= g < self.stitch_groups.len() ==> (#[trigger] self.stitch_groups[g]).len() >= 1
        &&& forall|c: int|
            0 <= c < self.color_groups.len() ==> (#[trigger] self.color_groups[c]).len() >= 1
        &&& forall|c: int, g: int|
            0 <= c < self.color_groups.len() && 0 <= g < self.color_groups[c].len() ==> (
            #[trigger] self.color_groups[c][g]).len() >= 1
    }

    /// Something was stitched: an open run, a closed run or a closed color
    /// is there.
    pub open spec fn holds_stitches(self) -> bool {
        self.stitches.len() > 0 || self.stitch_groups.len() > 0 || self.color_groups.len() > 0
    }
}

/// The element at `index` is a normal stitch that the pass reaches: no end
/// marker stands before it.
pub open spec fn stitched_at(attributes: Seq<HusVipStitchType>, index: int) -> bool {
    &&& 0 <= index < attributes.len()
    &&& attributes[index] == HusVipStitchType::Normal
    &&& forall|j: int| 0 <= j < index ==> attributes[j] != HusVipStitchType::LastStitch
}

/// What holds of the state after any number of elements: the closed runs
/// and colors are not empty, the pass has ended exactly if an end marker was
/// met, and something was stitched exactly if a normal stitch was reached.
proof fn lemma_run_invariant(
    attributes: Seq<HusVipStitchType>,
    x_coords: Seq<i32>,
    y_coords: Seq<i32>,
    n: nat,
)
    requires
        n <= attributes.len(),
    ensures
        run(attributes, x_coords, y_coords, n).closed_hold(),
        run(attributes, x_coords, y_coords, n).ended <==> exists|j: int|
            0 <= j < n && attributes[j] == HusVipStitchType::LastStitch,
        run(attributes, x_coords, y_coords, n).holds_stitches() <==> exists|i: int|
            i < n && stitched_at(attributes, i),
    decreases n,
{
    if n > 0 {
        let before = run(attributes, x_coords, y_coords, (n - 1) as nat);
        lemma_run_invariant(attributes, x_coords, y_coords, (n - 1) as nat);
        if !before.ended && attributes[n - 1] == HusVipStitchType::Normal {
            assert(stitched_at(attributes, n - 1));
        }
    }
}

/// The point that the coordinate streams give at `index`.
pub open spec fn point_at(x_coords: Seq<i32>, y_coords: Seq<i32>, index: int) -> Stitch {
    Stitch { x: x_coords[index], y: y_coords[index] }
}

/// A jump or a color change stands at `index`.
pub open spec fn moves_at(attributes: Seq<HusVipStitchType>, index: int) -> bool {
    0 <= index < attributes.len() && (attributes[index] == HusVipStitchType::Jump
        || attributes[index] == HusVipStitchType::ColorChange)
}

/// The stitches that the first `n` elements of the streams lay down, in
/// order: each normal stitch that the pass reaches gives its point, and
/// before it the point of the jump or color change that stands directly
/// before it.
pub open spec fn laid(
    attributes: Seq<HusVipStitchType>,
    x_coords: Seq<i32>,
    y_coords: Seq<i32>,
    n: nat,
) -> Seq<Stitch>
    decreases n,
{
    if n == 0 {
        Seq::empty()
    } else {
        let before = laid(attributes, x_coords, y_coords, (n - 1) as nat);
        if !stitched_at(attributes, n - 1) {
            before
        } else if moves_at(attributes, n - 2) {
            before.push(point_at(x_coords, y_coords, n - 2)).push(
                point_at(x_coords, y_coords, n - 1),
            )
        } else {
            before.push(point_at(x_coords, y_coords, n - 1))
        }
    }
}

impl Grouping {
    /// All stitches of the state in the order in which they were laid down.
    pub open spec fn all_stitches(self) -> Seq<Stitch> {
        self.color_groups.flatten().flatten() + self.stitch_groups.flatten() + self.stitches
    }
}

/// The stitches of color groups one after the other.
pub open spec fn stitches_of(groups: Seq<ColorGroupView>) -> Seq<Stitch> {
    groups.map_values(
        |color: ColorGroupView|
            color.stitch_groups.map_values(|group: StitchGroupView| group.stitches).flatten(),
    ).flatten()
}

/// Closing the open run or the open color moves no stitch.
proof fn lemma_closing_keeps_stitches(state: Grouping)
    ensures
        state.close_stitches().all_stitches() == state.all_stitches(),
        state.close_color().all_stitches() == state.all_stitches(),
{
    broadcast use Seq::lemma_flatten_push;

    vstd::seq_lib::lemma_flatten_concat(state.color_groups.flatten(), state.stitch_groups);
}

/// After any number of elements the state holds the stitches that these
/// elements lay down, and, while the pass has not ended, the point of a jump
/// or color change exactly if one was the last element.
proof fn lemma_run_lays(
    attributes: Seq<HusVipStitchType>,
    x_coords: Seq<i32>,
    y_coords: Seq<i32>,
    n: nat,
)
    requires
        n <= attributes.len(),
    ensures
        run(attributes, x_coords, y_coords, n).all_stitches() == laid(
            attributes,
            x_coords,
            y_coords,
            n,
        ),
        !run(attributes, x_coords, y_coords, n).ended ==> run(
            attributes,
            x_coords,
            y_coords,
            n,
        ).pending == if moves_at(attributes, n - 1) {
            Some(point_at(x_coords, y_coords, n - 1))
        } else {
            None
        },
    decreases n,
{
    if n > 0 {
        let before = run(attributes, x_coords, y_coords, (n - 1) as nat);
        lemma_run_lays(attributes, x_coords, y_coords, (n - 1) as nat);
        lemma_run_invariant(attributes, x_coords, y_coords, (n - 1) as nat);
        lemma_closing_keeps_stitches(before);
        lemma_closing_keeps_stitches(before.close_stitches());
    }
}

/// The stitches of `colors` one after the other are those of the color
/// groups that `colors` give with any threads.
proof fn lemma_stitches_of_threaded(threads: Seq<Thread>, colors: Seq<Seq<Seq<Stitch>>>)
    ensures
        stitches_of(threaded(threads, colors)) == colors.flatten().flatten(),
    decreases colors.len(),
{
    broadcast use Seq::lemma_flatten_push;

    let per_color = |color: ColorGroupView|
        color.stitch_groups.map_values(|group: StitchGroupView| group.stitches).flatten();
    if colors.len() > 0 {
        let front = colors.drop_last();
        let last = colors.last();
        lemma_stitches_of_threaded(threads, front);
        assert(colors == front.push(last));
        let group = threaded_group(threads, front.len() as int, last);
        assert(group.stitch_groups.map_values(|group: StitchGroupView| group.stitches) == last);
        assert(threaded(threads, colors).map_values(per_color) == threaded(
            threads,
            front,
        ).map_values(per_color).push(last.flatten()));
        vstd::seq_lib::lemma_flatten_concat(front.flatten(), last);
    }
}

/// The stitches of the result, taken one after the other through all color
/// groups and stitch groups, are the stitches that the streams lay down: no
/// stitch is lost, none added or moved, and the point of a jump or color
/// change comes once, directly before the stitch that follows it.
pub proof fn lemma_stitches_in_order(
    threads: Seq<Thread>,
    attributes: Seq<HusVipStitchType>,
    x_coords: Seq<i32>,
    y_coords: Seq<i32>,
)
    ensures
        stitches_of(grouped(threads, attributes, x_coords, y_coords)) == laid(
            attributes,
            x_coords,
            y_coords,
            aligned_len(attributes, x_coords, y_coords),
        ),
{
    let n = aligned_len(attributes, x_coords, y_coords);
    let last = run(attributes, x_coords, y_coords, n);
    lemma_run_lays(attributes, x_coords, y_coords, n);
    lemma_closing_keeps_stitches(last);
    lemma_closing_keeps_stitches(last.close_stitches());
    lemma_stitches_of_threaded(threads, last.finish());
}

/// A run begins at `index`: a normal stitch stands there that the pass
/// reaches and that does not directly follow a normal stitch.
pub open spec fn begins_run(attributes: Seq<HusVipStitchType>, index: int) -> bool {
    stitched_at(attributes, index) && !(index > 0 && attributes[index - 1]
        == HusVipStitchType::Normal)
}

/// A normal stitch stands at `from`, and no color change between it and
/// `index`.
pub open spec fn stitched_without_change(
    attributes: Seq<HusVipStitchType>,
    from: int,
    index: int,
) -> bool {
    &&& 0 <= from < index
    &&& attributes[from] == HusVipStitchType::Normal
    &&& forall|k: int| from < k < index ==> attributes[k] != HusVipStitchType::ColorChange
}

/// Before `index` a normal stitch stands with no color change after it.
pub open spec fn stitched_since_change(attributes: Seq<HusVipStitchType>, index: int) -> bool {
    exists|from: int| #[trigger] stitched_without_change(attributes, from, index)
}

/// A color begins at `index`: a run begins there, and no normal stitch
/// stands before it, or a color change stands after the last one.
pub open spec fn begins_color(attributes: Seq<HusVipStitchType>, index: int) -> bool {
    begins_run(attributes, index) && !stitched_since_change(attributes, index)
}

/// The number of indices below `n` at which a run begins.
pub open spec fn runs_begun(attributes: Seq<HusVipStitchType>, n: nat) -> nat
    decreases n,
{
    if n == 0 {
        0
    } else if begins_run(attributes, n - 1) {
        runs_begun(attributes, (n - 1) as nat) + 1
    } else {
        runs_begun(attributes, (n - 1) as nat)
    }
}

/// The number of indices below `n` at which a color begins.
pub open spec fn colors_begun(attributes: Seq<HusVipStitchType>, n: nat) -> nat
    decreases n,
{
    if n == 0 {
        0
    } else if begins_color(attributes, n - 1) {
        colors_begun(attributes, (n - 1) as nat) + 1
    } else {
        colors_begun(attributes, (n - 1) as nat)
    }
}

impl Grouping {
    /// The number of runs of the state, the open one among them.
    pub open spec fn run_count(self) -> nat {
        self.color_groups.flatten().len() + self.stitch_groups.len() + if self.stitches.len()
            > 0 {
            1nat
        } else {
            0nat
        }
    }

    /// A color is open: it holds a run, closed or open.
    pub open spec fn color_open(self) -> bool {
        self.stitch_groups.len() > 0 || self.stitches.len() > 0
    }

    /// The number of colors of the state, the open one among them.
    pub open spec fn color_count(self) -> nat {
        self.color_groups.len() + if self.color_open() {
            1nat
        } else {
            0nat
        }
    }
}

/// How `stitched_since_change` goes on by one element.
proof fn lemma_stitched_since_change_step(attributes: Seq<HusVipStitchType>, n: int)
    requires
        0 < n <= attributes.len(),
    ensures
        stitched_since_change(attributes, n) <==> attributes[n - 1] == HusVipStitchType::Normal
            || (attributes[n - 1] != HusVipStitchType::ColorChange && stitched_since_change(
            attributes,
            n - 1,
        )),
{
    let last = n - 1;
    if stitched_since_change(attributes, n) {
        let from = choose|from: int| stitched_without_change(attributes, from, n);
        if from < last {
            assert(stitched_without_change(attributes, from, last));
        }
    }
    if attributes[last] != HusVipStitchType::Normal && attributes[last]
        != HusVipStitchType::ColorChange && stitched_since_change(attributes, last) {
        let from = choose|from: int| stitched_without_change(attributes, from, last);
        assert(stitched_without_change(attributes, from, n));
    }
    if attributes[last] == HusVipStitchType::Normal {
        assert(stitched_without_change(attributes, last, n));
    }
}

/// Closing the open run changes neither the number of runs nor the number
/// of colors, nor does closing the open color once no run is open.
proof fn lemma_closing_keeps_counts(state: Grouping)
    ensures
        state.close_stitches().run_count() == state.run_count(),
        state.close_stitches().color_count() == state.color_count(),
        state.stitches.len() == 0 ==> state.close_color().run_count() == state.run_count(),
        state.stitches.len() == 0 ==> state.close_color().color_count() == state.color_count(),
{
    broadcast use Seq::lemma_flatten_push;

}

/// After any number of elements the state holds as many runs and colors as
/// have begun, a run is open exactly after a normal stitch, and a color is
/// open exactly if a normal stitch stands after the last color change.
proof fn lemma_run_counts(
    attributes: Seq<HusVipStitchType>,
    x_coords: Seq<i32>,
    y_coords: Seq<i32>,
    n: nat,
)
    requires
        n <= attributes.len(),
    ensures
        run(attributes, x_coords, y_coords, n).run_count() == runs_begun(attributes, n),
        run(attributes, x_coords, y_coords, n).color_count() == colors_begun(attributes, n),
        !run(attributes, x_coords, y_coords, n).ended ==> (run(
            attributes,
            x_coords,
            y_coords,
            n,
        ).stitches.len() > 0 <==> n > 0 && attributes[n - 1] == HusVipStitchType::Normal),
        !run(attributes, x_coords, y_coords, n).ended ==> (run(
            attributes,
            x_coords,
            y_coords,
            n,
        ).color_open() <==> stitched_since_change(attributes, n as int)),
    decreases n,
{
    if n > 0 {
        let before = run(attributes, x_coords, y_coords, (n - 1) as nat);
        lemma_run_counts(attributes, x_coords, y_coords, (n - 1) as nat);
        lemma_run_invariant(attributes, x_coords, y_coords, (n - 1) as nat);
        lemma_stitched_since_change_step(attributes, n as int);
        lemma_closing_keeps_counts(before);
        lemma_closing_keeps_counts(before.close_stitches());
    }
}

/// The number of stitch groups in all color groups together.
pub open spec fn stitch_group_count(groups: Seq<ColorGroupView>) -> nat {
    groups.map_values(|color: ColorGroupView| color.stitch_groups).flatten().len()
}

/// The stitch groups of the color groups that `colors` give with any threads
/// are as many as the runs of `colors`.
proof fn lemma_stitch_groups_of_threaded(threads: Seq<Thread>, colors: Seq<Seq<Seq<Stitch>>>)
    ensures
        stitch_group_count(threaded(threads, colors)) == colors.flatten().len(),
    decreases colors.len(),
{
    broadcast use Seq::lemma_flatten_push;

    let per_color = |color: ColorGroupView| color.stitch_groups;
    if colors.len() > 0 {
        let front = colors.drop_last();
        let last = colors.last();
        lemma_stitch_groups_of_threaded(threads, front);
        assert(colors == front.push(last));
        let group = threaded_group(threads, front.len() as int, last);
        assert(threaded(threads, colors).map_values(per_color) == threaded(
            threads,
            front,
        ).map_values(per_color).push(group.stitch_groups));
    }
}

/// The result holds one color group for each index at which a color begins
/// and, in all color groups together, one stitch group for each index at
/// which a run begins.
pub proof fn lemma_groups_begin_where_runs_begin(
    threads: Seq<Thread>,
    attributes: Seq<HusVipStitchType>,
    x_coords: Seq<i32>,
    y_coords: Seq<i32>,
)
    ensures
        grouped(threads, attributes, x_coords, y_coords).len() == colors_begun(
            attributes,
            aligned_len(attributes, x_coords, y_coords),
        ),
        stitch_group_count(grouped(threads, attributes, x_coords, y_coords)) == runs_begun(
            attributes,
            aligned_len(attributes, x_coords, y_coords),
        ),
{
    let n = aligned_len(attributes, x_coords, y_coords);
    let last = run(attributes, x_coords, y_coords, n);
    lemma_run_counts(attributes, x_coords, y_coords, n);
    lemma_closing_keeps_counts(last);
    lemma_closing_keeps_counts(last.close_stitches());
    lemma_stitch_groups_of_threaded(threads, last.finish());
}

/// Every stitch group of the result holds at least one stitch, every color
/// group at least one stitch group; every stitch group is cut and trimmed;
/// the color group at an index has the thread of that index, and none where
/// the threads have run out.
pub proof fn lemma_groups_hold_stitches(
    threads: Seq<Thread>,
    attributes: Seq<HusVipStitchType>,
    x_coords: Seq<i32>,
    y_coords: Seq<i32>,
)
    ensures
        forall|c: int|
            0 <= c < grouped(threads, attributes, x_coords, y_coords).len() ==> (#[trigger] grouped(
                threads,
                attributes,
                x_coords,
                y_coords,
            )[c]).stitch_groups.len() >= 1,
        forall|c: int, g: int|
            0 <= c < grouped(threads, attributes, x_coords, y_coords).len() && 0 <= g < grouped(
                threads,
                attributes,
                x_coords,
                y_coords,
            )[c].stitch_groups.len() ==> {
                let group = #[trigger] grouped(
                    threads,
                    attributes,
                    x_coords,
                    y_coords,
                )[c].stitch_groups[g];
                group.stitches.len() >= 1 && group.cut && group.trim
            },
        forall|c: int|
            0 <= c < grouped(threads, attributes, x_coords, y_coords).len() ==> (#[trigger] grouped(
                threads,
                attributes,
                x_coords,
                y_coords,
            )[c]).thread == if c < threads.len() {
                Some(threads[c])
            } else {
                None
            },
{
    lemma_run_invariant(
        attributes,
        x_coords,
        y_coords,
        aligned_len(attributes, x_coords, y_coords),
    );
}

/// The result is empty exactly if the pass reaches no normal stitch: among
/// the elements that all three streams hold, none is a normal stitch with no
/// end marker before it.
pub proof fn lemma_empty_without_stitches(
    threads: Seq<Thread>,
    attributes: Seq<HusVipStitchType>,
    x_coords: Seq<i32>,
    y_coords: Seq<i32>,
)
    ensures
        grouped(threads, attributes, x_coords, y_coords).len() == 0 <==> forall|i: int|
            i < aligned_len(attributes, x_coords, y_coords) ==> !stitched_at(attributes, i),
{
    lemma_run_invariant(
        attributes,
        x_coords,
        y_coords,
        aligned_len(attributes, x_coords, y_coords),
    );
}

/// Grouping the same streams with the same threads again gives the same
/// result: the same numbers of color groups and stitch groups, the same
/// stitches and the same threads.
pub proof fn lemma_grouping_repeatable(
    first: Seq<ColorGroup>,
    second: Seq<ColorGroup>,
    threads: Seq<Thread>,
    attributes: Seq<HusVipStitchType>,
    x_coords: Seq<i32>,
    y_coords: Seq<i32>,
)
    requires
        color_groups_view(first) == grouped(threads, attributes, x_coords, y_coords),
        color_groups_view(second) == grouped(threads, attributes, x_coords, y_coords),
    ensures
        color_groups_view(first) == color_groups_view(second),
        first.len() == second.len(),
        forall|c: int|
            0 <= c < first.len() ==> (#[trigger] first[c]).thread == second[c].thread
                && first[c].stitch_groups@.len() == second[c].stitch_groups@.len(),
        forall|c: int, g: int|
            0 <= c < first.len() && 0 <= g < first[c].stitch_groups@.len() ==> (
            #[trigger] first[c].stitch_groups@[g]).stitches@
                == second[c].stitch_groups@[g].stitches@,
{
    assert(color_groups_view(first).len() == first.len());
    assert forall|c: int| 0 <= c < first.len() implies (#[trigger] first[c]).thread
        == second[c].thread && first[c].stitch_groups@.len() == second[c].stitch_groups@.len() by {
        assert(color_groups_view(first)[c] == first[c]@);
        assert(stitch_groups_view(first[c].stitch_groups@).len() == first[c].stitch_groups@.len());
    }
    assert forall|c: int, g: int|
        0 <= c < first.len() && 0 <= g < first[c].stitch_groups@.len() implies (
    #[trigger] first[c].stitch_groups@[g]).stitches@ == second[c].stitch_groups@[g].stitches@ by {
        assert(color_groups_view(first)[c] == first[c]@);
        assert(stitch_groups_view(first[c].stitch_groups@)[g] == first[c].stitch_groups@[g]@);
    }
}

/// Color groups that stand for the result are well formed: each of their
/// stitch groups holds a stitch.
pub proof fn lemma_grouped_well_formed(
    color_groups: Seq<ColorGroup>,
    threads: Seq<Thread>,
    attributes: Seq<HusVipStitchType>,
    x_coords: Seq<i32>,
    y_coords: Seq<i32>,
)
    requires
        color_groups_view(color_groups) == grouped(threads, attributes, x_coords, y_coords),
    ensures
        forall|c: int| 0 <= c < color_groups.len() ==> (#[trigger] color_groups[c]).well_formed(),
{
    lemma_groups_hold_stitches(threads, attributes, x_coords, y_coords);
    let views = grouped(threads, attributes, x_coords, y_coords);
    assert forall|c: int| 0 <= c < color_groups.len() implies (
    #[trigger] color_groups[c]).well_formed() by {
        let runs = color_groups[c].stitch_groups@;
        assert forall|g: int| 0 <= g < runs.len() implies (#[trigger] runs[g]).well_formed() by {
            assert(views[c].stitch_groups[g] == runs[g]@);
        }
    }
}

} // verus!
