//! The pass that folds the flat stitch streams of a HUS or VIP file into
//! color groups of stitch groups of stitches.

pub mod laws;

use crate::hus::attributes::HusVipStitchType;
use crate::hus::grouping::laws::lemma_grouped_well_formed;
use crate::pattern::{
    color_groups_view, stitch_groups_view, ColorGroup, ColorGroupView, Stitch, StitchGroup,
    StitchGroupView, Thread,
};
use vstd::prelude::*;

verus! {

/// The state of the pass between two elements of the streams.
pub struct Grouping {
    /// The stitches of the run that is being stitched.
    pub stitches: Seq<Stitch>,
    /// The closed runs of the color that is being stitched.
    pub stitch_groups: Seq<Seq<Stitch>>,
    /// The closed colors, each with its runs.
    pub color_groups: Seq<Seq<Seq<Stitch>>>,
    /// Where the last jump or color change went, until a stitch follows it.
    pub pending: Option<Stitch>,
    /// The end marker was met: the rest of the streams is ignored.
    pub ended: bool,
}

impl Grouping {
    /// The state before the first element.
    pub open spec fn start() -> Grouping {
        Grouping {
            stitches: Seq::empty(),
            stitch_groups: Seq::empty(),
            color_groups: Seq::empty(),
            pending: None,
            ended: false,
        }
    }

    /// Closes the run that is being stitched, if it holds a stitch.
    pub open spec fn close_stitches(self) -> Grouping {
        if self.stitches.len() > 0 {
            Grouping {
                stitches: Seq::empty(),
                stitch_groups: self.stitch_groups.push(self.stitches),
                ..self
            }
        } else {
            self
        }
    }

    /// Closes the color that is being stitched, if it holds a run.
    pub open spec fn close_color(self) -> Grouping {
        if self.stitch_groups.len() > 0 {
            Grouping {
                stitch_groups: Seq::empty(),
                color_groups: self.color_groups.push(self.stitch_groups),
                ..self
            }
        } else {
            self
        }
    }

    /// The state after one more element, `attribute` at the point `at`.
    pub open spec fn step(self, attribute: HusVipStitchType, at: Stitch) -> Grouping {
        if self.ended {
            self
        } else {
            match attribute {
                HusVipStitchType::Normal => Grouping {
                    stitches: match self.pending {
                        Some(target) => self.stitches.push(target).push(at),
                        None => self.stitches.push(at),
                    },
                    pending: None,
                    ..self
                },
                HusVipStitchType::Jump => Grouping { pending: Some(at), ..self.close_stitches() },
                HusVipStitchType::ColorChange => Grouping {
                    pending: Some(at),
                    ..self.close_stitches().close_color()
                },
                HusVipStitchType::LastStitch => Grouping { ended: true, ..self },
            }
        }
    }

    /// The colors with their runs once the streams are exhausted: what is
    /// still open is closed.
    pub open spec fn finish(self) -> Seq<Seq<Seq<Stitch>>> {
        self.close_stitches().close_color().color_groups
    }
}

/// The number of elements that all three streams hold.
pub open spec fn aligned_len(
    attributes: Seq<HusVipStitchType>,
    x_coords: Seq<i32>,
    y_coords: Seq<i32>,
) -> nat {
    if attributes.len() <= x_coords.len() && attributes.len() <= y_coords.len() {
        attributes.len()
    } else if x_coords.len() <= y_coords.len() {
        x_coords.len()
    } else {
        y_coords.len()
    }
}

/// The state of the pass after the first `n` elements of the streams.
pub open spec fn run(
    attributes: Seq<HusVipStitchType>,
    x_coords: Seq<i32>,
    y_coords: Seq<i32>,
    n: nat,
) -> Grouping
    decreases n,
{
    if n == 0 {
        Grouping::start()
    } else {
        run(attributes, x_coords, y_coords, (n - 1) as nat).step(
            attributes[n - 1],
            Stitch { x: x_coords[n - 1], y: y_coords[n - 1] },
        )
    }
}

/// The colors, runs and stitches that the streams hold.
pub open spec fn stitch_runs(
    attributes: Seq<HusVipStitchType>,
    x_coords: Seq<i32>,
    y_coords: Seq<i32>,
) -> Seq<Seq<Seq<Stitch>>> {
    run(attributes, x_coords, y_coords, aligned_len(attributes, x_coords, y_coords)).finish()
}

/// A run as a stitch group of these formats: cut and trimmed.
pub open spec fn marked(stitches: Seq<Stitch>) -> StitchGroupView {
    StitchGroupView { stitches, cut: true, trim: true }
}

/// The color group at `index`: the thread of that index, if there is one, and
/// the runs as stitch groups.
pub open spec fn threaded_group(
    threads: Seq<Thread>,
    index: int,
    runs: Seq<Seq<Stitch>>,
) -> ColorGroupView {
    ColorGroupView {
        thread: if index < threads.len() {
            Some(threads[index])
        } else {
            None
        },
        stitch_groups: runs.map_values(|stitches: Seq<Stitch>| marked(stitches)),
    }
}

/// The colors paired in order with the threads.
pub open spec fn threaded(threads: Seq<Thread>, colors: Seq<Seq<Seq<Stitch>>>) -> Seq<
    ColorGroupView,
> {
    Seq::new(colors.len(), |index: int| threaded_group(threads, index, colors[index]))
}

/// The color groups that the streams and the threads give.
pub open spec fn grouped(
    threads: Seq<Thread>,
    attributes: Seq<HusVipStitchType>,
    x_coords: Seq<i32>,
    y_coords: Seq<i32>,
) -> Seq<ColorGroupView> {
    threaded(threads, stitch_runs(attributes, x_coords, y_coords))
}

/// Once the end marker was met the state no longer changes.
proof fn lemma_ended_stays(
    attributes: Seq<HusVipStitchType>,
    x_coords: Seq<i32>,
    y_coords: Seq<i32>,
    at: nat,
    later: nat,
)
    requires
        at <= later,
        run(attributes, x_coords, y_coords, at).ended,
    ensures
        run(attributes, x_coords, y_coords, later) == run(attributes, x_coords, y_coords, at),
    decreases later,
{
    if at < later {
        lemma_ended_stays(attributes, x_coords, y_coords, at, (later - 1) as nat);
    }
}

/// The threads that are left when `taken` were handed out, last first.
spec fn supply_of(threads: Seq<Thread>, taken: nat, supply: Seq<Thread>) -> bool {
    &&& supply.len() == if taken <= threads.len() {
        threads.len() - taken
    } else {
        0
    }
    &&& forall|j: int| 0 <= j < supply.len() ==> supply[j] == threads[threads.len() - 1 - j]
}

/// The executable state stands for the state `state` of the pass.
spec fn stands_for(
    state: Grouping,
    threads: Seq<Thread>,
    stitches: Seq<Stitch>,
    stitch_groups: Seq<StitchGroup>,
    color_groups: Seq<ColorGroup>,
    supply: Seq<Thread>,
) -> bool {
    &&& stitches == state.stitches
    &&& stitch_groups_view(stitch_groups) == state.stitch_groups.map_values(
        |stitches: Seq<Stitch>| marked(stitches),
    )
    &&& color_groups_view(color_groups) == threaded(threads, state.color_groups)
    &&& supply_of(threads, state.color_groups.len(), supply)
}

/// The threads in the opposite order.
fn reversed(threads: Vec<Thread>) -> (supply: Vec<Thread>)
    ensures
        supply_of(threads@, 0, supply@),
{
    let mut threads = threads;
    let mut supply: Vec<Thread> = Vec::new();
    let ghost all = threads@;
    while threads.len() > 0
        invariant
            threads@ == all.take(all.len() - supply@.len()),
            supply@.len() <= all.len(),
            forall|j: int| 0 <= j < supply@.len() ==> supply@[j] == all[all.len() - 1 - j],
        decreases threads@.len(),
    {
        let thread = threads.pop();
        match thread {
            Some(thread) => {
                supply.push(thread);
            },
            None => {},
        }
    }
    supply
}

/// Closes the run in `stitches`, if it holds a stitch, into `stitch_groups`.
fn close_stitches(stitches: &mut Vec<Stitch>, stitch_groups: &mut Vec<StitchGroup>)
    ensures
        old(stitches)@.len() == 0 ==> final(stitches)@ == old(stitches)@ && stitch_groups_view(
            final(stitch_groups)@,
        ) == stitch_groups_view(old(stitch_groups)@),
        old(stitches)@.len() > 0 ==> final(stitches)@ == Seq::<Stitch>::empty()
            && stitch_groups_view(final(stitch_groups)@) == stitch_groups_view(
            old(stitch_groups)@,
        ).push(marked(old(stitches)@)),
{
    if stitches.len() > 0 {
        let mut closed: Vec<Stitch> = Vec::new();
        std::mem::swap(stitches, &mut closed);
        stitch_groups.push(StitchGroup { stitches: closed, cut: true, trim: true });
    }
}

/// Closes the color in `stitch_groups`, if it holds a run, into
/// `color_groups`, with the next thread of `supply`.
fn close_color(
    stitch_groups: &mut Vec<StitchGroup>,
    color_groups: &mut Vec<ColorGroup>,
    supply: &mut Vec<Thread>,
    Ghost(threads): Ghost<Seq<Thread>>,
    Ghost(colors): Ghost<Seq<Seq<Seq<Stitch>>>>,
    Ghost(runs): Ghost<Seq<Seq<Stitch>>>,
)
    requires
        color_groups_view(old(color_groups)@) == threaded(threads, colors),
        supply_of(threads, colors.len(), old(supply)@),
        stitch_groups_view(old(stitch_groups)@) == runs.map_values(
            |stitches: Seq<Stitch>| marked(stitches),
        ),
    ensures
        runs.len() == 0 ==> final(stitch_groups)@ == old(stitch_groups)@ && final(color_groups)@
            == old(color_groups)@ && final(supply)@ == old(supply)@,
        runs.len() > 0 ==> final(stitch_groups)@ == Seq::<StitchGroup>::empty()
            && color_groups_view(final(color_groups)@) == threaded(threads, colors.push(runs))
            && supply_of(threads, colors.len() + 1, final(supply)@),
{
    assert(stitch_groups@.len() == runs.len()) by {
        assert(stitch_groups_view(stitch_groups@).len() == stitch_groups@.len());
    }
    if stitch_groups.len() > 0 {
        let mut closed: Vec<StitchGroup> = Vec::new();
        std::mem::swap(stitch_groups, &mut closed);
        let thread = supply.pop();
        let ghost before = color_groups@;
        let group = ColorGroup { thread, stitch_groups: closed };
        color_groups.push(group);
        assert(color_groups_view(color_groups@) == color_groups_view(before).push(group@));
    }
}

/// Folds the three streams, as far as all of them reach, into color groups.
///
/// A normal stitch goes into the run that is being stitched, after the point
/// of a jump or color change that stands directly before it. A jump closes
/// the run, a color change the run and the color, and the end marker ends the
/// pass. Each color gets the thread of its index, while there are threads;
/// every stitch group is cut and trimmed.
pub fn convert_stitches(
    threads: Vec<Thread>,
    attributes: &[HusVipStitchType],
    x_coords: &[i32],
    y_coords: &[i32],
) -> (color_groups: Vec<ColorGroup>)
    ensures
        color_groups_view(color_groups@) == grouped(threads@, attributes@, x_coords@, y_coords@),
        forall|c: int|
            0 <= c < color_groups@.len() ==> (#[trigger] color_groups@[c]).well_formed(),
{
    let ghost all_threads = threads@;
    let mut n = attributes.len();
    if x_coords.len() < n {
        n = x_coords.len();
    }
    if y_coords.len() < n {
        n = y_coords.len();
    }
    let mut supply = reversed(threads);
    let mut color_groups: Vec<ColorGroup> = Vec::new();
    let mut stitch_groups: Vec<StitchGroup> = Vec::new();
    let mut stitches: Vec<Stitch> = Vec::new();
    let mut last_jump: Option<Stitch> = None;
    let mut i: usize = 0;
    let ghost mut state = Grouping::start();
    assert(color_groups_view(color_groups@) == threaded(all_threads, state.color_groups));
    assert(stitch_groups_view(stitch_groups@) == state.stitch_groups.map_values(
        |stitches: Seq<Stitch>| marked(stitches),
    ));
    while i < n
        invariant_except_break
            state == run(attributes@, x_coords@, y_coords@, i as nat),
            !state.ended,
        invariant
            i <= n,
            n <= attributes@.len(),
            n <= x_coords@.len(),
            n <= y_coords@.len(),
            n == aligned_len(attributes@, x_coords@, y_coords@),
            stands_for(state, all_threads, stitches@, stitch_groups@, color_groups@, supply@),
            last_jump == state.pending,
        ensures
            state.finish() == stitch_runs(attributes@, x_coords@, y_coords@),
        decreases n - i,
    {
        let at = Stitch { x: x_coords[i], y: y_coords[i] };
        let ghost next = state.step(attributes@[i as int], at);
        match attributes[i] {
            HusVipStitchType::Normal => {
                match last_jump {
                    Some(target) => {
                        stitches.push(target);
                        last_jump = None;
                    },
                    None => {},
                }
                stitches.push(at);
            },
            HusVipStitchType::Jump => {
                close_stitches(&mut stitches, &mut stitch_groups);
                last_jump = Some(at);
                proof {
                    let closed = state.close_stitches();
                    assert(closed.stitch_groups.map_values(|stitches: Seq<Stitch>| marked(stitches))
                        == stitch_groups_view(stitch_groups@));
                }
            },
            HusVipStitchType::ColorChange => {
                close_stitches(&mut stitches, &mut stitch_groups);
                proof {
                    let closed = state.close_stitches();
                    assert(closed.stitch_groups.map_values(|stitches: Seq<Stitch>| marked(stitches))
                        == stitch_groups_view(stitch_groups@));
                }
                close_color(
                    &mut stitch_groups,
                    &mut color_groups,
                    &mut supply,
                    Ghost(all_threads),
                    Ghost(state.color_groups),
                    Ghost(state.close_stitches().stitch_groups),
                );
                last_jump = Some(at);
                proof {
                    let closed = state.close_stitches().close_color();
                    assert(closed.stitch_groups.map_values(|stitches: Seq<Stitch>| marked(stitches))
                        == stitch_groups_view(stitch_groups@));
                }
            },
            HusVipStitchType::LastStitch => {
                proof {
                    lemma_ended_stays(
                        attributes@,
                        x_coords@,
                        y_coords@,
                        (i + 1) as nat,
                        n as nat,
                    );
                }
                break ;
            },
        }
        proof {
            state = next;
        }
        i += 1;
    }
    close_stitches(&mut stitches, &mut stitch_groups);
    proof {
        let closed = state.close_stitches();
        assert(closed.stitch_groups.map_values(|stitches: Seq<Stitch>| marked(stitches))
            == stitch_groups_view(stitch_groups@));
    }
    close_color(
        &mut stitch_groups,
        &mut color_groups,
        &mut supply,
        Ghost(all_threads),
        Ghost(state.color_groups),
        Ghost(state.close_stitches().stitch_groups),
    );
    proof {
        lemma_grouped_well_formed(color_groups@, all_threads, attributes@, x_coords@, y_coords@);
    }
    color_groups
}

} // verus!
