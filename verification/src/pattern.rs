//! The canonical, format-independent model of a stitched design: a pattern
//! owns its color groups, a color group its stitch groups, a stitch group its
//! stitches.

use vstd::prelude::*;

verus! {

/// A thread color, one byte per channel.
#[derive(Clone, Copy, Debug, PartialEq, Eq, Hash, Structural)]
pub struct Color {
    pub red: u8,
    pub green: u8,
    pub blue: u8,
}

/// A thread as the thread registry of a format supplies it. The decoders hand
/// threads on unread.
#[derive(Clone, Debug, PartialEq, Eq)]
pub struct Thread {
    pub color: Color,
    pub name: String,
    pub code: String,
    pub manufacturer: Option<String>,
    /// Further named attributes, as pairs of key and value.
    pub attributes: Vec<(String, String)>,
}

impl Thread {
    /// No key of the further attributes occurs twice.
    pub open spec fn keys_unique(&self) -> bool {
        forall|i: int, j: int|
            0 <= i < j < self.attributes@.len() ==> (#[trigger] self.attributes@[i]).0@ != (
            #[trigger] self.attributes@[j]).0@
    }
}

/// A point of the design, in tenths of a millimeter. The point in millimeters
/// has a tenth of each coordinate.
#[derive(Clone, Copy, Debug, PartialEq, Eq, Hash, Structural)]
pub struct Stitch {
    pub x: i32,
    pub y: i32,
}

/// A run that is stitched without lifting the needle.
#[derive(Clone, Debug, PartialEq, Eq)]
pub struct StitchGroup {
    pub stitches: Vec<Stitch>,
    /// The thread is cut after the run.
    pub cut: bool,
    /// The trailing thread is trimmed.
    pub trim: bool,
}

pub struct StitchGroupView {
    pub stitches: Seq<Stitch>,
    pub cut: bool,
    pub trim: bool,
}

impl View for StitchGroup {
    type V = StitchGroupView;

    open spec fn view(&self) -> StitchGroupView {
        StitchGroupView { stitches: self.stitches@, cut: self.cut, trim: self.trim }
    }
}

impl StitchGroup {
    /// A stitch group holds at least one stitch.
    pub open spec fn well_formed(&self) -> bool {
        self.stitches@.len() >= 1
    }
}

/// The views of a sequence of stitch groups, in order.
pub open spec fn stitch_groups_view(groups: Seq<StitchGroup>) -> Seq<StitchGroupView> {
    groups.map_values(|group: StitchGroup| group@)
}

/// All that is stitched with one thread before the next color change.
#[derive(Clone, Debug, PartialEq, Eq)]
pub struct ColorGroup {
    /// Absent where the thread list ran out.
    pub thread: Option<Thread>,
    pub stitch_groups: Vec<StitchGroup>,
}

pub struct ColorGroupView {
    pub thread: Option<Thread>,
    pub stitch_groups: Seq<StitchGroupView>,
}

impl View for ColorGroup {
    type V = ColorGroupView;

    open spec fn view(&self) -> ColorGroupView {
        ColorGroupView {
            thread: self.thread,
            stitch_groups: stitch_groups_view(self.stitch_groups@),
        }
    }
}

impl ColorGroup {
    /// Every stitch group of a color group is well formed.
    pub open spec fn well_formed(&self) -> bool {
        forall|g: int|
            0 <= g < self.stitch_groups@.len() ==> (#[trigger] self.stitch_groups@[g]).well_formed()
    }
}

/// The views of a sequence of color groups, in order.
pub open spec fn color_groups_view(groups: Seq<ColorGroup>) -> Seq<ColorGroupView> {
    groups.map_values(|group: ColorGroup| group@)
}

/// A format-independent attribute of a pattern.
#[derive(Clone, Debug, PartialEq, Eq)]
pub enum PatternAttribute {
    Title(String),
}

pub enum PatternAttributeView {
    Title(Seq<char>),
}

impl View for PatternAttribute {
    type V = PatternAttributeView;

    open spec fn view(&self) -> PatternAttributeView {
        match *self {
            PatternAttribute::Title(title) => PatternAttributeView::Title(title@),
        }
    }
}

/// A decoded design.
#[derive(Clone, Debug, PartialEq, Eq)]
pub struct Pattern {
    pub name: String,
    pub attributes: Vec<PatternAttribute>,
    pub color_groups: Vec<ColorGroup>,
}

impl Pattern {
    /// Every color group of a pattern is well formed.
    pub open spec fn well_formed(&self) -> bool {
        forall|c: int|
            0 <= c < self.color_groups@.len() ==> (#[trigger] self.color_groups@[c]).well_formed()
    }
}

pub struct PatternView {
    pub name: Seq<char>,
    pub attributes: Seq<PatternAttributeView>,
    pub color_groups: Seq<ColorGroupView>,
}

impl View for Pattern {
    type V = PatternView;

    open spec fn view(&self) -> PatternView {
        PatternView {
            name: self.name@,
            attributes: self.attributes@.map_values(|attribute: PatternAttribute| attribute@),
            color_groups: color_groups_view(self.color_groups@),
        }
    }
}

} // verus!
