//! One frame of the display: the lines for a reading under the chosen
//! options, and the rectangle in which they are painted.

use vstd::prelude::*;
use crate::charge::GAUGE_CELLS;
use crate::layout::{fits, placed, try_place, Rect};
use crate::power::{PowerState, Reading};
use crate::present::{
    absent_label, graphic_block, percentage_block, render_absent, render_graphic,
    render_percentage, shown, RenderLine, Tone,
};

verus! {

/// The two display options, fixed before the loop starts.
#[derive(Clone, Copy, Debug, PartialEq, Eq, Structural)]
pub struct DisplayConfig {
    /// Show the gauge above the percentage.
    pub graphic_mode: bool,
    /// Show the title above the reading and the operating mode below it.
    pub show_label: bool,
}

/// What is painted in one tick: the lines, and where.
#[derive(Debug)]
pub struct Frame {
    pub lines: Vec<RenderLine>,
    pub area: Rect,
}

/// The lines for a reading under the options; without a reading, the one
/// line that says so, whatever the options.
pub open spec fn content_of(info: Option<Reading>, config: DisplayConfig) -> Seq<
    (Seq<char>, Tone),
> {
    match info {
        Some(reading) => if config.graphic_mode {
            graphic_block(reading.charge, reading.state, config.show_label)
        } else {
            percentage_block(reading.charge, reading.state, config.show_label)
        },
        None => seq![(absent_label(), Tone::Plain)],
    }
}

/// The gauge can show the reading: there is none, or the gauge is not asked
/// for, or the charge fills no more cells than the gauge has.
pub open spec fn showable(info: Option<Reading>, config: DisplayConfig) -> bool {
    info matches Some(reading) ==> !config.graphic_mode || reading.charge.cells() <= GAUGE_CELLS
}

impl DisplayConfig {
    /// The options as chosen on the command line.
    pub fn new(graphic_mode: bool, show_label: bool) -> (config: DisplayConfig)
        ensures
            config.graphic_mode == graphic_mode,
            config.show_label == show_label,
    {
        DisplayConfig { graphic_mode, show_label }
    }
}

/// Whether the gauge can show the reading.
pub fn can_show(info: Option<Reading>, config: DisplayConfig) -> (b: bool)
    ensures
        b == showable(info, config),
{
    match info {
        Some(reading) => !config.graphic_mode || reading.charge.gauge_cells().is_some(),
        None => true,
    }
}

/// The lines of one frame.
pub fn content(info: Option<Reading>, config: DisplayConfig) -> (lines: Vec<RenderLine>)
    requires
        showable(info, config),
    ensures
        shown(lines@) == content_of(info, config),
{
    match info {
        Some(reading) => {
            if config.graphic_mode {
                render_graphic(reading.charge, reading.state, config.show_label)
            } else {
                render_percentage(reading.charge, reading.state, config.show_label)
            }
        },
        None => render_absent(),
    }
}

/// One frame for a terminal of the given area: the lines for the reading,
/// and their footprint centered in the area. There is a frame where the
/// gauge can show the reading and the lines fit the terminal's coordinates,
/// and `None` where not.
pub fn render(area: Rect, info: Option<Reading>, config: DisplayConfig) -> (frame: Option<Frame>)
    ensures
        frame.is_some() <==> showable(info, config) && fits(content_of(info, config)),
        frame matches Some(f) ==> shown(f.lines@) == content_of(info, config) && f.area == placed(
            area,
            content_of(info, config),
        ),
{
    if !can_show(info, config) {
        return None;
    }
    let lines = content(info, config);
    match try_place(area, &lines) {
        Some(area) => Some(Frame { lines, area }),
        None => None,
    }
}

/// Without the title and the operating mode a block has one line in the
/// percentage mode and two in the graphic mode; with them it has two more,
/// the title first and the operating mode last.
pub proof fn lemma_line_count(reading: Reading, config: DisplayConfig)
    ensures
        content_of(Some(reading), config).len() == (if config.graphic_mode {
            2nat
        } else {
            1nat
        }) + (if config.show_label {
            2nat
        } else {
            0nat
        }),
        config.show_label ==> content_of(Some(reading), config).first() == (
            crate::present::title_label(),
            Tone::Plain,
        ) && content_of(Some(reading), config).last() == (
            crate::power::state_label(reading.state),
            Tone::Muted,
        ),
        content_of(
            Some(reading),
            DisplayConfig { graphic_mode: config.graphic_mode, show_label: true },
        ).len() == content_of(
            Some(reading),
            DisplayConfig { graphic_mode: config.graphic_mode, show_label: false },
        ).len() + 2,
{
}

/// Without a reading the frame is the one fixed line, whatever the options.
pub proof fn lemma_absent_ignores_options(config: DisplayConfig)
    ensures
        content_of(None, config) == seq![(absent_label(), Tone::Plain)],
        content_of(None, config).len() == 1,
        showable(None, config),
{
}

} // verus!
