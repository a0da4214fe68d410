//! Placement of a block of lines in the middle of the terminal.
//!
//! Two things come from the terminal toolkit and are taken on trust: how many
//! columns a text takes, and where its layout engine puts a centered segment.
//! Everything around them, the footprint of a block and the checks that it
//! fits the terminal's coordinates, is verified here.

use vstd::prelude::*;
use crate::present::{shown, RenderLine, Tone};

verus! {

/// A rectangle of terminal cells: the top left corner and the extent.
#[derive(Clone, Copy, Debug, PartialEq, Eq, Structural)]
pub struct Rect {
    pub x: u16,
    pub y: u16,
    pub width: u16,
    pub height: u16,
}

/// The direction along which an area is divided.
#[derive(Clone, Copy, Debug, PartialEq, Eq, Structural)]
pub enum Axis {
    /// Side by side: the segments share the rows of the area.
    Horizontal,
    /// One above the other: the segments share the columns of the area.
    Vertical,
}

/// The columns added to the widest line, so that the block does not touch
/// its edges.
pub const PADDING: u16 = 2;

/// The width taken for a block without lines.
pub const DEFAULT_WIDTH: usize = 20;

/// The number of terminal columns that a text takes.
pub uninterp spec fn display_width(text: Seq<char>) -> usize;

/// The segment that the layout engine gives to a single constraint of
/// `length` cells, centered in `area` along `axis`.
pub uninterp spec fn centered_span(area: Rect, axis: Axis, length: u16) -> Rect;

/// The widest of some lines, in columns; 0 when there are none.
pub open spec fn widest(lines: Seq<(Seq<char>, Tone)>) -> usize
    decreases lines.len(),
{
    if lines.len() == 0 {
        0
    } else {
        let rest = widest(lines.drop_last());
        let last = display_width(lines.last().0);
        if last >= rest {
            last
        } else {
            rest
        }
    }
}

/// The width of a block: that of its widest line, or the default width for a
/// block without lines.
pub open spec fn block_width_of(lines: Seq<(Seq<char>, Tone)>) -> usize {
    if lines.len() == 0 {
        DEFAULT_WIDTH
    } else {
        widest(lines)
    }
}

/// The block fits the terminal's 16-bit coordinates: its padded width and its
/// line count.
pub open spec fn fits(lines: Seq<(Seq<char>, Tone)>) -> bool {
    block_width_of(lines) + PADDING <= u16::MAX && lines.len() <= u16::MAX
}

/// The rectangle of `width` by `height` cells centered in `area`: centered
/// first among the rows, then among the columns of those rows.
pub open spec fn centered_in(area: Rect, width: u16, height: u16) -> Rect {
    centered_span(centered_span(area, Axis::Vertical, height), Axis::Horizontal, width)
}

/// The rectangle for a block: its footprint, centered in `area`.
pub open spec fn placed(area: Rect, lines: Seq<(Seq<char>, Tone)>) -> Rect
    recommends
        fits(lines),
{
    centered_in(area, (block_width_of(lines) + PADDING) as u16, lines.len() as u16)
}

/// Calls `ratatui::text::Line::width` on a line of one span that holds the
/// text. The width is read from tables of the Unicode standard, so the
/// contract only names it: the same text always has the same width.
#[verifier::external_body]
fn line_width(text: &str) -> (w: usize)
    ensures
        w == display_width(text@),
{
    ratatui::text::Line::from(ratatui::text::Span::raw(text)).width()
}

/// Calls `ratatui::layout::Layout::areas` on a layout along `axis` with the
/// one constraint `Length(length)`, no margin and `Flex::Center`. The engine
/// is a constraint solver, so the contract names its answer; what it says
/// beyond the name is that the segment keeps the extent of the area across
/// the axis, which the engine copies from the area.
#[verifier::external_body]
fn center_span(area: Rect, axis: Axis, length: u16) -> (r: Rect)
    ensures
        r == centered_span(area, axis, length),
        axis == Axis::Vertical ==> r.x == area.x && r.width == area.width,
        axis == Axis::Horizontal ==> r.y == area.y && r.height == area.height,
{
    let direction = match axis {
        Axis::Horizontal => ratatui::layout::Direction::Horizontal,
        Axis::Vertical => ratatui::layout::Direction::Vertical,
    };
    let outer = ratatui::layout::Rect { x: area.x, y: area.y, width: area.width, height: area.height };
    let layout = ratatui::layout::Layout::new(direction, [ratatui::layout::Constraint::Length(length)]);
    let [inner] = layout.flex(ratatui::layout::Flex::Center).areas(outer);
    Rect { x: inner.x, y: inner.y, width: inner.width, height: inner.height }
}

/// The rectangle of `width` by `height` cells centered in `area`. Its rows
/// are those of the vertical centering, its columns those of the horizontal
/// one.
pub fn centered_rect(area: Rect, width: u16, height: u16) -> (r: Rect)
    ensures
        r == centered_in(area, width, height),
        r.y == centered_span(area, Axis::Vertical, height).y,
        r.height == centered_span(area, Axis::Vertical, height).height,
{
    let rows = center_span(area, Axis::Vertical, height);
    center_span(rows, Axis::Horizontal, width)
}

/// The width of a block in columns: that of its widest line, or the default
/// width for a block without lines.
pub fn block_width(lines: &Vec<RenderLine>) -> (w: usize)
    ensures
        w == block_width_of(shown(lines@)),
{
    let ghost all = shown(lines@);
    if lines.len() == 0 {
        return DEFAULT_WIDTH;
    }
    let mut w: usize = 0;
    let mut i: usize = 0;
    while i < lines.len()
        invariant
            i <= lines.len(),
            all == shown(lines@),
            w == widest(all.take(i as int)),
        decreases lines.len() - i,
    {
        let here = line_width(lines[i].text.as_str());
        proof {
            let upto = all.take(i + 1);
            assert(upto.drop_last() =~= all.take(i as int));
            assert(upto.last() == all[i as int]);
        }
        if here >= w {
            w = here;
        }
        i = i + 1;
    }
    assert(all.take(i as int) =~= all);
    w
}

/// The rectangle for a block in `area`, where the block fits the terminal's
/// coordinates; `None` where it does not.
pub fn try_place(area: Rect, lines: &Vec<RenderLine>) -> (r: Option<Rect>)
    ensures
        r.is_some() <==> fits(shown(lines@)),
        r matches Some(rect) ==> rect == placed(area, shown(lines@)),
{
    let width = block_width(lines);
    let limit: usize = 0xffff;
    if width > limit - 2 || lines.len() > limit {
        None
    } else {
        Some(place(area, lines))
    }
}

/// The rectangle for a block in `area`: as high as the block has lines, as
/// wide as its widest line and the padding, and centered both ways.
pub fn place(area: Rect, lines: &Vec<RenderLine>) -> (r: Rect)
    requires
        fits(shown(lines@)),
    ensures
        r == placed(area, shown(lines@)),
{
    let height = lines.len() as u16;
    let width = block_width(lines) as u16;
    centered_rect(area, width + PADDING, height)
}

} // verus!
