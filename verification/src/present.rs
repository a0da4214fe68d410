//! The formatter: from a charge and an operating mode to the lines of the
//! display, each with its tone.

use vstd::prelude::*;
use vstd::string::*;
use crate::charge::{Charge, GAUGE_CELLS};
use crate::power::{state_label, state_text, PowerState};

verus! {

/// The tone in which a line is painted.
#[derive(Clone, Copy, Debug, PartialEq, Eq, Structural)]
pub enum Tone {
    /// More than half full.
    Healthy,
    /// Half full or less, and more than a fifth.
    Warning,
    /// A fifth or less.
    Critical,
    /// The subdued tone of the operating mode.
    Muted,
    /// The terminal's own foreground.
    Plain,
}

/// One line of the display: a text and the tone of all of it.
#[derive(Debug)]
pub struct RenderLine {
    pub text: String,
    pub tone: Tone,
}

impl View for RenderLine {
    type V = (Seq<char>, Tone);

    open spec fn view(&self) -> (Seq<char>, Tone) {
        (self.text@, self.tone)
    }
}

/// The charge above which the level is healthy, in percent.
pub const HEALTHY_ABOVE: u32 = 50;

/// The charge above which the level is not yet critical, in percent.
pub const WARNING_ABOVE: u32 = 20;

/// The glyph of a filled gauge cell.
pub open spec fn filled_glyph() -> char {
    '\u{2588}'
}

/// The glyph of an empty gauge cell.
pub open spec fn empty_glyph() -> char {
    '\u{2591}'
}

/// The lines of a block, each as its text and tone.
pub open spec fn shown(lines: Seq<RenderLine>) -> Seq<(Seq<char>, Tone)> {
    Seq::new(lines.len(), |i: int| lines[i]@)
}

/// The tone for a charge.
pub open spec fn tone_of(charge: Charge) -> Tone {
    if charge.above(HEALTHY_ABOVE as nat) {
        Tone::Healthy
    } else if charge.above(WARNING_ABOVE as nat) {
        Tone::Warning
    } else {
        Tone::Critical
    }
}

/// The character of a decimal digit.
pub open spec fn digit(d: nat) -> char {
    if d == 0 {
        '0'
    } else if d == 1 {
        '1'
    } else if d == 2 {
        '2'
    } else if d == 3 {
        '3'
    } else if d == 4 {
        '4'
    } else if d == 5 {
        '5'
    } else if d == 6 {
        '6'
    } else if d == 7 {
        '7'
    } else if d == 8 {
        '8'
    } else {
        '9'
    }
}

/// A natural number in decimal, without leading zeros.
pub open spec fn decimal(n: nat) -> Seq<char>
    decreases n,
{
    if n < 10 {
        seq![digit(n)]
    } else {
        decimal(n / 10).push(digit(n % 10))
    }
}

/// The charge as a number of percent without decimals: a minus sign where the
/// sign bit is set, then the rounded absolute value or `inf`; `NaN` where the
/// charge is not a number.
pub open spec fn number_label(charge: Charge) -> Seq<char> {
    if charge.nan() {
        "NaN"@
    } else {
        let sign = if charge.negative() { seq!['-'] } else { Seq::<char>::empty() };
        let size = if charge.infinite() { "inf"@ } else { decimal(charge.rounded()) };
        sign + size
    }
}

/// The percentage line: the number and a percent sign.
pub open spec fn percent_label(charge: Charge) -> Seq<char> {
    number_label(charge).push('%')
}

/// `n` copies of one character.
pub open spec fn run_of(glyph: char, n: nat) -> Seq<char> {
    Seq::new(n, |i: int| glyph)
}

/// The gauge with `filled` of its cells filled, between square brackets.
pub open spec fn bar_label(filled: nat) -> Seq<char>
    recommends
        filled <= GAUGE_CELLS,
{
    seq!['['] + run_of(filled_glyph(), filled) + run_of(
        empty_glyph(),
        (GAUGE_CELLS - filled) as nat,
    ) + seq![']']
}

/// The word above the reading.
pub open spec fn title_label() -> Seq<char> {
    "Battery"@
}

/// The only line shown when there is no reading.
pub open spec fn absent_label() -> Seq<char> {
    "No battery found"@
}

/// A block between its optional title and its optional operating mode.
pub open spec fn framed(
    body: Seq<(Seq<char>, Tone)>,
    state: PowerState,
    show_label: bool,
) -> Seq<(Seq<char>, Tone)> {
    if show_label {
        seq![(title_label(), Tone::Plain)] + body + seq![(state_label(state), Tone::Muted)]
    } else {
        body
    }
}

/// The block of the percentage mode.
pub open spec fn percentage_block(charge: Charge, state: PowerState, show_label: bool) -> Seq<
    (Seq<char>, Tone),
> {
    framed(seq![(percent_label(charge), tone_of(charge))], state, show_label)
}

/// The block of the graphic mode.
pub open spec fn graphic_block(charge: Charge, state: PowerState, show_label: bool) -> Seq<
    (Seq<char>, Tone),
> {
    framed(
        seq![
            (bar_label(charge.cells()), tone_of(charge)),
            (percent_label(charge), tone_of(charge)),
        ],
        state,
        show_label,
    )
}

/// The tone for a charge: healthy above 50 percent, warning above 20, critical
/// otherwise.
pub fn charge_color(charge: Charge) -> (tone: Tone)
    ensures
        tone == tone_of(charge),
{
    if charge.exceeds(HEALTHY_ABOVE) {
        Tone::Healthy
    } else if charge.exceeds(WARNING_ABOVE) {
        Tone::Warning
    } else {
        Tone::Critical
    }
}

/// The tone is healthy exactly above 50 percent, warning exactly above 20 and
/// up to 50, and critical exactly up to 20, for every charge that is a
/// number. The two boundaries fall to the lower tone.
pub proof fn lemma_tone_thresholds(charge: Charge)
    requires
        !charge.nan(),
    ensures
        tone_of(charge) == Tone::Healthy <==> charge.above(50),
        tone_of(charge) == Tone::Warning <==> charge.above(20) && charge.at_most(50),
        tone_of(charge) == Tone::Critical <==> charge.at_most(20),
        charge.magnitude() == 50 * crate::charge::unit() && !charge.negative() ==> tone_of(charge)
            == Tone::Warning,
        charge.magnitude() == 20 * crate::charge::unit() && !charge.negative() ==> tone_of(charge)
            == Tone::Critical,
{
    vstd::arithmetic::power2::lemma_pow2_pos(149);
    assert(20 * crate::charge::unit() < 50 * crate::charge::unit()) by (nonlinear_arith)
        requires
            crate::charge::unit() > 0,
    ;
    if charge.magnitude() == 50 * crate::charge::unit() || charge.magnitude() == 20
        * crate::charge::unit() {
        lemma_finite_below_infinite(charge);
    }
}

/// A charge of 50 percent or less in magnitude is finite.
proof fn lemma_finite_below_infinite(charge: Charge)
    requires
        charge.magnitude() <= 50 * crate::charge::unit(),
    ensures
        charge.finite(),
{
    if !charge.finite() {
        crate::charge::lemma_infinite_is_large(charge);
        vstd::arithmetic::power2::lemma_pow2_pos(149);
        assert(50 * crate::charge::unit() < 0x80_0000 * crate::charge::unit())
            by (nonlinear_arith)
            requires
                crate::charge::unit() > 0,
        ;
    }
}

fn digit_text(d: u128) -> (text: &'static str)
    requires
        d < 10,
    ensures
        text@ == seq![digit(d as nat)],
{
    proof {
        reveal_strlit("0");
        reveal_strlit("1");
        reveal_strlit("2");
        reveal_strlit("3");
        reveal_strlit("4");
        reveal_strlit("5");
        reveal_strlit("6");
        reveal_strlit("7");
        reveal_strlit("8");
        reveal_strlit("9");
    }
    let text = if d == 0 {
        "0"
    } else if d == 1 {
        "1"
    } else if d == 2 {
        "2"
    } else if d == 3 {
        "3"
    } else if d == 4 {
        "4"
    } else if d == 5 {
        "5"
    } else if d == 6 {
        "6"
    } else if d == 7 {
        "7"
    } else if d == 8 {
        "8"
    } else {
        "9"
    };
    assert(text@ =~= seq![digit(d as nat)]);
    text
}

/// A natural number in decimal.
pub fn decimal_text(n: u128) -> (text: String)
    ensures
        text@ == decimal(n as nat),
    decreases n,
{
    if n < 10 {
        String::from_str(digit_text(n))
    } else {
        let mut text = decimal_text(n / 10);
        text.append(digit_text(n % 10));
        assert(text@ =~= decimal(n as nat));
        text
    }
}

/// The percentage line for a charge.
pub fn percent_text(charge: Charge) -> (text: String)
    ensures
        text@ == percent_label(charge),
{
    let mut text = if charge.is_nan() {
        String::from_str("NaN")
    } else {
        let mut number = if charge.is_negative() {
            proof {
                reveal_strlit("-");
            }
            String::from_str("-")
        } else {
            proof {
                reveal_strlit("");
            }
            String::from_str("")
        };
        if charge.is_finite() {
            let size = decimal_text(charge.round());
            number.append(size.as_str());
        } else {
            number.append("inf");
        }
        assert(number@ =~= number_label(charge));
        number
    };
    proof {
        reveal_strlit("%");
    }
    text.append("%");
    assert(text@ =~= percent_label(charge));
    text
}

fn run_text(glyph: &str, n: usize) -> (text: String)
    requires
        glyph@.len() == 1,
    ensures
        text@ == run_of(glyph@[0], n as nat),
{
    proof {
        reveal_strlit("");
    }
    let mut text = String::from_str("");
    let mut i: usize = 0;
    while i < n
        invariant
            i <= n,
            glyph@.len() == 1,
            text@ =~= run_of(glyph@[0], i as nat),
        decreases n - i,
    {
        text.append(glyph);
        i = i + 1;
    }
    text
}

/// The gauge with `filled` of its cells filled.
pub fn bar_text(filled: usize) -> (text: String)
    requires
        filled <= GAUGE_CELLS,
    ensures
        text@ == bar_label(filled as nat),
{
    proof {
        reveal_strlit("[");
        reveal_strlit("]");
        reveal_strlit("\u{2588}");
        reveal_strlit("\u{2591}");
    }
    let empty = GAUGE_CELLS - filled;
    let mut text = String::from_str("[");
    let full_run = run_text("\u{2588}", filled);
    let empty_run = run_text("\u{2591}", empty);
    text.append(full_run.as_str());
    text.append(empty_run.as_str());
    text.append("]");
    assert(text@ =~= bar_label(filled as nat));
    text
}

/// The block of the percentage mode: the percentage in the tone of the
/// charge, and with `show_label` the title above it and the operating mode
/// below.
pub fn render_percentage(charge: Charge, state: PowerState, show_label: bool) -> (lines: Vec<
    RenderLine,
>)
    ensures
        shown(lines@) == percentage_block(charge, state, show_label),
{
    let color = charge_color(charge);
    let mut lines: Vec<RenderLine> = Vec::new();
    if show_label {
        lines.push(RenderLine { text: String::from_str("Battery"), tone: Tone::Plain });
    }
    lines.push(RenderLine { text: percent_text(charge), tone: color });
    if show_label {
        lines.push(RenderLine { text: state_text(state), tone: Tone::Muted });
    }
    assert(shown(lines@) =~= percentage_block(charge, state, show_label));
    lines
}

/// The block of the graphic mode: the gauge and the percentage in the tone
/// of the charge, and with `show_label` the title above them and the
/// operating mode below. The charge must not fill more cells than the gauge
/// has.
pub fn render_graphic(charge: Charge, state: PowerState, show_label: bool) -> (lines: Vec<
    RenderLine,
>)
    requires
        charge.cells() <= GAUGE_CELLS,
    ensures
        shown(lines@) == graphic_block(charge, state, show_label),
{
    let color = charge_color(charge);
    let filled = match charge.gauge_cells() {
        Some(n) => n,
        None => 0,
    };
    let bar = bar_text(filled);
    let mut lines: Vec<RenderLine> = Vec::new();
    if show_label {
        lines.push(RenderLine { text: String::from_str("Battery"), tone: Tone::Plain });
    }
    lines.push(RenderLine { text: bar, tone: color });
    lines.push(RenderLine { text: percent_text(charge), tone: color });
    if show_label {
        lines.push(RenderLine { text: state_text(state), tone: Tone::Muted });
    }
    assert(shown(lines@) =~= graphic_block(charge, state, show_label));
    lines
}

/// The block shown when there is no reading: one plain line.
pub fn render_absent() -> (lines: Vec<RenderLine>)
    ensures
        shown(lines@) == seq![(absent_label(), Tone::Plain)],
{
    let mut lines: Vec<RenderLine> = Vec::new();
    lines.push(RenderLine { text: String::from_str("No battery found"), tone: Tone::Plain });
    assert(shown(lines@) =~= seq![(absent_label(), Tone::Plain)]);
    lines
}

} // verus!
