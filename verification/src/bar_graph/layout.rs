//! What a chart looks like, as mathematics: the text of a chart as a function
//! of its description and its bars.

use crate::bar_graph::colors::{painted, Color};
use crate::bar_graph::data::{Data, DataView};
use crate::bar_graph::number::{magnitude, pow10, Dec};
use crate::bar_graph::text::repeated;
use vstd::prelude::*;

verus! {

/// The glyph between the label column and the bars.
pub const SEPARATOR: char = '\u{2502}';

/// The mathematical content of a chart's description.
pub struct BarGraphView {
    pub width: u64,
    pub space_between: u8,
    pub group_same_label: bool,
    pub bar_color: Color,
    pub bar_value_color: Color,
    pub bar_character: char,
}

/// The bars as mathematics, in order.
pub open spec fn views(data: Seq<Data>) -> Seq<DataView> {
    Seq::new(data.len(), |i: int| data[i]@)
}

/// The number of blanks that bring a text of `len` characters to `width`.
pub open spec fn padding(len: nat, width: nat) -> nat {
    if width > len {
        (width - len) as nat
    } else {
        0
    }
}

/// The label column of one line: the label, blanks up to `width`, and the
/// separator. A label longer than `width` is not cut.
pub open spec fn label_cell(label: Seq<char>, width: nat) -> Seq<char> {
    label + repeated(' ', padding(label.len(), width)) + seq![SEPARATOR]
}

/// The longest label among the first `n` bars, in characters.
pub open spec fn label_width_upto(data: Seq<DataView>, n: nat) -> nat
    decreases n,
{
    if n == 0 {
        0
    } else {
        let before = label_width_upto(data, (n - 1) as nat);
        let here = data[n - 1].label.len();
        if here > before {
            here
        } else {
            before
        }
    }
}

/// The width of the label column: the longest label, in characters.
pub open spec fn label_width(data: Seq<DataView>) -> nat {
    label_width_upto(data, data.len())
}

/// The largest value among the first `n` bars; of several that are equal as
/// numbers, the last.
pub open spec fn max_value_upto(data: Seq<DataView>, n: nat) -> Dec
    decreases n,
{
    if n <= 1 {
        data[0].value
    } else {
        let before = max_value_upto(data, (n - 1) as nat);
        let here = data[n - 1].value;
        if here.less_than(before) {
            before
        } else {
            here
        }
    }
}

/// The value that the full width stands for: the largest of all.
pub open spec fn max_value(data: Seq<DataView>) -> Dec {
    max_value_upto(data, data.len())
}

/// The quotient `num / den` as a whole number: the nearest one, and of two
/// that are equally near the one farther from zero.
pub open spec fn round_half_away(num: int, den: int) -> int
    recommends
        den != 0,
{
    let nearest = (2 * magnitude(num) + magnitude(den)) / (2 * magnitude(den));
    if (num < 0) != (den < 0) {
        -nearest
    } else {
        nearest
    }
}

/// `value / max_y * width`, exactly, as a whole number of columns: the
/// nearest one, a tie going away from zero. With the two numbers written as
/// mantissas over powers of ten, `value / max_y * width` is the quotient of
/// `value.mantissa * width * 10^max_y.scale` and
/// `max_y.mantissa * 10^value.scale`.
pub open spec fn exact_columns(value: Dec, max_y: Dec, width: u64) -> int
    recommends
        max_y.mantissa != 0,
{
    round_half_away(
        value.mantissa * width * pow10(max_y.scale),
        max_y.mantissa * pow10(value.scale),
    )
}

/// The length of the bar for `value`: no column where `max_y` is zero, else
/// `value / max_y * width` rounded to the nearest whole number of columns, a
/// tie going away from zero. `None` where that number is negative or above
/// 65535.
pub open spec fn columns(value: Dec, max_y: Dec, width: u64) -> Option<u16> {
    if max_y.mantissa == 0 {
        Some(0u16)
    } else {
        let n = exact_columns(value, max_y, width);
        if 0 <= n <= u16::MAX {
            Some(n as u16)
        } else {
            None
        }
    }
}

/// Whether every bar of `data` has a length when `max_y` is the full width.
pub open spec fn all_have_columns(data: Seq<DataView>, max_y: Dec, width: u64) -> bool {
    forall|i: int| 0 <= i < data.len() ==> (#[trigger] columns(data[i].value, max_y, width)) is Some
}

/// What is printed after a bar: the value's text in ` - (` and `)`.
pub open spec fn caption(display: Seq<char>) -> Seq<char> {
    seq![' ', '-', ' ', '('] + display + seq![')']
}

/// The character a bar is drawn with: the bar's own, else the chart's.
pub open spec fn fill_of(g: BarGraphView, d: DataView) -> char {
    match d.bar_character {
        Some(c) => c,
        None => g.bar_character,
    }
}

/// The colour of a bar: the bar's own, else the chart's.
pub open spec fn bar_color_of(g: BarGraphView, d: DataView) -> Color {
    match d.bar_color {
        Some(c) => c,
        None => g.bar_color,
    }
}

/// The colour of a bar's value: the bar's own, else the chart's.
pub open spec fn value_color_of(g: BarGraphView, d: DataView) -> Color {
    match d.bar_value_color {
        Some(c) => c,
        None => g.bar_value_color,
    }
}

/// A bar of `length` columns and its value, each in its colour.
pub open spec fn bar_text(g: BarGraphView, d: DataView, length: nat) -> Seq<char> {
    painted(repeated(fill_of(g, d), length), bar_color_of(g, d)) + painted(
        caption(d.display_text()),
        value_color_of(g, d),
    )
}

/// The label printed in front of a bar: none for a bar that continues a
/// group.
pub open spec fn printed_label(d: DataView, grouped: bool) -> Seq<char> {
    if grouped {
        Seq::empty()
    } else {
        d.label
    }
}

/// The line of one bar, without its newline.
pub open spec fn bar_line(
    g: BarGraphView,
    d: DataView,
    label_area_width: nat,
    max_y: Dec,
    grouped: bool,
) -> Seq<char> {
    label_cell(printed_label(d, grouped), label_area_width) + bar_text(
        g,
        d,
        columns(d.value, max_y, g.width)->0 as nat,
    )
}

/// A line that holds no bar: an empty label column.
pub open spec fn blank_line(label_area_width: nat) -> Seq<char> {
    label_cell(Seq::empty(), label_area_width)
}

/// Whether bar `i` continues the group of the bar before it: grouping is on,
/// there is a bar before it, and that bar has the same label. No earlier bar
/// is looked at.
pub open spec fn continues_group(g: BarGraphView, data: Seq<DataView>, i: int) -> bool {
    i > 0 && g.group_same_label && data[i].label == data[i - 1].label
}

/// The blank lines in front of bar `i`: `space_between` of them where the bar
/// starts a group and is not the first, none otherwise.
pub open spec fn gap_lines(g: BarGraphView, data: Seq<DataView>, i: int) -> Seq<Seq<char>> {
    if i > 0 && !continues_group(g, data, i) {
        Seq::new(g.space_between as nat, |k: int| blank_line(label_width(data)))
    } else {
        Seq::empty()
    }
}

/// The line of bar `i` in the chart of `data`.
pub open spec fn entry_line(g: BarGraphView, data: Seq<DataView>, i: int) -> Seq<char> {
    bar_line(g, data[i], label_width(data), max_value(data), continues_group(g, data, i))
}

/// The lines of the first `n` bars, blank lines included, in order.
pub open spec fn chart_lines(g: BarGraphView, data: Seq<DataView>, n: nat) -> Seq<Seq<char>>
    decreases n,
{
    if n == 0 {
        Seq::empty()
    } else {
        chart_lines(g, data, (n - 1) as nat) + gap_lines(g, data, n - 1) + seq![
            entry_line(g, data, n - 1),
        ]
    }
}

/// The lines one after the other, a newline after each.
pub open spec fn joined(lines: Seq<Seq<char>>) -> Seq<char>
    decreases lines.len(),
{
    if lines.len() == 0 {
        Seq::empty()
    } else {
        joined(lines.drop_last()) + lines.last() + seq!['\n']
    }
}

/// The text of the chart of `data`: empty where there is no bar.
pub open spec fn chart_text(g: BarGraphView, data: Seq<DataView>) -> Seq<char> {
    joined(chart_lines(g, data, data.len()))
}

/// The number of bars among the first `n`, the first bar aside, that start a
/// group.
pub open spec fn group_starts(g: BarGraphView, data: Seq<DataView>, n: nat) -> nat
    decreases n,
{
    if n <= 1 {
        0
    } else {
        group_starts(g, data, (n - 1) as nat) + if continues_group(g, data, n - 1) {
            0nat
        } else {
            1nat
        }
    }
}

/// Joining one more line adds that line and its newline.
pub proof fn lemma_joined_push(lines: Seq<Seq<char>>, line: Seq<char>)
    ensures
        joined(lines.push(line)) == joined(lines) + line + seq!['\n'],
{
    assert(lines.push(line).drop_last() =~= lines);
}

/// Joining two runs of lines is joining each and putting the texts together.
pub proof fn lemma_joined_concat(a: Seq<Seq<char>>, b: Seq<Seq<char>>)
    ensures
        joined(a + b) == joined(a) + joined(b),
    decreases b.len(),
{
    if b.len() == 0 {
        assert(a + b =~= a);
        assert(joined(a) + joined(b) =~= joined(a));
    } else {
        lemma_joined_concat(a, b.drop_last());
        assert((a + b).drop_last() =~= a + b.drop_last());
        assert((a + b).last() == b.last());
        assert(joined(a + b) =~= joined(a) + joined(b));
    }
}

} // verus!
