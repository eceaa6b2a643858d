//! What holds of every chart.

use crate::bar_graph::data::DataView;
use crate::bar_graph::colors::painted;
use crate::bar_graph::layout::{
    bar_color_of, bar_text, exact_columns, fill_of, blank_line, chart_lines, chart_text, columns, continues_group, entry_line, gap_lines,
    group_starts, joined, label_cell, label_width, label_width_upto, max_value, max_value_upto,
    printed_label, round_half_away, BarGraphView, SEPARATOR,
};
use crate::bar_graph::scale::{lemma_parts, lemma_quotient_between};
use crate::bar_graph::number::{magnitude, pow10, Dec};
use crate::bar_graph::text::repeated;
use vstd::prelude::*;

verus! {

/// The characters of `lines`, a newline counted after each.
pub open spec fn text_len(lines: Seq<Seq<char>>) -> nat
    decreases lines.len(),
{
    if lines.len() == 0 {
        0
    } else {
        text_len(lines.drop_last()) + lines.last().len() + 1
    }
}

/// Where line `i` starts in the joined text.
pub open spec fn line_start(lines: Seq<Seq<char>>, i: int) -> int {
    text_len(lines.take(i)) as int
}

/// A chart has one line for each bar and `space_between` blank lines in
/// front of each bar, the first aside, that starts a group.
pub proof fn theorem_line_count(g: BarGraphView, data: Seq<DataView>, n: nat)
    ensures
        chart_lines(g, data, n).len() == n + g.space_between * group_starts(g, data, n),
    decreases n,
{
    if n > 0 {
        theorem_line_count(g, data, (n - 1) as nat);
        let before = group_starts(g, data, (n - 1) as nat);
        if n == 1 {
            assert(group_starts(g, data, 0) == 0);
            assert(g.space_between * 0 == 0);
        } else if continues_group(g, data, n - 1) {
        } else {
            assert(g.space_between * (before + 1) == g.space_between * before + g.space_between)
                by (nonlinear_arith);
        }
    } else {
        assert(g.space_between * 0 == 0);
    }
}

/// The joined text is as long as its lines and their newlines together.
pub proof fn lemma_joined_len(lines: Seq<Seq<char>>)
    ensures
        joined(lines).len() == text_len(lines),
    decreases lines.len(),
{
    if lines.len() > 0 {
        lemma_joined_len(lines.drop_last());
    }
}

/// The joined text of the first lines is the start of the joined text of
/// all.
pub proof fn lemma_joined_prefix(lines: Seq<Seq<char>>, i: int)
    requires
        0 <= i <= lines.len(),
    ensures
        joined(lines.take(i)).len() <= joined(lines).len(),
        joined(lines).take(joined(lines.take(i)).len() as int) == joined(lines.take(i)),
    decreases lines.len(),
{
    if i == lines.len() {
        assert(lines.take(i) =~= lines);
        assert(joined(lines).take(joined(lines).len() as int) =~= joined(lines));
    } else {
        lemma_joined_prefix(lines.drop_last(), i);
        assert(lines.drop_last().take(i) =~= lines.take(i));
        let head = joined(lines.take(i));
        assert(joined(lines).take(head.len() as int) =~= joined(lines.drop_last()).take(
            head.len() as int,
        ));
    }
}

/// In the text of any lines, each line stands whole, in its place, with a
/// newline straight after it; and the text ends with the last line's newline.
pub proof fn theorem_each_line_ends_in_newline(lines: Seq<Seq<char>>, i: int)
    requires
        0 <= i < lines.len(),
    ensures
        line_start(lines, i) + lines[i].len() < joined(lines).len(),
        joined(lines).subrange(
            line_start(lines, i),
            line_start(lines, i) + lines[i].len(),
        ) == lines[i],
        joined(lines)[line_start(lines, i) + lines[i].len()] == '\n',
        joined(lines).len() == line_start(lines, lines.len() as int),
{
    let upto = lines.take(i + 1);
    let text = joined(lines);
    lemma_joined_prefix(lines, i + 1);
    lemma_joined_len(lines.take(i));
    lemma_joined_len(lines);
    assert(lines.take(lines.len() as int) =~= lines);
    assert(upto.drop_last() =~= lines.take(i));
    assert(upto.last() == lines[i]);
    let start = line_start(lines, i);
    let head = joined(upto);
    assert(head == joined(lines.take(i)) + lines[i] + seq!['\n']);
    assert(head.len() == start + lines[i].len() + 1);
    assert(text.take(head.len() as int) == head);
    assert(text[start + lines[i].len()] == text.take(head.len() as int)[start + lines[i].len()]);
    assert(text.subrange(start, start + lines[i].len()) =~= lines[i]) by {
        assert forall|k: int| 0 <= k < lines[i].len() implies text[start + k] == lines[i][k] by {
            assert(text[start + k] == text.take(head.len() as int)[start + k]);
        }
    }
}

/// No label is longer than the label column, and where there is a bar, some
/// label is exactly as long.
pub proof fn theorem_label_width_is_longest(data: Seq<DataView>, n: nat)
    requires
        n <= data.len(),
    ensures
        forall|i: int| 0 <= i < n ==> (#[trigger] data[i]).label.len() <= label_width_upto(data, n),
        n > 0 ==> exists|i: int|
            0 <= i < n && (#[trigger] data[i]).label.len() == label_width_upto(data, n),
    decreases n,
{
    if n > 0 {
        theorem_label_width_is_longest(data, (n - 1) as nat);
        let before = label_width_upto(data, (n - 1) as nat);
        if data[n - 1].label.len() > before || n == 1 {
            assert(data[n - 1].label.len() == label_width_upto(data, n));
        } else {
            let i = choose|i: int| 0 <= i < n - 1 && (#[trigger] data[i]).label.len() == before;
            assert(data[i].label.len() == label_width_upto(data, n));
        }
    }
}

/// A label column for a label that fits: the label, then blanks, then the
/// separator in column `width`, and nothing more.
pub proof fn lemma_label_cell_shape(label: Seq<char>, width: nat)
    requires
        label.len() <= width,
    ensures
        label_cell(label, width).len() == width + 1,
        label_cell(label, width).take(label.len() as int) == label,
        forall|k: int| label.len() <= k < width ==> label_cell(label, width)[k] == ' ',
        label_cell(label, width)[width as int] == SEPARATOR,
{
    assert(label_cell(label, width).take(label.len() as int) =~= label);
}

/// On every line of a chart, the line of a bar or a blank one, the label
/// column is exactly as wide as the longest label: the label that is printed
/// (none for a bar that continues a group), blanks up to that width, and
/// then the separator.
pub proof fn theorem_label_column(g: BarGraphView, data: Seq<DataView>, i: int)
    requires
        0 <= i < data.len(),
    ensures
        ({
            let width = label_width(data);
            let label = printed_label(data[i], continues_group(g, data, i));
            let line = entry_line(g, data, i);
            let blank = blank_line(width);
            &&& label.len() <= width
            &&& line.len() > width
            &&& line.take(label.len() as int) == label
            &&& forall|k: int| label.len() <= k < width ==> line[k] == ' '
            &&& line[width as int] == SEPARATOR
            &&& blank.len() == width + 1
            &&& forall|k: int| 0 <= k < width ==> blank[k] == ' '
            &&& blank[width as int] == SEPARATOR
            &&& forall|k: int|
                0 <= k < gap_lines(g, data, i).len() ==> gap_lines(g, data, i)[k] == blank
        }),
{
    let width = label_width(data);
    let label = printed_label(data[i], continues_group(g, data, i));
    let line = entry_line(g, data, i);
    theorem_label_width_is_longest(data, data.len());
    assert(data[i].label.len() <= width);
    lemma_label_cell_shape(label, width);
    lemma_label_cell_shape(Seq::empty(), width);
    let cell = label_cell(label, width);
    assert(line.take(cell.len() as int) =~= cell);
    assert(line.take(label.len() as int) =~= cell.take(label.len() as int));
    assert forall|k: int| label.len() <= k < width implies line[k] == ' ' by {
        assert(line[k] == cell[k]);
    }
    assert(line[width as int] == cell[width as int]);
}

/// A power of ten is positive.
pub proof fn lemma_pow10_positive(e: nat)
    ensures
        pow10(e) > 0,
    decreases e,
{
    if e > 0 {
        lemma_pow10_positive((e - 1) as nat);
    }
}

/// Below a number that is not above a third is below the third.
pub proof fn lemma_less_than_chain(a: Dec, b: Dec, c: Dec)
    requires
        a.less_than(b),
        !c.less_than(b),
    ensures
        a.less_than(c),
{
    lemma_pow10_positive(a.scale);
    lemma_pow10_positive(b.scale);
    lemma_pow10_positive(c.scale);
    let (x, y, z) = (a.mantissa, b.mantissa, c.mantissa);
    let (p, q, r) = (pow10(a.scale), pow10(b.scale), pow10(c.scale));
    assert(x * r < z * p) by (nonlinear_arith)
        requires
            x * q < y * p,
            y * r <= z * q,
            p > 0,
            q > 0,
            r > 0,
    {
        assert((x * q) * r < (y * p) * r);
        assert((y * r) * p <= (z * q) * p);
        assert((x * r) * q < (z * p) * q);
    }
}

/// The largest value is the value of a bar; no bar has a value above it; and
/// of the bars whose value is not below it, it is the value of the last.
pub proof fn theorem_max_value_is_largest(data: Seq<DataView>, n: nat)
    requires
        0 < n <= data.len(),
    ensures
        forall|j: int| 0 <= j < n ==> !max_value_upto(data, n).less_than((#[trigger] data[j]).value),
        exists|i: int|
            {
                &&& 0 <= i < n
                &&& (#[trigger] data[i]).value == max_value_upto(data, n)
                &&& forall|j: int|
                    i < j < n ==> (#[trigger] data[j]).value.less_than(max_value_upto(data, n))
            },
    decreases n,
{
    let max = max_value_upto(data, n);
    if n == 1 {
        assert(data[0].value == max);
    } else {
        theorem_max_value_is_largest(data, (n - 1) as nat);
        let before = max_value_upto(data, (n - 1) as nat);
        let here = data[n - 1].value;
        if here.less_than(before) {
            let i = choose|i: int|
                {
                    &&& 0 <= i < n - 1
                    &&& (#[trigger] data[i]).value == before
                    &&& forall|j: int| i < j < n - 1 ==> (#[trigger] data[j]).value.less_than(before)
                };
            assert(data[i].value == max);
        } else {
            assert forall|j: int| 0 <= j < n implies !max.less_than((#[trigger] data[j]).value) by {
                if j < n - 1 && here.less_than(data[j].value) {
                    lemma_less_than_chain(here, data[j].value, before);
                }
            }
            assert(data[n - 1].value == max);
        }
    }
}

/// The rounded quotient is the whole number nearest to the exact quotient:
/// taken without signs, the exact quotient is less than half above it and at
/// most half below it.
pub proof fn theorem_rounding_is_nearest(num: int, den: int)
    requires
        den != 0,
    ensures
        ({
            let n = magnitude(num);
            let d = magnitude(den);
            let q = magnitude(round_half_away(num, den));
            &&& 2 * (q * d - n) <= d
            &&& 2 * (n - q * d) < d
            &&& round_half_away(num, den) == if (num < 0) != (den < 0) {
                -q
            } else {
                q
            }
        }),
{
    let n = magnitude(num);
    let d = magnitude(den);
    let x = 2 * n + d;
    let step = 2 * d;
    let q = x / step;
    vstd::arithmetic::div_mod::lemma_fundamental_div_mod(x, step);
    vstd::arithmetic::div_mod::lemma_mod_bound(x, step);
    vstd::arithmetic::div_mod::lemma_div_pos_is_pos(x, step);
    assert(q >= 0);
    assert(magnitude(round_half_away(num, den)) == q);
    assert(step * q == 2 * (q * d)) by (nonlinear_arith)
        requires
            step == 2 * d,
    ;
    assert(x == step * q + x % step);
}

/// A quotient halfway between two whole numbers is rounded to the one
/// farther from zero.
pub proof fn theorem_tie_rounds_away_from_zero(num: int, den: int, k: int)
    requires
        den != 0,
        k >= 0,
        2 * magnitude(num) == (2 * k + 1) * magnitude(den),
    ensures
        (num < 0) == (den < 0) ==> round_half_away(num, den) == k + 1,
        (num < 0) != (den < 0) ==> round_half_away(num, den) == -(k + 1),
{
    let d = magnitude(den);
    let x = 2 * magnitude(num) + d;
    assert((2 * d) * (k + 1) == x && (2 * d) * (k + 2) > x) by (nonlinear_arith)
        requires
            x == (2 * k + 1) * d + d,
            d > 0,
    ;
    lemma_quotient_between(x, 2 * d, k + 1);
}

/// Half a column is drawn as one column: a bar of value 1 where 2 takes one
/// column has one column, and a bar of value 5 where 6 takes three columns
/// has three.
pub proof fn theorem_half_a_column_is_a_column()
    ensures
        columns(Dec::whole(1), Dec::whole(2), 1) == Some(1u16),
        columns(Dec::whole(5), Dec::whole(6), 3) == Some(3u16),
        columns(Dec::whole(49), Dec::whole(100), 1) == Some(0u16),
{
    assert(pow10(0) == 1);
    assert(magnitude(1) == 1 && magnitude(2) == 2 && magnitude(15) == 15 && magnitude(6) == 6);
    assert(magnitude(49) == 49 && magnitude(100) == 100);
    lemma_quotient_between(4, 4, 1);
    lemma_quotient_between(36, 12, 3);
    lemma_quotient_between(198, 200, 0);
    assert(round_half_away(1, 2) == 1);
    assert(round_half_away(15, 6) == 3);
    assert(round_half_away(49, 100) == 0);
}

/// A bar whose value is the largest one, that value not being zero, is as
/// long as the chart is wide, for every width that can be drawn. The value
/// may be written with another scale than the largest one (1.0 and 1).
pub proof fn theorem_largest_value_takes_full_width(value: Dec, max_y: Dec, width: u64)
    requires
        value.same_value(max_y),
        max_y.mantissa != 0,
        width <= u16::MAX,
    ensures
        columns(value, max_y, width) == Some(width as u16),
{
    lemma_pow10_positive(value.scale);
    lemma_pow10_positive(max_y.scale);
    let up = pow10(max_y.scale);
    let down = pow10(value.scale);
    let num = value.mantissa * width * up;
    let den = max_y.mantissa * down;
    lemma_parts(value.mantissa, width as int, up, max_y.mantissa, down);
    assert(num == den * width) by (nonlinear_arith)
        requires
            num == value.mantissa * width * up,
            den == max_y.mantissa * down,
            value.mantissa * up == max_y.mantissa * down,
    ;
    let d = magnitude(den);
    assert(magnitude(den * width) == d * width && ((den * width < 0) == (den < 0 && width > 0)))
        by (nonlinear_arith)
        requires
            d == magnitude(den),
            width >= 0,
    ;
    let x = 2 * magnitude(num) + d;
    assert((2 * d) * width <= x < (2 * d) * (width + 1)) by (nonlinear_arith)
        requires
            x == 2 * (d * width) + d,
            d > 0,
    ;
    lemma_quotient_between(x, 2 * d, width as int);
    assert(round_half_away(num, den) == width);
}

/// The text of such a bar starts with as many fill characters as the chart is
/// wide, in the colour of the bar.
pub proof fn theorem_largest_bar_fills_the_width(g: BarGraphView, d: DataView, max_y: Dec)
    requires
        d.value.same_value(max_y),
        max_y.mantissa != 0,
        g.width <= u16::MAX,
    ensures
        columns(d.value, max_y, g.width) == Some(g.width as u16),
        ({
            let fill = painted(repeated(fill_of(g, d), g.width as nat), bar_color_of(g, d));
            let text = bar_text(g, d, columns(d.value, max_y, g.width)->0 as nat);
            fill.len() <= text.len() && text.take(fill.len() as int) == fill
        }),
{
    theorem_largest_value_takes_full_width(d.value, max_y, g.width);
    let fill = painted(repeated(fill_of(g, d), g.width as nat), bar_color_of(g, d));
    let text = bar_text(g, d, g.width as nat);
    assert(text.take(fill.len() as int) =~= fill);
}

/// Where the largest value is zero, every bar has length zero.
pub proof fn theorem_zero_maximum_gives_empty_bars(value: Dec, max_y: Dec, width: u64)
    requires
        max_y.mantissa == 0,
    ensures
        columns(value, max_y, width) == Some(0u16),
{
}

/// A chart of bars whose largest value is zero can be drawn: every bar has a
/// length, and it is zero.
pub proof fn theorem_zero_chart_is_drawn(data: Seq<DataView>, width: u64)
    requires
        max_value(data).mantissa == 0,
    ensures
        forall|i: int|
            0 <= i < data.len() ==> (#[trigger] columns(data[i].value, max_value(data), width))
                == Some(0u16),
{
}

/// A bar of value zero has length zero, whatever the largest value and the
/// width.
pub proof fn theorem_zero_value_gives_empty_bar(value: Dec, max_y: Dec, width: u64)
    requires
        value.mantissa == 0,
    ensures
        columns(value, max_y, width) == Some(0u16),
{
    if max_y.mantissa != 0 {
        lemma_pow10_positive(value.scale);
        lemma_pow10_positive(max_y.scale);
        let up = pow10(max_y.scale);
        let down = pow10(value.scale);
        lemma_parts(value.mantissa, width as int, up, max_y.mantissa, down);
        let d = magnitude(max_y.mantissa * down);
        assert(magnitude(value.mantissa) * width * up == 0) by (nonlinear_arith)
            requires
                magnitude(value.mantissa) == 0,
        ;
        lemma_quotient_between(d, 2 * d, 0);
    }
}

/// A bar has a length exactly where the rounded number of its columns is
/// between 0 and 65535, or the largest value is zero. A bar that would be
/// longer has none: it is never drawn shorter, cut or empty.
pub proof fn theorem_long_bar_has_no_length(value: Dec, max_y: Dec, width: u64)
    requires
        max_y.mantissa != 0,
    ensures
        columns(value, max_y, width) is Some <==> 0 <= exact_columns(value, max_y, width) <= 65535,
        columns(value, max_y, width) is Some ==> columns(value, max_y, width)->0
            == exact_columns(value, max_y, width),
{
}

/// Whether a bar continues a group hangs on the bar straight before it and
/// on no other: after a bar with another label a new group starts, whatever
/// labels came earlier.
pub proof fn theorem_grouping_is_adjacent(g: BarGraphView, data: Seq<DataView>, i: int)
    requires
        0 < i < data.len(),
    ensures
        continues_group(g, data, i) <==> g.group_same_label && data[i].label == data[i - 1].label,
        data[i].label != data[i - 1].label ==> gap_lines(g, data, i).len() == g.space_between,
        !continues_group(g, data, 0),
{
}

/// The text of a chart hangs on the description and the bars alone: the same
/// description and bars give the same text.
pub proof fn theorem_same_chart_same_text(
    g1: BarGraphView,
    data1: Seq<DataView>,
    g2: BarGraphView,
    data2: Seq<DataView>,
)
    requires
        g1 == g2,
        data1 =~= data2,
    ensures
        chart_text(g1, data1) == chart_text(g2, data2),
{
}

} // verus!
