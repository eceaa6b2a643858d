//! The lines of a chart in its text: where no label, display text or fill
//! character holds a newline, the newlines of the text are exactly the ends
//! of its lines.

use crate::bar_graph::colors::{color_off, color_on, digits, painted, Color};
use crate::bar_graph::data::DataView;
use crate::bar_graph::layout::{
    bar_color_of, bar_line, bar_text, blank_line, caption, chart_lines, chart_text, columns,
    continues_group, entry_line, fill_of, gap_lines, group_starts, joined, label_width,
    max_value, value_color_of, BarGraphView,
};
use crate::bar_graph::number::{is_number_char, number_text, Dec};
use crate::bar_graph::text::repeated;
use crate::bar_graph::theorems::theorem_line_count;
use vstd::prelude::*;

verus! {

/// Whether `text` holds no newline.
pub open spec fn no_newline(text: Seq<char>) -> bool {
    forall|i: int| 0 <= i < text.len() ==> text[i] != '\n'
}

/// The number of newlines in `text`.
pub open spec fn newlines(text: Seq<char>) -> nat
    decreases text.len(),
{
    if text.len() == 0 {
        0
    } else {
        newlines(text.drop_last()) + if text.last() == '\n' {
            1nat
        } else {
            0nat
        }
    }
}

/// Whether nothing that a bar brings to its line holds a newline: its label,
/// its display text where it has one, and the character it is drawn with.
pub open spec fn plain_bar(g: BarGraphView, d: DataView) -> bool {
    &&& no_newline(d.label)
    &&& d.value_display matches Some(text) ==> no_newline(text)
    &&& fill_of(g, d) != '\n'
}

/// Whether every bar of `data` is plain (see [`plain_bar`]).
pub open spec fn plain_bars(g: BarGraphView, data: Seq<DataView>) -> bool {
    forall|i: int| 0 <= i < data.len() ==> plain_bar(g, #[trigger] data[i])
}

/// Whether `text` is made of lines that are not empty, each closed by one
/// newline: it does not start with a newline, it ends with one, and no two
/// newlines stand side by side.
pub open spec fn closed_lines(text: Seq<char>) -> bool {
    &&& text[0] != '\n'
    &&& text.last() == '\n'
    &&& forall|i: int| 0 <= i < text.len() - 1 ==> !(text[i] == '\n' && #[trigger] text[i + 1] == '\n')
}

/// The newlines of two texts put together are those of the one and those of
/// the other.
pub proof fn lemma_newlines_concat(a: Seq<char>, b: Seq<char>)
    ensures
        newlines(a + b) == newlines(a) + newlines(b),
    decreases b.len(),
{
    if b.len() == 0 {
        assert(a + b =~= a);
    } else {
        lemma_newlines_concat(a, b.drop_last());
        assert((a + b).drop_last() =~= a + b.drop_last());
    }
}

/// A text without a newline has none to count.
pub proof fn lemma_no_newline_counts_zero(text: Seq<char>)
    requires
        no_newline(text),
    ensures
        newlines(text) == 0,
    decreases text.len(),
{
    if text.len() > 0 {
        lemma_no_newline_counts_zero(text.drop_last());
    }
}

/// Lines without a newline, joined, hold as many newlines as there are
/// lines.
pub proof fn lemma_joined_newlines(lines: Seq<Seq<char>>)
    requires
        forall|i: int| 0 <= i < lines.len() ==> no_newline(#[trigger] lines[i]),
    ensures
        newlines(joined(lines)) == lines.len(),
    decreases lines.len(),
{
    if lines.len() > 0 {
        lemma_joined_newlines(lines.drop_last());
        lemma_no_newline_counts_zero(lines.last());
        lemma_newlines_concat(joined(lines.drop_last()), lines.last());
        lemma_newlines_concat(joined(lines.drop_last()) + lines.last(), seq!['\n']);
        assert(newlines(seq!['\n']) == 1) by {
            let end = seq!['\n'];
            assert(end.len() == 1 && end.last() == '\n');
            assert(end.drop_last() =~= Seq::<char>::empty());
            assert(newlines(end.drop_last()) == 0);
        }
    }
}

/// Lines that are not empty and hold no newline, joined, are empty or a text
/// of lines closed one by one.
pub proof fn lemma_joined_closed(lines: Seq<Seq<char>>)
    requires
        forall|i: int|
            0 <= i < lines.len() ==> no_newline(#[trigger] lines[i]) && lines[i].len() > 0,
    ensures
        lines.len() == 0 ==> joined(lines).len() == 0,
        lines.len() > 0 ==> joined(lines).len() > 0 && closed_lines(joined(lines)),
    decreases lines.len(),
{
    if lines.len() > 0 {
        let before = joined(lines.drop_last());
        let line = lines.last();
        let text = joined(lines);
        lemma_joined_closed(lines.drop_last());
        assert(text == before + line + seq!['\n']);
        assert(text.len() == before.len() + line.len() + 1);
        assert(text.last() == '\n');
        assert(line[0] != '\n');
        if before.len() == 0 {
            assert(text[0] == line[0]);
        } else {
            assert(text[0] == before[0]);
        }
        assert forall|i: int| 0 <= i < text.len() - 1 implies !(text[i] == '\n' && #[trigger] text[i
            + 1] == '\n') by {
            if i + 1 < before.len() {
                assert(text[i] == before[i] && text[i + 1] == before[i + 1]);
            } else if i + 1 < before.len() + line.len() {
                assert(text[i + 1] == line[i + 1 - before.len()]);
            } else {
                assert(text[i] == line[i - before.len()]);
            }
        }
    }
}

/// The escape sequences of a colour hold no newline, so a painted text holds
/// one only where the text does.
pub proof fn lemma_painted_no_newline(text: Seq<char>, c: Color)
    requires
        no_newline(text),
    ensures
        no_newline(painted(text, c)),
{
    assert(no_newline(digits(c.0)) && no_newline(digits(c.1)) && no_newline(digits(c.2)));
    assert(no_newline(color_on(c)));
    assert(no_newline(color_off()));
}

/// The line of a plain bar holds no newline and is not empty.
pub proof fn lemma_bar_line_plain(
    g: BarGraphView,
    d: DataView,
    label_area_width: nat,
    max_y: Dec,
    grouped: bool,
)
    requires
        plain_bar(g, d),
    ensures
        no_newline(bar_line(g, d, label_area_width, max_y, grouped)),
        bar_line(g, d, label_area_width, max_y, grouped).len() > 0,
        no_newline(blank_line(label_area_width)),
        blank_line(label_area_width).len() > 0,
{
    let length = columns(d.value, max_y, g.width)->0 as nat;
    let shown = d.display_text();
    assert(no_newline(shown)) by {
        if d.value_display is None {
            assert forall|i: int| 0 <= i < shown.len() implies shown[i] != '\n' by {
                assert(is_number_char(number_text(d.value)[i]));
            }
        }
    }
    assert(no_newline(caption(shown)));
    assert(no_newline(repeated(fill_of(g, d), length)));
    lemma_painted_no_newline(repeated(fill_of(g, d), length), bar_color_of(g, d));
    lemma_painted_no_newline(caption(shown), value_color_of(g, d));
    assert(no_newline(bar_text(g, d, length)));
}

/// Every line of a chart of plain bars holds no newline and is not empty.
pub proof fn lemma_chart_lines_plain(g: BarGraphView, data: Seq<DataView>, n: nat)
    requires
        n <= data.len(),
        plain_bars(g, data),
    ensures
        forall|i: int|
            0 <= i < chart_lines(g, data, n).len() ==> no_newline(
                #[trigger] chart_lines(g, data, n)[i],
            ) && chart_lines(g, data, n)[i].len() > 0,
    decreases n,
{
    if n > 0 {
        lemma_chart_lines_plain(g, data, (n - 1) as nat);
        let before = chart_lines(g, data, (n - 1) as nat);
        let gap = gap_lines(g, data, n - 1);
        let line = entry_line(g, data, n - 1);
        let width = label_width(data);
        assert(plain_bar(g, data[n - 1]));
        lemma_bar_line_plain(
            g,
            data[n - 1],
            width,
            max_value(data),
            continues_group(g, data, n - 1),
        );
        let all = chart_lines(g, data, n);
        assert(all == before + gap + seq![line]);
        assert forall|i: int| 0 <= i < all.len() implies no_newline(#[trigger] all[i])
            && all[i].len() > 0 by {
            if i < before.len() {
                assert(all[i] == before[i]);
            } else if i < before.len() + gap.len() {
                assert(all[i] == gap[i - before.len()]);
                assert(all[i] == blank_line(width));
            } else {
                assert(all[i] == line);
            }
        }
    }
}

/// In the chart of bars whose labels, display texts and fill characters
/// hold no newline, the newlines are as many as the lines: one for each bar,
/// and `space_between` for each bar, the first aside, that starts a group.
pub proof fn theorem_newline_count(g: BarGraphView, data: Seq<DataView>)
    requires
        plain_bars(g, data),
    ensures
        newlines(chart_text(g, data)) == data.len() + g.space_between * group_starts(
            g,
            data,
            data.len(),
        ),
{
    lemma_chart_lines_plain(g, data, data.len());
    lemma_joined_newlines(chart_lines(g, data, data.len()));
    theorem_line_count(g, data, data.len());
}

/// The chart of such bars, where there is a bar, is a text of lines that are
/// not empty, each closed by one newline, the last one too.
pub proof fn theorem_lines_are_closed(g: BarGraphView, data: Seq<DataView>)
    requires
        plain_bars(g, data),
    ensures
        data.len() == 0 ==> chart_text(g, data).len() == 0,
        data.len() > 0 ==> chart_text(g, data).len() > 0 && closed_lines(chart_text(g, data)),
{
    lemma_chart_lines_plain(g, data, data.len());
    lemma_joined_closed(chart_lines(g, data, data.len()));
    theorem_line_count(g, data, data.len());
}

} // verus!
