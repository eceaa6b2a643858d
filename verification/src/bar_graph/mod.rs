//! The chart description and the drawing of its text.

use crate::bar_graph::colors::Color;
use crate::bar_graph::data::Data;
use crate::bar_graph::layout::{
    all_have_columns, bar_line, bar_text, blank_line, caption, chart_lines, chart_text, columns,
    continues_group, entry_line, fill_of, gap_lines, joined, label_cell, label_width,
    label_width_upto, lemma_joined_concat, lemma_joined_push, max_value, max_value_upto, views,
    BarGraphView, SEPARATOR,
};
use crate::bar_graph::number::{decimal_less, Number};
use crate::bar_graph::scale::columns_of;
use crate::bar_graph::text::{push_repeated, repeated};
use vstd::prelude::*;

pub mod colors;
pub mod data;
pub mod layout;
pub mod lines;
pub mod number;
pub mod scale;
pub mod text;
pub mod theorems;
pub mod wide;

verus! {

/// A horizontal bar chart: how wide the longest bar is, how bars are spaced
/// and grouped, and how they are drawn unless a bar says otherwise.
#[derive(Debug, Clone, Copy)]
pub struct BarGraph {
    /// The max width of the graph
    width: u64,
    /// The number of blank lines between two groups of bars
    space_between: u8,
    /// Group bars with the same label
    group_same_label: bool,
    /// The color of the bar
    bar_color: Color,
    /// The color of the bar's value
    bar_value_color: Color,
    /// The character used in the bar
    bar_character: char,
}

impl View for BarGraph {
    type V = BarGraphView;

    closed spec fn view(&self) -> BarGraphView {
        BarGraphView {
            width: self.width,
            space_between: self.space_between,
            group_same_label: self.group_same_label,
            bar_color: self.bar_color,
            bar_value_color: self.bar_value_color,
            bar_character: self.bar_character,
        }
    }
}

/// The longest label of `data`, in characters.
pub fn label_area_width(data: &[Data]) -> (width: usize)
    ensures
        width == label_width(views(data@)),
{
    let mut width: usize = 0;
    let mut i: usize = 0;
    while i < data.len()
        invariant
            i <= data.len(),
            width == label_width_upto(views(data@), i as nat),
        decreases data.len() - i,
    {
        let here = data[i].label().as_str().unicode_len();
        if here > width {
            width = here;
        }
        i = i + 1;
    }
    width
}

/// The largest value of `data`; of several that are equal as numbers, the
/// last.
pub fn max_y(data: &[Data]) -> (max: Number)
    requires
        data.len() > 0,
    ensures
        max@ == max_value(views(data@)),
{
    let mut max = data[0].value();
    let mut i: usize = 1;
    while i < data.len()
        invariant
            1 <= i <= data.len(),
            max@ == max_value_upto(views(data@), i as nat),
        decreases data.len() - i,
    {
        let here = data[i].value();
        if !decimal_less(&here, &max) {
            max = here;
        }
        i = i + 1;
    }
    max
}

impl BarGraph {
    /// A chart whose longest bar is `width` columns, with one blank line
    /// between groups, bars of the same label grouped, white bars of full
    /// blocks and grey values.
    pub fn new(width: u64) -> (g: BarGraph)
        ensures
            g@ == (BarGraphView {
                width,
                space_between: 1,
                group_same_label: true,
                bar_color: Color(255, 255, 255),
                bar_value_color: Color(150, 150, 150),
                bar_character: '\u{2588}',
            }),
    {
        BarGraph {
            width,
            space_between: 1,
            group_same_label: true,
            bar_color: Color(255, 255, 255),
            bar_value_color: Color(150, 150, 150),
            bar_character: '\u{2588}',
        }
    }

    /// The same chart with `lines` blank lines between groups.
    pub fn with_space_between(self, lines: u8) -> (g: BarGraph)
        ensures
            g@ == (BarGraphView { space_between: lines, ..self@ }),
    {
        BarGraph { space_between: lines, ..self }
    }

    /// The same chart, grouping bars of the same label or not.
    pub fn with_group_same_label(self, group: bool) -> (g: BarGraph)
        ensures
            g@ == (BarGraphView { group_same_label: group, ..self@ }),
    {
        BarGraph { group_same_label: group, ..self }
    }

    /// The same chart with bars in `color`.
    pub fn with_bar_color(self, color: Color) -> (g: BarGraph)
        ensures
            g@ == (BarGraphView { bar_color: color, ..self@ }),
    {
        BarGraph { bar_color: color, ..self }
    }

    /// The same chart with values in `color`.
    pub fn with_bar_value_color(self, color: Color) -> (g: BarGraph)
        ensures
            g@ == (BarGraphView { bar_value_color: color, ..self@ }),
    {
        BarGraph { bar_value_color: color, ..self }
    }

    /// The same chart with bars drawn with `character`.
    pub fn with_bar_character(self, character: char) -> (g: BarGraph)
        ensures
            g@ == (BarGraphView { bar_character: character, ..self@ }),
    {
        BarGraph { bar_character: character, ..self }
    }

    /// The width of the longest bar, in columns.
    pub fn width(&self) -> (width: u64)
        ensures
            width == self@.width,
    {
        self.width
    }

    /// The number of blank lines between two groups.
    pub fn space_between(&self) -> (lines: u8)
        ensures
            lines == self@.space_between,
    {
        self.space_between
    }

    /// Whether bars of the same label are grouped.
    pub fn group_same_label(&self) -> (group: bool)
        ensures
            group == self@.group_same_label,
    {
        self.group_same_label
    }

    /// The colour of bars.
    pub fn bar_color(&self) -> (color: Color)
        ensures
            color == self@.bar_color,
    {
        self.bar_color
    }

    /// The colour of values.
    pub fn bar_value_color(&self) -> (color: Color)
        ensures
            color == self@.bar_value_color,
    {
        self.bar_value_color
    }

    /// The character bars are drawn with.
    pub fn bar_character(&self) -> (character: char)
        ensures
            character == self@.bar_character,
    {
        self.bar_character
    }

    /// The length of the bar for `value` where `max_y` takes the full width,
    /// or `None` where the bar has no length that can be drawn.
    pub fn bar_columns(&self, value: &Number, max_y: &Number) -> (n: Option<u16>)
        ensures
            n == columns(value@, max_y@, self@.width),
    {
        columns_of(value, max_y, self.width)
    }

    /// A bar of `length` columns for `data`, followed by its value, each in
    /// its colour.
    pub fn draw_bar(&self, data: &Data, length: u16) -> (line: String)
        ensures
            line@ == bar_text(self@, data@, length as nat),
    {
        let character = match data.bar_character() {
            Some(c) => c,
            None => self.bar_character,
        };
        let mut fill = String::new();
        push_repeated(&mut fill, character, length as usize);
        assert(fill@ =~= repeated(fill_of(self@, data@), length as nat));

        let bar_color = match data.bar_color() {
            Some(c) => c,
            None => self.bar_color,
        };
        let mut line = bar_color.paint(fill.as_str());

        let mut shown = String::new();
        shown.push(' ');
        shown.push('-');
        shown.push(' ');
        shown.push('(');
        shown.append(data.value_display().as_str());
        shown.push(')');
        assert(shown@ =~= caption(data@.display_text()));

        let value_color = match data.bar_value_color() {
            Some(c) => c,
            None => self.bar_value_color,
        };
        line.append(value_color.paint(shown.as_str()).as_str());
        line
    }

    /// The bar of `data` and its value, each in its colour, where `max_y`
    /// takes the full width.
    pub fn get_bar_line(&self, data: &Data, max_y: Number) -> (line: String)
        requires
            columns(data@.value, max_y@, self@.width) is Some,
        ensures
            line@ == bar_text(
                self@,
                data@,
                columns(data@.value, max_y@, self@.width)->0 as nat,
            ),
    {
        let value = data.value();
        match self.bar_columns(&value, &max_y) {
            Some(length) => self.draw_bar(data, length),
            None => String::new(),
        }
    }

    /// Format the label area for the current line
    pub fn get_line_label(&self, label: &str, label_area_width: usize) -> (cell: String)
        ensures
            cell@ == label_cell(label@, label_area_width as nat),
    {
        let mut cell = label.to_owned();
        let len = label.unicode_len();
        if label_area_width > len {
            push_repeated(&mut cell, ' ', label_area_width - len);
        } else {
            assert(cell@ =~= label@ + repeated(' ', 0));
        }
        cell.push(SEPARATOR);
        cell
    }

    /// Format a complete bar line
    pub fn format_bar_line(
        &self,
        data: &Data,
        label_area_width: usize,
        max_y: Number,
        grouped: bool,
    ) -> (line: String)
        requires
            columns(data@.value, max_y@, self@.width) is Some,
        ensures
            line@ == bar_line(self@, data@, label_area_width as nat, max_y@, grouped),
    {
        let mut line = if grouped {
            let cell = self.get_line_label("", label_area_width);
            proof {
                reveal_strlit("");
            }
            assert(""@ =~= Seq::<char>::empty());
            cell
        } else {
            self.get_line_label(data.label().as_str(), label_area_width)
        };
        line.append(self.get_bar_line(data, max_y).as_str());
        line
    }

    /// Return the lines between two bars
    pub fn get_lines_between_bars(&self, label_area_width: usize) -> (lines: String)
        ensures
            lines@ == joined(
                Seq::new(
                    self@.space_between as nat,
                    |k: int| blank_line(label_area_width as nat),
                ),
            ),
    {
        let ghost blank = blank_line(label_area_width as nat);
        let mut out = String::new();
        let mut done: u8 = 0;
        while done < self.space_between
            invariant
                done <= self.space_between,
                blank == blank_line(label_area_width as nat),
                out@ == joined(Seq::new(done as nat, |k: int| blank)),
            decreases self.space_between - done,
        {
            let cell = self.get_line_label("", label_area_width);
            proof {
                reveal_strlit("");
                assert(""@ =~= Seq::<char>::empty());
                lemma_joined_push(Seq::new(done as nat, |k: int| blank), blank);
                assert(Seq::new(done as nat, |k: int| blank).push(blank) =~= Seq::new(
                    (done + 1) as nat,
                    |k: int| blank,
                ));
            }
            out.append(cell.as_str());
            out.push('\n');
            done = done + 1;
        }
        out
    }

    /// The text of the chart of `data`: one line for each bar, blank lines
    /// between groups, a newline after each line. No bar, no text.
    pub fn format_data(&self, data: &[Data]) -> (out: String)
        requires
            all_have_columns(views(data@), max_value(views(data@)), self@.width),
        ensures
            out@ == chart_text(self@, views(data@)),
    {
        if data.len() == 0 {
            return String::new();
        }
        let label_area_width = label_area_width(data);
        let max_y = max_y(data);

        let ghost bars = views(data@);
        let mut out = String::new();
        let mut i: usize = 0;
        while i < data.len()
            invariant
                i <= data.len(),
                bars == views(data@),
                label_area_width == label_width(bars),
                max_y@ == max_value(bars),
                all_have_columns(bars, max_y@, self@.width),
                out@ == joined(chart_lines(self@, bars, i as nat)),
            decreases data.len() - i,
        {
            let grouped = i != 0 && self.group_same_label && *data[i - 1].label()
                == *data[i].label();
            assert(grouped == continues_group(self@, bars, i as int));
            let ghost before = chart_lines(self@, bars, i as nat);
            let ghost gap = gap_lines(self@, bars, i as int);
            let ghost line = entry_line(self@, bars, i as int);

            // Add space between the bars
            if i != 0 && !grouped {
                let blanks = self.get_lines_between_bars(label_area_width);
                out.append(blanks.as_str());
            }
            assert(out@ =~= joined(before) + joined(gap));

            assert(columns(bars[i as int].value, max_y@, self@.width) is Some);
            let text = self.format_bar_line(&data[i], label_area_width, max_y, grouped);
            out.append(text.as_str());
            out.push('\n');
            proof {
                lemma_joined_concat(before, gap);
                lemma_joined_push(before + gap, line);
                assert(chart_lines(self@, bars, (i + 1) as nat) =~= (before + gap).push(line));
            }
            i = i + 1;
        }
        out
    }

    /// The text of the chart of `data`, or `None` where a bar has no length
    /// that can be drawn.
    pub fn try_format_data(&self, data: &[Data]) -> (out: Option<String>)
        ensures
            out is Some <==> all_have_columns(
                views(data@),
                max_value(views(data@)),
                self@.width,
            ),
            out is Some ==> out->0@ == chart_text(self@, views(data@)),
    {
        if data.len() == 0 {
            return Some(self.format_data(data));
        }
        let max_y = max_y(data);
        let ghost bars = views(data@);
        let mut i: usize = 0;
        while i < data.len()
            invariant
                i <= data.len(),
                bars == views(data@),
                max_y@ == max_value(bars),
                forall|k: int|
                    0 <= k < i ==> (#[trigger] columns(bars[k].value, max_y@, self@.width)) is Some,
            decreases data.len() - i,
        {
            let value = data[i].value();
            if self.bar_columns(&value, &max_y).is_none() {
                assert(columns(bars[i as int].value, max_y@, self@.width) is None);
                return None;
            }
            i = i + 1;
        }
        Some(self.format_data(data))
    }
}

} // verus!
