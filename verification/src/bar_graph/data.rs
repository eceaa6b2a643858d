//! One bar of a chart.

use crate::bar_graph::colors::Color;
use crate::bar_graph::number::{number_text, Dec, Number};
use vstd::prelude::*;

verus! {

/// The mathematical content of a [`Data`].
pub struct DataView {
    pub label: Seq<char>,
    pub value: Dec,
    pub value_display: Option<Seq<char>>,
    pub bar_color: Option<Color>,
    pub bar_value_color: Option<Color>,
    pub bar_character: Option<char>,
}

impl DataView {
    /// The text printed for the value: the display text where there is one,
    /// else the value as the decimal library prints it.
    pub open spec fn display_text(self) -> Seq<char> {
        match self.value_display {
            Some(text) => text,
            None => number_text(self.value),
        }
    }
}

/// One bar: a label, a value, and what this bar overrides of the chart's
/// defaults. A bar does not change once it is built.
#[derive(Debug, Clone)]
pub struct Data {
    /// Label of the bar
    pub label: String,
    /// The value of the bar
    pub value: Number,
    /// The text shown for the value where the value needs a form of its own
    /// (a duration, say)
    value_display: Option<String>,
    /// The colour of the bar, in place of the chart's
    pub(crate) bar_color: Option<Color>,
    /// The colour of the bar's value, in place of the chart's
    pub(crate) bar_value_color: Option<Color>,
    /// The character the bar is drawn with, in place of the chart's
    pub(crate) bar_character: Option<char>,
}

impl View for Data {
    type V = DataView;

    closed spec fn view(&self) -> DataView {
        DataView {
            label: self.label@,
            value: self.value@,
            value_display: match self.value_display {
                Some(text) => Some(text@),
                None => None,
            },
            bar_color: self.bar_color,
            bar_value_color: self.bar_value_color,
            bar_character: self.bar_character,
        }
    }
}

impl Data {
    /// A bar with a label and a value, and nothing overridden.
    pub fn new(label: String, value: Number) -> (d: Data)
        ensures
            d@ == (DataView {
                label: label@,
                value: value@,
                value_display: None,
                bar_color: None,
                bar_value_color: None,
                bar_character: None,
            }),
    {
        Data {
            label,
            value,
            value_display: None,
            bar_color: None,
            bar_value_color: None,
            bar_character: None,
        }
    }

    /// The same bar, its value shown as `text`.
    pub fn with_value_display(self, text: String) -> (d: Data)
        ensures
            d@ == (DataView { value_display: Some(text@), ..self@ }),
    {
        Data {
            label: self.label,
            value: self.value,
            value_display: Some(text),
            bar_color: self.bar_color,
            bar_value_color: self.bar_value_color,
            bar_character: self.bar_character,
        }
    }

    /// The same bar, drawn in `color`.
    pub fn with_bar_color(self, color: Color) -> (d: Data)
        ensures
            d@ == (DataView { bar_color: Some(color), ..self@ }),
    {
        Data {
            label: self.label,
            value: self.value,
            value_display: self.value_display,
            bar_color: Some(color),
            bar_value_color: self.bar_value_color,
            bar_character: self.bar_character,
        }
    }

    /// The same bar, its value printed in `color`.
    pub fn with_bar_value_color(self, color: Color) -> (d: Data)
        ensures
            d@ == (DataView { bar_value_color: Some(color), ..self@ }),
    {
        Data {
            label: self.label,
            value: self.value,
            value_display: self.value_display,
            bar_color: self.bar_color,
            bar_value_color: Some(color),
            bar_character: self.bar_character,
        }
    }

    /// The same bar, drawn with `character`.
    pub fn with_bar_character(self, character: char) -> (d: Data)
        ensures
            d@ == (DataView { bar_character: Some(character), ..self@ }),
    {
        Data {
            label: self.label,
            value: self.value,
            value_display: self.value_display,
            bar_color: self.bar_color,
            bar_value_color: self.bar_value_color,
            bar_character: Some(character),
        }
    }

    /// The label.
    pub fn label(&self) -> (label: &String)
        ensures
            label@ == self@.label,
    {
        &self.label
    }

    /// The value.
    pub fn value(&self) -> (value: Number)
        ensures
            value@ == self@.value,
    {
        self.value
    }

    /// The text given to show for the value, where one was given.
    pub fn display_override(&self) -> (text: Option<&String>)
        ensures
            match text {
                Some(t) => self@.value_display == Some(t@),
                None => self@.value_display is None,
            },
    {
        match &self.value_display {
            Some(t) => Some(t),
            None => None,
        }
    }

    /// The colour of this bar, where it has one of its own.
    pub fn bar_color(&self) -> (color: Option<Color>)
        ensures
            color == self@.bar_color,
    {
        self.bar_color
    }

    /// The colour of this bar's value, where it has one of its own.
    pub fn bar_value_color(&self) -> (color: Option<Color>)
        ensures
            color == self@.bar_value_color,
    {
        self.bar_value_color
    }

    /// The character of this bar, where it has one of its own.
    pub fn bar_character(&self) -> (character: Option<char>)
        ensures
            character == self@.bar_character,
    {
        self.bar_character
    }

    /// The text printed for the value: the display text where the bar was
    /// given one, else the value as the decimal library prints it.
    pub fn value_display(&self) -> (text: String)
        ensures
            text@ == self@.display_text(),
    {
        match &self.value_display {
            Some(text) => text.clone(),
            None => self.value.to_text(),
        }
    }
}

} // verus!
