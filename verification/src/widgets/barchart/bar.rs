//! One bar of a bar chart.

use vstd::prelude::*;

use crate::style::Style;
use crate::text::{Line, LineView};

verus! {

/// A bar: its value, an optional label drawn under (or beside) it, its style,
/// the style of the value text, and an optional text shown in place of the value.
#[derive(Debug, PartialEq, Eq, Hash)]
pub struct Bar {
    pub value: u64,
    pub label: Option<Line>,
    pub style: Style,
    pub value_style: Style,
    pub text_value: Option<String>,
}

/// What a bar holds.
pub struct BarView {
    pub value: u64,
    pub label: Option<LineView>,
    pub style: Style,
    pub value_style: Style,
    pub text_value: Option<Seq<char>>,
}

/// The view of an optional line.
pub open spec fn opt_line_view(l: Option<Line>) -> Option<LineView> {
    match l {
        Some(line) => Some(line@),
        None => None,
    }
}

/// The view of an optional string.
pub open spec fn opt_string_view(s: Option<String>) -> Option<Seq<char>> {
    match s {
        Some(t) => Some(t@),
        None => None,
    }
}

impl View for Bar {
    type V = BarView;

    open spec fn view(&self) -> BarView {
        BarView {
            value: self.value,
            label: opt_line_view(self.label),
            style: self.style,
            value_style: self.value_style,
            text_value: opt_string_view(self.text_value),
        }
    }
}

/// The bar of value 0 with no label, no text and empty styles.
pub open spec fn default_bar_view() -> BarView {
    BarView {
        value: 0,
        label: None,
        style: Style::empty(),
        value_style: Style::empty(),
        text_value: None,
    }
}

impl Default for Bar {
    fn default() -> (r: Bar)
        ensures
            r@ == default_bar_view(),
    {
        Bar { value: 0, label: None, style: Style::new(), value_style: Style::new(), text_value: None }
    }
}

impl Clone for Bar {
    fn clone(&self) -> (r: Bar)
        ensures
            r@ == self@,
    {
        let label = match &self.label {
            Some(l) => Some(l.clone()),
            None => None,
        };
        let text_value = match &self.text_value {
            Some(t) => Some(t.clone()),
            None => None,
        };
        Bar { value: self.value, label, style: self.style, value_style: self.value_style, text_value }
    }
}

impl Bar {
    /// The same bar with value `value`.
    pub fn value(self, value: u64) -> (r: Bar)
        ensures
            r@ == (BarView { value, ..self@ }),
    {
        Bar { value, ..self }
    }

    /// The same bar with label `label`.
    pub fn label(self, label: Line) -> (r: Bar)
        ensures
            r@ == (BarView { label: Some(label@), ..self@ }),
    {
        Bar { label: Some(label), ..self }
    }

    /// The same bar drawn in style `style`.
    pub fn style(self, style: Style) -> (r: Bar)
        ensures
            r@ == (BarView { style, ..self@ }),
    {
        Bar { style, ..self }
    }

    /// The same bar with its value text drawn in style `style`.
    pub fn value_style(self, style: Style) -> (r: Bar)
        ensures
            r@ == (BarView { value_style: style, ..self@ }),
    {
        Bar { value_style: style, ..self }
    }

    /// The same bar showing `text_value` in place of its value.
    pub fn text_value(self, text_value: String) -> (r: Bar)
        ensures
            r@ == (BarView { text_value: Some(text_value@), ..self@ }),
    {
        Bar { text_value: Some(text_value), ..self }
    }
}

} // verus!
