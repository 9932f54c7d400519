//! A chart of values drawn as bars, optionally in labelled groups.

mod bar;
mod bar_group;
mod horizontal;
mod vertical;
mod laws;

pub use bar::{Bar, BarView};
pub use bar_group::{BarGroup, BarGroupView, pair_bar_view};
pub use laws::{
    cell_inside, cells_inside, lemma_body_cells_inside, lemma_horizontal_cells_inside,
    lemma_max_value_bounds_bars, lemma_ticks_full_and_empty, lemma_ticks_monotone,
    digit_value, lemma_aligned_label, lemma_bar_label_centred, lemma_column_cells,
    lemma_group_label_aligned, lemma_ticks_round_down, lemma_value_text_placed, lemma_bar_shown_iff_fits, lemma_body_texts_inside,
    lemma_decimal_reads_back, lemma_horizontal_texts_inside, lemma_label_column_is_widest,
    lemma_max_value_is_largest, lemma_max_value_when_set, numeral_value,
    lemma_render_texts_inside,
    lemma_ticks_from_more_room, lemma_vertical_cells_inside, lemma_vertical_texts_inside, text_inside,
    text_span, texts_inside,
};
use laws::{lemma_cells_inside_concat, lemma_cells_inside_widen};

use vstd::prelude::*;
use vstd::string::StringExecFns;

use crate::layout::{Direction, Rect, sat_sub};
use crate::widgets::block::Block;
use crate::style::Style;
use crate::text::{Line, LineView};
use bar_group::max_value_upto;

verus! {

/// The symbols that draw a bar: a full cell, the eighths from seven down to
/// one, and an empty cell.
#[derive(Clone, Copy, Debug, PartialEq, Eq, Hash)]
pub struct BarSet {
    pub full: &'static str,
    pub seven_eighths: &'static str,
    pub three_quarters: &'static str,
    pub five_eighths: &'static str,
    pub half: &'static str,
    pub three_eighths: &'static str,
    pub one_quarter: &'static str,
    pub one_eighth: &'static str,
    pub empty: &'static str,
}

/// `ratatui::symbols::bar::NINE_LEVELS`, copied field by field. Its contract
/// gives the nine symbols that ratatui's source defines.
#[verifier::external_body]
fn nine_levels() -> (r: BarSet)
    ensures
        r.is_nine_levels(),
{
    let s = ratatui::symbols::bar::NINE_LEVELS;
    BarSet {
        full: s.full,
        seven_eighths: s.seven_eighths,
        three_quarters: s.three_quarters,
        five_eighths: s.five_eighths,
        half: s.half,
        three_eighths: s.three_eighths,
        one_quarter: s.one_quarter,
        one_eighth: s.one_eighth,
        empty: s.empty,
    }
}

impl BarSet {
    /// Whether the set draws with the nine block symbols: full, the seven
    /// eighths from `▇` down to `▁`, and a space for empty.
    pub open spec fn is_nine_levels(self) -> bool {
        &&& self.full@ == seq!['█']
        &&& self.seven_eighths@ == seq!['▇']
        &&& self.three_quarters@ == seq!['▆']
        &&& self.five_eighths@ == seq!['▅']
        &&& self.half@ == seq!['▄']
        &&& self.three_eighths@ == seq!['▃']
        &&& self.one_quarter@ == seq!['▂']
        &&& self.one_eighth@ == seq!['▁']
        &&& self.empty@ == seq![' ']
    }

    /// The symbol of a cell that holds `ticks` eighths of a full cell (8 or more: full).
    pub open spec fn level(self, ticks: int) -> &'static str {
        if ticks <= 0 {
            self.empty
        } else if ticks == 1 {
            self.one_eighth
        } else if ticks == 2 {
            self.one_quarter
        } else if ticks == 3 {
            self.three_eighths
        } else if ticks == 4 {
            self.half
        } else if ticks == 5 {
            self.five_eighths
        } else if ticks == 6 {
            self.three_quarters
        } else if ticks == 7 {
            self.seven_eighths
        } else {
            self.full
        }
    }

    /// The symbol of a cell that holds `ticks` eighths of a full cell.
    pub fn symbol(&self, ticks: u64) -> (r: &'static str)
        ensures
            r == self.level(ticks as int),
    {
        match ticks {
            0 => self.empty,
            1 => self.one_eighth,
            2 => self.one_quarter,
            3 => self.three_eighths,
            4 => self.half,
            5 => self.five_eighths,
            6 => self.three_quarters,
            7 => self.seven_eighths,
            _ => self.full,
        }
    }
}

/// A chart of bars, in groups, with the sizes and styles that draw it.
#[derive(Debug, PartialEq, Eq, Hash)]
pub struct BarChart {
    /// Block to wrap the widget in
    block: Option<Block>,
    /// The width of each bar
    bar_width: u16,
    /// The gap between each bar
    bar_gap: u16,
    /// The gap between each group
    group_gap: u16,
    /// Set of symbols used to display the data
    bar_set: BarSet,
    /// Style of the bars
    bar_style: Style,
    /// Style of the values printed at the bottom of each bar
    value_style: Style,
    /// Style of the labels printed under each bar
    label_style: Style,
    /// Style for the widget
    style: Style,
    /// vector of groups containing bars
    data: Vec<BarGroup>,
    /// Value necessary for a bar to reach the maximum height (if no value is specified,
    /// the maximum value in the data is taken as reference)
    max: Option<u64>,
    /// direction of the bars
    direction: Direction,
}

/// Whether some bar of some group has a label.
pub open spec fn groups_have_bar_label(groups: Seq<BarGroupView>) -> bool {
    exists|g: int, b: int|
        0 <= g < groups.len() && 0 <= b < groups[g].bars.len() && #[trigger] groups[g].bars[b].label
            is Some
}

/// Whether some group has a label.
pub open spec fn groups_have_label(groups: Seq<BarGroupView>) -> bool {
    exists|g: int| 0 <= g < groups.len() && #[trigger] groups[g].label is Some
}

/// The largest bar value of the first `n` groups, 0 when there is none.
pub open spec fn data_max_upto(groups: Seq<BarGroupView>, n: int) -> u64
    decreases n,
{
    if n <= 0 {
        0
    } else {
        let m = data_max_upto(groups, n - 1);
        let g = max_value_upto(groups[n - 1].bars, groups[n - 1].bars.len() as int);
        if g > m {
            g
        } else {
            m
        }
    }
}

/// Which labels a vertical chart prints, and how many rows they take.
#[derive(Clone, Copy, Debug, PartialEq, Eq, Structural)]
pub struct LabelInfo {
    pub group_label_visible: bool,
    pub bar_label_visible: bool,
    pub height: u16,
}

impl BarChart {
    /// The chart's groups.
    pub closed spec fn groups(self) -> Seq<BarGroupView> {
        self.data@.map_values(|g: BarGroup| g@)
    }

    /// Whether every group of the chart has a bar. Every chart has this
    /// property: each function that makes or changes a chart ensures it.
    pub open spec fn no_group_empty(self) -> bool {
        forall|g: int| 0 <= g < self.groups().len() ==> #[trigger] self.groups()[g].bars.len() > 0
    }

    #[verifier::type_invariant]
    closed spec fn no_empty_group(self) -> bool {
        forall|g: int| 0 <= g < self.data@.len() ==> #[trigger] self.data@[g].bars@.len() > 0
    }

    pub closed spec fn spec_block(self) -> Option<Block> {
        self.block
    }

    pub closed spec fn spec_bar_width(self) -> u16 {
        self.bar_width
    }

    pub closed spec fn spec_bar_gap(self) -> u16 {
        self.bar_gap
    }

    pub closed spec fn spec_group_gap(self) -> u16 {
        self.group_gap
    }

    pub closed spec fn spec_bar_set(self) -> BarSet {
        self.bar_set
    }

    pub closed spec fn spec_bar_style(self) -> Style {
        self.bar_style
    }

    pub closed spec fn spec_value_style(self) -> Style {
        self.value_style
    }

    pub closed spec fn spec_label_style(self) -> Style {
        self.label_style
    }

    pub closed spec fn spec_style(self) -> Style {
        self.style
    }

    pub closed spec fn spec_max(self) -> Option<u64> {
        self.max
    }

    pub closed spec fn spec_direction(self) -> Direction {
        self.direction
    }
}

impl Clone for BarChart {
    /// A copy of the chart: the same groups and settings, and a block that
    /// holds the same titles and agrees on everything else.
    fn clone(&self) -> (r: BarChart)
        ensures
            r.groups() == self.groups(),
            r.spec_bar_width() == self.spec_bar_width(),
            r.spec_bar_gap() == self.spec_bar_gap(),
            r.spec_group_gap() == self.spec_group_gap(),
            r.spec_bar_set() == self.spec_bar_set(),
            r.spec_bar_style() == self.spec_bar_style(),
            r.spec_value_style() == self.spec_value_style(),
            r.spec_label_style() == self.spec_label_style(),
            r.spec_style() == self.spec_style(),
            r.spec_max() == self.spec_max(),
            r.spec_direction() == self.spec_direction(),
            match (r.spec_block(), self.spec_block()) {
                (Some(a), Some(b)) => a.same_as(b),
                (None, None) => true,
                _ => false,
            },
    {
        proof {
            use_type_invariant(self);
        }
        let block = match &self.block {
            Some(b) => Some(b.clone()),
            None => None,
        };
        let mut data: Vec<BarGroup> = Vec::new();
        let mut i: usize = 0;
        while i < self.data.len()
            invariant
                i <= self.data@.len(),
                data@.len() == i,
                forall|j: int| 0 <= j < i ==> #[trigger] data@[j]@ == self.data@[j]@,
                forall|j: int| 0 <= j < self.data@.len() ==> #[trigger] self.data@[j].bars@.len() > 0,
            decreases self.data@.len() - i,
        {
            data.push(self.data[i].clone());
            i = i + 1;
        }
        proof {
            assert(data@.map_values(|g: BarGroup| g@) =~= self.data@.map_values(|g: BarGroup| g@));
            assert forall|j: int| 0 <= j < data@.len() implies #[trigger] data@[j].bars@.len() > 0 by {
                assert(data@[j]@ == self.data@[j]@);
                assert(data@[j]@.bars.len() == data@[j].bars@.len());
                assert(self.data@[j]@.bars.len() == self.data@[j].bars@.len());
            }
        }
        BarChart {
            block,
            bar_width: self.bar_width,
            bar_gap: self.bar_gap,
            group_gap: self.group_gap,
            bar_set: self.bar_set,
            bar_style: self.bar_style,
            value_style: self.value_style,
            label_style: self.label_style,
            style: self.style,
            data,
            max: self.max,
            direction: self.direction,
        }
    }
}

impl Default for BarChart {
    fn default() -> (r: BarChart)
        ensures
            r.spec_block() is None,
            r.spec_max() is None,
            r.groups().len() == 0,
            r.spec_bar_style() == Style::empty(),
            r.spec_bar_width() == 1,
            r.spec_bar_gap() == 1,
            r.spec_value_style() == Style::empty(),
            r.spec_label_style() == Style::empty(),
            r.spec_group_gap() == 0,
            r.spec_bar_set().is_nine_levels(),
            r.spec_style() == Style::empty(),
            r.spec_direction() == Direction::Vertical,
            r.no_group_empty(),
    {
        let r = BarChart {
            block: None,
            max: None,
            data: Vec::new(),
            bar_style: Style::new(),
            bar_width: 1,
            bar_gap: 1,
            value_style: Style::new(),
            label_style: Style::new(),
            group_gap: 0,
            bar_set: nine_levels(),
            style: Style::new(),
            direction: Direction::Vertical,
        };
        proof {
            assert(r.data@.map_values(|g: BarGroup| g@) =~= Seq::<BarGroupView>::empty());
        }
        r
    }
}

impl BarChart {
    /// The same chart with one more group, `data`, after the others; a group
    /// without bars is not added.
    pub fn data(self, data: BarGroup) -> (r: BarChart)
        ensures
            r.groups() == (if data@.bars.len() == 0 {
                self.groups()
            } else {
                self.groups().push(data@)
            }),
            r.same_settings(self),
            r.no_group_empty(),
    {
        proof {
            use_type_invariant(&self);
        }
        let BarChart {
            block,
            bar_width,
            bar_gap,
            group_gap,
            bar_set,
            bar_style,
            value_style,
            label_style,
            style,
            data: groups,
            max,
            direction,
        } = self;
        let mut groups = groups;
        if data.bars.len() > 0 {
            let ghost before = groups@;
            groups.push(data);
            proof {
                assert(groups@.map_values(|g: BarGroup| g@) =~= before.map_values(
                    |g: BarGroup| g@,
                ).push(groups@.last()@));
            }
        }
        BarChart {
            block,
            bar_width,
            bar_gap,
            group_gap,
            bar_set,
            bar_style,
            value_style,
            label_style,
            style,
            data: groups,
            max,
            direction,
        }
    }

    /// Whether the two charts agree on everything but their groups.
    pub open spec fn same_settings(self, other: BarChart) -> bool {
        &&& self.spec_block() == other.spec_block()
        &&& self.spec_bar_width() == other.spec_bar_width()
        &&& self.spec_bar_gap() == other.spec_bar_gap()
        &&& self.spec_group_gap() == other.spec_group_gap()
        &&& self.spec_bar_set() == other.spec_bar_set()
        &&& self.spec_bar_style() == other.spec_bar_style()
        &&& self.spec_value_style() == other.spec_value_style()
        &&& self.spec_label_style() == other.spec_label_style()
        &&& self.spec_style() == other.spec_style()
        &&& self.spec_max() == other.spec_max()
        &&& self.spec_direction() == other.spec_direction()
    }
}

impl BarChart {
    /// Surround the chart with `block`.
    pub fn block(self, block: Block) -> (r: BarChart)
        ensures
            r.spec_block() == Some(block),
            r.spec_bar_width() == self.spec_bar_width(),
            r.spec_bar_gap() == self.spec_bar_gap(),
            r.spec_group_gap() == self.spec_group_gap(),
            r.spec_bar_set() == self.spec_bar_set(),
            r.spec_bar_style() == self.spec_bar_style(),
            r.spec_value_style() == self.spec_value_style(),
            r.spec_label_style() == self.spec_label_style(),
            r.spec_style() == self.spec_style(),
            r.spec_max() == self.spec_max(),
            r.spec_direction() == self.spec_direction(),
            r.groups() == self.groups(),
            r.no_group_empty(),
    {
        proof {
            use_type_invariant(&self);
        }
        BarChart { block: Some(block), ..self }
    }

    /// Set the value a bar needs to reach the full length. If not set, the
    /// largest value in the data is taken.
    pub fn max(self, max: u64) -> (r: BarChart)
        ensures
            r.spec_block() == self.spec_block(),
            r.spec_bar_width() == self.spec_bar_width(),
            r.spec_bar_gap() == self.spec_bar_gap(),
            r.spec_group_gap() == self.spec_group_gap(),
            r.spec_bar_set() == self.spec_bar_set(),
            r.spec_bar_style() == self.spec_bar_style(),
            r.spec_value_style() == self.spec_value_style(),
            r.spec_label_style() == self.spec_label_style(),
            r.spec_style() == self.spec_style(),
            r.spec_max() == Some(max),
            r.spec_direction() == self.spec_direction(),
            r.groups() == self.groups(),
            r.no_group_empty(),
    {
        proof {
            use_type_invariant(&self);
        }
        BarChart { max: Some(max), ..self }
    }

    /// Set the default style of the bars; each bar's own style is laid over it.
    pub fn bar_style(self, style: Style) -> (r: BarChart)
        ensures
            r.spec_block() == self.spec_block(),
            r.spec_bar_width() == self.spec_bar_width(),
            r.spec_bar_gap() == self.spec_bar_gap(),
            r.spec_group_gap() == self.spec_group_gap(),
            r.spec_bar_set() == self.spec_bar_set(),
            r.spec_bar_style() == style,
            r.spec_value_style() == self.spec_value_style(),
            r.spec_label_style() == self.spec_label_style(),
            r.spec_style() == self.spec_style(),
            r.spec_max() == self.spec_max(),
            r.spec_direction() == self.spec_direction(),
            r.groups() == self.groups(),
            r.no_group_empty(),
    {
        proof {
            use_type_invariant(&self);
        }
        BarChart { bar_style: style, ..self }
    }

    /// Set the width of the bars (their height when horizontal); defaults to 1.
    pub fn bar_width(self, width: u16) -> (r: BarChart)
        ensures
            r.spec_block() == self.spec_block(),
            r.spec_bar_width() == width,
            r.spec_bar_gap() == self.spec_bar_gap(),
            r.spec_group_gap() == self.spec_group_gap(),
            r.spec_bar_set() == self.spec_bar_set(),
            r.spec_bar_style() == self.spec_bar_style(),
            r.spec_value_style() == self.spec_value_style(),
            r.spec_label_style() == self.spec_label_style(),
            r.spec_style() == self.spec_style(),
            r.spec_max() == self.spec_max(),
            r.spec_direction() == self.spec_direction(),
            r.groups() == self.groups(),
            r.no_group_empty(),
    {
        proof {
            use_type_invariant(&self);
        }
        BarChart { bar_width: width, ..self }
    }

    /// Set the gap between bars; defaults to 1.
    pub fn bar_gap(self, gap: u16) -> (r: BarChart)
        ensures
            r.spec_block() == self.spec_block(),
            r.spec_bar_width() == self.spec_bar_width(),
            r.spec_bar_gap() == gap,
            r.spec_group_gap() == self.spec_group_gap(),
            r.spec_bar_set() == self.spec_bar_set(),
            r.spec_bar_style() == self.spec_bar_style(),
            r.spec_value_style() == self.spec_value_style(),
            r.spec_label_style() == self.spec_label_style(),
            r.spec_style() == self.spec_style(),
            r.spec_max() == self.spec_max(),
            r.spec_direction() == self.spec_direction(),
            r.groups() == self.groups(),
            r.no_group_empty(),
    {
        proof {
            use_type_invariant(&self);
        }
        BarChart { bar_gap: gap, ..self }
    }

    /// Set the symbols that draw the bars; defaults to the nine-level set.
    pub fn bar_set(self, bar_set: BarSet) -> (r: BarChart)
        ensures
            r.spec_block() == self.spec_block(),
            r.spec_bar_width() == self.spec_bar_width(),
            r.spec_bar_gap() == self.spec_bar_gap(),
            r.spec_group_gap() == self.spec_group_gap(),
            r.spec_bar_set() == bar_set,
            r.spec_bar_style() == self.spec_bar_style(),
            r.spec_value_style() == self.spec_value_style(),
            r.spec_label_style() == self.spec_label_style(),
            r.spec_style() == self.spec_style(),
            r.spec_max() == self.spec_max(),
            r.spec_direction() == self.spec_direction(),
            r.groups() == self.groups(),
            r.no_group_empty(),
    {
        proof {
            use_type_invariant(&self);
        }
        BarChart { bar_set: bar_set, ..self }
    }

    /// Set the default style of the values; each bar's value style is laid over it.
    pub fn value_style(self, style: Style) -> (r: BarChart)
        ensures
            r.spec_block() == self.spec_block(),
            r.spec_bar_width() == self.spec_bar_width(),
            r.spec_bar_gap() == self.spec_bar_gap(),
            r.spec_group_gap() == self.spec_group_gap(),
            r.spec_bar_set() == self.spec_bar_set(),
            r.spec_bar_style() == self.spec_bar_style(),
            r.spec_value_style() == style,
            r.spec_label_style() == self.spec_label_style(),
            r.spec_style() == self.spec_style(),
            r.spec_max() == self.spec_max(),
            r.spec_direction() == self.spec_direction(),
            r.groups() == self.groups(),
            r.no_group_empty(),
    {
        proof {
            use_type_invariant(&self);
        }
        BarChart { value_style: style, ..self }
    }

    /// Set the default style of the labels; each label's own styles are laid over it.
    pub fn label_style(self, style: Style) -> (r: BarChart)
        ensures
            r.spec_block() == self.spec_block(),
            r.spec_bar_width() == self.spec_bar_width(),
            r.spec_bar_gap() == self.spec_bar_gap(),
            r.spec_group_gap() == self.spec_group_gap(),
            r.spec_bar_set() == self.spec_bar_set(),
            r.spec_bar_style() == self.spec_bar_style(),
            r.spec_value_style() == self.spec_value_style(),
            r.spec_label_style() == style,
            r.spec_style() == self.spec_style(),
            r.spec_max() == self.spec_max(),
            r.spec_direction() == self.spec_direction(),
            r.groups() == self.groups(),
            r.no_group_empty(),
    {
        proof {
            use_type_invariant(&self);
        }
        BarChart { label_style: style, ..self }
    }

    /// Set the gap between groups.
    pub fn group_gap(self, gap: u16) -> (r: BarChart)
        ensures
            r.spec_block() == self.spec_block(),
            r.spec_bar_width() == self.spec_bar_width(),
            r.spec_bar_gap() == self.spec_bar_gap(),
            r.spec_group_gap() == gap,
            r.spec_bar_set() == self.spec_bar_set(),
            r.spec_bar_style() == self.spec_bar_style(),
            r.spec_value_style() == self.spec_value_style(),
            r.spec_label_style() == self.spec_label_style(),
            r.spec_style() == self.spec_style(),
            r.spec_max() == self.spec_max(),
            r.spec_direction() == self.spec_direction(),
            r.groups() == self.groups(),
            r.no_group_empty(),
    {
        proof {
            use_type_invariant(&self);
        }
        BarChart { group_gap: gap, ..self }
    }

    /// Set the style of the whole chart.
    pub fn style(self, style: Style) -> (r: BarChart)
        ensures
            r.spec_block() == self.spec_block(),
            r.spec_bar_width() == self.spec_bar_width(),
            r.spec_bar_gap() == self.spec_bar_gap(),
            r.spec_group_gap() == self.spec_group_gap(),
            r.spec_bar_set() == self.spec_bar_set(),
            r.spec_bar_style() == self.spec_bar_style(),
            r.spec_value_style() == self.spec_value_style(),
            r.spec_label_style() == self.spec_label_style(),
            r.spec_style() == style,
            r.spec_max() == self.spec_max(),
            r.spec_direction() == self.spec_direction(),
            r.groups() == self.groups(),
            r.no_group_empty(),
    {
        proof {
            use_type_invariant(&self);
        }
        BarChart { style: style, ..self }
    }

    /// Set the direction of the bars; vertical bars are the default.
    pub fn direction(self, direction: Direction) -> (r: BarChart)
        ensures
            r.spec_block() == self.spec_block(),
            r.spec_bar_width() == self.spec_bar_width(),
            r.spec_bar_gap() == self.spec_bar_gap(),
            r.spec_group_gap() == self.spec_group_gap(),
            r.spec_bar_set() == self.spec_bar_set(),
            r.spec_bar_style() == self.spec_bar_style(),
            r.spec_value_style() == self.spec_value_style(),
            r.spec_label_style() == self.spec_label_style(),
            r.spec_style() == self.spec_style(),
            r.spec_max() == self.spec_max(),
            r.spec_direction() == direction,
            r.groups() == self.groups(),
            r.no_group_empty(),
    {
        proof {
            use_type_invariant(&self);
        }
        BarChart { direction: direction, ..self }
    }
}

impl BarChart {
    /// Lays `style` over the whole chart: the chart's style becomes `style`.
    pub fn set_style(self, style: Style) -> (r: BarChart)
        ensures
            r.spec_style() == style,
            r.spec_block() == self.spec_block(),
            r.spec_bar_width() == self.spec_bar_width(),
            r.spec_bar_gap() == self.spec_bar_gap(),
            r.spec_group_gap() == self.spec_group_gap(),
            r.spec_bar_set() == self.spec_bar_set(),
            r.spec_bar_style() == self.spec_bar_style(),
            r.spec_value_style() == self.spec_value_style(),
            r.spec_label_style() == self.spec_label_style(),
            r.spec_max() == self.spec_max(),
            r.spec_direction() == self.spec_direction(),
            r.groups() == self.groups(),
            r.no_group_empty(),
    {
        self.style(style)
    }

    /// The chart's style, the one `style` and `set_style` set.
    pub fn get_style(&self) -> (r: Style)
        ensures
            r == self.spec_style(),
    {
        self.style
    }

    /// The value that fills a bar: the chart's `max` if set, else the largest
    /// bar value (0 without bars), and never less than 1.
    pub open spec fn max_value(self) -> u64 {
        let base = match self.spec_max() {
            Some(m) => m,
            None => data_max_upto(self.groups(), self.groups().len() as int),
        };
        if base > 1 {
            base
        } else {
            1
        }
    }

    /// The value that fills a bar (see `max_value`); always at least 1.
    pub fn maximum_data_value(&self) -> (r: u64)
        ensures
            r == self.max_value(),
            r >= 1,
    {
        let base = match self.max {
            Some(m) => m,
            None => {
                let mut m: u64 = 0;
                let mut i: usize = 0;
                while i < self.data.len()
                    invariant
                        i <= self.data@.len(),
                        m == data_max_upto(self.groups(), i as int),
                    decreases self.data@.len() - i,
                {
                    let g = match self.data[i].max() {
                        Some(v) => v,
                        None => 0,
                    };
                    proof {
                        assert(self.groups()[i as int] == self.data@[i as int]@);
                    }
                    if g > m {
                        m = g;
                    }
                    i = i + 1;
                }
                m
            },
        };
        if base > 1 {
            base
        } else {
            1
        }
    }

    /// Which labels fit in `available_height` rows under the bars: none in
    /// zero rows; in one row the bar labels if there are any; else each kind
    /// that some bar or group has, one row each.
    pub open spec fn label_info_spec(self, available_height: u16) -> LabelInfo {
        let bar = groups_have_bar_label(self.groups());
        let group = groups_have_label(self.groups());
        if available_height == 0 {
            LabelInfo { group_label_visible: false, bar_label_visible: false, height: 0 }
        } else if available_height == 1 && bar {
            LabelInfo { group_label_visible: false, bar_label_visible: true, height: 1 }
        } else {
            LabelInfo {
                group_label_visible: group,
                bar_label_visible: bar,
                height: ((if group { 1int } else { 0 }) + (if bar { 1int } else { 0 })) as u16,
            }
        }
    }

    /// Which labels fit in `available_height` rows (see `label_info_spec`).
    pub fn label_info(&self, available_height: u16) -> (r: LabelInfo)
        ensures
            r == self.label_info_spec(available_height),
            r.height <= available_height,
    {
        if available_height == 0 {
            return LabelInfo { group_label_visible: false, bar_label_visible: false, height: 0 };
        }
        let bar_label_visible = self.any_bar_label();
        if available_height == 1 && bar_label_visible {
            return LabelInfo { group_label_visible: false, bar_label_visible: true, height: 1 };
        }
        let group_label_visible = self.any_group_label();
        let g: u16 = if group_label_visible { 1 } else { 0 };
        let b: u16 = if bar_label_visible { 1 } else { 0 };
        LabelInfo { group_label_visible, bar_label_visible, height: g + b }
    }

    fn any_bar_label(&self) -> (r: bool)
        ensures
            r == groups_have_bar_label(self.groups()),
    {
        let mut i: usize = 0;
        while i < self.data.len()
            invariant
                i <= self.data@.len(),
                forall|g: int, b: int|
                    0 <= g < i && 0 <= b < self.groups()[g].bars.len() ==> !(
                    #[trigger] self.groups()[g].bars[b].label is Some),
            decreases self.data@.len() - i,
        {
            let group = &self.data[i];
            let mut j: usize = 0;
            while j < group.bars.len()
                invariant
                    i < self.data@.len(),
                    group == self.data@[i as int],
                    j <= group.bars@.len(),
                    forall|g: int, b: int|
                        0 <= g < i && 0 <= b < self.groups()[g].bars.len() ==> !(
                        #[trigger] self.groups()[g].bars[b].label is Some),
                    forall|b: int|
                        0 <= b < j ==> !(#[trigger] self.groups()[i as int].bars[b].label is Some),
                decreases group.bars@.len() - j,
            {
                proof {
                    assert(self.groups()[i as int].bars[j as int] == group.bars@[j as int]@);
                }
                if group.bars[j].label.is_some() {
                    assert(self.groups()[i as int].bars[j as int].label is Some);
                    return true;
                }
                j = j + 1;
            }
            i = i + 1;
        }
        false
    }

    fn any_group_label(&self) -> (r: bool)
        ensures
            r == groups_have_label(self.groups()),
    {
        let mut i: usize = 0;
        while i < self.data.len()
            invariant
                i <= self.data@.len(),
                forall|g: int| 0 <= g < i ==> !(#[trigger] self.groups()[g].label is Some),
            decreases self.data@.len() - i,
        {
            proof {
                assert(self.groups()[i as int] == self.data@[i as int]@);
            }
            if self.data[i].label.is_some() {
                assert(self.groups()[i as int].label is Some);
                return true;
            }
            i = i + 1;
        }
        false
    }
}

/// `n` as the chart's 16-bit arithmetic sees a bar count (`n as u16`).
pub open spec fn as_u16(n: int) -> int {
    n % 65536
}

/// The length, in eighths of a cell, of a bar of value `v` when `max` fills `len` cells.
pub open spec fn bar_ticks(v: u64, len: int, max: int) -> u64 {
    (v * len * 8 / max) as u64
}

/// The ticks of the first `n` bars (or of all of them, if fewer).
pub open spec fn ticks_row(bars: Seq<BarView>, n: int, len: int, max: int) -> Seq<u64> {
    let k = if n < bars.len() {
        n
    } else {
        bars.len() as int
    };
    Seq::new(k as nat, |b: int| bar_ticks(bars[b].value, len, max))
}

/// Whether the ticks of the first `n` bars are computed without leaving `u64`.
pub open spec fn ticks_row_fits(bars: Seq<BarView>, n: int, len: int) -> bool {
    forall|b: int| 0 <= b < n && b < bars.len() ==> #[trigger] bars[b].value * len * 8 <= u64::MAX
}

/// The view of a vector of tick rows.
pub open spec fn rows_view(rows: Seq<Vec<u64>>) -> Seq<Seq<u64>> {
    rows.map_values(|r: Vec<u64>| r@)
}

impl BarChart {
    /// The width of `n` bars side by side with the bar gap between them.
    pub open spec fn group_width(self, n: int) -> int {
        n * self.spec_bar_width() + sat_sub(n, 1) * self.spec_bar_gap()
    }

    /// Whether the width of `n` bars is computed without leaving `u16`.
    pub open spec fn group_width_fits(self, n: int) -> bool {
        &&& n * self.spec_bar_width() <= u16::MAX
        &&& sat_sub(n, 1) * self.spec_bar_gap() <= u16::MAX
        &&& self.group_width(n) <= u16::MAX
    }

    /// The bars that fit, group after group from group `g` on, in `space`
    /// cells, as their lengths in eighths of a cell (`len` cells being the full
    /// length): a group that fits whole is taken whole and costs its width plus
    /// the group gap and the bar gap; the first group that does not fit is cut
    /// to the bars that do, and nothing is shown after it.
    pub open spec fn ticks_from(self, space: int, g: int, len: int) -> Seq<Seq<u64>>
        decreases self.groups().len() - g,
    {
        if g < 0 || g >= self.groups().len() || space <= 0 {
            Seq::empty()
        } else {
            let bars = self.groups()[g].bars;
            let n = as_u16(bars.len() as int);
            let gw = self.group_width(n);
            let max = self.max_value() as int;
            if space > gw {
                let rest = sat_sub(space, gw + self.spec_group_gap() + self.spec_bar_gap());
                seq![ticks_row(bars, n, len, max)] + self.ticks_from(rest, g + 1, len)
            } else {
                let fit = (space + self.spec_bar_gap()) / (self.spec_bar_width()
                    + self.spec_bar_gap()) as int;
                if fit > 0 {
                    seq![ticks_row(bars, fit, len, max)]
                } else {
                    Seq::empty()
                }
            }
        }
    }

    /// Whether `ticks_from` is computed without leaving the 16-bit and 64-bit
    /// integers the chart computes in (and without dividing by zero).
    pub open spec fn ticks_fit_from(self, space: int, g: int, len: int) -> bool
        decreases self.groups().len() - g,
    {
        if g < 0 || g >= self.groups().len() || space <= 0 {
            true
        } else {
            let bars = self.groups()[g].bars;
            let n = as_u16(bars.len() as int);
            let gw = self.group_width(n);
            &&& self.group_width_fits(n)
            &&& if space > gw {
                let step = gw + self.spec_group_gap() + self.spec_bar_gap();
                &&& gw + self.spec_group_gap() <= u16::MAX
                &&& step <= u16::MAX
                &&& ticks_row_fits(bars, n, len)
                &&& self.ticks_fit_from(sat_sub(space, step), g + 1, len)
            } else {
                let den = self.spec_bar_width() + self.spec_bar_gap();
                &&& space + self.spec_bar_gap() <= u16::MAX
                &&& den <= u16::MAX
                &&& den > 0
                &&& ticks_row_fits(bars, (space + self.spec_bar_gap()) / den, len)
            }
        }
    }

    /// Ticks of the first `n` bars of `bars`, `None` where a product leaves `u64`.
    fn row_ticks(bars: &Vec<Bar>, n: u16, len: u16, max: u64) -> (r: Option<Vec<u64>>)
        requires
            max >= 1,
        ensures
            r is Some <==> ticks_row_fits(bars@.map_values(|b: Bar| b@), n as int, len as int),
            r matches Some(v) ==> v@ == ticks_row(
                bars@.map_values(|b: Bar| b@),
                n as int,
                len as int,
                max as int,
            ),
    {
        let ghost views = bars@.map_values(|b: Bar| b@);
        let k: usize = if (n as usize) < bars.len() {
            n as usize
        } else {
            bars.len()
        };
        let mut row: Vec<u64> = Vec::new();
        let mut i: usize = 0;
        while i < k
            invariant
                k <= bars@.len(),
                k == (if n < bars@.len() { n as int } else { bars@.len() as int }),
                views == bars@.map_values(|b: Bar| b@),
                max >= 1,
                i <= k,
                row@ == ticks_row(views, n as int, len as int, max as int).take(i as int),
                forall|b: int| 0 <= b < i ==> #[trigger] views[b].value * len * 8 <= u64::MAX,
            decreases k - i,
        {
            let v = bars[i].value;
            assert(views[i as int].value == v);
            let p = match v.checked_mul(len as u64) {
                Some(p) => p,
                None => {
                    proof {
                        assert(v * len * 8 >= v * len) by (nonlinear_arith);
                    }
                    return None;
                },
            };
            let t = match p.checked_mul(8) {
                Some(t) => t,
                None => {
                    return None;
                },
            };
            let ghost before = row@;
            row.push(t / max);
            proof {
                assert(ticks_row(views, n as int, len as int, max as int).take(i + 1) =~= before.push(
                    t / max,
                ));
            }
            i = i + 1;
        }
        proof {
            assert(row@ =~= ticks_row(views, n as int, len as int, max as int));
        }
        Some(row)
    }

    /// The bars that fit in `available_space` cells, group by group, as their
    /// lengths in eighths of a cell when `bar_max_length` cells is the full
    /// length (see `ticks_from`); `None` exactly where the computation would
    /// leave its 16-bit or 64-bit integers or divide by zero.
    pub fn group_ticks(&self, available_space: u16, bar_max_length: u16) -> (r: Option<
        Vec<Vec<u64>>,
    >)
        ensures
            r is Some <==> self.ticks_fit_from(available_space as int, 0, bar_max_length as int),
            r matches Some(t) ==> rows_view(t@) == self.ticks_from(
                available_space as int,
                0,
                bar_max_length as int,
            ),
    {
        let max = self.maximum_data_value();
        let ghost s0 = available_space as int;
        let ghost len = bar_max_length as int;
        let mut space: u16 = available_space;
        let mut result: Vec<Vec<u64>> = Vec::new();
        let mut g: usize = 0;
        while g < self.data.len()
            invariant
                g <= self.data@.len(),
                s0 == available_space as int,
                len == bar_max_length as int,
                self.groups().len() == self.data@.len(),
                max == self.max_value(),
                max >= 1,
                self.ticks_fit_from(s0, 0, len) == self.ticks_fit_from(space as int, g as int, len),
                self.ticks_from(s0, 0, len) == rows_view(result@) + self.ticks_from(
                    space as int,
                    g as int,
                    len,
                ),
            decreases self.data@.len() - g,
        {
            if space == 0 {
                proof {
                    assert(self.ticks_fit_from(space as int, g as int, len));
                    assert(self.ticks_from(space as int, g as int, len) =~= Seq::<Seq<u64>>::empty());
                    assert(rows_view(result@) + Seq::<Seq<u64>>::empty() =~= rows_view(result@));
                }
                return Some(result);
            }
            let ghost sp = space as int;
            let group = &self.data[g];
            proof {
                assert(self.groups()[g as int] == group@);
                assert(self.groups()[g as int].bars.len() == group.bars@.len());
            }
            let n_bars: u16 = (group.bars.len() % 65536) as u16;
            let a = match n_bars.checked_mul(self.bar_width) {
                Some(a) => a,
                None => {
                    proof {
                        assert(!self.ticks_fit_from(space as int, g as int, len));
                    }
                    return None;
                },
            };
            let b = match n_bars.saturating_sub(1).checked_mul(self.bar_gap) {
                Some(b) => b,
                None => {
                    proof {
                        assert(!self.ticks_fit_from(space as int, g as int, len));
                    }
                    return None;
                },
            };
            let group_width = match a.checked_add(b) {
                Some(w) => w,
                None => {
                    proof {
                        assert(!self.ticks_fit_from(space as int, g as int, len));
                    }
                    return None;
                },
            };
            let n: u16;
            if space > group_width {
                let s1 = match group_width.checked_add(self.group_gap) {
                    Some(s) => s,
                    None => {
                    proof {
                        assert(!self.ticks_fit_from(space as int, g as int, len));
                    }
                    return None;
                },
                };
                let step = match s1.checked_add(self.bar_gap) {
                    Some(s) => s,
                    None => {
                    proof {
                        assert(!self.ticks_fit_from(space as int, g as int, len));
                    }
                    return None;
                },
                };
                space = space.saturating_sub(step);
                n = n_bars;
            } else {
                let num = match space.checked_add(self.bar_gap) {
                    Some(v) => v,
                    None => {
                    proof {
                        assert(!self.ticks_fit_from(space as int, g as int, len));
                    }
                    return None;
                },
                };
                let den = match self.bar_width.checked_add(self.bar_gap) {
                    Some(v) => v,
                    None => {
                    proof {
                        assert(!self.ticks_fit_from(space as int, g as int, len));
                    }
                    return None;
                },
                };
                if den == 0 {
                    proof {
                        assert(!self.ticks_fit_from(space as int, g as int, len));
                    }
                    return None;
                }
                let max_bars = num / den;
                if max_bars > 0 {
                    space = 0;
                    n = max_bars;
                } else {
                    proof {
                        assert(rows_view(result@) + Seq::<Seq<u64>>::empty() =~= rows_view(
                            result@,
                        ));
                    }
                    return Some(result);
                }
            }
            let row = match Self::row_ticks(&group.bars, n, bar_max_length, max) {
                Some(row) => row,
                None => {
                    proof {
                        assert(!self.ticks_fit_from(sp, g as int, len));
                    }
                    return None;
                },
            };
            let ghost before = result@;
            result.push(row);
            proof {
                assert(rows_view(result@) =~= rows_view(before).push(row@));
                if space == 0 {
                    assert(self.ticks_from(0, g + 1, len) =~= Seq::<Seq<u64>>::empty());
                }
            }
            g = g + 1;
        }
        proof {
            assert(rows_view(result@) + Seq::<Seq<u64>>::empty() =~= rows_view(result@));
        }
        Some(result)
    }
}

#[allow(inconsistent_fields)]
/// One drawing step on a terminal buffer. A chart is drawn by applying its
/// steps in order.
pub enum Draw<'a> {
    /// Lay `style` over every cell of `area`.
    SetStyle { area: Rect, style: Style },
    /// Draw `block` (its borders and titles) over `area`.
    RenderBlock { block: &'a Block, area: Rect },
    /// Put `symbol` in every cell of `area` and lay `style` over each.
    SetCells { area: Rect, symbol: &'static str, style: Style },
    /// Write at most `width` columns of `text` from column `x` of row `y`, in `style`.
    SetString { x: u16, y: u16, text: String, width: usize, style: Style },
    /// Write at most `width` columns of `line` from column `x` of row `y`.
    SetLine { x: u16, y: u16, line: Line, width: u16 },
}

#[allow(inconsistent_fields)]
/// What a drawing step holds.
pub enum DrawView {
    SetStyle { area: Rect, style: Style },
    RenderBlock { block: Block, area: Rect },
    SetCells { area: Rect, symbol: Seq<char>, style: Style },
    SetString { x: u16, y: u16, text: Seq<char>, width: usize, style: Style },
    SetLine { x: u16, y: u16, line: LineView, width: u16 },
}

impl<'a> View for Draw<'a> {
    type V = DrawView;

    open spec fn view(&self) -> DrawView {
        match self {
            Draw::SetStyle { area, style } => DrawView::SetStyle { area: *area, style: *style },
            Draw::RenderBlock { block, area } => DrawView::RenderBlock { block: **block, area: *area },
            Draw::SetCells { area, symbol, style } => DrawView::SetCells {
                area: *area,
                symbol: symbol@,
                style: *style,
            },
            Draw::SetString { x, y, text, width, style } => DrawView::SetString {
                x: *x,
                y: *y,
                text: text@,
                width: *width,
                style: *style,
            },
            Draw::SetLine { x, y, line, width } => DrawView::SetLine {
                x: *x,
                y: *y,
                line: line@,
                width: *width,
            },
        }
    }
}

/// The views of a sequence of drawing steps.
pub open spec fn draws_view<'a>(draws: Seq<Draw<'a>>) -> Seq<DrawView> {
    draws.map_values(|d: Draw<'a>| d@)
}

impl BarChart {
    /// The distance from one bar to the next in a group.
    pub open spec fn bar_step(self) -> int {
        self.spec_bar_width() + self.spec_bar_gap()
    }

    /// The style a bar is drawn in: its own style laid over the chart's bar style.
    pub open spec fn bar_style_of(self, g: int, b: int) -> Style {
        self.spec_bar_style().patch_spec(self.groups()[g].bars[b].style)
    }

    /// Whether `t` has no more rows than the chart has groups, and no row more
    /// ticks than its group has bars.
    pub open spec fn ticks_shaped(self, t: Seq<Seq<u64>>) -> bool {
        &&& t.len() <= self.groups().len()
        &&& forall|g: int| 0 <= g < t.len() ==> #[trigger] t[g].len() <= self.groups()[g].bars.len()
    }
}

/// The bar after bar `b` of a group starting at `start` starts one bar step
/// further.
proof fn lemma_next_bar_start(start: int, b: int, step: int)
    ensures
        start + (b + 1) * step == start + b * step + step,
{
    assert((b + 1) * step == b * step + step) by (nonlinear_arith);
}

/// The character of decimal digit `d`.
pub open spec fn digit_char(d: nat) -> char {
    if d == 0 {
        '0'
    } else if d == 1 {
        '1'
    } else if d == 2 {
        '2'
    } else if d == 3 {
        '3'
    } else if d == 4 {
        '4'
    } else if d == 5 {
        '5'
    } else if d == 6 {
        '6'
    } else if d == 7 {
        '7'
    } else if d == 8 {
        '8'
    } else {
        '9'
    }
}

/// The decimal digits of `n`, most significant first, without leading zeros.
pub open spec fn decimal(n: nat) -> Seq<char>
    decreases n,
{
    if n < 10 {
        seq![digit_char(n)]
    } else {
        decimal(n / 10).push(digit_char(n % 10))
    }
}

/// The text of decimal digit `d`.
fn digit_text(d: u64) -> (s: &'static str)
    requires
        d < 10,
    ensures
        s@ == seq![digit_char(d as nat)],
{
    proof {
        reveal_strlit("0");
        reveal_strlit("1");
        reveal_strlit("2");
        reveal_strlit("3");
        reveal_strlit("4");
        reveal_strlit("5");
        reveal_strlit("6");
        reveal_strlit("7");
        reveal_strlit("8");
        reveal_strlit("9");
    }
    match d {
        0 => "0",
        1 => "1",
        2 => "2",
        3 => "3",
        4 => "4",
        5 => "5",
        6 => "6",
        7 => "7",
        8 => "8",
        _ => "9",
    }
}

/// Appends the decimal digits of `n` to `s`.
fn push_decimal(s: &mut String, n: u64)
    ensures
        final(s)@ == old(s)@ + decimal(n as nat),
    decreases n,
{
    if n >= 10 {
        push_decimal(s, n / 10);
    }
    s.append(digit_text(n % 10));
    proof {
        if n >= 10 {
            assert(decimal(n as nat) == decimal((n / 10) as nat).push(digit_char((n % 10) as nat)));
        } else {
            assert(n % 10 == n);
        }
    }
}

/// `v` in decimal: its digits, most significant first, without sign or
/// leading zeros.
fn u64_to_string(v: u64) -> (s: String)
    ensures
        s@ == decimal(v as nat),
{
    let mut s = String::new();
    push_decimal(&mut s, v);
    proof {
        assert(Seq::<char>::empty() + decimal(v as nat) =~= decimal(v as nat));
    }
    s
}

/// The number of bytes of the UTF-8 encoding of `s`.
pub open spec fn byte_len(s: Seq<char>) -> int {
    (vstd::utf8::encode_utf8(s).len() as usize) as int
}

/// The text shown for a bar's value: its text value if it has one, else the
/// value in decimal.
pub open spec fn value_text(bar: BarView) -> Seq<char> {
    match bar.text_value {
        Some(t) => t,
        None => decimal(bar.value as nat),
    }
}

/// The column where something `w` columns wide (as a 16-bit count) is centred
/// in `max_width` columns from `x` (flush left when it does not fit).
pub open spec fn centred(x: int, max_width: int, w: int) -> int {
    x + sat_sub(max_width, as_u16(w)) / 2
}

/// The rows of `ticks_from` from group `g` line up with the groups from `g`
/// on, none longer than its group.
proof fn lemma_ticks_from_shape(c: BarChart, space: int, g: int, len: int)
    requires
        0 <= g <= c.groups().len(),
    ensures
        c.ticks_from(space, g, len).len() <= c.groups().len() - g,
        forall|i: int|
            0 <= i < c.ticks_from(space, g, len).len() ==> #[trigger] c.ticks_from(space, g, len)[i].len()
                <= c.groups()[g + i].bars.len(),
    decreases c.groups().len() - g,
{
    if g < c.groups().len() && space > 0 {
        let bars = c.groups()[g].bars;
        let n = as_u16(bars.len() as int);
        let gw = c.group_width(n);
        if space > gw {
            let rest = sat_sub(space, gw + c.spec_group_gap() + c.spec_bar_gap());
            lemma_ticks_from_shape(c, rest, g + 1, len);
            let tail = c.ticks_from(rest, g + 1, len);
            assert forall|i: int|
                0 <= i < c.ticks_from(space, g, len).len() implies #[trigger] c.ticks_from(
                space,
                g,
                len,
            )[i].len() <= c.groups()[g + i].bars.len() by {
                if i > 0 {
                    assert(c.ticks_from(space, g, len)[i] == tail[i - 1]);
                }
            }
        }
    }
}

impl BarChart {
    /// Whether drawing the chart's bars, labels and values in `area` (inside
    /// the block, if any) stays within the numbers the chart computes in.
    pub open spec fn body_fits(self, area: Rect) -> bool {
        if area.is_empty_spec() || self.groups().len() == 0 || self.spec_bar_width() == 0 {
            true
        } else {
            match self.spec_direction() {
                Direction::Horizontal => self.horizontal_fits(area),
                Direction::Vertical => self.vertical_fits(area),
            }
        }
    }

    /// The steps that draw the chart's bars, labels and values in `area`:
    /// nothing when the area is empty, there are no groups or the bars have
    /// no width; else the horizontal or vertical drawing.
    pub open spec fn body_draws(self, area: Rect) -> Seq<DrawView> {
        if area.is_empty_spec() || self.groups().len() == 0 || self.spec_bar_width() == 0 {
            Seq::empty()
        } else {
            match self.spec_direction() {
                Direction::Horizontal => self.horizontal_draws(area),
                Direction::Vertical => self.vertical_draws(area),
            }
        }
    }

    /// The bars, labels and values drawn in `area` (see `body_draws`); `None`
    /// exactly where `body_fits` fails.
    fn render_body<'a>(&self, area: Rect) -> (r: Option<Vec<Draw<'a>>>)
        ensures
            r is Some <==> self.body_fits(area),
            r matches Some(d) ==> draws_view(d@) == self.body_draws(area),
    {
        if area.is_empty() || self.data.len() == 0 || self.bar_width == 0 {
            let draws: Vec<Draw<'a>> = Vec::new();
            proof {
                assert(draws_view(draws@) =~= Seq::<DrawView>::empty());
            }
            return Some(draws);
        }
        match self.direction {
            Direction::Horizontal => self.render_horizontal(area),
            Direction::Vertical => self.render_vertical(area),
        }
    }

    /// The area the chart's bars, labels and values are drawn in: the area
    /// inside the block (see `Block::inner_spec`), or the whole area without one.
    pub open spec fn body_area(self, area: Rect) -> Rect {
        match self.spec_block() {
            Some(block) => block.inner_spec(area),
            None => area,
        }
    }

    /// Whether the chart can be drawn in `area`: the block's paddings add up
    /// within `u16`, and the body fits in the area inside the block.
    pub open spec fn render_fits(self, area: Rect) -> bool {
        &&& self.spec_block() matches Some(block) ==> block.padding_fits()
        &&& self.body_fits(self.body_area(area))
    }

    /// The steps that draw the chart in `area`: the chart's style over the
    /// whole area; then the block, if any, over the area; then the bars,
    /// labels and values in the area inside the block (see `body_draws`).
    pub open spec fn render_draws(self, area: Rect) -> Seq<DrawView> {
        match self.spec_block() {
            Some(block) => seq![
                DrawView::SetStyle { area, style: self.spec_style() },
                DrawView::RenderBlock { block, area },
            ] + self.body_draws(block.inner_spec(area)),
            None => seq![DrawView::SetStyle { area, style: self.spec_style() }] + self.body_draws(
                area,
            ),
        }
    }

    /// The steps that draw the chart in `area` (see `render_draws`); `None`
    /// exactly where drawing would leave the chart's 16-bit and 64-bit
    /// numbers, add the block's paddings past `u16`, or cut a value text
    /// inside a character (see `render_fits`). Every step that styles or
    /// fills cells stays inside `area`, and so does every text when the
    /// texts stay within the chart's numbers (see `texts_contained`) and the
    /// area lies within the 16-bit rows.
    pub fn render<'b>(&'b self, area: Rect) -> (r: Option<Vec<Draw<'b>>>)
        ensures
            r is Some <==> self.render_fits(area),
            r matches Some(d) ==> draws_view(d@) == self.render_draws(area),
            r matches Some(d) ==> cells_inside(draws_view(d@), area),
            r matches Some(d) ==> (self.texts_contained() && area.y + area.height <= u16::MAX
                ==> texts_inside(draws_view(d@), area)),
    {
        proof {
            use_type_invariant(self);
            assert forall|g: int| 0 <= g < self.groups().len() implies #[trigger] self.groups()[g].bars.len() > 0 by {
                assert(self.groups()[g] == self.data@[g]@);
            }
            if self.render_fits(area) && self.texts_contained() && area.y + area.height <= u16::MAX {
                lemma_render_texts_inside(*self, area);
            }
        }
        let mut draws: Vec<Draw<'b>> = Vec::new();
        draws.push(Draw::SetStyle { area, style: self.style });
        let inner = match &self.block {
            Some(block) => {
                if block.padding.left.checked_add(block.padding.right).is_none()
                    || block.padding.top.checked_add(block.padding.bottom).is_none() {
                    return None;
                }
                let inner = block.inner(area);
                draws.push(Draw::RenderBlock { block, area });
                inner
            },
            None => area,
        };
        let ghost head = draws@;
        proof {
            assert(draws_view(head) =~= match self.spec_block() {
                None => seq![DrawView::SetStyle { area, style: self.spec_style() }],
                Some(block) => seq![
                    DrawView::SetStyle { area, style: self.spec_style() },
                    DrawView::RenderBlock { block, area },
                ],
            });
            assert(inner == self.body_area(area));
        }
        let mut body = match self.render_body(inner) {
            Some(d) => d,
            None => {
                return None;
            },
        };
        let ghost part = body@;
        draws.append(&mut body);
        proof {
            assert(draws_view(draws@) =~= draws_view(head) + draws_view(part));
            lemma_body_cells_inside(*self, inner);
            if self.body_draws(inner).len() > 0 {
                assert(area.contains_rect(inner));
                lemma_cells_inside_widen(self.body_draws(inner), inner, area);
            }
            assert(cells_inside(draws_view(head), area)) by {
                assert(area.contains_rect(area));
            }
            lemma_cells_inside_concat(draws_view(head), self.body_draws(inner), area);
        }
        Some(draws)
    }
}

} // verus!
