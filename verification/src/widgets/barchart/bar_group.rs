//! A group of bars with an optional label.

use vstd::prelude::*;

use super::bar::{Bar, BarView, opt_line_view, default_bar_view};
use crate::style::Style;
use crate::text::{Line, LineView, SpanView};

verus! {

/// Bars drawn side by side, with an optional label under (or after) them.
#[derive(Debug, PartialEq, Eq, Hash)]
pub struct BarGroup {
    pub label: Option<Line>,
    pub bars: Vec<Bar>,
}

/// What a group holds.
pub struct BarGroupView {
    pub label: Option<LineView>,
    pub bars: Seq<BarView>,
}

impl View for BarGroup {
    type V = BarGroupView;

    open spec fn view(&self) -> BarGroupView {
        BarGroupView { label: opt_line_view(self.label), bars: self.bars@.map_values(|b: Bar| b@) }
    }
}

/// The largest of the first `n` values of `bars`, or 0 when `n` is 0.
pub open spec fn max_value_upto(bars: Seq<BarView>, n: int) -> u64
    decreases n,
{
    if n <= 0 {
        0
    } else {
        let m = max_value_upto(bars, n - 1);
        if bars[n - 1].value > m {
            bars[n - 1].value
        } else {
            m
        }
    }
}

impl BarGroupView {
    /// The largest value of the group's bars, or `None` when it has no bar.
    pub open spec fn max(self) -> Option<u64> {
        if self.bars.len() == 0 {
            None
        } else {
            Some(max_value_upto(self.bars, self.bars.len() as int))
        }
    }
}

/// The largest of the first `n` values is one of them and is at least each of them.
pub proof fn lemma_max_value_upto(bars: Seq<BarView>, n: int)
    requires
        0 <= n <= bars.len(),
    ensures
        forall|i: int| 0 <= i < n ==> #[trigger] bars[i].value <= max_value_upto(bars, n),
        n > 0 ==> exists|i: int| 0 <= i < n && #[trigger] bars[i].value == max_value_upto(bars, n),
    decreases n,
{
    if n > 0 {
        lemma_max_value_upto(bars, n - 1);
        if n - 1 > 0 {
            let w = choose|i: int| 0 <= i < n - 1 && #[trigger] bars[i].value == max_value_upto(bars, n - 1);
            assert(0 <= w < n);
        }
        assert(bars[n - 1].value <= max_value_upto(bars, n));
    }
}

impl Default for BarGroup {
    fn default() -> (r: BarGroup)
        ensures
            r@.label is None,
            r@.bars.len() == 0,
    {
        BarGroup { label: None, bars: Vec::new() }
    }
}

impl Clone for BarGroup {
    fn clone(&self) -> (r: BarGroup)
        ensures
            r@ == self@,
    {
        let label = match &self.label {
            Some(l) => Some(l.clone()),
            None => None,
        };
        BarGroup { label, bars: clone_bars(self.bars.as_slice()) }
    }
}

/// Copies of `bars`, in order.
fn clone_bars(bars: &[Bar]) -> (r: Vec<Bar>)
    ensures
        r@.map_values(|b: Bar| b@) == bars@.map_values(|b: Bar| b@),
{
    let mut out: Vec<Bar> = Vec::new();
    let mut i: usize = 0;
    while i < bars.len()
        invariant
            i <= bars@.len(),
            out@.map_values(|b: Bar| b@) == bars@.map_values(|b: Bar| b@).take(i as int),
        decreases bars@.len() - i,
    {
        let copy = bars[i].clone();
        let ghost before = out@;
        out.push(copy);
        proof {
            assert(out@.map_values(|b: Bar| b@) =~= before.map_values(|b: Bar| b@).push(copy@));
            assert(bars@.map_values(|b: Bar| b@).take(i + 1) =~= bars@.map_values(|b: Bar| b@).take(
                i as int,
            ).push(copy@));
        }
        i = i + 1;
    }
    proof {
        assert(bars@.map_values(|b: Bar| b@).take(bars@.len() as int) =~= bars@.map_values(
            |b: Bar| b@,
        ));
    }
    out
}

/// The bar made from one `(label, value)` pair: that value, that text as an
/// unstyled label, and nothing else set.
pub open spec fn pair_bar_view(label: Seq<char>, value: u64) -> BarView {
    BarView {
        value,
        label: Some(
            LineView {
                spans: seq![SpanView { content: label, style: Style::empty() }],
                alignment: None,
            },
        ),
        ..default_bar_view()
    }
}

impl BarGroup {
    /// The same group with label `label`.
    pub fn label(self, label: Line) -> (r: BarGroup)
        ensures
            r@ == (BarGroupView { label: Some(label@), bars: self@.bars }),
    {
        BarGroup { label: Some(label), bars: self.bars }
    }

    /// The same group holding copies of `bars` in place of its bars.
    pub fn bars(self, bars: &[Bar]) -> (r: BarGroup)
        ensures
            r@ == (BarGroupView { label: self@.label, bars: bars@.map_values(|b: Bar| b@) }),
    {
        BarGroup { label: self.label, bars: clone_bars(bars) }
    }

    /// The largest value of the group's bars, or `None` when it has none.
    pub fn max(&self) -> (r: Option<u64>)
        ensures
            r == self@.max(),
    {
        if self.bars.len() == 0 {
            return None;
        }
        let mut m: u64 = 0;
        let mut i: usize = 0;
        while i < self.bars.len()
            invariant
                i <= self.bars@.len(),
                m == max_value_upto(self@.bars, i as int),
            decreases self.bars@.len() - i,
        {
            if self.bars[i].value > m {
                m = self.bars[i].value;
            }
            i = i + 1;
        }
        Some(m)
    }

    /// A group without label whose bars are made from `(label, value)` pairs, in order.
    pub fn from(pairs: &[(&str, u64)]) -> (r: BarGroup)
        ensures
            r@.label is None,
            r@.bars.len() == pairs@.len(),
            forall|i: int|
                0 <= i < pairs@.len() ==> #[trigger] r@.bars[i] == pair_bar_view(
                    pairs@[i].0@,
                    pairs@[i].1,
                ),
    {
        let mut bars: Vec<Bar> = Vec::new();
        let mut i: usize = 0;
        while i < pairs.len()
            invariant
                i <= pairs@.len(),
                bars@.len() == i,
                forall|k: int|
                    0 <= k < i ==> #[trigger] bars@[k]@ == pair_bar_view(pairs@[k].0@, pairs@[k].1),
            decreases pairs@.len() - i,
        {
            let (text, value) = pairs[i];
            bars.push(Bar::default().value(value).label(Line::raw(text)));
            i = i + 1;
        }
        BarGroup { label: None, bars }
    }
}

} // verus!
