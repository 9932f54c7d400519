//! Charts whose bars grow rightward: bar labels in the left columns, the
//! bars after them, each group followed by its label when a group gap leaves
//! room.

use vstd::prelude::*;

use super::bar::{Bar, BarView};
use super::bar_group::{BarGroup, BarGroupView};
use super::{
    BarChart, Draw, DrawView, as_u16, byte_len, draws_view, lemma_next_bar_start,
    lemma_ticks_from_shape, rows_view, u64_to_string, value_text,
};
use crate::layout::{Rect, sat_sub};
use crate::style::Style;
use crate::text::{Alignment, LineView};

verus! {

/// The widest label among the first `n` bars (0 when none has a label).
pub open spec fn bars_label_width(bars: Seq<BarView>, n: int) -> int
    decreases n,
{
    if n <= 0 {
        0
    } else {
        let m = bars_label_width(bars, n - 1);
        match bars[n - 1].label {
            Some(l) => if l.width() > m {
                l.width()
            } else {
                m
            },
            None => m,
        }
    }
}

/// The widest bar label of the first `n` groups (0 when none has a label).
pub open spec fn groups_label_width(groups: Seq<BarGroupView>, n: int) -> int
    decreases n,
{
    if n <= 0 {
        0
    } else {
        let m = groups_label_width(groups, n - 1);
        let w = bars_label_width(groups[n - 1].bars, groups[n - 1].bars.len() as int);
        if w > m {
            w
        } else {
            m
        }
    }
}

/// The smaller of `a` and `b`.
pub open spec fn min_int(a: int, b: int) -> int {
    if a < b {
        a
    } else {
        b
    }
}

/// Where a line starts within `width` columns, by its alignment: flush left,
/// centred or flush right (its width taken as a 16-bit count).
pub open spec fn aligned_offset(line: LineView, width: int) -> int {
    let lw = as_u16(line.width());
    match line.alignment {
        Some(Alignment::Center) => sat_sub(width, lw) / 2,
        Some(Alignment::Right) => sat_sub(width, lw),
        _ => 0,
    }
}

/// The text after the first `k` bytes of `text`'s UTF-8 encoding.
pub open spec fn text_after_bytes(text: Seq<char>, k: int) -> Seq<char> {
    let bytes = vstd::utf8::encode_utf8(text);
    vstd::utf8::decode_utf8(bytes.subrange(k, bytes.len() as int))
}

impl BarChart {
    /// The columns a horizontal chart keeps for bar labels: the widest bar
    /// label, as a 16-bit count.
    pub open spec fn label_size(self) -> int {
        as_u16(groups_label_width(self.groups(), self.groups().len() as int))
    }

    /// The part of `area` the horizontal bars take: all of it right of the
    /// label columns and, if there are labels, one more column.
    pub open spec fn horizontal_bars_area(self, area: Rect) -> Rect {
        let ls = self.label_size();
        let margin = if ls == 0 {
            0int
        } else {
            1
        };
        Rect { x: (area.x + ls + margin) as u16, width: (area.width - ls - margin) as u16, ..area }
    }

    /// Whether the bars area is computed within 16-bit numbers.
    pub open spec fn horizontal_area_fits(self, area: Rect) -> bool {
        let ls = self.label_size();
        let margin = if ls == 0 {
            0int
        } else {
            1
        };
        &&& area.x + ls <= u16::MAX
        &&& area.x + ls + margin <= u16::MAX
        &&& area.width >= ls
        &&& area.width - ls >= margin
    }

    /// The row where group `g` starts when bars grow rightward from row `top`
    /// in an area ending above row `bottom`: each group before it takes a bar
    /// step per shown bar, plus the group gap when its label is shown.
    pub open spec fn hgroup_start(self, top: int, bottom: int, t: Seq<Seq<u64>>, g: int) -> int
        decreases g,
    {
        if g <= 0 {
            top
        } else {
            let after = self.hgroup_start(top, bottom, t, g - 1) + t[g - 1].len() * self.bar_step();
            if self.spec_group_gap() > 0 && after - self.spec_bar_gap() < bottom {
                after + self.spec_group_gap()
            } else {
                after
            }
        }
    }

    /// The row after the shown bars of group `g` (bar steps included).
    pub open spec fn hgroup_after(self, top: int, bottom: int, t: Seq<Seq<u64>>, g: int) -> int {
        self.hgroup_start(top, bottom, t, g) + t[g].len() * self.bar_step()
    }

    /// Whether the label of group `g` is drawn: there is a group gap and the
    /// row after its last bar is inside the area.
    pub open spec fn hgroup_label_shown(self, top: int, bottom: int, t: Seq<Seq<u64>>, g: int) -> bool {
        self.spec_group_gap() > 0 && self.hgroup_after(top, bottom, t, g) - self.spec_bar_gap()
            < bottom
    }

    /// The first row of bar `b` of group `g`.
    pub open spec fn hbar_start(self, top: int, bottom: int, t: Seq<Seq<u64>>, g: int, b: int) -> int {
        self.hgroup_start(top, bottom, t, g) + b * self.bar_step()
    }

    /// One row of a horizontal bar: `filled` full cells from column `left`,
    /// then empty cells up to `width` columns.
    pub open spec fn hrow_draws(self, left: int, y: int, width: int, filled: int, style: Style) -> Seq<
        DrawView,
    > {
        let f = min_int(filled, width);
        (if f > 0 {
            seq![
                DrawView::SetCells {
                    area: Rect { x: left as u16, y: y as u16, width: f as u16, height: 1 },
                    symbol: self.spec_bar_set().full@,
                    style,
                },
            ]
        } else {
            Seq::empty()
        }) + (if f < width {
            seq![
                DrawView::SetCells {
                    area: Rect {
                        x: (left + f) as u16,
                        y: y as u16,
                        width: (width - f) as u16,
                        height: 1,
                    },
                    symbol: self.spec_bar_set().empty@,
                    style,
                },
            ]
        } else {
            Seq::empty()
        })
    }

    /// The first `k` rows of a horizontal bar starting at row `y0`.
    pub open spec fn hrows_draws(
        self,
        left: int,
        y0: int,
        width: int,
        filled: int,
        style: Style,
        k: int,
    ) -> Seq<DrawView>
        decreases k,
    {
        if k <= 0 {
            Seq::empty()
        } else {
            self.hrows_draws(left, y0, width, filled, style, k - 1) + self.hrow_draws(
                left,
                y0 + k - 1,
                width,
                filled,
                style,
            )
        }
    }

    /// A horizontal bar's value text on row `y`: the part over the bar's
    /// `filled` cells in the value style (the chart's, with the bar's laid
    /// over it), and what does not fit on the bar in the bar's style; nothing
    /// for an empty text.
    pub open spec fn hvalue_draws(self, left: int, y: int, width: int, filled: int, bar: BarView) -> Seq<
        DrawView,
    > {
        let text = value_text(bar);
        if text.len() == 0 {
            Seq::empty()
        } else {
            seq![
                DrawView::SetString {
                    x: left as u16,
                    y: y as u16,
                    text,
                    width: filled as usize,
                    style: self.spec_value_style().patch_spec(bar.value_style),
                },
            ] + (if byte_len(text) > filled {
                seq![
                    DrawView::SetString {
                        x: (left + filled) as u16,
                        y: y as u16,
                        text: text_after_bytes(text, filled),
                        width: (width - filled) as usize,
                        style: self.spec_bar_style().patch_spec(bar.style),
                    },
                ]
            } else {
                Seq::empty()
            })
        }
    }

    /// What draws a horizontal bar whose first row is `y0`, of `ticks`
    /// eighths, in style `style`, in `bars` (with its label from column
    /// `label_x`): its rows, then its label (unstyled, on its middle row), then
    /// its value.
    pub open spec fn hbar_draws_at(
        self,
        label_x: int,
        bars: Rect,
        y0: int,
        ticks: u64,
        bar: BarView,
        style: Style,
    ) -> Seq<DrawView> {
        let filled = as_u16(ticks as int / 8);
        let mid = y0 + self.spec_bar_width() / 2;
        self.hrows_draws(
            bars.x as int,
            y0,
            bars.width as int,
            filled,
            style,
            self.spec_bar_width() as int,
        ) + (match bar.label {
            Some(l) => seq![
                DrawView::SetLine {
                    x: label_x as u16,
                    y: mid as u16,
                    line: l,
                    width: self.label_size() as u16,
                },
            ],
            None => Seq::empty(),
        }) + self.hvalue_draws(bars.x as int, mid, bars.width as int, filled, bar)
    }

    /// What draws bar `b` of group `g` rightward in `bars` (see `hbar_draws_at`).
    pub open spec fn hbar_draws(self, label_x: int, bars: Rect, t: Seq<Seq<u64>>, g: int, b: int) -> Seq<
        DrawView,
    > {
        self.hbar_draws_at(
            label_x,
            bars,
            self.hbar_start(bars.y as int, bars.bottom_spec(), t, g, b),
            t[g][b],
            self.groups()[g].bars[b],
            self.bar_style_of(g, b),
        )
    }

    /// A label, its styles laid over the chart's label style, on row `y` of
    /// the `width` columns from `x`, placed by its alignment.
    pub open spec fn aligned_label_draw(self, l: LineView, x: int, y: int, width: int) -> DrawView {
        let line = l.under(self.spec_label_style());
        DrawView::SetLine {
            x: (x + aligned_offset(line, width)) as u16,
            y: y as u16,
            line,
            width: width as u16,
        }
    }

    /// The label of group `g` after its bars, when shown.
    pub open spec fn hgroup_label_draws(self, bars: Rect, t: Seq<Seq<u64>>, g: int) -> Seq<DrawView> {
        let top = bars.y as int;
        let bottom = bars.bottom_spec();
        if self.hgroup_label_shown(top, bottom, t, g) {
            match self.groups()[g].label {
                Some(l) => seq![
                    self.aligned_label_draw(
                        l,
                        bars.x as int,
                        self.hgroup_after(top, bottom, t, g) - self.spec_bar_gap(),
                        bars.width as int,
                    ),
                ],
                None => Seq::empty(),
            }
        } else {
            Seq::empty()
        }
    }

    /// What draws the first `n` bars of group `g` rightward.
    pub open spec fn hgroup_bars_draws(
        self,
        label_x: int,
        bars: Rect,
        t: Seq<Seq<u64>>,
        g: int,
        n: int,
    ) -> Seq<DrawView>
        decreases n,
    {
        if n <= 0 {
            Seq::empty()
        } else {
            self.hgroup_bars_draws(label_x, bars, t, g, n - 1) + self.hbar_draws(
                label_x,
                bars,
                t,
                g,
                n - 1,
            )
        }
    }

    /// What draws the first `m` groups rightward: each group's bars, then its label.
    pub open spec fn hdraws_upto(self, label_x: int, bars: Rect, t: Seq<Seq<u64>>, m: int) -> Seq<
        DrawView,
    >
        decreases m,
    {
        if m <= 0 {
            Seq::empty()
        } else {
            self.hdraws_upto(label_x, bars, t, m - 1) + self.hgroup_bars_draws(
                label_x,
                bars,
                t,
                m - 1,
                t[m - 1].len() as int,
            ) + self.hgroup_label_draws(bars, t, m - 1)
        }
    }

    /// Whether drawing a horizontal bar whose first row is `y0` stays within
    /// the numbers the chart computes in, and its value text is cut at a
    /// character boundary.
    pub open spec fn hbar_fits_at(self, bars: Rect, y0: int, ticks: u64, bar: BarView) -> bool {
        let filled = as_u16(ticks as int / 8);
        let w = self.spec_bar_width() as int;
        &&& w >= 1 ==> y0 + w - 1 <= u16::MAX
        &&& (w >= 1 && bars.width >= 1) ==> bars.x + bars.width - 1 <= u16::MAX
        &&& y0 + w / 2 <= u16::MAX
        &&& self.hvalue_fits(bars.x as int, bars.width as int, filled, bar)
        &&& self.bar_step() <= u16::MAX
        &&& y0 + self.bar_step() <= u16::MAX
    }

    /// Whether drawing bar `b` of group `g` rightward fits (see `hbar_fits_at`).
    pub open spec fn hbar_fits(self, bars: Rect, t: Seq<Seq<u64>>, g: int, b: int) -> bool {
        self.hbar_fits_at(
            bars,
            self.hbar_start(bars.y as int, bars.bottom_spec(), t, g, b),
            t[g][b],
            self.groups()[g].bars[b],
        )
    }

    /// Whether the end of group `g` (its label and the group gap) stays within 16-bit numbers.
    pub open spec fn hgroup_fits(self, bars: Rect, t: Seq<Seq<u64>>, g: int) -> bool {
        let top = bars.y as int;
        let bottom = bars.bottom_spec();
        let after = self.hgroup_after(top, bottom, t, g);
        &&& after >= self.spec_bar_gap()
        &&& self.hgroup_label_shown(top, bottom, t, g) ==> {
            &&& self.group_label_fits(self.groups()[g].label, bars.x as int, bars.width as int)
            &&& after + self.spec_group_gap() <= u16::MAX
        }
    }
}

impl BarChart {
    /// The widest bar label (0 when no bar has one).
    fn max_label_width(&self) -> (r: usize)
        ensures
            r == groups_label_width(self.groups(), self.groups().len() as int),
    {
        let mut m: usize = 0;
        let mut g: usize = 0;
        while g < self.data.len()
            invariant
                g <= self.data@.len(),
                self.groups().len() == self.data@.len(),
                m == groups_label_width(self.groups(), g as int),
            decreases self.data@.len() - g,
        {
            let group = &self.data[g];
            proof {
                assert(self.groups()[g as int] == group@);
            }
            let mut w: usize = 0;
            let mut b: usize = 0;
            while b < group.bars.len()
                invariant
                    g < self.data@.len(),
                    group == self.data@[g as int],
                    self.groups()[g as int] == group@,
                    b <= group.bars@.len(),
                    w == bars_label_width(group@.bars, b as int),
                decreases group.bars@.len() - b,
            {
                proof {
                    assert(group@.bars[b as int] == group.bars@[b as int]@);
                }
                match &group.bars[b].label {
                    Some(l) => {
                        let lw = l.width();
                        if lw > w {
                            w = lw;
                        }
                    },
                    None => {},
                }
                b = b + 1;
            }
            if w > m {
                m = w;
            }
            g = g + 1;
        }
        m
    }

    /// The rows of a horizontal bar (see `hrows_draws`), `None` exactly where
    /// a row or column leaves 16-bit coordinates.
    fn hbar_rows<'a>(&self, left: u16, width: u16, y0: u16, filled: u16, style: Style) -> (r: Option<
        Vec<Draw<'a>>,
    >)
        requires
            self.spec_bar_width() >= 1,
        ensures
            r is Some <==> (y0 + self.spec_bar_width() - 1 <= u16::MAX && (width >= 1 ==> left
                + width - 1 <= u16::MAX)),
            r matches Some(d) ==> draws_view(d@) == self.hrows_draws(
                left as int,
                y0 as int,
                width as int,
                filled as int,
                style,
                self.spec_bar_width() as int,
            ),
    {
        let mut draws: Vec<Draw<'a>> = Vec::new();
        let mut y: u16 = 0;
        while y < self.bar_width
            invariant
                y <= self.bar_width,
                self.bar_width == self.spec_bar_width(),
                self.bar_set == self.spec_bar_set(),
                draws_view(draws@) == self.hrows_draws(
                    left as int,
                    y0 as int,
                    width as int,
                    filled as int,
                    style,
                    y as int,
                ),
                y > 0 ==> y0 + y - 1 <= u16::MAX,
                (y > 0 && width >= 1) ==> left + width - 1 <= u16::MAX,
            decreases self.bar_width - y,
        {
            let row = match y0.checked_add(y) {
                Some(r) => r,
                None => return None,
            };
            if width > 0 {
                match left.checked_add(width - 1) {
                    Some(_) => {},
                    None => return None,
                }
            }
            let ghost row_prefix = draws_view(draws@);
            let f: u16 = if filled < width {
                filled
            } else {
                width
            };
            if f > 0 {
                let d = Draw::SetCells {
                    area: Rect { x: left, y: row, width: f, height: 1 },
                    symbol: self.bar_set.full,
                    style,
                };
                draws.push(d);
            }
            if f < width {
                let d = Draw::SetCells {
                    area: Rect { x: left + f, y: row, width: width - f, height: 1 },
                    symbol: self.bar_set.empty,
                    style,
                };
                draws.push(d);
            }
            proof {
                assert(draws_view(draws@) =~= row_prefix + self.hrow_draws(
                    left as int,
                    y0 + y,
                    width as int,
                    filled as int,
                    style,
                ));
            }
            y = y + 1;
        }
        Some(draws)
    }

    /// Whether writing a horizontal bar's value stays within 16-bit numbers and
    /// cuts the text at a character boundary.
    pub open spec fn hvalue_fits(self, left: int, width: int, filled: int, bar: BarView) -> bool {
        let text = value_text(bar);
        (text.len() > 0 && byte_len(text) > filled) ==> {
            &&& vstd::utf8::is_char_boundary(vstd::utf8::encode_utf8(text), filled)
            &&& left + filled <= u16::MAX
            &&& filled <= width
        }
    }

    /// A horizontal bar's value text (see `hvalue_draws`); `None` exactly
    /// where `hvalue_fits` fails.
    fn hbar_value<'a>(&self, left: u16, width: u16, y: u16, filled: u16, bar: &Bar) -> (r: Option<
        Vec<Draw<'a>>,
    >)
        ensures
            r is Some <==> self.hvalue_fits(left as int, width as int, filled as int, bar@),
            r matches Some(d) ==> draws_view(d@) == self.hvalue_draws(
                left as int,
                y as int,
                width as int,
                filled as int,
                bar@,
            ),
    {
        let mut draws: Vec<Draw<'a>> = Vec::new();
        let text: String = match &bar.text_value {
            Some(s) => s.clone(),
            None => u64_to_string(bar.value),
        };
        proof {
            assert(text@ == value_text(bar@));
        }
        if text.as_str().is_empty() {
            proof {
                assert(draws_view(draws@) =~= Seq::<DrawView>::empty());
            }
            return Some(draws);
        }
        let value_style = self.value_style.patch(bar.value_style);
        if text.as_str().len() > filled as usize {
            if !text.as_str().is_char_boundary(filled as usize) {
                return None;
            }
            let (first, second) = text.as_str().split_at(filled as usize);
            let x2 = match left.checked_add(filled) {
                Some(v) => v,
                None => return None,
            };
            let w2 = match (width as usize).checked_sub(first.len()) {
                Some(v) => v,
                None => return None,
            };
            let rest = second.to_owned();
            proof {
                vstd::utf8::encode_utf8_decode_utf8(second@);
                assert(rest@ == text_after_bytes(text@, filled as int));
            }
            let d2 = Draw::SetString {
                x: x2,
                y,
                text: rest,
                width: w2,
                style: self.bar_style.patch(bar.style),
            };
            let d1 = Draw::SetString {
                x: left,
                y,
                text,
                width: filled as usize,
                style: value_style,
            };
            draws.push(d1);
            draws.push(d2);
            proof {
                assert(draws_view(draws@) =~= seq![d1@, d2@]);
            }
        } else {
            let d1 = Draw::SetString {
                x: left,
                y,
                text,
                width: filled as usize,
                style: value_style,
            };
            draws.push(d1);
            proof {
                assert(draws_view(draws@) =~= seq![d1@]);
            }
        }
        Some(draws)
    }
}

impl BarChart {
    /// Draws one horizontal bar whose first row is `y0` (see `hbar_draws_at`)
    /// and gives the row where the next bar starts; `None` exactly where
    /// `hbar_fits_at` fails.
    fn hbar<'a>(
        &self,
        label_x: u16,
        label_size: u16,
        bars_area: Rect,
        y0: u16,
        ticks: u64,
        bar: &Bar,
    ) -> (r: Option<(Vec<Draw<'a>>, u16)>)
        requires
            self.spec_bar_width() >= 1,
            label_size == self.label_size(),
        ensures
            r is Some <==> self.hbar_fits_at(bars_area, y0 as int, ticks, bar@),
            r matches Some((d, next)) ==> {
                &&& draws_view(d@) == self.hbar_draws_at(
                    label_x as int,
                    bars_area,
                    y0 as int,
                    ticks,
                    bar@,
                    self.spec_bar_style().patch_spec(bar.style),
                )
                &&& next == y0 + self.bar_step()
            },
    {
        let bar_length: u16 = ((ticks / 8) % 65536) as u16;
        let style = self.bar_style.patch(bar.style);
        let mut draws = match self.hbar_rows(bars_area.x, bars_area.width, y0, bar_length, style) {
            Some(d) => d,
            None => return None,
        };
        let mid = match y0.checked_add(self.bar_width / 2) {
            Some(v) => v,
            None => return None,
        };
        let ghost label_prefix = draws_view(draws@);
        match &bar.label {
            Some(l) => {
                let d = Draw::SetLine { x: label_x, y: mid, line: l.clone(), width: label_size };
                draws.push(d);
                proof {
                    assert(draws_view(draws@) =~= label_prefix.push(d@));
                }
            },
            None => {},
        }
        let ghost value_prefix = draws_view(draws@);
        let mut value = match self.hbar_value(bars_area.x, bars_area.width, mid, bar_length, bar) {
            Some(d) => d,
            None => return None,
        };
        let ghost vals = value@;
        draws.append(&mut value);
        proof {
            assert(draws_view(draws@) =~= value_prefix + draws_view(vals));
        }
        let step = match self.bar_gap.checked_add(self.bar_width) {
            Some(s) => s,
            None => return None,
        };
        let next = match y0.checked_add(step) {
            Some(v) => v,
            None => return None,
        };
        Some((draws, next))
    }

    /// Whether a group label fits at column offset within `width` columns from `x`.
    pub open spec fn group_label_fits(self, label: Option<LineView>, x: int, width: int) -> bool {
        match label {
            Some(l) => x + aligned_offset(l.under(self.spec_label_style()), width) <= u16::MAX,
            None => true,
        }
    }

    /// A group's label on row `y` of the `width` columns from `x` (see
    /// `aligned_label_draw`), nothing without a label; `None` exactly where
    /// `group_label_fits` fails.
    fn group_label<'a>(&self, group: &BarGroup, x: u16, y: u16, width: u16) -> (r: Option<
        Vec<Draw<'a>>,
    >)
        ensures
            r is Some <==> self.group_label_fits(group@.label, x as int, width as int),
            r matches Some(d) ==> draws_view(d@) == match group@.label {
                Some(l) => seq![self.aligned_label_draw(l, x as int, y as int, width as int)],
                None => Seq::<DrawView>::empty(),
            },
    {
        let mut draws: Vec<Draw<'a>> = Vec::new();
        match &group.label {
            Some(l) => {
                let line = l.under_style(self.label_style);
                let lw: u16 = (line.width() % 65536) as u16;
                let off: u16 = match line.alignment {
                    Some(Alignment::Center) => width.saturating_sub(lw) / 2,
                    Some(Alignment::Right) => width.saturating_sub(lw),
                    _ => 0,
                };
                let lx = match x.checked_add(off) {
                    Some(v) => v,
                    None => return None,
                };
                let d = Draw::SetLine { x: lx, y, line, width };
                draws.push(d);
                proof {
                    assert(draws_view(draws@) =~= seq![d@]);
                }
            },
            None => {
                proof {
                    assert(draws_view(draws@) =~= Seq::<DrawView>::empty());
                }
            },
        }
        Some(draws)
    }
}

impl BarChart {
    /// Whether the chart fits, drawn rightward in `area`, within the numbers
    /// it computes in (and cuts each value text at a character boundary).
    pub open spec fn horizontal_fits(self, area: Rect) -> bool {
        let bars = self.horizontal_bars_area(area);
        let t = self.ticks_from(bars.height as int, 0, bars.width as int);
        &&& self.horizontal_area_fits(area)
        &&& self.ticks_fit_from(bars.height as int, 0, bars.width as int)
        &&& forall|g: int, b: int|
            0 <= g < t.len() && 0 <= b < t[g].len() ==> #[trigger] self.hbar_fits(bars, t, g, b)
        &&& forall|g: int| 0 <= g < t.len() ==> #[trigger] self.hgroup_fits(bars, t, g)
    }

    /// The steps that draw the chart rightward in `area`.
    pub open spec fn horizontal_draws(self, area: Rect) -> Seq<DrawView> {
        let bars = self.horizontal_bars_area(area);
        let t = self.ticks_from(bars.height as int, 0, bars.width as int);
        self.hdraws_upto(area.x as int, bars, t, t.len() as int)
    }

    /// Draws group `g` rightward from row `bar_y` (its start): its bars, then
    /// its label when shown; gives the row where the next group starts.
    fn hgroup<'a>(
        &self,
        label_x: u16,
        label_size: u16,
        bars_area: Rect,
        group_ticks: &Vec<Vec<u64>>,
        g: usize,
        bar_y: u16,
    ) -> (r: Option<(Vec<Draw<'a>>, u16)>)
        requires
            self.spec_bar_width() >= 1,
            label_size == self.label_size(),
            self.ticks_shaped(rows_view(group_ticks@)),
            g < group_ticks@.len(),
            bar_y == self.hgroup_start(
                bars_area.y as int,
                bars_area.bottom_spec(),
                rows_view(group_ticks@),
                g as int,
            ),
        ensures
            ({
                let t = rows_view(group_ticks@);
                &&& r is Some <==> ((forall|b: int|
                    0 <= b < t[g as int].len() ==> #[trigger] self.hbar_fits(bars_area, t, g as int, b))
                    && self.hgroup_fits(bars_area, t, g as int))
                &&& r matches Some((d, next)) ==> {
                    &&& draws_view(d@) == self.hgroup_bars_draws(
                        label_x as int,
                        bars_area,
                        t,
                        g as int,
                        t[g as int].len() as int,
                    ) + self.hgroup_label_draws(bars_area, t, g as int)
                    &&& next == self.hgroup_start(
                        bars_area.y as int,
                        bars_area.bottom_spec(),
                        t,
                        g + 1,
                    )
                }
            }),
    {
        let ghost t = rows_view(group_ticks@);
        let ghost top = bars_area.y as int;
        let ghost bottom = bars_area.bottom_spec();
        let ticks_vec = &group_ticks[g];
        let group = &self.data[g];
        proof {
            assert(self.groups()[g as int] == group@);
            assert(t[g as int] == ticks_vec@);
        }
        let mut draws: Vec<Draw<'a>> = Vec::new();
        let mut y = bar_y;
        let mut b: usize = 0;
        while b < ticks_vec.len()
            invariant
                t == rows_view(group_ticks@),
                top == bars_area.y as int,
                bottom == bars_area.bottom_spec(),
                label_size == self.label_size(),
                self.spec_bar_width() >= 1,
                self.ticks_shaped(t),
                g < t.len(),
                ticks_vec == group_ticks@[g as int],
                t[g as int] == ticks_vec@,
                group == self.data@[g as int],
                self.groups()[g as int] == group@,
                b <= ticks_vec@.len(),
                y == self.hbar_start(top, bottom, t, g as int, b as int),
                draws_view(draws@) == self.hgroup_bars_draws(
                    label_x as int,
                    bars_area,
                    t,
                    g as int,
                    b as int,
                ),
                forall|c: int| 0 <= c < b ==> #[trigger] self.hbar_fits(bars_area, t, g as int, c),
            decreases ticks_vec@.len() - b,
        {
            proof {
                assert(b < self.groups()[g as int].bars.len());
                assert(group.bars@[b as int]@ == self.groups()[g as int].bars[b as int]);
            }
            let (mut d, next) = match self.hbar(
                label_x,
                label_size,
                bars_area,
                y,
                ticks_vec[b],
                &group.bars[b],
            ) {
                Some(p) => p,
                None => {
                    proof {
                        assert(!self.hbar_fits(bars_area, t, g as int, b as int));
                    }
                    return None;
                },
            };
            let ghost prefix = draws_view(draws@);
            let ghost part = d@;
            draws.append(&mut d);
            proof {
                assert(draws_view(draws@) =~= prefix + draws_view(part));
                assert(self.hbar_fits(bars_area, t, g as int, b as int));
                lemma_next_bar_start(
                    self.hgroup_start(top, bottom, t, g as int),
                    b as int,
                    self.bar_step(),
                );
            }
            y = next;
            b = b + 1;
        }
        let label_y = match y.checked_sub(self.bar_gap) {
            Some(v) => v,
            None => return None,
        };
        if self.group_gap > 0 && label_y < bars_area.bottom() {
            let mut d = match self.group_label(group, bars_area.x, label_y, bars_area.width) {
                Some(d) => d,
                None => return None,
            };
            let ghost prefix = draws_view(draws@);
            let ghost part = d@;
            draws.append(&mut d);
            proof {
                assert(draws_view(draws@) =~= prefix + draws_view(part));
            }
            y = match y.checked_add(self.group_gap) {
                Some(v) => v,
                None => return None,
            };
        }
        Some((draws, y))
    }

    /// Draws the chart with bars growing rightward in `area`: the bar labels
    /// in the left columns, one column of margin, the bars in the rest, each
    /// group followed by its label when a group gap leaves room (see
    /// `horizontal_draws`); `None` exactly where the computation leaves its
    /// integers or cuts a value text inside a character (see `horizontal_fits`).
    /// Called by `render` only, for bars at least one cell wide.
    pub(crate) fn render_horizontal<'a>(&self, area: Rect) -> (r: Option<Vec<Draw<'a>>>)
        requires
            self.spec_bar_width() >= 1,
        ensures
            r is Some <==> self.horizontal_fits(area),
            r matches Some(d) ==> draws_view(d@) == self.horizontal_draws(area),
    {
        let label_size: u16 = (self.max_label_width() % 65536) as u16;
        let margin: u16 = if label_size == 0 {
            0
        } else {
            1
        };
        let x1 = match area.x.checked_add(label_size) {
            Some(v) => v,
            None => return None,
        };
        let bx = match x1.checked_add(margin) {
            Some(v) => v,
            None => return None,
        };
        let w1 = match area.width.checked_sub(label_size) {
            Some(v) => v,
            None => return None,
        };
        let bw = match w1.checked_sub(margin) {
            Some(v) => v,
            None => return None,
        };
        let bars_area = Rect { x: bx, width: bw, ..area };
        let ghost ba = self.horizontal_bars_area(area);
        assert(bars_area == ba);
        let group_ticks = match self.group_ticks(bars_area.height, bars_area.width) {
            Some(t) => t,
            None => return None,
        };
        let ghost t = rows_view(group_ticks@);
        let ghost m = t.len() as int;
        proof {
            lemma_ticks_from_shape(*self, bars_area.height as int, 0, bars_area.width as int);
        }
        let mut draws: Vec<Draw<'a>> = Vec::new();
        let mut bar_y: u16 = bars_area.top();
        let mut g: usize = 0;
        while g < group_ticks.len()
            invariant
                t == rows_view(group_ticks@),
                m == group_ticks@.len(),
                ba == bars_area,
                ba == self.horizontal_bars_area(area),
                t == self.ticks_from(ba.height as int, 0, ba.width as int),
                label_size == self.label_size(),
                self.spec_bar_width() >= 1,
                self.ticks_shaped(t),
                g <= m,
                bar_y == self.hgroup_start(ba.y as int, ba.bottom_spec(), t, g as int),
                draws_view(draws@) == self.hdraws_upto(area.x as int, ba, t, g as int),
                forall|k: int, b: int|
                    0 <= k < g && 0 <= b < t[k].len() ==> #[trigger] self.hbar_fits(ba, t, k, b),
                forall|k: int| 0 <= k < g ==> #[trigger] self.hgroup_fits(ba, t, k),
            decreases m - g,
        {
            let (mut d, next) = match self.hgroup(
                area.x,
                label_size,
                bars_area,
                &group_ticks,
                g,
                bar_y,
            ) {
                Some(p) => p,
                None => return None,
            };
            let ghost prefix = draws_view(draws@);
            let ghost part = d@;
            draws.append(&mut d);
            proof {
                assert(draws_view(draws@) =~= prefix + draws_view(part));
                assert(draws_view(draws@) =~= self.hdraws_upto(area.x as int, ba, t, g + 1));
            }
            bar_y = next;
            g = g + 1;
        }
        Some(draws)
    }
}

} // verus!
