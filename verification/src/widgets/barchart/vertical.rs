//! Charts whose bars grow upward: the bars, then the bar labels and values
//! under them and the group labels on the last row.

use vstd::prelude::*;

use super::bar::BarView;
use super::{
    BarChart, Draw, DrawView, LabelInfo, as_u16, byte_len, centred, decimal, draws_view,
    lemma_next_bar_start, lemma_ticks_from_shape, rows_view, u64_to_string, value_text,
};
use crate::layout::{Rect, sat_sub};
use crate::style::Style;
use crate::text::{Alignment, str_width, text_width};

verus! {

/// The number of bars in the first `g` rows of ticks.
pub open spec fn bars_before(t: Seq<Seq<u64>>, g: int) -> int
    decreases g,
{
    if g <= 0 {
        0
    } else {
        bars_before(t, g - 1) + t[g - 1].len()
    }
}

impl BarChart {
    /// Where group `g` starts when the first group starts at `left`: each
    /// group before it takes a bar step per shown bar, then the group gap.
    pub open spec fn group_start(self, left: int, t: Seq<Seq<u64>>, g: int) -> int
        decreases g,
    {
        if g <= 0 {
            left
        } else {
            self.group_start(left, t, g - 1) + t[g - 1].len() * self.bar_step()
                + self.spec_group_gap()
        }
    }

    /// Where bar `b` of group `g` starts.
    pub open spec fn bar_start(self, left: int, t: Seq<Seq<u64>>, g: int, b: int) -> int {
        self.group_start(left, t, g) + b * self.bar_step()
    }

    /// The cells of one vertical bar of `ticks` eighths, `h` rows tall, whose
    /// bottom row is `top + h - 1`: row `r` from the bottom holds the symbol of
    /// what is left of the bar after `r` full cells.
    pub open spec fn column_draws(self, x: int, top: int, h: int, ticks: u64, style: Style) -> Seq<
        DrawView,
    > {
        Seq::new(
            h as nat,
            |r: int|
                DrawView::SetCells {
                    area: Rect {
                        x: x as u16,
                        y: (top + h - 1 - r) as u16,
                        width: self.spec_bar_width(),
                        height: 1,
                    },
                    symbol: self.spec_bar_set().level(ticks - 8 * r)@,
                    style,
                },
        )
    }

    /// The cells of the first `n` bars of group `g`.
    pub open spec fn group_column_draws(self, area: Rect, t: Seq<Seq<u64>>, g: int, n: int) -> Seq<
        DrawView,
    >
        decreases n,
    {
        if n <= 0 {
            Seq::empty()
        } else {
            self.group_column_draws(area, t, g, n - 1) + self.column_draws(
                self.bar_start(area.x as int, t, g, n - 1),
                area.y as int,
                area.height as int,
                t[g][n - 1],
                self.bar_style_of(g, n - 1),
            )
        }
    }

    /// The cells of all bars of the first `m` groups.
    pub open spec fn column_draws_upto(self, area: Rect, t: Seq<Seq<u64>>, m: int) -> Seq<DrawView>
        decreases m,
    {
        if m <= 0 {
            Seq::empty()
        } else {
            self.column_draws_upto(area, t, m - 1) + self.group_column_draws(
                area,
                t,
                m - 1,
                t[m - 1].len() as int,
            )
        }
    }

    /// Whether drawing the bars of `t` upward in `area` stays within 16-bit
    /// coordinates: where the pen ends after the last group, and (if there is a
    /// bar) the bottom row.
    pub open spec fn columns_fit(self, area: Rect, t: Seq<Seq<u64>>) -> bool {
        &&& self.group_start(area.x as int, t, t.len() as int) <= u16::MAX
        &&& bars_before(t, t.len() as int) > 0 ==> area.y + area.height - 1 <= u16::MAX
    }

}

/// Group starts only grow, and each shown bar fits before the next group.
pub(super) proof fn lemma_group_start_mono(c: BarChart, left: int, t: Seq<Seq<u64>>, g: int, h: int)
    requires
        0 <= g <= h,
    ensures
        c.group_start(left, t, g) <= c.group_start(left, t, h),
    decreases h - g,
{
    if g < h {
        lemma_group_start_mono(c, left, t, g, h - 1);
        assert(t[h - 1].len() * c.bar_step() >= 0) by (nonlinear_arith)
            requires
                c.bar_step() >= 0,
        ;
    }
}

/// A bar that is shown ends, bar step included, no later than its group's end.
pub(super) proof fn lemma_bar_within_group(c: BarChart, left: int, t: Seq<Seq<u64>>, g: int, b: int)
    requires
        0 <= g,
        0 <= b < t[g].len(),
    ensures
        c.bar_start(left, t, g, b) + c.bar_step() <= c.group_start(left, t, g + 1),
        c.bar_step() <= c.group_start(left, t, g + 1) - c.group_start(left, t, g),
{
    let k = c.bar_step();
    let n = t[g].len() as int;
    assert(b * k + k <= n * k) by (nonlinear_arith)
        requires
            0 <= b < n,
            k >= 0,
    ;
    assert(k <= n * k) by (nonlinear_arith)
        requires
            0 <= b < n,
            k >= 0,
    ;
}

/// Counting more rows never counts fewer bars.
pub(super) proof fn lemma_bars_before_mono(t: Seq<Seq<u64>>, g: int, h: int)
    requires
        0 <= g <= h,
    ensures
        bars_before(t, g) <= bars_before(t, h),
    decreases h - g,
{
    if g < h {
        lemma_bars_before_mono(t, g, h - 1);
    }
}

impl BarChart {
    /// The cells of the bars of `group_ticks`, drawn upward in `area`, group
    /// after group from the area's left column (see `column_draws_upto`);
    /// `None` exactly where a column or row leaves 16-bit coordinates (see
    /// `columns_fit`). Called by `render_vertical` only, on the rows above
    /// the labels (at least one) and the ticks that `group_ticks` gives.
    pub(crate) fn render_vertical_bars<'a>(&self, area: Rect, group_ticks: &Vec<Vec<u64>>) -> (r: Option<
        Vec<Draw<'a>>,
    >)
        requires
            area.height >= 1,
            self.ticks_shaped(rows_view(group_ticks@)),
        ensures
            r is Some <==> self.columns_fit(area, rows_view(group_ticks@)),
            r matches Some(d) ==> draws_view(d@) == self.column_draws_upto(
                area,
                rows_view(group_ticks@),
                group_ticks@.len() as int,
            ),
    {
        let ghost t = rows_view(group_ticks@);
        let ghost m = group_ticks@.len() as int;
        let ghost left = area.x as int;
        let mut draws: Vec<Draw<'a>> = Vec::new();
        let mut bar_x: u16 = area.left();
        let mut g: usize = 0;
        while g < group_ticks.len()
            invariant
                t == rows_view(group_ticks@),
                m == group_ticks@.len(),
                left == area.x as int,
                area.height >= 1,
                self.ticks_shaped(t),
                g <= m,
                bar_x == self.group_start(left, t, g as int),
                draws_view(draws@) == self.column_draws_upto(area, t, g as int),
                bars_before(t, g as int) > 0 ==> area.y + area.height - 1 <= u16::MAX,
            decreases m - g,
        {
            let ticks_vec = &group_ticks[g];
            let group = &self.data[g];
            proof {
                assert(self.groups()[g as int] == group@);
                assert(t[g as int] == ticks_vec@);
            }
            let mut b: usize = 0;
            while b < ticks_vec.len()
                invariant
                    t == rows_view(group_ticks@),
                    m == group_ticks@.len(),
                    left == area.x as int,
                    area.height >= 1,
                    self.ticks_shaped(t),
                    g < m,
                    ticks_vec == group_ticks@[g as int],
                    t[g as int] == ticks_vec@,
                    group == self.data@[g as int],
                    self.groups()[g as int] == group@,
                    b <= ticks_vec@.len(),
                    bar_x == self.bar_start(left, t, g as int, b as int),
                    draws_view(draws@) == self.column_draws_upto(area, t, g as int)
                        + self.group_column_draws(area, t, g as int, b as int),
                    bars_before(t, g as int) + b > 0 ==> area.y + area.height - 1 <= u16::MAX,
                decreases ticks_vec@.len() - b,
            {
                proof {
                    lemma_bars_before_mono(t, g as int + 1, m);
                    lemma_bar_within_group(*self, left, t, g as int, b as int);
                    lemma_group_start_mono(*self, left, t, g as int + 1, m);
                }
                let bottom_row = match area.top().checked_add(area.height - 1) {
                    Some(v) => v,
                    None => {
                        proof {
                            lemma_bars_before_mono(t, 0, g as int);
                            assert(bars_before(t, g + 1) == bars_before(t, g as int) + t[g as int].len());
                            assert(bars_before(t, m) > 0);
                        }
                        return None;
                    },
                };
                proof {
                    assert(b < self.groups()[g as int].bars.len());
                    assert(group.bars@[b as int]@ == self.groups()[g as int].bars[b as int]);
                }
                let style = self.bar_style.patch(group.bars[b].style);
                let ghost t0 = ticks_vec@[b as int];
                let ghost col = self.column_draws(
                    bar_x as int,
                    area.y as int,
                    area.height as int,
                    t0,
                    style,
                );
                let ghost prefix = draws_view(draws@);
                let mut ticks: u64 = ticks_vec[b];
                let mut r: u16 = 0;
                while r < area.height
                    invariant
                        r <= area.height,
                        bottom_row == area.y + area.height - 1,
                        ticks == (if t0 - 8 * r < 0 { 0 } else { t0 - 8 * r }),
                        col == self.column_draws(
                            bar_x as int,
                            area.y as int,
                            area.height as int,
                            t0,
                            style,
                        ),
                        draws_view(draws@) == prefix + col.take(r as int),
                    decreases area.height - r,
                {
                    let symbol = self.bar_set.symbol(ticks);
                    let cell = Draw::SetCells {
                        area: Rect { x: bar_x, y: bottom_row - r, width: self.bar_width, height: 1 },
                        symbol,
                        style,
                    };
                    let ghost before = draws@;
                    draws.push(cell);
                    proof {
                        assert(draws_view(draws@) =~= draws_view(before).push(cell@));
                        assert(col.take(r + 1) =~= col.take(r as int).push(cell@));
                    }
                    ticks = ticks.saturating_sub(8);
                    r = r + 1;
                }
                proof {
                    assert(col.take(area.height as int) =~= col);
                }
                let step = match self.bar_gap.checked_add(self.bar_width) {
                    Some(s) => s,
                    None => return None,
                };
                bar_x = match bar_x.checked_add(step) {
                    Some(x) => x,
                    None => return None,
                };
                proof {
                    lemma_next_bar_start(self.group_start(left, t, g as int), b as int, self.bar_step());
                }
                b = b + 1;
            }
            proof {
                lemma_group_start_mono(*self, left, t, g as int + 1, m);
            }
            bar_x = match bar_x.checked_add(self.group_gap) {
                Some(x) => x,
                None => return None,
            };
            g = g + 1;
        }
        Some(draws)
    }
}

impl BarChart {
    /// The row of the values under vertical bars in `area`, when `label_height`
    /// rows of labels follow them.
    pub open spec fn value_row(self, area: Rect, label_height: int) -> int {
        area.bottom_spec() - label_height - 1
    }

    /// A bar's label, its styles laid over the chart's label style, centred
    /// under the bar at column `x` of row `y`; nothing if the bar has no label.
    pub open spec fn bar_label_draws(self, x: int, y: int, bar: BarView) -> Seq<DrawView> {
        match bar.label {
            Some(l) => {
                let line = l.under(self.spec_label_style());
                seq![
                    DrawView::SetLine {
                        x: centred(x, self.spec_bar_width() as int, line.width()) as u16,
                        y: y as u16,
                        line,
                        width: self.spec_bar_width(),
                    },
                ]
            },
            None => Seq::empty(),
        }
    }

    /// A bar's value text, centred under the bar at column `x` of row `y` in
    /// the chart's value style with the bar's value style laid over it: drawn
    /// only for a non-zero value whose text is narrower than the bar, or as
    /// wide as the bar when the bar fills at least a full cell.
    pub open spec fn value_draws(self, x: int, y: int, bar: BarView, ticks: u64) -> Seq<DrawView> {
        let text = value_text(bar);
        let w = as_u16(str_width(text) as int);
        let bw = self.spec_bar_width() as int;
        if bar.value != 0 && (w < bw || (w == bw && ticks >= 8)) {
            seq![
                DrawView::SetString {
                    x: centred(x, bw, byte_len(text)) as u16,
                    y: y as u16,
                    text,
                    width: usize::MAX,
                    style: self.spec_value_style().patch_spec(bar.value_style),
                },
            ]
        } else {
            Seq::empty()
        }
    }

    /// What is written for one bar: its label on the row below `y` when bar
    /// labels are shown, then its value on row `y`.
    pub open spec fn bar_text_draws(
        self,
        info: LabelInfo,
        x: int,
        y: int,
        bar: BarView,
        ticks: u64,
    ) -> Seq<DrawView> {
        (if info.bar_label_visible {
            self.bar_label_draws(x, y + 1, bar)
        } else {
            Seq::empty()
        }) + self.value_draws(x, y, bar, ticks)
    }

    /// The width a group's label gets under its shown bars: their width with
    /// the gaps between them.
    pub open spec fn group_label_width(self, t: Seq<Seq<u64>>, g: int) -> int {
        as_u16(t[g].len() as int) * self.bar_step() - self.spec_bar_gap()
    }

    /// A group's label, its styles laid over the chart's label style, on the
    /// last row of `area`, under the group's shown bars, placed by its
    /// alignment; nothing if group labels are not shown or the group has none.
    pub open spec fn group_label_draws(self, info: LabelInfo, area: Rect, t: Seq<Seq<u64>>, g: int) -> Seq<
        DrawView,
    > {
        if !info.group_label_visible {
            Seq::empty()
        } else {
            match self.groups()[g].label {
                Some(l) => {
                    let line = l.under(self.spec_label_style());
                    let lmw = self.group_label_width(t, g);
                    let lw = as_u16(line.width());
                    let off = match line.alignment {
                        Some(Alignment::Center) => sat_sub(lmw, lw) / 2,
                        Some(Alignment::Right) => sat_sub(lmw, lw),
                        _ => 0,
                    };
                    seq![
                        DrawView::SetLine {
                            x: (self.group_start(area.x as int, t, g) + off) as u16,
                            y: (area.bottom_spec() - 1) as u16,
                            line,
                            width: lmw as u16,
                        },
                    ]
                },
                None => Seq::empty(),
            }
        }
    }

    /// What is written for group `g`: its label, then the texts of its first `n` bars.
    pub open spec fn group_text_draws(
        self,
        info: LabelInfo,
        area: Rect,
        t: Seq<Seq<u64>>,
        g: int,
        n: int,
    ) -> Seq<DrawView>
        decreases n,
    {
        if n <= 0 {
            self.group_label_draws(info, area, t, g)
        } else {
            self.group_text_draws(info, area, t, g, n - 1) + self.bar_text_draws(
                info,
                self.bar_start(area.x as int, t, g, n - 1),
                self.value_row(area, info.height as int),
                self.groups()[g].bars[n - 1],
                t[g][n - 1],
            )
        }
    }

    /// What is written for the first `m` groups.
    pub open spec fn text_draws_upto(self, info: LabelInfo, area: Rect, t: Seq<Seq<u64>>, m: int) -> Seq<
        DrawView,
    >
        decreases m,
    {
        if m <= 0 {
            Seq::empty()
        } else {
            self.text_draws_upto(info, area, t, m - 1) + self.group_text_draws(
                info,
                area,
                t,
                m - 1,
                t[m - 1].len() as int,
            )
        }
    }

    /// Whether the label width of group `g` is computed within 16-bit numbers.
    pub open spec fn group_label_width_ok(self, t: Seq<Seq<u64>>, g: int) -> bool {
        &&& self.bar_step() <= u16::MAX
        &&& as_u16(t[g].len() as int) * self.bar_step() <= u16::MAX
        &&& as_u16(t[g].len() as int) * self.bar_step() >= self.spec_bar_gap()
    }

    /// Whether writing the labels and values stays within 16-bit numbers:
    /// where the pen ends after the last group and, when group labels are
    /// shown, the width of each group's label.
    pub open spec fn texts_fit(self, info: LabelInfo, area: Rect, t: Seq<Seq<u64>>) -> bool {
        &&& self.group_start(area.x as int, t, t.len() as int) <= u16::MAX
        &&& info.group_label_visible ==> forall|g: int|
            0 <= g < t.len() ==> #[trigger] self.group_label_width_ok(t, g)
    }
}

/// Where a text starts when centred (or placed) within a bar lies before the
/// next bar's start, and the pen only moves forward.
pub(super) proof fn lemma_offset_within_step(c: BarChart, left: int, t: Seq<Seq<u64>>, g: int, b: int, off: int, m: int)
    requires
        0 <= g < m,
        m == t.len(),
        0 <= b < t[g].len(),
        0 <= off <= c.spec_bar_width(),
    ensures
        c.bar_start(left, t, g, b) + off <= c.group_start(left, t, m),
{
    lemma_bar_within_group(c, left, t, g, b);
    lemma_group_start_mono(c, left, t, g + 1, m);
}

/// The pen after the shown bars of group `g` plus the group gap is the next
/// group's start, and the label width of a group never exceeds its bars' width.
pub(super) proof fn lemma_group_end(c: BarChart, left: int, t: Seq<Seq<u64>>, g: int)
    requires
        0 <= g,
    ensures
        c.bar_start(left, t, g, t[g].len() as int) + c.spec_group_gap() == c.group_start(left, t, g + 1),
        as_u16(t[g].len() as int) * c.bar_step() <= t[g].len() * c.bar_step(),
        as_u16(t[g].len() as int) * c.bar_step() >= 0,
{
    let n = t[g].len() as int;
    let k = c.bar_step();
    assert(as_u16(n) <= n);
    assert(as_u16(n) * k <= n * k) by (nonlinear_arith)
        requires
            0 <= as_u16(n) <= n,
            k >= 0,
    ;
    assert(as_u16(n) * k >= 0) by (nonlinear_arith)
        requires
            0 <= as_u16(n),
            k >= 0,
    ;
}

impl BarChart {
    /// The labels and values of the bars of `group_ticks` drawn upward in
    /// `area` (see `text_draws_upto`), with `info` saying which labels show;
    /// `None` exactly where the computation leaves 16-bit numbers (see `texts_fit`).
    /// Called by `render_vertical` only, with fewer label rows than the area
    /// has and the ticks that `group_ticks` gives.
    pub(crate) fn render_labels_and_values<'a>(
        &self,
        area: Rect,
        info: LabelInfo,
        group_ticks: &Vec<Vec<u64>>,
    ) -> (r: Option<Vec<Draw<'a>>>)
        requires
            info.height < area.height,
            self.ticks_shaped(rows_view(group_ticks@)),
        ensures
            r is Some <==> self.texts_fit(info, area, rows_view(group_ticks@)),
            r matches Some(d) ==> draws_view(d@) == self.text_draws_upto(
                info,
                area,
                rows_view(group_ticks@),
                group_ticks@.len() as int,
            ),
    {
        let ghost t = rows_view(group_ticks@);
        let ghost m = group_ticks@.len() as int;
        let ghost left = area.x as int;
        let mut draws: Vec<Draw<'a>> = Vec::new();
        let mut bar_x: u16 = area.left();
        let bar_y: u16 = area.bottom() - info.height - 1;
        let mut g: usize = 0;
        while g < group_ticks.len()
            invariant
                t == rows_view(group_ticks@),
                m == group_ticks@.len(),
                left == area.x as int,
                info.height < area.height,
                bar_y == self.value_row(area, info.height as int),
                self.ticks_shaped(t),
                g <= m,
                bar_x == self.group_start(left, t, g as int),
                draws_view(draws@) == self.text_draws_upto(info, area, t, g as int),
                info.group_label_visible ==> forall|k: int|
                    0 <= k < g ==> #[trigger] self.group_label_width_ok(t, k),
            decreases m - g,
        {
            let ticks_vec = &group_ticks[g];
            let group = &self.data[g];
            proof {
                assert(self.groups()[g as int] == group@);
                assert(t[g as int] == ticks_vec@);
                lemma_group_end(*self, left, t, g as int);
                lemma_group_start_mono(*self, left, t, g as int + 1, m);
            }
            let ghost before_group = draws_view(draws@);
            if info.group_label_visible {
                let step = match self.bar_width.checked_add(self.bar_gap) {
                    Some(s) => s,
                    None => {
                        proof {
                            assert(!self.group_label_width_ok(t, g as int));
                        }
                        return None;
                    },
                };
                let n16: u16 = (ticks_vec.len() % 65536) as u16;
                let prod = match n16.checked_mul(step) {
                    Some(p) => p,
                    None => {
                        proof {
                            assert(!self.group_label_width_ok(t, g as int));
                        }
                        return None;
                    },
                };
                let lmw = match prod.checked_sub(self.bar_gap) {
                    Some(w) => w,
                    None => {
                        proof {
                            assert(!self.group_label_width_ok(t, g as int));
                        }
                        return None;
                    },
                };
                match &group.label {
                    Some(label) => {
                        let line = label.under_style(self.label_style);
                        let lw: u16 = (line.width() % 65536) as u16;
                        let off: u16 = match line.alignment {
                            Some(Alignment::Center) => lmw.saturating_sub(lw) / 2,
                            Some(Alignment::Right) => lmw.saturating_sub(lw),
                            _ => 0,
                        };
                        let x = match bar_x.checked_add(off) {
                            Some(x) => x,
                            None => return None,
                        };
                        let d = Draw::SetLine { x, y: area.bottom() - 1, line, width: lmw };
                        draws.push(d);
                        proof {
                            assert(draws_view(draws@) =~= before_group.push(d@));
                        }
                    },
                    None => {},
                }
            }
            proof {
                assert(draws_view(draws@) == self.text_draws_upto(info, area, t, g as int)
                    + self.group_text_draws(info, area, t, g as int, 0));
                if info.group_label_visible {
                    assert forall|k: int| 0 <= k < g + 1 implies #[trigger] self.group_label_width_ok(t, k) by {
                        if k == g {
                            assert(as_u16(t[k].len() as int) == (ticks_vec@.len() % 65536));
                        }
                    }
                }
            }
            let mut b: usize = 0;
            while b < ticks_vec.len()
                invariant
                    t == rows_view(group_ticks@),
                    m == group_ticks@.len(),
                    left == area.x as int,
                    info.height < area.height,
                    bar_y == self.value_row(area, info.height as int),
                    self.ticks_shaped(t),
                    g < m,
                    ticks_vec == group_ticks@[g as int],
                    t[g as int] == ticks_vec@,
                    group == self.data@[g as int],
                    self.groups()[g as int] == group@,
                    b <= ticks_vec@.len(),
                    bar_x == self.bar_start(left, t, g as int, b as int),
                    draws_view(draws@) == self.text_draws_upto(info, area, t, g as int)
                        + self.group_text_draws(info, area, t, g as int, b as int),
                    info.group_label_visible ==> forall|k: int|
                        0 <= k < g + 1 ==> #[trigger] self.group_label_width_ok(t, k),
                decreases ticks_vec@.len() - b,
            {
                proof {
                    assert(b < self.groups()[g as int].bars.len());
                    assert(group.bars@[b as int]@ == self.groups()[g as int].bars[b as int]);
                    lemma_bar_within_group(*self, left, t, g as int, b as int);
                }
                let bar = &group.bars[b];
                let ghost start = draws_view(draws@);
                if info.bar_label_visible {
                    match &bar.label {
                        Some(label) => {
                            let line = label.under_style(self.label_style);
                            let lw: u16 = (line.width() % 65536) as u16;
                            let off = self.bar_width.saturating_sub(lw) / 2;
                            let x = match bar_x.checked_add(off) {
                                Some(x) => x,
                                None => {
                                    proof {
                                        lemma_offset_within_step(*self, left, t, g as int, b as int, off as int, m);
                                    }
                                    return None;
                                },
                            };
                            let d = Draw::SetLine { x, y: bar_y + 1, line, width: self.bar_width };
                            draws.push(d);
                            proof {
                                assert(draws_view(draws@) =~= start.push(d@));
                            }
                        },
                        None => {},
                    }
                }
                let ghost mid = draws_view(draws@);
                proof {
                    assert(mid == start + (if info.bar_label_visible {
                        self.bar_label_draws(bar_x as int, bar_y + 1, bar@)
                    } else {
                        Seq::empty()
                    }));
                }
                proof {
                    assert(value_text(bar@) == match bar.text_value {
                        Some(s) => s@,
                        None => decimal(bar.value as nat),
                    });
                }
                if bar.value != 0 {
                    let text: String = match &bar.text_value {
                        Some(s) => s.clone(),
                        None => u64_to_string(bar.value),
                    };
                    assert(text@ == value_text(bar@));
                    let w: u16 = (text_width(text.as_str()) % 65536) as u16;
                    if w < self.bar_width || (w == self.bar_width && ticks_vec[b] >= 8) {
                        let bl: u16 = (text.as_str().len() % 65536) as u16;
                        let off = self.bar_width.saturating_sub(bl) / 2;
                        let x = match bar_x.checked_add(off) {
                            Some(x) => x,
                            None => {
                                proof {
                                    lemma_offset_within_step(*self, left, t, g as int, b as int, off as int, m);
                                }
                                return None;
                            },
                        };
                        let d = Draw::SetString {
                            x,
                            y: bar_y,
                            text,
                            width: usize::MAX,
                            style: self.value_style.patch(bar.value_style),
                        };
                        draws.push(d);
                        proof {
                            assert(draws_view(draws@) =~= mid.push(d@));
                        }
                    }
                }
                proof {
                    assert(draws_view(draws@) == start + self.bar_text_draws(
                        info,
                        bar_x as int,
                        bar_y as int,
                        bar@,
                        ticks_vec@[b as int],
                    ));
                }
                let step = match self.bar_gap.checked_add(self.bar_width) {
                    Some(s) => s,
                    None => {
                        proof {
                            lemma_group_start_mono(*self, left, t, 0, g as int);
                            lemma_group_start_mono(*self, left, t, g as int + 1, m);
                        }
                        return None;
                    },
                };
                bar_x = match bar_x.checked_add(step) {
                    Some(x) => x,
                    None => {
                        proof {
                            lemma_group_start_mono(*self, left, t, g as int + 1, m);
                        }
                        return None;
                    },
                };
                proof {
                    lemma_next_bar_start(self.group_start(left, t, g as int), b as int, self.bar_step());
                }
                b = b + 1;
            }
            bar_x = match bar_x.checked_add(self.group_gap) {
                Some(x) => x,
                None => return None,
            };
            g = g + 1;
        }
        proof {
            assert(t.len() == m);
        }
        Some(draws)
    }
}

impl BarChart {
    /// The labels a vertical chart in `area` shows: those that fit in all rows but one.
    pub open spec fn vertical_label_info(self, area: Rect) -> LabelInfo {
        self.label_info_spec((area.height - 1) as u16)
    }

    /// The part of `area` the vertical bars take: all of it but the label rows.
    pub open spec fn vertical_bars_area(self, area: Rect) -> Rect {
        Rect { height: (area.height - self.vertical_label_info(area).height) as u16, ..area }
    }

    /// The bars a vertical chart in `area` shows, as ticks.
    pub open spec fn vertical_ticks(self, area: Rect) -> Seq<Seq<u64>> {
        let bars = self.vertical_bars_area(area);
        self.ticks_from(bars.width as int, 0, bars.height as int)
    }

    /// Whether drawing the chart upward in `area` stays within the chart's
    /// 16-bit and 64-bit numbers.
    pub open spec fn vertical_fits(self, area: Rect) -> bool {
        let bars = self.vertical_bars_area(area);
        let t = self.vertical_ticks(area);
        &&& self.ticks_fit_from(bars.width as int, 0, bars.height as int)
        &&& self.columns_fit(bars, t)
        &&& self.texts_fit(self.vertical_label_info(area), area, t)
    }

    /// The steps that draw the chart upward in `area`: the bars, then their
    /// labels and values.
    pub open spec fn vertical_draws(self, area: Rect) -> Seq<DrawView> {
        let bars = self.vertical_bars_area(area);
        let t = self.vertical_ticks(area);
        self.column_draws_upto(bars, t, t.len() as int) + self.text_draws_upto(
            self.vertical_label_info(area),
            area,
            t,
            t.len() as int,
        )
    }

    /// Draws the chart with bars growing upward in `area`: the label rows
    /// that fit go under the bars, the bars take the rest (see `vertical_draws`);
    /// `None` exactly where the computation leaves its integers (see `vertical_fits`).
    /// Called by `render` only, on an area that is not empty.
    pub(crate) fn render_vertical<'a>(&self, area: Rect) -> (r: Option<Vec<Draw<'a>>>)
        requires
            area.height >= 1,
        ensures
            r is Some <==> self.vertical_fits(area),
            r matches Some(d) ==> draws_view(d@) == self.vertical_draws(area),
    {
        let label_info = self.label_info(area.height - 1);
        let bars_area = Rect { height: area.height - label_info.height, ..area };
        let ghost t = self.vertical_ticks(area);
        let group_ticks = match self.group_ticks(bars_area.width, bars_area.height) {
            Some(t) => t,
            None => return None,
        };
        proof {
            lemma_ticks_from_shape(*self, bars_area.width as int, 0, bars_area.height as int);
            assert(self.ticks_shaped(t));
        }
        let mut draws = match self.render_vertical_bars(bars_area, &group_ticks) {
            Some(d) => d,
            None => return None,
        };
        let mut texts = match self.render_labels_and_values(area, label_info, &group_ticks) {
            Some(d) => d,
            None => return None,
        };
        let ghost first = draws@;
        let ghost second = texts@;
        draws.append(&mut texts);
        proof {
            assert(draws_view(draws@) =~= draws_view(first) + draws_view(second));
        }
        Some(draws)
    }
}

} // verus!
