//! What holds of every chart: the cells it styles and fills, and the texts
//! it writes, lie inside the area it is drawn in; a bar shows exactly when it
//! fits whole at its place, and more room never hides or changes a bar; bars
//! grow with their values; and the value that fills a bar is at least every
//! bar's value when no maximum is set.

use vstd::prelude::*;

use super::bar::BarView;
use super::bar_group::{BarGroupView, lemma_max_value_upto, max_value_upto};
use super::vertical::{
    bars_before, lemma_bar_within_group, lemma_bars_before_mono, lemma_group_end,
    lemma_group_start_mono, lemma_offset_within_step,
};
use super::horizontal::{aligned_offset, bars_label_width, groups_label_width, min_int};
use super::{
    BarChart, DrawView, LabelInfo, as_u16, bar_ticks, byte_len, centred, data_max_upto, decimal,
    digit_char,
    lemma_ticks_from_shape, ticks_row, value_text,
};
use crate::layout::{Direction, Rect, sat_sub};
use crate::style::Style;
use crate::text::Alignment;
use crate::text::{LineView, SpanView, spans_under, spans_width, str_width};

verus! {

impl BarChart {
    /// Whether bar `b` of row `i` ends within `s`, counting from the start of the first row.
    pub open spec fn bar_within(self, t: Seq<Seq<u64>>, i: int, b: int, s: int) -> bool {
        self.taken(t, i) + b * self.bar_step() + self.spec_bar_width() <= s
    }

    /// The length taken by the first `i` rows of ticks: a bar step per bar
    /// and a group gap per group.
    pub open spec fn taken(self, t: Seq<Seq<u64>>, i: int) -> int
        decreases i,
    {
        if i <= 0 {
            0
        } else {
            self.taken(t, i - 1) + t[i - 1].len() * self.bar_step() + self.spec_group_gap()
        }
    }
}

/// The length taken after a first row is that row's length plus the rest's.
proof fn lemma_taken_prepend(c: BarChart, r: Seq<u64>, t: Seq<Seq<u64>>, i: int)
    requires
        1 <= i <= t.len() + 1,
    ensures
        c.taken(seq![r] + t, i) == r.len() * c.bar_step() + c.spec_group_gap() + c.taken(t, i - 1),
    decreases i,
{
    let x = seq![r] + t;
    assert(x[0] == r);
    if i > 1 {
        lemma_taken_prepend(c, r, t, i - 1);
        assert(x[i - 1] == t[i - 2]);
        assert(c.taken(x, i) == c.taken(x, i - 1) + x[i - 1].len() * c.bar_step()
            + c.spec_group_gap());
        assert(c.taken(t, i - 1) == c.taken(t, i - 2) + t[i - 2].len() * c.bar_step()
            + c.spec_group_gap());
    } else {
        assert(c.taken(x, 1) == c.taken(x, 0) + x[0].len() * c.bar_step() + c.spec_group_gap());
    }
}

/// Every bar that `ticks_from` shows ends within the space it was given:
/// the length taken by the groups before it, plus its own bar steps, plus
/// its width.
pub(super) proof fn lemma_ticks_within_space(c: BarChart, s: int, g: int, len: int)
    requires
        0 <= g,
        c.ticks_fit_from(s, g, len),
    ensures
        forall|i: int, b: int|
            0 <= i < c.ticks_from(s, g, len).len() && 0 <= b < c.ticks_from(s, g, len)[i].len()
                ==> #[trigger] c.bar_within(c.ticks_from(s, g, len), i, b, s),
    decreases c.groups().len() - g,
{
    let t = c.ticks_from(s, g, len);
    if g < c.groups().len() && s > 0 {
        let bars = c.groups()[g].bars;
        let n = as_u16(bars.len() as int);
        let gw = c.group_width(n);
        let w = c.spec_bar_width() as int;
        let gap = c.spec_bar_gap() as int;
        let k = c.bar_step();
        assert(n <= bars.len());
        if s > gw {
            let rest = sat_sub(s, gw + c.spec_group_gap() + c.spec_bar_gap());
            lemma_ticks_within_space(c, rest, g + 1, len);
            let tail = c.ticks_from(rest, g + 1, len);
            let row = t[0];
            assert(t == seq![row] + tail);
            assert(row.len() == n);
            assert forall|i: int, b: int| 0 <= i < t.len() && 0 <= b < t[i].len() implies #[trigger] c.bar_within(
                t,
                i,
                b,
                s,
            ) by {
                if i == 0 {
                    assert(b * k + w <= gw) by (nonlinear_arith)
                        requires
                            0 <= b < n,
                            k == w + gap,
                            gw == n * w + sat_sub(n, 1) * gap,
                            w >= 0,
                            gap >= 0,
                    ;
                } else {
                    lemma_taken_prepend(c, row, tail, i);
                    assert(t[i] == tail[i - 1]);
                    assert(tail.len() > 0);
                    assert(c.bar_within(tail, i - 1, b, rest));
                    assert(rest > 0);
                    assert(n * k + c.spec_group_gap() + rest <= s) by (nonlinear_arith)
                        requires
                            rest == s - (gw + c.spec_group_gap() + gap),
                            k == w + gap,
                            gw == n * w + sat_sub(n, 1) * gap,
                            n >= 0,
                            gap >= 0,
                    ;
                }
            }
        } else {
            let fit = (s + gap) / (w + gap);
            if fit > 0 {
                assert(t == seq![ticks_row(bars, fit, len, c.max_value() as int)]);
                assert forall|i: int, b: int| 0 <= i < t.len() && 0 <= b < t[i].len() implies #[trigger] c.bar_within(
                    t,
                    i,
                    b,
                    s,
                ) by {
                    assert(i == 0);
                    assert(b < fit);
                    assert(b * k + w <= s) by (nonlinear_arith)
                        requires
                            0 <= b < fit,
                            fit == (s + gap) / (w + gap),
                            w + gap > 0,
                            k == w + gap,
                            w >= 0,
                            gap >= 0,
                    ;
                }
            }
        }
    }
}

/// Groups drawn upward start where the length taken by the groups before
/// them ends.
proof fn lemma_group_start_taken(c: BarChart, left: int, t: Seq<Seq<u64>>, i: int)
    requires
        0 <= i,
    ensures
        c.group_start(left, t, i) == left + c.taken(t, i),
    decreases i,
{
    if i > 0 {
        lemma_group_start_taken(c, left, t, i - 1);
    }
}

/// Groups drawn rightward start no later than where the length taken by the
/// groups before them ends (a group gap is skipped when a label does not fit),
/// and no earlier than the top.
proof fn lemma_hgroup_start_taken(c: BarChart, top: int, bottom: int, t: Seq<Seq<u64>>, i: int)
    requires
        0 <= i,
    ensures
        top <= c.hgroup_start(top, bottom, t, i) <= top + c.taken(t, i),
    decreases i,
{
    if i > 0 {
        lemma_hgroup_start_taken(c, top, bottom, t, i - 1);
        assert(t[i - 1].len() * c.bar_step() >= 0) by (nonlinear_arith)
            requires
                c.bar_step() >= 0,
        ;
    }
}

/// Whether a drawing step that styles or fills cells (the style, the block,
/// a bar) touches only cells of `area`.
pub open spec fn cell_inside(d: DrawView, area: Rect) -> bool {
    match d {
        DrawView::SetStyle { area: a, .. } => area.contains_rect(a),
        DrawView::RenderBlock { area: a, .. } => area.contains_rect(a),
        DrawView::SetCells { area: a, .. } => area.contains_rect(a),
        _ => true,
    }
}

/// Whether every step of `d` that styles or fills cells touches only cells of `area`.
pub open spec fn cells_inside(d: Seq<DrawView>, area: Rect) -> bool {
    forall|i: int| 0 <= i < d.len() ==> #[trigger] cell_inside(d[i], area)
}

/// Steps that stay inside an area, put one after the other, stay inside it.
pub(super) proof fn lemma_cells_inside_concat(a: Seq<DrawView>, b: Seq<DrawView>, area: Rect)
    requires
        cells_inside(a, area),
        cells_inside(b, area),
    ensures
        cells_inside(a + b, area),
{
    assert forall|i: int| 0 <= i < (a + b).len() implies #[trigger] cell_inside((a + b)[i], area) by {
        if i < a.len() {
            assert((a + b)[i] == a[i]);
        } else {
            assert((a + b)[i] == b[i - a.len()]);
        }
    }
}

/// Labels and values fill no cell.
proof fn lemma_text_draws_no_cells(c: BarChart, info: LabelInfo, area: Rect, t: Seq<Seq<u64>>, m: int, outer: Rect)
    ensures
        cells_inside(c.text_draws_upto(info, area, t, m), outer),
    decreases m,
{
    if m > 0 {
        lemma_text_draws_no_cells(c, info, area, t, m - 1, outer);
        lemma_group_text_no_cells(c, info, area, t, m - 1, t[m - 1].len() as int, outer);
        lemma_cells_inside_concat(
            c.text_draws_upto(info, area, t, m - 1),
            c.group_text_draws(info, area, t, m - 1, t[m - 1].len() as int),
            outer,
        );
    }
}

proof fn lemma_group_text_no_cells(c: BarChart, info: LabelInfo, area: Rect, t: Seq<Seq<u64>>, g: int, n: int, outer: Rect)
    ensures
        cells_inside(c.group_text_draws(info, area, t, g, n), outer),
    decreases n,
{
    if n > 0 {
        lemma_group_text_no_cells(c, info, area, t, g, n - 1, outer);
        let d = c.bar_text_draws(
            info,
            c.bar_start(area.x as int, t, g, n - 1),
            c.value_row(area, info.height as int),
            c.groups()[g].bars[n - 1],
            t[g][n - 1],
        );
        assert(cells_inside(d, outer));
        lemma_cells_inside_concat(c.group_text_draws(info, area, t, g, n - 1), d, outer);
    }
}

/// The cells of one column lie inside `outer` when the column does.
proof fn lemma_column_inside(c: BarChart, x: int, top: int, h: int, ticks: u64, style: Style, outer: Rect)
    requires
        outer.x <= x,
        x + c.spec_bar_width() <= outer.x + outer.width,
        x <= u16::MAX,
        h >= 1,
        outer.y <= top,
        top + h <= outer.y + outer.height,
        top + h - 1 <= u16::MAX,
    ensures
        cells_inside(c.column_draws(x, top, h, ticks, style), outer),
{
}

impl BarChart {
    /// Whether bar `b` of group `g`, drawn upward from column `left`, has
    /// its columns inside `outer` and within 16-bit coordinates.
    pub open spec fn column_placed(self, left: int, t: Seq<Seq<u64>>, g: int, b: int, outer: Rect) -> bool {
        let x = self.bar_start(left, t, g, b);
        &&& outer.x <= x
        &&& x + self.spec_bar_width() <= outer.x + outer.width
        &&& x <= u16::MAX
    }
}

proof fn lemma_group_columns_inside(c: BarChart, bars: Rect, t: Seq<Seq<u64>>, g: int, n: int, outer: Rect)
    requires
        forall|b: int| 0 <= b < n ==> #[trigger] c.column_placed(bars.x as int, t, g, b, outer),
        bars.height >= 1,
        outer.y <= bars.y,
        bars.y + bars.height <= outer.y + outer.height,
        n > 0 ==> bars.y + bars.height - 1 <= u16::MAX,
    ensures
        cells_inside(c.group_column_draws(bars, t, g, n), outer),
    decreases n,
{
    if n > 0 {
        lemma_group_columns_inside(c, bars, t, g, n - 1, outer);
        assert(c.column_placed(bars.x as int, t, g, n - 1, outer));
        lemma_column_inside(
            c,
            c.bar_start(bars.x as int, t, g, n - 1),
            bars.y as int,
            bars.height as int,
            t[g][n - 1],
            c.bar_style_of(g, n - 1),
            outer,
        );
        lemma_cells_inside_concat(
            c.group_column_draws(bars, t, g, n - 1),
            c.column_draws(
                c.bar_start(bars.x as int, t, g, n - 1),
                bars.y as int,
                bars.height as int,
                t[g][n - 1],
                c.bar_style_of(g, n - 1),
            ),
            outer,
        );
    }
}

proof fn lemma_columns_upto_inside(c: BarChart, bars: Rect, t: Seq<Seq<u64>>, m: int, outer: Rect)
    requires
        m <= t.len(),
        forall|g: int, b: int|
            0 <= g < m && 0 <= b < t[g].len() ==> #[trigger] c.column_placed(bars.x as int, t, g, b, outer),
        bars.height >= 1,
        outer.y <= bars.y,
        bars.y + bars.height <= outer.y + outer.height,
        bars_before(t, m) > 0 ==> bars.y + bars.height - 1 <= u16::MAX,
    ensures
        cells_inside(c.column_draws_upto(bars, t, m), outer),
    decreases m,
{
    if m > 0 {
        lemma_bars_before_mono(t, m - 1, m);
        lemma_bars_before_mono(t, 0, m - 1);
        lemma_columns_upto_inside(c, bars, t, m - 1, outer);
        assert forall|b: int| 0 <= b < t[m - 1].len() implies #[trigger] c.column_placed(
            bars.x as int,
            t,
            m - 1,
            b,
            outer,
        ) by {
            assert(c.column_placed(bars.x as int, t, m - 1, b, outer));
        }
        lemma_group_columns_inside(c, bars, t, m - 1, t[m - 1].len() as int, outer);
        lemma_cells_inside_concat(
            c.column_draws_upto(bars, t, m - 1),
            c.group_column_draws(bars, t, m - 1, t[m - 1].len() as int),
            outer,
        );
    }
}

/// Every cell of a vertical chart's bars lies inside the area it is drawn in.
pub proof fn lemma_vertical_cells_inside(c: BarChart, area: Rect)
    requires
        area.height >= 1,
        c.vertical_fits(area),
    ensures
        cells_inside(c.vertical_draws(area), area),
{
    let bars = c.vertical_bars_area(area);
    let t = c.vertical_ticks(area);
    let m = t.len() as int;
    let left = bars.x as int;
    lemma_ticks_within_space(c, bars.width as int, 0, bars.height as int);
    assert forall|g: int, b: int| 0 <= g < m && 0 <= b < t[g].len() implies #[trigger] c.column_placed(
        left,
        t,
        g,
        b,
        area,
    ) by {
        assert(c.bar_within(t, g, b, bars.width as int));
        lemma_group_start_taken(c, left, t, g);
        lemma_group_start_mono(c, left, t, 0, g);
        lemma_bar_within_group(c, left, t, g, b);
        lemma_group_start_mono(c, left, t, g + 1, m);
        assert(b * c.bar_step() >= 0) by (nonlinear_arith)
            requires
                b >= 0,
                c.bar_step() >= 0,
        ;
    }
    lemma_columns_upto_inside(c, bars, t, m, area);
    lemma_text_draws_no_cells(c, c.vertical_label_info(area), area, t, m, area);
    lemma_cells_inside_concat(
        c.column_draws_upto(bars, t, m),
        c.text_draws_upto(c.vertical_label_info(area), area, t, m),
        area,
    );
}

/// The cells of one horizontal bar row lie inside `outer` when the row does.
proof fn lemma_hrow_inside(c: BarChart, left: int, y: int, width: int, filled: int, style: Style, outer: Rect)
    requires
        outer.x <= left,
        left + width <= outer.x + outer.width,
        0 <= width <= u16::MAX,
        0 <= filled,
        left <= u16::MAX,
        width >= 1 ==> left + width - 1 <= u16::MAX,
        outer.y <= y < outer.y + outer.height,
        y <= u16::MAX,
    ensures
        cells_inside(c.hrow_draws(left, y, width, filled, style), outer),
{
}

/// The cells of the first `k` rows of a horizontal bar lie inside `outer`
/// when those rows do.
proof fn lemma_hrows_inside(c: BarChart, left: int, y0: int, width: int, filled: int, style: Style, k: int, outer: Rect)
    requires
        outer.x <= left,
        left + width <= outer.x + outer.width,
        0 <= width <= u16::MAX,
        0 <= filled,
        left <= u16::MAX,
        width >= 1 ==> left + width - 1 <= u16::MAX,
        outer.y <= y0,
        y0 + k <= outer.y + outer.height,
        k >= 1 ==> y0 + k - 1 <= u16::MAX,
    ensures
        cells_inside(c.hrows_draws(left, y0, width, filled, style, k), outer),
    decreases k,
{
    if k > 0 {
        lemma_hrows_inside(c, left, y0, width, filled, style, k - 1, outer);
        lemma_hrow_inside(c, left, y0 + k - 1, width, filled, style, outer);
        lemma_cells_inside_concat(
            c.hrows_draws(left, y0, width, filled, style, k - 1),
            c.hrow_draws(left, y0 + k - 1, width, filled, style),
            outer,
        );
    }
}

impl BarChart {
    /// Whether bar `b` of group `g`, drawn rightward in `bars`, has its rows
    /// inside `outer` and within 16-bit coordinates.
    pub open spec fn hbar_placed(self, bars: Rect, t: Seq<Seq<u64>>, g: int, b: int, outer: Rect) -> bool {
        let y0 = self.hbar_start(bars.y as int, bars.bottom_spec(), t, g, b);
        &&& outer.y <= y0
        &&& y0 + self.spec_bar_width() <= outer.y + outer.height
        &&& y0 + self.spec_bar_width() - 1 <= u16::MAX
        &&& bars.width >= 1 ==> bars.x + bars.width - 1 <= u16::MAX
    }
}

proof fn lemma_hgroup_inside(c: BarChart, label_x: int, bars: Rect, t: Seq<Seq<u64>>, g: int, n: int, outer: Rect)
    requires
        c.spec_bar_width() >= 1,
        forall|b: int| 0 <= b < n ==> #[trigger] c.hbar_placed(bars, t, g, b, outer),
        outer.x <= bars.x,
        bars.x + bars.width <= outer.x + outer.width,
    ensures
        cells_inside(c.hgroup_bars_draws(label_x, bars, t, g, n), outer),
    decreases n,
{
    if n > 0 {
        lemma_hgroup_inside(c, label_x, bars, t, g, n - 1, outer);
        assert(c.hbar_placed(bars, t, g, n - 1, outer));
        let y0 = c.hbar_start(bars.y as int, bars.bottom_spec(), t, g, n - 1);
        let filled = as_u16(t[g][n - 1] as int / 8);
        let style = c.bar_style_of(g, n - 1);
        let bar = c.groups()[g].bars[n - 1];
        let mid = y0 + c.spec_bar_width() / 2;
        lemma_hrows_inside(
            c,
            bars.x as int,
            y0,
            bars.width as int,
            filled,
            style,
            c.spec_bar_width() as int,
            outer,
        );
        let rows = c.hrows_draws(
            bars.x as int,
            y0,
            bars.width as int,
            filled,
            style,
            c.spec_bar_width() as int,
        );
        let label = match bar.label {
            Some(l) => seq![
                DrawView::SetLine {
                    x: label_x as u16,
                    y: mid as u16,
                    line: l,
                    width: c.label_size() as u16,
                },
            ],
            None => Seq::<DrawView>::empty(),
        };
        let value = c.hvalue_draws(bars.x as int, mid, bars.width as int, filled, bar);
        assert(cells_inside(label, outer));
        assert(cells_inside(value, outer));
        lemma_cells_inside_concat(rows, label, outer);
        lemma_cells_inside_concat(rows + label, value, outer);
        assert(c.hbar_draws(label_x, bars, t, g, n - 1) == rows + label + value);
        lemma_cells_inside_concat(
            c.hgroup_bars_draws(label_x, bars, t, g, n - 1),
            c.hbar_draws(label_x, bars, t, g, n - 1),
            outer,
        );
    }
}

proof fn lemma_hdraws_inside(c: BarChart, label_x: int, bars: Rect, t: Seq<Seq<u64>>, m: int, outer: Rect)
    requires
        c.spec_bar_width() >= 1,
        m <= t.len(),
        forall|g: int, b: int|
            0 <= g < m && 0 <= b < t[g].len() ==> #[trigger] c.hbar_placed(bars, t, g, b, outer),
        outer.x <= bars.x,
        bars.x + bars.width <= outer.x + outer.width,
    ensures
        cells_inside(c.hdraws_upto(label_x, bars, t, m), outer),
    decreases m,
{
    if m > 0 {
        lemma_hdraws_inside(c, label_x, bars, t, m - 1, outer);
        assert forall|b: int| 0 <= b < t[m - 1].len() implies #[trigger] c.hbar_placed(
            bars,
            t,
            m - 1,
            b,
            outer,
        ) by {
            assert(c.hbar_placed(bars, t, m - 1, b, outer));
        }
        lemma_hgroup_inside(c, label_x, bars, t, m - 1, t[m - 1].len() as int, outer);
        let label = c.hgroup_label_draws(bars, t, m - 1);
        assert(cells_inside(label, outer));
        lemma_cells_inside_concat(
            c.hdraws_upto(label_x, bars, t, m - 1),
            c.hgroup_bars_draws(label_x, bars, t, m - 1, t[m - 1].len() as int),
            outer,
        );
        lemma_cells_inside_concat(
            c.hdraws_upto(label_x, bars, t, m - 1) + c.hgroup_bars_draws(
                label_x,
                bars,
                t,
                m - 1,
                t[m - 1].len() as int,
            ),
            label,
            outer,
        );
    }
}

/// Every cell of a horizontal chart's bars lies inside the area it is drawn in.
pub proof fn lemma_horizontal_cells_inside(c: BarChart, area: Rect)
    requires
        c.spec_bar_width() >= 1,
        c.horizontal_fits(area),
    ensures
        cells_inside(c.horizontal_draws(area), area),
{
    let bars = c.horizontal_bars_area(area);
    let t = c.ticks_from(bars.height as int, 0, bars.width as int);
    let m = t.len() as int;
    let top = bars.y as int;
    let bottom = bars.bottom_spec();
    lemma_ticks_within_space(c, bars.height as int, 0, bars.width as int);
    assert forall|g: int, b: int| 0 <= g < m && 0 <= b < t[g].len() implies #[trigger] c.hbar_placed(
        bars,
        t,
        g,
        b,
        area,
    ) by {
        assert(c.bar_within(t, g, b, bars.height as int));
        assert(c.hbar_fits(bars, t, g, b));
        lemma_hgroup_start_taken(c, top, bottom, t, g);
        assert(b * c.bar_step() >= 0) by (nonlinear_arith)
            requires
                b >= 0,
                c.bar_step() >= 0,
        ;
    }
    lemma_hdraws_inside(c, area.x as int, bars, t, m, area);
}

/// Every cell the chart's bars fill lies inside the area they are drawn in.
pub proof fn lemma_body_cells_inside(c: BarChart, area: Rect)
    requires
        c.body_fits(area),
    ensures
        cells_inside(c.body_draws(area), area),
{
    if !(area.is_empty_spec() || c.groups().len() == 0 || c.spec_bar_width() == 0) {
        match c.spec_direction() {
            Direction::Horizontal => lemma_horizontal_cells_inside(c, area),
            Direction::Vertical => lemma_vertical_cells_inside(c, area),
        }
    }
}

/// Steps inside an area are inside any area that holds it.
pub(super) proof fn lemma_cells_inside_widen(d: Seq<DrawView>, inner: Rect, outer: Rect)
    requires
        cells_inside(d, inner),
        outer.contains_rect(inner),
    ensures
        cells_inside(d, outer),
{
    assert forall|i: int| 0 <= i < d.len() implies #[trigger] cell_inside(d[i], outer) by {
        assert(cell_inside(d[i], inner));
    }
}

/// The first `k1` bars' lengths are the first ones of the first `k2` bars'
/// lengths, when `k1 <= k2`.
proof fn lemma_ticks_row_prefix(bars: Seq<BarView>, k1: int, k2: int, len: int, max: int)
    requires
        0 <= k1 <= k2,
    ensures
        ticks_row(bars, k1, len, max).len() <= ticks_row(bars, k2, len, max).len(),
        ticks_row(bars, k1, len, max) == ticks_row(bars, k2, len, max).take(
            ticks_row(bars, k1, len, max).len() as int,
        ),
{
    let a = ticks_row(bars, k1, len, max);
    let b = ticks_row(bars, k2, len, max);
    assert(a =~= b.take(a.len() as int));
}

/// More room never hides a bar nor changes one: with at least as many cells,
/// at least as many groups show, each with at least the bars it showed
/// before, and every bar shown before keeps its length.
pub proof fn lemma_ticks_from_more_room(c: BarChart, s1: int, s2: int, g: int, len: int)
    requires
        s1 <= s2,
        c.spec_bar_width() >= 1,
    ensures
        c.ticks_from(s1, g, len).len() <= c.ticks_from(s2, g, len).len(),
        forall|i: int|
            0 <= i < c.ticks_from(s1, g, len).len() ==> {
                &&& #[trigger] c.ticks_from(s1, g, len)[i].len() <= c.ticks_from(
                    s2,
                    g,
                    len,
                )[i].len()
                &&& c.ticks_from(s1, g, len)[i] == c.ticks_from(s2, g, len)[i].take(
                    c.ticks_from(s1, g, len)[i].len() as int,
                )
            },
    decreases c.groups().len() - g,
{
    if g < 0 || g >= c.groups().len() || s1 <= 0 {
        return;
    }
    let bars = c.groups()[g].bars;
    let n = as_u16(bars.len() as int);
    let gw = c.group_width(n);
    let max = c.max_value() as int;
    let w = c.spec_bar_width() as int;
    let gap = c.spec_bar_gap() as int;
    let t1 = c.ticks_from(s1, g, len);
    let t2 = c.ticks_from(s2, g, len);
    if s1 > gw {
        let step = gw + c.spec_group_gap() + gap;
        lemma_ticks_from_more_room(c, sat_sub(s1, step), sat_sub(s2, step), g + 1, len);
        let r1 = c.ticks_from(sat_sub(s1, step), g + 1, len);
        let r2 = c.ticks_from(sat_sub(s2, step), g + 1, len);
        assert(t1 == seq![ticks_row(bars, n, len, max)] + r1);
        assert(t2 == seq![ticks_row(bars, n, len, max)] + r2);
        assert forall|i: int| 0 <= i < t1.len() implies {
            &&& #[trigger] t1[i].len() <= t2[i].len()
            &&& t1[i] == t2[i].take(t1[i].len() as int)
        } by {
            if i == 0 {
                assert(t1[0] == t2[0]);
                assert(t2[0] =~= t2[0].take(t2[0].len() as int));
            } else {
                assert(t1[i] == r1[i - 1]);
                assert(t2[i] == r2[i - 1]);
            }
        }
    } else {
        let d = w + gap;
        let fit1 = (s1 + gap) / d;
        assert(n >= 1) by {
            if n == 0 {
                assert(n * w == 0 && sat_sub(n, 1) * gap == 0) by (nonlinear_arith)
                    requires
                        n == 0,
                        sat_sub(n, 1) == 0,
                ;
                assert(gw == 0);
            }
        }
        assert(gw + gap == d * n) by (nonlinear_arith)
            requires
                gw == n * w + (n - 1) * gap,
                d == w + gap,
                n >= 1,
        ;
        assert(fit1 <= n) by {
            vstd::arithmetic::div_mod::lemma_div_is_ordered(s1 + gap, d * n, d);
            vstd::arithmetic::div_mod::lemma_div_multiples_vanish(n, d);
        }
        assert(fit1 >= 0) by {
            vstd::arithmetic::div_mod::lemma_div_is_ordered(0, s1 + gap, d);
        }
        if fit1 > 0 {
            assert(t1 == seq![ticks_row(bars, fit1, len, max)]);
            if s2 > gw {
                lemma_ticks_row_prefix(bars, fit1, n, len, max);
                assert(t2[0] == ticks_row(bars, n, len, max));
            } else {
                let fit2 = (s2 + gap) / d;
                vstd::arithmetic::div_mod::lemma_div_is_ordered(s1 + gap, s2 + gap, d);
                lemma_ticks_row_prefix(bars, fit1, fit2, len, max);
                assert(t2 == seq![ticks_row(bars, fit2, len, max)]);
            }
            assert forall|i: int| 0 <= i < t1.len() implies {
                &&& #[trigger] t1[i].len() <= t2[i].len()
                &&& t1[i] == t2[i].take(t1[i].len() as int)
            } by {
                assert(i == 0);
            }
        }
    }
}

/// Bars grow with their values: of two values drawn against the same
/// maximum and length, the larger is at least as long.
pub proof fn lemma_ticks_monotone(v1: u64, v2: u64, len: int, max: int)
    requires
        v1 <= v2,
        len >= 0,
        max >= 1,
        v2 * len * 8 <= u64::MAX,
    ensures
        bar_ticks(v1, len, max) <= bar_ticks(v2, len, max),
{
    assert(v1 * len * 8 <= v2 * len * 8) by (nonlinear_arith)
        requires
            v1 <= v2,
            len >= 0,
    ;
    assert(v1 * len * 8 / max <= v2 * len * 8 / max) by (nonlinear_arith)
        requires
            v1 * len * 8 <= v2 * len * 8,
            max >= 1,
            v1 * len * 8 >= 0,
    ;
    assert(v1 * len * 8 >= 0) by (nonlinear_arith)
        requires
            len >= 0,
    ;
    assert(v2 * len * 8 / max <= v2 * len * 8) by (nonlinear_arith)
        requires
            max >= 1,
            v2 * len * 8 >= 0,
    ;
}

/// A bar whose value reaches the chart's maximum fills its whole length
/// (8 ticks per cell), and one of value 0 is empty.
pub proof fn lemma_ticks_full_and_empty(v: u64, len: int, max: int)
    requires
        len >= 0,
        max >= 1,
        v * len * 8 <= u64::MAX,
    ensures
        v >= max ==> bar_ticks(v, len, max) >= len * 8,
        v <= max ==> bar_ticks(v, len, max) <= len * 8,
        bar_ticks(0, len, max) == 0,
{
    assert(v >= max ==> v * len * 8 / max >= len * 8) by (nonlinear_arith)
        requires
            len >= 0,
            max >= 1,
    ;
    assert(v <= max ==> v * len * 8 / max <= len * 8) by (nonlinear_arith)
        requires
            len >= 0,
            max >= 1,
            v >= 0,
    ;
    assert(v * len * 8 >= 0) by (nonlinear_arith)
        requires
            len >= 0,
    ;
    assert(v * len * 8 / max <= v * len * 8) by (nonlinear_arith)
        requires
            max >= 1,
            v * len * 8 >= 0,
    ;
    assert(0 * len * 8 / max == 0) by (nonlinear_arith)
        requires
            max >= 1,
    ;
}

/// Without a maximum set, the largest value in the data is the reference:
/// no bar value exceeds the value that fills a bar.
pub proof fn lemma_max_value_bounds_bars(c: BarChart, g: int, b: int)
    requires
        c.spec_max() is None,
        0 <= g < c.groups().len(),
        0 <= b < c.groups()[g].bars.len(),
    ensures
        c.groups()[g].bars[b].value <= c.max_value(),
{
    lemma_max_value_upto(c.groups()[g].bars, c.groups()[g].bars.len() as int);
    lemma_data_max_upto(c.groups(), c.groups().len() as int, g);
}

/// The largest group maximum of the first `n` groups is at least each of them.
proof fn lemma_data_max_upto(groups: Seq<BarGroupView>, n: int, g: int)
    requires
        0 <= g < n <= groups.len(),
    ensures
        max_value_upto(groups[g].bars, groups[g].bars.len() as int) <= data_max_upto(groups, n),
    decreases n,
{
    if g < n - 1 {
        lemma_data_max_upto(groups, n - 1, g);
    }
}

/// The columns a text step writes: no more than its width allows and no more
/// than its text takes (0 for a step that writes no text).
pub open spec fn text_span(d: DrawView) -> int {
    match d {
        DrawView::SetString { text, width, .. } => min_int(width as int, str_width(text) as int),
        DrawView::SetLine { line, width, .. } => min_int(width as int, line.width()),
        _ => 0,
    }
}

/// Whether a text step writes only cells of `area`: it writes nothing, or it
/// starts on a cell of `area` and its columns end within it.
pub open spec fn text_inside(d: DrawView, area: Rect) -> bool {
    match d {
        DrawView::SetString { x, y, .. } => text_span(d) == 0 || (area.contains_cell(x as int, y as int)
            && x + text_span(d) <= area.x + area.width),
        DrawView::SetLine { x, y, .. } => text_span(d) == 0 || (area.contains_cell(x as int, y as int)
            && x + text_span(d) <= area.x + area.width),
        _ => true,
    }
}

/// Whether every text step of `d` writes only cells of `area`.
pub open spec fn texts_inside(d: Seq<DrawView>, area: Rect) -> bool {
    forall|i: int| 0 <= i < d.len() ==> #[trigger] text_inside(d[i], area)
}

/// Text steps inside an area, put one after the other, stay inside it.
proof fn lemma_texts_inside_concat(a: Seq<DrawView>, b: Seq<DrawView>, area: Rect)
    requires
        texts_inside(a, area),
        texts_inside(b, area),
    ensures
        texts_inside(a + b, area),
{
    assert forall|i: int| 0 <= i < (a + b).len() implies #[trigger] text_inside((a + b)[i], area) by {
        if i < a.len() {
            assert((a + b)[i] == a[i]);
        } else {
            assert((a + b)[i] == b[i - a.len()]);
        }
    }
}

/// Text steps inside an area are inside any area that holds it.
proof fn lemma_texts_inside_widen(d: Seq<DrawView>, inner: Rect, outer: Rect)
    requires
        texts_inside(d, inner),
        outer.contains_rect(inner),
    ensures
        texts_inside(d, outer),
{
    assert forall|i: int| 0 <= i < d.len() implies #[trigger] text_inside(d[i], outer) by {
        assert(text_inside(d[i], inner));
    }
}

/// Laying styles over a line's spans keeps its width.
proof fn lemma_under_width(l: LineView, base: Style)
    ensures
        l.under(base).width() == l.width(),
        l.width() >= 0,
{
    lemma_spans_under_width(l.spans, base, l.spans.len() as int);
}

proof fn lemma_spans_under_width(spans: Seq<SpanView>, base: Style, n: int)
    requires
        n <= spans.len(),
    ensures
        spans_width(spans_under(spans, base), n) == spans_width(spans, n),
        spans_width(spans, n) >= 0,
    decreases n,
{
    if n > 0 {
        lemma_spans_under_width(spans, base, n - 1);
        assert(spans_under(spans, base)[n - 1].content == spans[n - 1].content);
    }
}

impl BarChart {
    /// Whether a bar's texts are measured within the chart's numbers: its
    /// label narrower than 65536 columns, and its value text no wider than
    /// its UTF-8 length (true of every text, since no character takes more
    /// columns than bytes) and shorter than 65536 bytes.
    pub open spec fn bar_measured(self, bar: BarView) -> bool {
        &&& bar.label matches Some(l) ==> l.width() < 65536
        &&& str_width(value_text(bar)) <= byte_len(value_text(bar)) < 65536
    }

    /// Whether no bar's value exceeds the value that fills a bar (always so
    /// when no maximum is set, see `lemma_max_value_bounds_bars`).
    pub open spec fn values_within_max(self) -> bool {
        forall|g: int, b: int|
            0 <= g < self.groups().len() && 0 <= b < self.groups()[g].bars.len()
                ==> #[trigger] self.groups()[g].bars[b].value <= self.max_value()
    }

    /// Whether the chart's texts stay inside the area it is drawn in: its
    /// texts are measured (see `texts_measured`) and, for bars growing
    /// rightward, whose value text is written over the bar from its start, no
    /// value exceeds the value that fills a bar.
    pub open spec fn texts_contained(self) -> bool {
        &&& self.texts_measured()
        &&& self.spec_direction() == Direction::Horizontal ==> self.values_within_max()
    }

    /// Whether every bar is measured (see `bar_measured`), every group label
    /// is narrower than 65536 columns and every group has fewer than 65536 bars.
    pub open spec fn texts_measured(self) -> bool {
        &&& forall|g: int|
            0 <= g < self.groups().len() ==> (#[trigger] self.groups()[g].label matches Some(l)
                ==> l.width() < 65536)
        &&& forall|g: int| 0 <= g < self.groups().len() ==> #[trigger] self.groups()[g].bars.len() < 65536
        &&& forall|g: int, b: int|
            0 <= g < self.groups().len() && 0 <= b < self.groups()[g].bars.len()
                ==> self.bar_measured(#[trigger] self.groups()[g].bars[b])
    }
}

/// The label and value of one bar, centred under the bar at column `x`, stay
/// inside `area` when the bar does and the rows do.
proof fn lemma_bar_text_inside(c: BarChart, info: LabelInfo, x: int, y: int, bar: BarView, ticks: u64, area: Rect)
    requires
        area.x <= x,
        x + c.spec_bar_width() <= area.x + area.width,
        x + c.spec_bar_width() <= u16::MAX,
        area.y <= y,
        y + (if info.bar_label_visible { 1int } else { 0 }) < area.y + area.height,
        y + 1 <= u16::MAX,
        c.bar_measured(bar),
    ensures
        texts_inside(c.bar_text_draws(info, x, y, bar, ticks), area),
{
    let bw = c.spec_bar_width() as int;
    let label = if info.bar_label_visible {
        c.bar_label_draws(x, y + 1, bar)
    } else {
        Seq::empty()
    };
    let value = c.value_draws(x, y, bar, ticks);
    assert(texts_inside(label, area)) by {
        if info.bar_label_visible {
            if let Some(l) = bar.label {
                lemma_under_width(l, c.spec_label_style());
                let line = l.under(c.spec_label_style());
                let lw = line.width();
                assert(as_u16(lw) == lw);
                let cx = centred(x, bw, lw);
                assert(cx + min_int(bw, lw) <= x + bw);
                assert(text_inside(label[0], area));
            }
        }
    }
    assert(texts_inside(value, area)) by {
        let text = value_text(bar);
        let w = str_width(text) as int;
        let bl = byte_len(text);
        if value.len() > 0 {
            assert(as_u16(w) == w);
            assert(as_u16(bl) == bl);
            assert(w <= bw);
            let cx = centred(x, bw, bl);
            assert(cx + w <= x + bw);
            assert(text_span(value[0]) == w);
            assert(text_inside(value[0], area));
        }
    }
    lemma_texts_inside_concat(label, value, area);
}

/// Bars drawn upward write no text.
proof fn lemma_columns_no_text(c: BarChart, bars: Rect, t: Seq<Seq<u64>>, m: int, area: Rect)
    ensures
        texts_inside(c.column_draws_upto(bars, t, m), area),
    decreases m,
{
    if m > 0 {
        lemma_columns_no_text(c, bars, t, m - 1, area);
        lemma_group_columns_no_text(c, bars, t, m - 1, t[m - 1].len() as int, area);
        lemma_texts_inside_concat(
            c.column_draws_upto(bars, t, m - 1),
            c.group_column_draws(bars, t, m - 1, t[m - 1].len() as int),
            area,
        );
    }
}

proof fn lemma_group_columns_no_text(c: BarChart, bars: Rect, t: Seq<Seq<u64>>, g: int, n: int, area: Rect)
    ensures
        texts_inside(c.group_column_draws(bars, t, g, n), area),
    decreases n,
{
    if n > 0 {
        lemma_group_columns_no_text(c, bars, t, g, n - 1, area);
        let col = c.column_draws(
            c.bar_start(bars.x as int, t, g, n - 1),
            bars.y as int,
            bars.height as int,
            t[g][n - 1],
            c.bar_style_of(g, n - 1),
        );
        assert forall|i: int| 0 <= i < col.len() implies #[trigger] text_inside(col[i], area) by {
            assert(col[i] is SetCells);
        }
        lemma_texts_inside_concat(c.group_column_draws(bars, t, g, n - 1), col, area);
    }
}

/// A group's label on the last row of `area`, within the width of its shown
/// bars, stays inside `area` when those bars do.
proof fn lemma_group_label_inside(c: BarChart, info: LabelInfo, area: Rect, t: Seq<Seq<u64>>, g: int)
    requires
        0 <= g < c.groups().len(),
        c.groups()[g].label matches Some(l) ==> l.width() < 65536,
        area.x <= c.group_start(area.x as int, t, g),
        info.group_label_visible ==> c.group_label_width_ok(t, g),
        info.group_label_visible && c.group_label_width(t, g) > 0 ==> {
            &&& c.group_start(area.x as int, t, g) + c.group_label_width(t, g) <= area.x + area.width
            &&& c.group_start(area.x as int, t, g) + c.group_label_width(t, g) <= u16::MAX
        },
        area.height >= 1,
        area.y + area.height <= u16::MAX,
    ensures
        texts_inside(c.group_label_draws(info, area, t, g), area),
{
    let d = c.group_label_draws(info, area, t, g);
    if d.len() > 0 {
        let l = c.groups()[g].label->0;
        lemma_under_width(l, c.spec_label_style());
        let line = l.under(c.spec_label_style());
        let lw = line.width();
        let lmw = c.group_label_width(t, g);
        assert(as_u16(lw) == lw);
        assert(0 <= lmw <= u16::MAX);
        let off = match line.alignment {
            Some(Alignment::Center) => sat_sub(lmw, lw) / 2,
            Some(Alignment::Right) => sat_sub(lmw, lw),
            _ => 0,
        };
        assert(off + min_int(lmw, lw) <= lmw);
        assert(text_span(d[0]) == min_int(lmw, lw));
        assert(text_inside(d[0], area));
    }
}

/// The labels and values of the first `n` bars of group `g`, and the
/// group's label, stay inside `area` when the bars do.
proof fn lemma_group_text_inside(c: BarChart, info: LabelInfo, area: Rect, t: Seq<Seq<u64>>, g: int, n: int)
    requires
        0 <= g < c.groups().len(),
        0 <= n <= t[g].len() <= c.groups()[g].bars.len(),
        forall|b: int| 0 <= b < n ==> {
            &&& area.x <= #[trigger] c.bar_start(area.x as int, t, g, b)
            &&& c.bar_start(area.x as int, t, g, b) + c.spec_bar_width() <= area.x + area.width
            &&& c.bar_start(area.x as int, t, g, b) + c.spec_bar_width() <= u16::MAX
        },
        forall|b: int| 0 <= b < n ==> c.bar_measured(#[trigger] c.groups()[g].bars[b]),
        c.groups()[g].label matches Some(l) ==> l.width() < 65536,
        area.x <= c.group_start(area.x as int, t, g),
        info.group_label_visible ==> c.group_label_width_ok(t, g),
        info.group_label_visible && c.group_label_width(t, g) > 0 ==> {
            &&& c.group_start(area.x as int, t, g) + c.group_label_width(t, g) <= area.x + area.width
            &&& c.group_start(area.x as int, t, g) + c.group_label_width(t, g) <= u16::MAX
        },
        area.y <= c.value_row(area, info.height as int),
        c.value_row(area, info.height as int) + (if info.bar_label_visible { 1int } else { 0 })
            < area.y + area.height,
        area.height >= 1,
        area.y + area.height <= u16::MAX,
    ensures
        texts_inside(c.group_text_draws(info, area, t, g, n), area),
    decreases n,
{
    if n <= 0 {
        lemma_group_label_inside(c, info, area, t, g);
    } else {
        lemma_group_text_inside(c, info, area, t, g, n - 1);
        let x = c.bar_start(area.x as int, t, g, n - 1);
        let y = c.value_row(area, info.height as int);
        lemma_bar_text_inside(c, info, x, y, c.groups()[g].bars[n - 1], t[g][n - 1], area);
        lemma_texts_inside_concat(
            c.group_text_draws(info, area, t, g, n - 1),
            c.bar_text_draws(info, x, y, c.groups()[g].bars[n - 1], t[g][n - 1]),
            area,
        );
    }
}

/// Whether the shown bars of group `g`, drawn upward from the left of `area`,
/// lie inside it, and the texts under them are placed within 16-bit columns.
pub open spec fn group_texts_placed(c: BarChart, area: Rect, t: Seq<Seq<u64>>, g: int) -> bool {
    &&& forall|b: int| 0 <= b < t[g].len() ==> {
        &&& area.x <= #[trigger] c.bar_start(area.x as int, t, g, b)
        &&& c.bar_start(area.x as int, t, g, b) + c.spec_bar_width() <= area.x + area.width
        &&& c.bar_start(area.x as int, t, g, b) + c.spec_bar_width() <= u16::MAX
    }
    &&& area.x <= c.group_start(area.x as int, t, g)
    &&& c.group_label_width(t, g) > 0 ==> {
        &&& c.group_start(area.x as int, t, g) + c.group_label_width(t, g) <= area.x + area.width
        &&& c.group_start(area.x as int, t, g) + c.group_label_width(t, g) <= u16::MAX
    }
}

/// The labels and values of the first `m` groups stay inside `area` when
/// their bars do.
proof fn lemma_text_draws_inside(c: BarChart, info: LabelInfo, area: Rect, t: Seq<Seq<u64>>, m: int)
    requires
        0 <= m <= t.len() <= c.groups().len(),
        c.ticks_shaped(t),
        c.texts_measured(),
        forall|g: int| 0 <= g < m ==> #[trigger] group_texts_placed(c, area, t, g),
        info.group_label_visible ==> forall|g: int|
            0 <= g < t.len() ==> #[trigger] c.group_label_width_ok(t, g),
        area.y <= c.value_row(area, info.height as int),
        c.value_row(area, info.height as int) + (if info.bar_label_visible { 1int } else { 0 })
            < area.y + area.height,
        area.height >= 1,
        area.y + area.height <= u16::MAX,
    ensures
        texts_inside(c.text_draws_upto(info, area, t, m), area),
    decreases m,
{
    if m > 0 {
        let g = m - 1;
        lemma_text_draws_inside(c, info, area, t, g);
        assert(group_texts_placed(c, area, t, g));
        assert(t[g].len() <= c.groups()[g].bars.len());
        assert forall|b: int| 0 <= b < t[g].len() implies c.bar_measured(
            #[trigger] c.groups()[g].bars[b],
        ) by {
            assert(c.bar_measured(c.groups()[g].bars[b]));
        }
        assert(c.groups()[g].label matches Some(l) ==> l.width() < 65536);
        if info.group_label_visible {
            assert(c.group_label_width_ok(t, g));
        }
        lemma_group_text_inside(c, info, area, t, g, t[g].len() as int);
        lemma_texts_inside_concat(
            c.text_draws_upto(info, area, t, g),
            c.group_text_draws(info, area, t, g, t[g].len() as int),
            area,
        );
    }
}

/// Every text a vertical chart writes (bar labels, values and group labels)
/// lies inside the area it is drawn in, for an area within the 16-bit rows
/// and texts measured within the chart's numbers (see `texts_measured`).
pub proof fn lemma_vertical_texts_inside(c: BarChart, area: Rect)
    requires
        area.height >= 1,
        area.y + area.height <= u16::MAX,
        c.vertical_fits(area),
        c.texts_measured(),
    ensures
        texts_inside(c.vertical_draws(area), area),
{
    let bars = c.vertical_bars_area(area);
    let t = c.vertical_ticks(area);
    let m = t.len() as int;
    let left = bars.x as int;
    let info = c.vertical_label_info(area);
    lemma_ticks_within_space(c, bars.width as int, 0, bars.height as int);
    lemma_ticks_from_shape(c, bars.width as int, 0, bars.height as int);
    assert forall|g: int| 0 <= g < m implies #[trigger] group_texts_placed(c, area, t, g) by {
        assert forall|b: int| 0 <= b < t[g].len() implies {
            &&& area.x <= #[trigger] c.bar_start(area.x as int, t, g, b)
            &&& c.bar_start(area.x as int, t, g, b) + c.spec_bar_width() <= area.x + area.width
            &&& c.bar_start(area.x as int, t, g, b) + c.spec_bar_width() <= u16::MAX
        } by {
            assert(c.bar_within(t, g, b, bars.width as int));
            lemma_group_start_taken(c, left, t, g);
            lemma_group_start_mono(c, left, t, 0, g);
            lemma_bar_within_group(c, left, t, g, b);
            lemma_group_start_mono(c, left, t, g + 1, m);
            assert(b * c.bar_step() >= 0) by (nonlinear_arith)
                requires
                    b >= 0,
                    c.bar_step() >= 0,
            ;
            lemma_offset_within_step(c, left, t, g, b, c.spec_bar_width() as int, m);
        }
        lemma_group_start_mono(c, left, t, 0, g);
        let n = t[g].len() as int;
        let k = c.bar_step();
        if c.group_label_width(t, g) > 0 {
            lemma_group_end(c, left, t, g);
            assert(n >= 1);
            assert(c.bar_start(area.x as int, t, g, n - 1) + c.spec_bar_width() <= area.x
                + area.width);
            assert((n - 1) * k + k == n * k) by (nonlinear_arith);
        }
    }
    lemma_columns_no_text(c, bars, t, m, area);
    lemma_text_draws_inside(c, info, area, t, m);
    lemma_texts_inside_concat(
        c.column_draws_upto(bars, t, m),
        c.text_draws_upto(info, area, t, m),
        area,
    );
}

/// The rows of `ticks_from` from group `g` hold the ticks of the bars of the
/// groups from `g` on, and none is empty when every group has between 1 and
/// 65535 bars.
proof fn lemma_ticks_from_values(c: BarChart, space: int, g: int, len: int)
    requires
        0 <= g <= c.groups().len(),
    ensures
        forall|i: int, b: int|
            0 <= i < c.ticks_from(space, g, len).len() && 0 <= b < c.ticks_from(space, g, len)[i].len()
                ==> #[trigger] c.ticks_from(space, g, len)[i][b] == bar_ticks(
                c.groups()[g + i].bars[b].value,
                len,
                c.max_value() as int,
            ),
        (forall|h: int|
            0 <= h < c.groups().len() ==> 0 < #[trigger] c.groups()[h].bars.len() < 65536) ==> forall|
            i: int,
        | 0 <= i < c.ticks_from(space, g, len).len() ==> #[trigger] c.ticks_from(space, g, len)[i].len()
            >= 1,
    decreases c.groups().len() - g,
{
    if g < c.groups().len() && space > 0 {
        let bars = c.groups()[g].bars;
        let n = as_u16(bars.len() as int);
        let gw = c.group_width(n);
        let t = c.ticks_from(space, g, len);
        if space > gw {
            let rest = sat_sub(space, gw + c.spec_group_gap() + c.spec_bar_gap());
            lemma_ticks_from_values(c, rest, g + 1, len);
            let tail = c.ticks_from(rest, g + 1, len);
            assert(t == seq![ticks_row(bars, n, len, c.max_value() as int)] + tail);
            assert forall|i: int, b: int| 0 <= i < t.len() && 0 <= b < t[i].len() implies #[trigger] t[i][b]
                == bar_ticks(c.groups()[g + i].bars[b].value, len, c.max_value() as int) by {
                if i > 0 {
                    assert(t[i] == tail[i - 1]);
                }
            }
            if forall|h: int| 0 <= h < c.groups().len() ==> 0 < #[trigger] c.groups()[h].bars.len() < 65536 {
                assert(c.groups()[g].bars.len() < 65536);
                assert forall|i: int| 0 <= i < t.len() implies #[trigger] t[i].len() >= 1 by {
                    if i > 0 {
                        assert(t[i] == tail[i - 1]);
                    }
                }
            }
        }
    }
}

/// A tick count drawn against the value that fills a bar is no more than a
/// full bar when the value is no more than that.
proof fn lemma_ticks_at_most_full(v: u64, len: int, max: int)
    requires
        0 <= len <= u16::MAX,
        1 <= max,
        v <= max,
    ensures
        bar_ticks(v, len, max) <= len * 8,
{
    let p = v * len * 8;
    assert(p <= max * (len * 8)) by (nonlinear_arith)
        requires
            0 <= v <= max,
            len >= 0,
            p == v * len * 8,
    ;
    vstd::arithmetic::div_mod::lemma_div_is_ordered(p, max * (len * 8), max);
    vstd::arithmetic::div_mod::lemma_div_multiples_vanish(len * 8, max);
    assert(p >= 0) by (nonlinear_arith)
        requires
            v >= 0,
            len >= 0,
            p == v * len * 8,
    ;
    vstd::arithmetic::div_mod::lemma_div_is_ordered(0, p, max);
}

/// The rows of a horizontal bar write no text.
proof fn lemma_hrows_no_text(c: BarChart, left: int, y0: int, width: int, filled: int, style: Style, k: int, area: Rect)
    ensures
        texts_inside(c.hrows_draws(left, y0, width, filled, style, k), area),
    decreases k,
{
    if k > 0 {
        lemma_hrows_no_text(c, left, y0, width, filled, style, k - 1, area);
        let row = c.hrow_draws(left, y0 + k - 1, width, filled, style);
        assert forall|i: int| 0 <= i < row.len() implies #[trigger] text_inside(row[i], area) by {
            assert(row[i] is SetCells);
        }
        lemma_texts_inside_concat(c.hrows_draws(left, y0, width, filled, style, k - 1), row, area);
    }
}

/// The label and value of a horizontal bar whose rows lie inside `area`
/// stay inside it: the label in the label columns from the area's left, the
/// value over the bar.
proof fn lemma_hbar_text_inside(c: BarChart, area: Rect, bars: Rect, y0: int, ticks: u64, bar: BarView, style: Style)
    requires
        c.spec_bar_width() >= 1,
        c.label_size() <= area.width,
        area.x <= bars.x,
        bars.x + bars.width == area.x + area.width,
        area.y <= y0,
        y0 + c.spec_bar_width() <= area.y + area.height,
        y0 + c.spec_bar_width() - 1 <= u16::MAX,
        ticks <= bars.width * 8,
        c.hvalue_fits(bars.x as int, bars.width as int, as_u16(ticks as int / 8), bar),
    ensures
        texts_inside(c.hbar_draws_at(area.x as int, bars, y0, ticks, bar, style), area),
{
    let filled = as_u16(ticks as int / 8);
    let bw = c.spec_bar_width() as int;
    let mid = y0 + bw / 2;
    assert(filled == ticks as int / 8);
    assert(filled <= bars.width);
    let rows = c.hrows_draws(bars.x as int, y0, bars.width as int, filled, style, bw);
    lemma_hrows_no_text(c, bars.x as int, y0, bars.width as int, filled, style, bw, area);
    let label = match bar.label {
        Some(l) => seq![
            DrawView::SetLine {
                x: area.x as int as u16,
                y: mid as u16,
                line: l,
                width: c.label_size() as u16,
            },
        ],
        None => Seq::<DrawView>::empty(),
    };
    assert(texts_inside(label, area)) by {
        if label.len() > 0 {
            lemma_under_width(bar.label->0, style);
            assert(text_span(label[0]) <= c.label_size());
            assert(text_inside(label[0], area));
        }
    }
    let value = c.hvalue_draws(bars.x as int, mid, bars.width as int, filled, bar);
    assert(texts_inside(value, area)) by {
        if value.len() > 0 {
            assert(text_span(value[0]) <= filled);
            assert(text_inside(value[0], area));
            if value.len() > 1 {
                assert(text_span(value[1]) <= bars.width - filled);
                assert(text_inside(value[1], area));
            }
        }
    }
    lemma_texts_inside_concat(rows, label, area);
    lemma_texts_inside_concat(rows + label, value, area);
}

/// The labels and values of the first `n` bars of group `g`, drawn
/// rightward, stay inside `area` when the bars' rows do.
proof fn lemma_hgroup_texts_inside(c: BarChart, area: Rect, bars: Rect, t: Seq<Seq<u64>>, g: int, n: int)
    requires
        c.spec_bar_width() >= 1,
        c.label_size() <= area.width,
        area.x <= bars.x,
        bars.x + bars.width == area.x + area.width,
        0 <= n <= t[g].len(),
        forall|b: int| 0 <= b < n ==> {
            &&& #[trigger] c.hbar_placed(bars, t, g, b, area)
            &&& t[g][b] <= bars.width * 8
            &&& c.hbar_fits(bars, t, g, b)
        },
    ensures
        texts_inside(c.hgroup_bars_draws(area.x as int, bars, t, g, n), area),
    decreases n,
{
    if n > 0 {
        lemma_hgroup_texts_inside(c, area, bars, t, g, n - 1);
        assert(c.hbar_placed(bars, t, g, n - 1, area));
        let y0 = c.hbar_start(bars.y as int, bars.bottom_spec(), t, g, n - 1);
        lemma_hbar_text_inside(
            c,
            area,
            bars,
            y0,
            t[g][n - 1],
            c.groups()[g].bars[n - 1],
            c.bar_style_of(g, n - 1),
        );
        lemma_texts_inside_concat(
            c.hgroup_bars_draws(area.x as int, bars, t, g, n - 1),
            c.hbar_draws(area.x as int, bars, t, g, n - 1),
            area,
        );
    }
}

/// The label after a group's bars, when shown, stays inside `area`.
proof fn lemma_hgroup_label_inside(c: BarChart, area: Rect, bars: Rect, t: Seq<Seq<u64>>, g: int)
    requires
        0 <= g < c.groups().len(),
        c.spec_bar_width() >= 1,
        c.groups()[g].label matches Some(l) ==> l.width() < 65536,
        t[g].len() >= 1,
        c.hgroup_fits(bars, t, g),
        area.x <= bars.x,
        bars.x + bars.width == area.x + area.width,
        bars.y == area.y,
        bars.height == area.height,
        bars.y <= c.hgroup_start(bars.y as int, bars.bottom_spec(), t, g),
    ensures
        texts_inside(c.hgroup_label_draws(bars, t, g), area),
{
    let d = c.hgroup_label_draws(bars, t, g);
    if d.len() > 0 {
        let top = bars.y as int;
        let bottom = bars.bottom_spec();
        let l = c.groups()[g].label->0;
        lemma_under_width(l, c.spec_label_style());
        let line = l.under(c.spec_label_style());
        let lw = line.width();
        let w = bars.width as int;
        let off = aligned_offset(line, w);
        assert(as_u16(lw) == lw);
        assert(off + min_int(w, lw) <= w);
        let n = t[g].len() as int;
        let k = c.bar_step();
        assert(n * k >= k) by (nonlinear_arith)
            requires
                n >= 1,
                k >= 0,
        ;
        let row = c.hgroup_after(top, bottom, t, g) - c.spec_bar_gap();
        assert(top <= row);
        assert(text_span(d[0]) == min_int(w, lw));
        assert(text_inside(d[0], area));
    }
}

/// The texts of the first `m` groups drawn rightward stay inside `area`.
proof fn lemma_hdraws_texts_inside(c: BarChart, area: Rect, bars: Rect, t: Seq<Seq<u64>>, m: int)
    requires
        0 <= m <= t.len() <= c.groups().len(),
        c.spec_bar_width() >= 1,
        c.label_size() <= area.width,
        area.x <= bars.x,
        bars.x + bars.width == area.x + area.width,
        bars.y == area.y,
        bars.height == area.height,
        forall|g: int| 0 <= g < m ==> (#[trigger] c.groups()[g].label matches Some(l) ==> l.width() < 65536),
        forall|g: int| 0 <= g < m ==> #[trigger] t[g].len() >= 1,
        forall|g: int| 0 <= g < m ==> #[trigger] c.hgroup_fits(bars, t, g),
        forall|g: int| 0 <= g < m ==> bars.y <= #[trigger] c.hgroup_start(bars.y as int, bars.bottom_spec(), t, g),
        forall|g: int, b: int| 0 <= g < m && 0 <= b < t[g].len() ==> {
            &&& #[trigger] c.hbar_placed(bars, t, g, b, area)
            &&& t[g][b] <= bars.width * 8
            &&& c.hbar_fits(bars, t, g, b)
        },
    ensures
        texts_inside(c.hdraws_upto(area.x as int, bars, t, m), area),
    decreases m,
{
    if m > 0 {
        let g = m - 1;
        lemma_hdraws_texts_inside(c, area, bars, t, g);
        assert forall|b: int| 0 <= b < t[g].len() implies {
            &&& #[trigger] c.hbar_placed(bars, t, g, b, area)
            &&& t[g][b] <= bars.width * 8
            &&& c.hbar_fits(bars, t, g, b)
        } by {
            assert(c.hbar_placed(bars, t, g, b, area));
        }
        lemma_hgroup_texts_inside(c, area, bars, t, g, t[g].len() as int);
        assert(c.groups()[g].label matches Some(l) ==> l.width() < 65536);
        assert(t[g].len() >= 1);
        assert(c.hgroup_fits(bars, t, g));
        assert(bars.y <= c.hgroup_start(bars.y as int, bars.bottom_spec(), t, g));
        lemma_hgroup_label_inside(c, area, bars, t, g);
        let a = c.hdraws_upto(area.x as int, bars, t, g);
        let b = c.hgroup_bars_draws(area.x as int, bars, t, g, t[g].len() as int);
        lemma_texts_inside_concat(a, b, area);
        lemma_texts_inside_concat(a + b, c.hgroup_label_draws(bars, t, g), area);
    }
}

/// Every text a horizontal chart writes (bar labels, values and group
/// labels) lies inside the area it is drawn in, for texts measured within
/// the chart's numbers (see `texts_measured`) and values no more than the
/// value that fills a bar.
pub proof fn lemma_horizontal_texts_inside(c: BarChart, area: Rect)
    requires
        c.spec_bar_width() >= 1,
        c.horizontal_fits(area),
        c.texts_measured(),
        c.values_within_max(),
        c.no_group_empty(),
    ensures
        texts_inside(c.horizontal_draws(area), area),
{
    let bars = c.horizontal_bars_area(area);
    let len = bars.width as int;
    let t = c.ticks_from(bars.height as int, 0, len);
    let m = t.len() as int;
    let top = bars.y as int;
    let bottom = bars.bottom_spec();
    lemma_ticks_within_space(c, bars.height as int, 0, len);
    lemma_ticks_from_shape(c, bars.height as int, 0, len);
    lemma_ticks_from_values(c, bars.height as int, 0, len);
    assert forall|h: int| 0 <= h < c.groups().len() implies 0 < #[trigger] c.groups()[h].bars.len()
        < 65536 by {
        assert(c.groups()[h].bars.len() < 65536);
    }
    assert forall|g: int, b: int| 0 <= g < m && 0 <= b < t[g].len() implies {
        &&& #[trigger] c.hbar_placed(bars, t, g, b, area)
        &&& t[g][b] <= bars.width * 8
        &&& c.hbar_fits(bars, t, g, b)
    } by {
        assert(c.bar_within(t, g, b, bars.height as int));
        assert(c.hbar_fits(bars, t, g, b));
        lemma_hgroup_start_taken(c, top, bottom, t, g);
        assert(b * c.bar_step() >= 0) by (nonlinear_arith)
            requires
                b >= 0,
                c.bar_step() >= 0,
        ;
        assert(c.groups()[g].bars[b].value <= c.max_value());
        assert(t[g][b] == bar_ticks(c.groups()[g].bars[b].value, len, c.max_value() as int));
        lemma_ticks_at_most_full(c.groups()[g].bars[b].value, len, c.max_value() as int);
    }
    assert forall|g: int| 0 <= g < m implies top <= #[trigger] c.hgroup_start(top, bottom, t, g) by {
        lemma_hgroup_start_taken(c, top, bottom, t, g);
    }
    assert forall|g: int| 0 <= g < m implies #[trigger] c.hgroup_fits(bars, t, g) by {
        assert(c.hgroup_fits(bars, t, g));
    }
    assert forall|g: int| 0 <= g < m implies #[trigger] t[g].len() >= 1 by {
        assert(t[g].len() >= 1);
    }
    lemma_hdraws_texts_inside(c, area, bars, t, m);
}

/// Every text the chart's body writes lies inside the area it is drawn in
/// (see `lemma_vertical_texts_inside` and `lemma_horizontal_texts_inside`).
pub proof fn lemma_body_texts_inside(c: BarChart, area: Rect)
    requires
        c.body_fits(area),
        c.texts_contained(),
        c.no_group_empty(),
        area.y + area.height <= u16::MAX,
    ensures
        texts_inside(c.body_draws(area), area),
{
    if !(area.is_empty_spec() || c.groups().len() == 0 || c.spec_bar_width() == 0) {
        match c.spec_direction() {
            Direction::Horizontal => lemma_horizontal_texts_inside(c, area),
            Direction::Vertical => lemma_vertical_texts_inside(c, area),
        }
    }
}

/// Every text a chart writes (bar labels, values and group labels) lies
/// inside the area it is drawn in, for an area within the 16-bit rows and
/// texts that stay within the chart's numbers (see `texts_contained`).
pub proof fn lemma_render_texts_inside(c: BarChart, area: Rect)
    requires
        c.render_fits(area),
        c.texts_contained(),
        c.no_group_empty(),
        area.y + area.height <= u16::MAX,
    ensures
        texts_inside(c.render_draws(area), area),
{
    let inner = c.body_area(area);
    let head = match c.spec_block() {
        Some(block) => seq![
            DrawView::SetStyle { area, style: c.spec_style() },
            DrawView::RenderBlock { block, area },
        ],
        None => seq![DrawView::SetStyle { area, style: c.spec_style() }],
    };
    assert(texts_inside(head, area));
    if let Some(block) = c.spec_block() {
        block.lemma_inner_within(area);
    }
    if c.body_draws(inner).len() > 0 {
        assert(!inner.is_empty_spec());
        assert(area.contains_rect(inner));
        lemma_body_texts_inside(c, inner);
        lemma_texts_inside_widen(c.body_draws(inner), inner, area);
    } else {
        assert(texts_inside(c.body_draws(inner), area));
    }
    assert(c.render_draws(area) == head + c.body_draws(inner));
    lemma_texts_inside_concat(head, c.body_draws(inner), area);
}

impl BarChart {
    /// The length the groups from `g0` up to (not including) `g` take when
    /// shown whole: a bar step per bar and a group gap per group.
    pub open spec fn groups_length(self, g0: int, g: int) -> int
        decreases g - g0,
    {
        if g <= g0 {
            0
        } else {
            self.groups_length(g0, g - 1) + self.groups()[g - 1].bars.len() * self.bar_step()
                + self.spec_group_gap()
        }
    }

    /// Whether every group from `g0` up to `g` is shown whole in `space`
    /// cells, with room to spare after it: the groups before it and its own
    /// bars take less than `space`.
    pub open spec fn shown_whole_before(self, space: int, g0: int, g: int) -> bool {
        forall|h: int|
            g0 <= h < g ==> #[trigger] self.groups_length(g0, h) + self.group_width(
                self.groups()[h].bars.len() as int,
            ) < space
    }

    /// Whether bar `b` of group `g` fits whole in `space` cells at its place
    /// after the groups from `g0` before it.
    pub open spec fn bar_fits_at(self, space: int, g0: int, g: int, b: int) -> bool {
        self.groups_length(g0, g) + b * self.bar_step() + self.spec_bar_width() <= space
    }
}

/// The groups from `g0` on take the first group's length and then the rest's.
proof fn lemma_groups_length_prepend(c: BarChart, g0: int, h: int)
    requires
        g0 + 1 <= h,
    ensures
        c.groups_length(g0, h) == c.groups()[g0].bars.len() * c.bar_step() + c.spec_group_gap()
            + c.groups_length(g0 + 1, h),
    decreases h - g0,
{
    if h > g0 + 1 {
        lemma_groups_length_prepend(c, g0, h - 1);
    } else {
        assert(c.groups_length(g0, g0) == 0);
        assert(c.groups_length(g0 + 1, g0 + 1) == 0);
    }
}

/// No bar fits and no group is shown whole without room.
proof fn lemma_nothing_fits_without_room(c: BarChart, space: int, g0: int, g: int, b: int)
    requires
        c.spec_bar_width() >= 1,
        space <= 0,
        0 <= g0 <= g < c.groups().len(),
        0 <= b,
    ensures
        !(c.shown_whole_before(space, g0, g) && c.bar_fits_at(space, g0, g, b)),
{
    let k = c.bar_step();
    assert(b * k >= 0) by (nonlinear_arith)
        requires
            b >= 0,
            k >= 0,
    ;
    if g == g0 {
        assert(c.groups_length(g0, g0) == 0);
    } else {
        let n = c.groups()[g0].bars.len() as int;
        assert(c.group_width(n) >= 0) by (nonlinear_arith)
            requires
                n >= 0,
                c.group_width(n) == n * c.spec_bar_width() + sat_sub(n, 1) * c.spec_bar_gap(),
                sat_sub(n, 1) >= 0,
        ;
        assert(!(c.groups_length(g0, g0) + c.group_width(n) < space));
    }
}

proof fn lemma_shown_iff_fits_from(c: BarChart, space: int, g0: int, len: int, g: int, b: int)
    requires
        c.spec_bar_width() >= 1,
        0 <= g0 <= g < c.groups().len(),
        0 <= b < c.groups()[g].bars.len(),
        forall|h: int| 0 <= h < c.groups().len() ==> 0 < #[trigger] c.groups()[h].bars.len() < 65536,
    ensures
        (g - g0 < c.ticks_from(space, g0, len).len() && b < c.ticks_from(space, g0, len)[g - g0].len())
            <==> (c.shown_whole_before(space, g0, g) && c.bar_fits_at(space, g0, g, b)),
    decreases g - g0,
{
    let t = c.ticks_from(space, g0, len);
    let bars = c.groups()[g0].bars;
    let n = bars.len() as int;
    assert(0 < n < 65536);
    assert(as_u16(n) == n);
    let gw = c.group_width(n);
    let w = c.spec_bar_width() as int;
    let gap = c.spec_bar_gap() as int;
    let gg = c.spec_group_gap() as int;
    let k = c.bar_step();
    let max = c.max_value() as int;
    assert(gw + gap == n * k) by (nonlinear_arith)
        requires
            gw == n * w + sat_sub(n, 1) * gap,
            sat_sub(n, 1) == n - 1,
            k == w + gap,
    ;
    assert(b * k >= 0) by (nonlinear_arith)
        requires
            b >= 0,
            k >= 0,
    ;
    if space <= 0 {
        lemma_nothing_fits_without_room(c, space, g0, g, b);
    } else if space > gw {
        let rest = sat_sub(space, gw + gg + gap);
        let tail = c.ticks_from(rest, g0 + 1, len);
        assert(t == seq![ticks_row(bars, n, len, max)] + tail);
        if g == g0 {
            if b < n {
                assert(b * k + w <= gw) by (nonlinear_arith)
                    requires
                        0 <= b < n,
                        k == w + gap,
                        gw == n * w + (n - 1) * gap,
                        w >= 0,
                        gap >= 0,
                ;
            }
            assert(c.groups_length(g0, g0) == 0);
        } else {
            lemma_shown_iff_fits_from(c, rest, g0 + 1, len, g, b);
            if g - g0 < t.len() {
                assert(t[g - g0] == tail[g - g0 - 1]);
            }
            lemma_groups_length_prepend(c, g0, g);
            assert forall|h: int| g0 + 1 <= h < g implies c.groups_length(g0, h)
                == n * k + gg + c.groups_length(g0 + 1, h) by {
                lemma_groups_length_prepend(c, g0, h);
            }
            assert(c.groups_length(g0, g0) == 0);
            if space - (n * k + gg) >= 0 {
                assert(rest == space - (n * k + gg));
                assert(c.shown_whole_before(space, g0, g) <==> c.shown_whole_before(rest, g0 + 1, g))
                    by {
                    if c.shown_whole_before(rest, g0 + 1, g) {
                        assert forall|h: int| g0 <= h < g implies #[trigger] c.groups_length(g0, h)
                            + c.group_width(c.groups()[h].bars.len() as int) < space by {
                            if h > g0 {
                                assert(c.groups_length(g0 + 1, h) + c.group_width(
                                    c.groups()[h].bars.len() as int,
                                ) < rest);
                            }
                        }
                    }
                    if c.shown_whole_before(space, g0, g) {
                        assert forall|h: int| g0 + 1 <= h < g implies #[trigger] c.groups_length(
                            g0 + 1,
                            h,
                        ) + c.group_width(c.groups()[h].bars.len() as int) < rest by {
                            assert(c.groups_length(g0, h) + c.group_width(
                                c.groups()[h].bars.len() as int,
                            ) < space);
                        }
                    }
                }
            } else {
                assert(rest == 0);
                lemma_nothing_fits_without_room(c, 0, g0 + 1, g, b);
                if g == g0 + 1 {
                    assert(!c.bar_fits_at(space, g0, g, b));
                } else {
                    let n1 = c.groups()[g0 + 1].bars.len() as int;
                    assert(c.group_width(n1) >= 0) by (nonlinear_arith)
                        requires
                            n1 >= 0,
                            c.group_width(n1) == n1 * c.spec_bar_width() + sat_sub(n1, 1)
                                * c.spec_bar_gap(),
                            sat_sub(n1, 1) >= 0,
                    ;
                    assert(c.groups_length(g0 + 1, g0 + 1) == 0);
                    assert(!(c.groups_length(g0, g0 + 1) + c.group_width(n1) < space));
                }
            }
        }
    } else {
        let fit = (space + gap) / k;
        if g == g0 {
            assert(c.groups_length(g0, g0) == 0);
            assert((b < fit) <==> (b * k + w <= space)) by (nonlinear_arith)
                requires
                    fit == (space + gap) / k,
                    k == w + gap,
                    k > 0,
                    b >= 0,
                    space + gap >= 0,
            ;
            if fit > 0 {
                assert(t == seq![ticks_row(bars, fit, len, max)]);
            }
        } else {
            assert(c.groups_length(g0, g0) == 0);
            assert(!(c.groups_length(g0, g0) + c.group_width(n) < space));
        }
    }
}

/// A bar shows exactly when it fits whole at its place: every group before
/// it is shown whole with room to spare after it, and the bar ends within
/// the space (for groups of between 1 and 65535 bars; the chart counts a
/// group's bars in 16 bits).
pub proof fn lemma_bar_shown_iff_fits(c: BarChart, space: int, len: int, g: int, b: int)
    requires
        c.spec_bar_width() >= 1,
        c.no_group_empty(),
        forall|h: int| 0 <= h < c.groups().len() ==> #[trigger] c.groups()[h].bars.len() < 65536,
        0 <= g < c.groups().len(),
        0 <= b < c.groups()[g].bars.len(),
    ensures
        (g < c.ticks_from(space, 0, len).len() && b < c.ticks_from(space, 0, len)[g].len()) <==> (
        c.shown_whole_before(space, 0, g) && c.bar_fits_at(space, 0, g, b)),
{
    assert forall|h: int| 0 <= h < c.groups().len() implies 0 < #[trigger] c.groups()[h].bars.len()
        < 65536 by {
        assert(c.groups()[h].bars.len() < 65536);
    }
    lemma_shown_iff_fits_from(c, space, 0, len, g, b);
}

/// With a maximum `m` set, the value that fills a bar is `m` (1 when `m` is
/// 0), whatever the data: bars are scaled against the set maximum even when
/// every value is smaller or larger.
pub proof fn lemma_max_value_when_set(c: BarChart)
    ensures
        c.spec_max() matches Some(m) ==> c.max_value() == (if m > 1 {
            m
        } else {
            1
        }),
{
}

/// Without a maximum set, the value that fills a bar is the largest bar
/// value (1 when there is no bar or every value is 0): it is at least every
/// bar's value, and it is 1 or the value of some bar.
pub proof fn lemma_max_value_is_largest(c: BarChart)
    requires
        c.spec_max() is None,
    ensures
        forall|g: int, b: int|
            0 <= g < c.groups().len() && 0 <= b < c.groups()[g].bars.len()
                ==> #[trigger] c.groups()[g].bars[b].value <= c.max_value(),
        c.max_value() >= 1,
        c.max_value() == 1 || exists|g: int, b: int|
            0 <= g < c.groups().len() && 0 <= b < c.groups()[g].bars.len()
                && #[trigger] c.groups()[g].bars[b].value == c.max_value(),
{
    assert forall|g: int, b: int|
        0 <= g < c.groups().len() && 0 <= b < c.groups()[g].bars.len() implies #[trigger] c.groups()[g].bars[b].value
        <= c.max_value() by {
        lemma_max_value_bounds_bars(c, g, b);
    }
    lemma_data_max_attained(c.groups(), c.groups().len() as int);
}

/// The largest value of the first `n` groups is 0 or the value of one of their bars.
proof fn lemma_data_max_attained(groups: Seq<BarGroupView>, n: int)
    requires
        0 <= n <= groups.len(),
    ensures
        data_max_upto(groups, n) == 0 || exists|g: int, b: int|
            0 <= g < n && 0 <= b < groups[g].bars.len() && #[trigger] groups[g].bars[b].value
                == data_max_upto(groups, n),
    decreases n,
{
    if n > 0 {
        lemma_data_max_attained(groups, n - 1);
        let bars = groups[n - 1].bars;
        lemma_max_value_upto(bars, bars.len() as int);
        let gm = max_value_upto(bars, bars.len() as int);
        if gm > data_max_upto(groups, n - 1) {
            if bars.len() == 0 {
                assert(gm == 0);
            }
            let b = choose|b: int| 0 <= b < bars.len() && #[trigger] bars[b].value == gm;
            assert(groups[n - 1].bars[b].value == data_max_upto(groups, n));
        } else if data_max_upto(groups, n - 1) != 0 {
            let (g, b) = choose|g: int, b: int|
                0 <= g < n - 1 && 0 <= b < groups[g].bars.len() && #[trigger] groups[g].bars[b].value
                    == data_max_upto(groups, n - 1);
            assert(groups[g].bars[b].value == data_max_upto(groups, n));
        }
    }
}

/// The column a horizontal chart keeps for bar labels is as wide as the
/// widest bar label: no label is wider, and it is 0 or the width of one of
/// them (the chart keeps it as a 16-bit count).
pub proof fn lemma_label_column_is_widest(c: BarChart)
    ensures
        forall|g: int, b: int|
            0 <= g < c.groups().len() && 0 <= b < c.groups()[g].bars.len() ==> (#[trigger] c.groups()[g].bars[b].label
                matches Some(l) ==> l.width() <= groups_label_width(c.groups(), c.groups().len() as int)),
        groups_label_width(c.groups(), c.groups().len() as int) == 0 || exists|g: int, b: int|
            0 <= g < c.groups().len() && 0 <= b < c.groups()[g].bars.len() && (#[trigger] c.groups()[g].bars[b].label
                matches Some(l) && l.width() == groups_label_width(c.groups(), c.groups().len() as int)),
        c.label_size() == as_u16(groups_label_width(c.groups(), c.groups().len() as int)),
{
    lemma_groups_label_width(c.groups(), c.groups().len() as int);
}

proof fn lemma_bars_label_width(bars: Seq<BarView>, n: int)
    requires
        0 <= n <= bars.len(),
    ensures
        forall|b: int|
            0 <= b < n ==> (#[trigger] bars[b].label matches Some(l) ==> l.width() <= bars_label_width(
                bars,
                n,
            )),
        bars_label_width(bars, n) == 0 || exists|b: int|
            0 <= b < n && (#[trigger] bars[b].label matches Some(l) && l.width() == bars_label_width(
                bars,
                n,
            )),
        bars_label_width(bars, n) >= 0,
    decreases n,
{
    if n > 0 {
        lemma_bars_label_width(bars, n - 1);
        let m = bars_label_width(bars, n - 1);
        if let Some(l) = bars[n - 1].label {
            if l.width() > m {
                assert(bars[n - 1].label matches Some(l) && l.width() == bars_label_width(bars, n));
            } else if m != 0 {
                let b = choose|b: int|
                    0 <= b < n - 1 && (#[trigger] bars[b].label matches Some(l) && l.width() == m);
                assert(bars[b].label matches Some(l) && l.width() == bars_label_width(bars, n));
            }
        } else if m != 0 {
            let b = choose|b: int|
                0 <= b < n - 1 && (#[trigger] bars[b].label matches Some(l) && l.width() == m);
            assert(bars[b].label matches Some(l) && l.width() == bars_label_width(bars, n));
        }
    }
}

proof fn lemma_groups_label_width(groups: Seq<BarGroupView>, n: int)
    requires
        0 <= n <= groups.len(),
    ensures
        forall|g: int, b: int|
            0 <= g < n && 0 <= b < groups[g].bars.len() ==> (#[trigger] groups[g].bars[b].label matches Some(
                l,
            ) ==> l.width() <= groups_label_width(groups, n)),
        groups_label_width(groups, n) == 0 || exists|g: int, b: int|
            0 <= g < n && 0 <= b < groups[g].bars.len() && (#[trigger] groups[g].bars[b].label matches Some(
                l,
            ) && l.width() == groups_label_width(groups, n)),
        groups_label_width(groups, n) >= 0,
    decreases n,
{
    if n > 0 {
        lemma_groups_label_width(groups, n - 1);
        let bars = groups[n - 1].bars;
        lemma_bars_label_width(bars, bars.len() as int);
        let m = groups_label_width(groups, n - 1);
        let w = bars_label_width(bars, bars.len() as int);
        assert forall|g: int, b: int|
            0 <= g < n && 0 <= b < groups[g].bars.len() implies (#[trigger] groups[g].bars[b].label matches Some(
            l,
        ) ==> l.width() <= groups_label_width(groups, n)) by {
            if g == n - 1 {
                assert(bars[b] == groups[g].bars[b]);
            }
        }
        if w > m {
            let b = choose|b: int|
                0 <= b < bars.len() && (#[trigger] bars[b].label matches Some(l) && l.width() == w);
            assert(groups[n - 1].bars[b].label matches Some(l) && l.width() == groups_label_width(
                groups,
                n,
            ));
        } else if m != 0 {
            let (g, b) = choose|g: int, b: int|
                0 <= g < n - 1 && 0 <= b < groups[g].bars.len() && (#[trigger] groups[g].bars[b].label
                    matches Some(l) && l.width() == m);
            assert(groups[g].bars[b].label matches Some(l) && l.width() == groups_label_width(
                groups,
                n,
            ));
        }
    }
}

/// A bar's label is centred under the bar: a label no wider than the bar
/// is written in full, with the columns left and right of it under the bar
/// differing by at most one (the extra one on the right); a wider one is
/// written from the bar's first column, cut to the bar's width.
pub proof fn lemma_bar_label_centred(c: BarChart, x: int, y: int, bar: BarView)
    requires
        0 <= x,
        x + c.spec_bar_width() <= u16::MAX,
        0 <= y <= u16::MAX,
        bar.label matches Some(l) ==> l.width() < 65536,
    ensures
        bar.label is None ==> c.bar_label_draws(x, y, bar).len() == 0,
        bar.label matches Some(l) ==> {
            let d = c.bar_label_draws(x, y, bar);
            let bw = c.spec_bar_width() as int;
            let lw = l.width();
            &&& d.len() == 1
            &&& d[0] matches DrawView::SetLine { x: lx, y: ly, line, width } && {
                &&& ly == y
                &&& line == l.under(c.spec_label_style())
                &&& width == bw
                &&& lw <= bw ==> {
                    let left = lx - x;
                    let right = (x + bw) - (lx + lw);
                    &&& 0 <= left
                    &&& left <= right <= left + 1
                }
                &&& lw > bw ==> lx == x
            }
        },
{
    if let Some(l) = bar.label {
        lemma_under_width(l, c.spec_label_style());
    }
}

/// The character of a decimal digit read back as its value: `'0'` is 0,
/// `'1'` is 1, and so on.
pub open spec fn digit_value(ch: char) -> int {
    ch as int - '0' as int
}

/// A string of decimal digits read as a number, most significant first.
pub open spec fn numeral_value(s: Seq<char>) -> int
    decreases s.len(),
{
    if s.len() == 0 {
        0
    } else {
        numeral_value(s.drop_last()) * 10 + digit_value(s.last())
    }
}

/// The text of a value reads back as the value: it is made of the digits
/// `'0'` to `'9'`, its first digit is `'0'` only for 0, and read as a
/// decimal numeral it is the value.
pub proof fn lemma_decimal_reads_back(n: nat)
    ensures
        decimal(n).len() >= 1,
        forall|i: int|
            0 <= i < decimal(n).len() ==> '0' <= #[trigger] decimal(n)[i] && decimal(n)[i] <= '9',
        decimal(n)[0] == '0' ==> n == 0,
        numeral_value(decimal(n)) == n,
    decreases n,
{
    if n < 10 {
        assert(decimal(n) == seq![digit_char(n)]);
        assert(decimal(n).drop_last() =~= Seq::<char>::empty());
        assert(digit_value(digit_char(n)) == n);
        assert(numeral_value(decimal(n)) == numeral_value(Seq::<char>::empty()) * 10 + digit_value(
            digit_char(n),
        ));
    } else {
        lemma_decimal_reads_back(n / 10);
        let s = decimal(n / 10);
        let d = (n % 10) as nat;
        assert(decimal(n) == s.push(digit_char(d)));
        assert(s.push(digit_char(d)).drop_last() =~= s);
        assert(digit_value(digit_char(d)) == d);
        assert(s.push(digit_char(d))[0] == s[0]);
        assert(numeral_value(decimal(n)) == numeral_value(s) * 10 + d);
    }
}

/// A bar's value is written under it only when the value is not 0 and its
/// text is narrower than the bar, or exactly as wide when the bar fills at
/// least one full cell; it is then written on the value row as the bar's
/// text value (or its value in decimal), in the chart's value style with the
/// bar's laid over it, without a width limit, centred under the bar by its
/// length in bytes (flush left when that is longer than the bar).
pub proof fn lemma_value_text_placed(c: BarChart, x: int, y: int, bar: BarView, ticks: u64)
    requires
        0 <= x,
        x + c.spec_bar_width() <= u16::MAX,
        0 <= y <= u16::MAX,
        str_width(value_text(bar)) < 65536,
        byte_len(value_text(bar)) < 65536,
    ensures
        ({
            let d = c.value_draws(x, y, bar, ticks);
            let w = str_width(value_text(bar)) as int;
            let bw = c.spec_bar_width() as int;
            let bl = byte_len(value_text(bar));
            &&& d.len() <= 1
            &&& (d.len() == 1 <==> (bar.value != 0 && (w < bw || (w == bw && ticks >= 8))))
            &&& d.len() == 1 ==> (d[0] matches DrawView::SetString { x: tx, y: ty, text, width, style }
                && {
                &&& ty == y
                &&& text == (match bar.text_value {
                    Some(t) => t,
                    None => decimal(bar.value as nat),
                })
                &&& width == usize::MAX
                &&& style == c.spec_value_style().patch_spec(bar.value_style)
                &&& bl <= bw ==> {
                    let left = tx - x;
                    let right = (x + bw) - (tx + bl);
                    &&& 0 <= left
                    &&& left <= right <= left + 1
                }
                &&& bl > bw ==> tx == x
            })
        }),
{
    let bl = byte_len(value_text(bar));
    assert(bl >= 0) by {
        assert(bl == (vstd::utf8::encode_utf8(value_text(bar)).len() as usize) as int);
    }
}

/// A group's label on the last row is placed under the group's shown bars
/// by its alignment: flush left at the group's start, flush right against
/// the end of its last shown bar, or centred with the columns left and right
/// of it differing by at most one (the extra one on the right); a label
/// wider than the bars is written from the group's start, cut to their width.
pub proof fn lemma_group_label_aligned(c: BarChart, info: LabelInfo, area: Rect, t: Seq<Seq<u64>>, g: int)
    requires
        0 <= g < c.groups().len(),
        0 <= g < t.len(),
        info.group_label_visible,
        c.group_label_width_ok(t, g),
        c.groups()[g].label matches Some(l) ==> l.width() < 65536,
        0 <= c.group_start(area.x as int, t, g),
        c.group_start(area.x as int, t, g) + c.group_label_width(t, g) <= u16::MAX,
        area.height >= 1,
    ensures
        c.groups()[g].label is None ==> c.group_label_draws(info, area, t, g).len() == 0,
        c.groups()[g].label matches Some(l) ==> {
            let d = c.group_label_draws(info, area, t, g);
            let gs = c.group_start(area.x as int, t, g);
            let lmw = c.group_label_width(t, g);
            let lw = l.width();
            &&& d.len() == 1
            &&& d[0] matches DrawView::SetLine { x: lx, y: ly, line, width } && {
                &&& ly == (area.bottom_spec() - 1) as u16
                &&& line == l.under(c.spec_label_style())
                &&& width == lmw
                &&& lw > lmw ==> lx == gs
                &&& lw <= lmw ==> match l.alignment {
                    Some(Alignment::Center) => {
                        let left = lx - gs;
                        let right = (gs + lmw) - (lx + lw);
                        0 <= left && left <= right <= left + 1
                    },
                    Some(Alignment::Right) => lx + lw == gs + lmw,
                    _ => lx == gs,
                }
            }
        },
{
    if let Some(l) = c.groups()[g].label {
        lemma_under_width(l, c.spec_label_style());
        assert(l.under(c.spec_label_style()).alignment == l.alignment);
    }
}

/// A bar drawn upward is `h` cells tall, one cell per row from the bottom:
/// the cells below its `ticks / 8`-th are full, those above it are empty,
/// and that cell holds the symbol for the `ticks % 8` eighths left over;
/// each cell is as wide as a bar and drawn in the bar's style.
pub proof fn lemma_column_cells(c: BarChart, x: int, top: int, h: int, ticks: u64, style: Style)
    requires
        0 <= h,
        0 <= x <= u16::MAX,
        0 <= top,
        top + h - 1 <= u16::MAX,
    ensures
        c.column_draws(x, top, h, ticks, style).len() == h,
        forall|r: int|
            0 <= r < h ==> (#[trigger] c.column_draws(x, top, h, ticks, style)[r] matches DrawView::SetCells {
                area,
                symbol,
                style: s,
            } && {
                let set = c.spec_bar_set();
                let full = ticks as int / 8;
                let part = ticks as int % 8;
                &&& area == (Rect {
                    x: x as u16,
                    y: (top + h - 1 - r) as u16,
                    width: c.spec_bar_width(),
                    height: 1,
                })
                &&& s == style
                &&& r < full ==> symbol == set.full@
                &&& r > full ==> symbol == set.empty@
                &&& r == full ==> symbol == (if part == 0 {
                    set.empty@
                } else if part == 1 {
                    set.one_eighth@
                } else if part == 2 {
                    set.one_quarter@
                } else if part == 3 {
                    set.three_eighths@
                } else if part == 4 {
                    set.half@
                } else if part == 5 {
                    set.five_eighths@
                } else if part == 6 {
                    set.three_quarters@
                } else {
                    set.seven_eighths@
                })
            }),
{
}

/// A label drawn rightward after a group is placed in the `width` columns
/// from `x` by its alignment: flush left at `x`, flush right against the
/// last column, or centred with the columns left and right of it differing
/// by at most one (the extra one on the right); a wider label is written
/// from `x`, cut to the width.
pub proof fn lemma_aligned_label(c: BarChart, l: LineView, x: int, y: int, width: int)
    requires
        l.width() < 65536,
        0 <= x,
        0 <= width,
        x + width <= u16::MAX,
        0 <= y <= u16::MAX,
    ensures
        c.aligned_label_draw(l, x, y, width) matches DrawView::SetLine { x: lx, y: ly, line, width: lwid }
            && {
            let lw = l.width();
            &&& ly == y
            &&& line == l.under(c.spec_label_style())
            &&& lwid == width
            &&& lw > width ==> lx == x
            &&& lw <= width ==> match l.alignment {
                Some(Alignment::Center) => {
                    let left = lx - x;
                    let right = (x + width) - (lx + lw);
                    0 <= left && left <= right <= left + 1
                },
                Some(Alignment::Right) => lx + lw == x + width,
                _ => lx == x,
            }
        },
{
    lemma_under_width(l, c.spec_label_style());
    assert(l.under(c.spec_label_style()).alignment == l.alignment);
}

/// A bar's length in eighths of a cell is its value's share of the full
/// length, rounded down: the most eighths whose share of the value that fills
/// a bar does not pass the bar's value.
pub proof fn lemma_ticks_round_down(v: u64, len: int, max: int)
    requires
        len >= 0,
        max >= 1,
        v * len * 8 <= u64::MAX,
    ensures
        bar_ticks(v, len, max) * max <= v * len * 8 < (bar_ticks(v, len, max) + 1) * max,
{
    let p = v * len * 8;
    assert(p >= 0) by (nonlinear_arith)
        requires
            v >= 0,
            len >= 0,
            p == v * len * 8,
    ;
    let q = p / max;
    vstd::arithmetic::div_mod::lemma_fundamental_div_mod(p, max);
    vstd::arithmetic::div_mod::lemma_div_is_ordered(0, p, max);
    vstd::arithmetic::div_mod::lemma_div_basics(p);
    vstd::arithmetic::div_mod::lemma_div_is_ordered_by_denominator(p, 1, max);
    assert(bar_ticks(v, len, max) == q);
    assert(q * max <= p < (q + 1) * max) by (nonlinear_arith)
        requires
            p == max * q + p % max,
            0 <= p % max < max,
    ;
}

} // verus!
