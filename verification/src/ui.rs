//! The monitor's screen layout.

use vstd::prelude::*;

use crate::layout::{Direction, Rect, sat_add};
use crate::style::Style;
use crate::widgets::barchart::{BarChart, BarGroup, pair_bar_view};

verus! {

/// The area left inside `area` after a margin of `margin` cells on each
/// side: nothing (an empty rectangle at the origin) when the area is
/// narrower or lower than twice the margin, else the area moved in by the
/// margin and shrunk by twice it (saturating).
pub open spec fn margin_inner(area: Rect, margin: u16) -> Rect {
    let twice = if 2 * margin > u16::MAX { u16::MAX as int } else { 2 * margin };
    if area.width < twice || area.height < twice {
        Rect { x: 0, y: 0, width: 0, height: 0 }
    } else {
        Rect {
            x: sat_add(area.x as int, margin as int) as u16,
            y: sat_add(area.y as int, margin as int) as u16,
            width: (area.width - twice) as u16,
            height: (area.height - twice) as u16,
        }
    }
}

/// Whether `r` is one of the areas a split of `inner` in `direction` gives:
/// it spans `inner` across the direction and lies within it along it.
pub open spec fn split_part(direction: Direction, inner: Rect, r: Rect) -> bool {
    &&& inner.contains_rect(r)
    &&& match direction {
        Direction::Horizontal => r.y == inner.y && r.height == inner.height,
        Direction::Vertical => r.x == inner.x && r.width == inner.width,
    }
}

/// Where a part starts along `direction`.
pub open spec fn part_start(direction: Direction, r: Rect) -> int {
    match direction {
        Direction::Horizontal => r.x as int,
        Direction::Vertical => r.y as int,
    }
}

/// Where a part ends along `direction`.
pub open spec fn part_end(direction: Direction, r: Rect) -> int {
    match direction {
        Direction::Horizontal => r.x + r.width,
        Direction::Vertical => r.y + r.height,
    }
}

/// Where the area to split ends along `direction` (saturated).
pub open spec fn area_end(direction: Direction, inner: Rect) -> int {
    match direction {
        Direction::Horizontal => inner.right_spec(),
        Direction::Vertical => inner.bottom_spec(),
    }
}

/// `ratatui::layout::Layout::split` of a layout with the given direction,
/// margin and `Constraint::Percentage` constraints. The split solves the
/// constraints with a linear solver over floats and rounds; which of several
/// optimal solutions it returns is not shown by the source (the solver walks
/// hash maps), so the contract leaves the sizes open. It states what the
/// source's required constraints give every result: one area per
/// constraint, each spanning the area less its margin across the direction
/// (those coordinates are copied) and lying within it along the direction;
/// the first starts at the start of that area, each starts where the one
/// before ends, and the last ends at its end (the default segment size). The
/// starts and ends are rounded, and rounding keeps equal values equal and
/// whole values whole.
#[verifier::external_body]
fn split_layout(direction: Direction, margin: u16, percentages: &[u16], area: Rect) -> (r: Vec<Rect>)
    ensures
        r@.len() == percentages@.len(),
        forall|i: int|
            0 <= i < r@.len() ==> split_part(direction, margin_inner(area, margin), #[trigger] r@[i]),
        r@.len() > 0 ==> part_start(direction, r@[0]) == part_start(
            direction,
            margin_inner(area, margin),
        ),
        forall|i: int|
            0 <= i < r@.len() - 1 ==> part_end(direction, #[trigger] r@[i]) == part_start(
                direction,
                r@[i + 1],
            ),
        r@.len() > 0 ==> part_end(direction, r@[r@.len() - 1]) == area_end(
            direction,
            margin_inner(area, margin),
        ),
{
    let constraints: Vec<ratatui::layout::Constraint> = percentages.iter().map(
        |p| ratatui::layout::Constraint::Percentage(*p),
    ).collect();
    let direction = match direction {
        Direction::Horizontal => ratatui::layout::Direction::Horizontal,
        Direction::Vertical => ratatui::layout::Direction::Vertical,
    };
    let area = ratatui::layout::Rect { x: area.x, y: area.y, width: area.width, height: area.height };
    ratatui::layout::Layout::default().direction(direction).margin(margin).constraints(
        constraints,
    ).split(area).iter().map(|r| Rect { x: r.x, y: r.y, width: r.width, height: r.height }).collect()
}

/// The bars the monitor shows, as `(label, value)` pairs.
pub open spec fn sample_bars() -> Seq<(Seq<char>, u64)> {
    seq![
        (seq!['B'], 10u64),
        (seq!['C'], 20u64),
        (seq!['D'], 30u64),
        (seq!['E'], 40u64),
        (seq!['F'], 50u64),
    ]
}

/// Lays out the screen `area`: two columns (20% and 80%) inside a margin of
/// one cell, and in the right one a bar chart of the sample bars, one cell
/// wide. Returns the chart and the area to draw it in: the right column,
/// which spans the area less its margin from top to bottom, lies within it
/// and ends at its right edge (the column widths come from the layout
/// solver and are not stated).
pub fn render(area: Rect) -> (r: (BarChart, Rect))
    ensures
        split_part(Direction::Horizontal, margin_inner(area, 1), r.1),
        r.1.x + r.1.width == margin_inner(area, 1).right_spec(),
        r.0.groups().len() == 1,
        r.0.no_group_empty(),
        r.0.groups()[0].label is None,
        r.0.groups()[0].bars.len() == sample_bars().len(),
        forall|i: int|
            0 <= i < sample_bars().len() ==> #[trigger] r.0.groups()[0].bars[i] == pair_bar_view(
                sample_bars()[i].0,
                sample_bars()[i].1,
            ),
        r.0.spec_bar_width() == 1,
        r.0.spec_bar_gap() == 1,
        r.0.spec_group_gap() == 0,
        r.0.spec_block() is None,
        r.0.spec_max() is None,
        r.0.spec_direction() == Direction::Vertical,
        r.0.spec_bar_set().is_nine_levels(),
        r.0.spec_bar_style() == Style::empty(),
        r.0.spec_value_style() == Style::empty(),
        r.0.spec_label_style() == Style::empty(),
        r.0.spec_style() == Style::empty(),
{
    let percentages: Vec<u16> = vec![20, 80];
    let main_layout = split_layout(Direction::Horizontal, 1, percentages.as_slice(), area);
    let data: Vec<(&str, u64)> = vec![("B", 10), ("C", 20), ("D", 30), ("E", 40), ("F", 50)];
    proof {
        reveal_strlit("B");
        reveal_strlit("C");
        reveal_strlit("D");
        reveal_strlit("E");
        reveal_strlit("F");
        assert(data@.len() == 5);
        assert(forall|i: int| 0 <= i < 5 ==> #[trigger] data@[i].0@ == sample_bars()[i].0 && data@[i].1 == sample_bars()[i].1);
    }
    let group = BarGroup::from(data.as_slice());
    let chart = BarChart::default().data(group).bar_width(1);
    (chart, main_layout[1])
}

} // verus!
