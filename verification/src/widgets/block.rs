//! A frame drawn around a widget: borders, titles and padding, and the area
//! it leaves inside for the widget itself.

use vstd::prelude::*;

use crate::layout::{Rect, sat_add, sat_sub};
use crate::style::Style;
use crate::text::{Alignment, Line, LineView, SpanView};

verus! {

/// Which sides of a block carry a border.
#[derive(Clone, Copy, Debug, PartialEq, Eq, Hash, Structural)]
pub struct Borders {
    pub top: bool,
    pub right: bool,
    pub bottom: bool,
    pub left: bool,
}

impl Borders {
    /// No border.
    pub fn none() -> (r: Borders)
        ensures
            !r.top && !r.right && !r.bottom && !r.left,
    {
        Borders { top: false, right: false, bottom: false, left: false }
    }

    /// A border on all four sides.
    pub fn all() -> (r: Borders)
        ensures
            r.top && r.right && r.bottom && r.left,
    {
        Borders { top: true, right: true, bottom: true, left: true }
    }
}

/// The line symbols a border is drawn with.
#[derive(Clone, Copy, Debug, PartialEq, Eq, Hash, Structural)]
pub enum BorderType {
    Plain,
    Rounded,
    Double,
    Thick,
    QuadrantInside,
    QuadrantOutside,
}

/// Empty cells kept between a block's borders and what it holds, per side.
#[derive(Clone, Copy, Debug, PartialEq, Eq, Hash, Structural)]
pub struct Padding {
    pub left: u16,
    pub right: u16,
    pub top: u16,
    pub bottom: u16,
}

impl Padding {
    /// No padding.
    pub fn zero() -> (r: Padding)
        ensures
            r == (Padding { left: 0, right: 0, top: 0, bottom: 0 }),
    {
        Padding { left: 0, right: 0, top: 0, bottom: 0 }
    }

    /// The padding with the given sides.
    pub fn new(left: u16, right: u16, top: u16, bottom: u16) -> (r: Padding)
        ensures
            r == (Padding { left, right, top, bottom }),
    {
        Padding { left, right, top, bottom }
    }
}

/// Whether a title stands on a block's top or bottom border.
#[derive(Clone, Copy, Debug, PartialEq, Eq, Hash, Structural)]
pub enum Position {
    Top,
    Bottom,
}

/// A title of a block: its text, and where it stands when that is not the
/// block's default.
#[derive(Debug, PartialEq, Eq, Hash)]
pub struct Title {
    pub content: Line,
    pub alignment: Option<Alignment>,
    pub position: Option<Position>,
}

impl Title {
    /// A title of unstyled text, placed as the block places its titles.
    pub fn raw(content: &str) -> (r: Title)
        ensures
            r.content@ == (LineView {
                spans: seq![SpanView { content: content@, style: Style::empty() }],
                alignment: None,
            }),
            r.alignment is None,
            r.position is None,
    {
        Title { content: Line::raw(content), alignment: None, position: None }
    }

    /// The same title, aligned as `alignment` says.
    pub fn alignment(self, alignment: Alignment) -> (r: Title)
        ensures
            r == (Title { alignment: Some(alignment), ..self }),
    {
        Title { alignment: Some(alignment), ..self }
    }

    /// The same title, at `position`.
    pub fn position(self, position: Position) -> (r: Title)
        ensures
            r == (Title { position: Some(position), ..self }),
    {
        Title { position: Some(position), ..self }
    }
}

/// A frame around a widget: titles (with their default style, alignment and
/// position), borders and their style and symbols, a style for the whole
/// block, and padding.
#[derive(Debug, PartialEq, Eq, Hash)]
pub struct Block {
    pub titles: Vec<Title>,
    pub titles_style: Style,
    pub titles_alignment: Alignment,
    pub titles_position: Position,
    pub borders: Borders,
    pub border_style: Style,
    pub border_type: BorderType,
    pub style: Style,
    pub padding: Padding,
}

impl Block {
    /// A block without titles, borders or padding, in plain lines and the
    /// empty style; titles go left on the top border.
    pub fn new() -> (r: Block)
        ensures
            r.titles@.len() == 0,
            r.titles_style == Style::empty(),
            r.titles_alignment == Alignment::Left,
            r.titles_position == Position::Top,
            r.borders == (Borders { top: false, right: false, bottom: false, left: false }),
            r.border_style == Style::empty(),
            r.border_type == BorderType::Plain,
            r.style == Style::empty(),
            r.padding == (Padding { left: 0, right: 0, top: 0, bottom: 0 }),
    {
        Block {
            titles: Vec::new(),
            titles_style: Style::new(),
            titles_alignment: Alignment::Left,
            titles_position: Position::Top,
            borders: Borders::none(),
            border_style: Style::new(),
            border_type: BorderType::Plain,
            style: Style::new(),
            padding: Padding::zero(),
        }
    }

    /// The same block with `title` after its other titles.
    pub fn title(self, title: Title) -> (r: Block)
        ensures
            r.titles@ == self.titles@.push(title),
            r == (Block { titles: r.titles, ..self }),
    {
        let mut b = self;
        b.titles.push(title);
        b
    }

    /// The same block, its titles laid over `style`.
    pub fn title_style(self, style: Style) -> (r: Block)
        ensures
            r == (Block { titles_style: style, ..self }),
    {
        Block { titles_style: style, ..self }
    }

    /// The same block, titles without an alignment of their own aligned as `alignment` says.
    pub fn title_alignment(self, alignment: Alignment) -> (r: Block)
        ensures
            r == (Block { titles_alignment: alignment, ..self }),
    {
        Block { titles_alignment: alignment, ..self }
    }

    /// The same block, titles without a position of their own at `position`.
    pub fn title_position(self, position: Position) -> (r: Block)
        ensures
            r == (Block { titles_position: position, ..self }),
    {
        Block { titles_position: position, ..self }
    }

    /// The same block, its borders drawn in `style`.
    pub fn border_style(self, style: Style) -> (r: Block)
        ensures
            r == (Block { border_style: style, ..self }),
    {
        Block { border_style: style, ..self }
    }

    /// The same block, with `style` over its whole area.
    pub fn style(self, style: Style) -> (r: Block)
        ensures
            r == (Block { style: style, ..self }),
    {
        Block { style: style, ..self }
    }

    /// The same block, with borders on the sides `borders` names.
    pub fn borders(self, borders: Borders) -> (r: Block)
        ensures
            r == (Block { borders: borders, ..self }),
    {
        Block { borders: borders, ..self }
    }

    /// The same block, its borders drawn with the symbols of `border_type`.
    pub fn border_type(self, border_type: BorderType) -> (r: Block)
        ensures
            r == (Block { border_type: border_type, ..self }),
    {
        Block { border_type: border_type, ..self }
    }

    /// The same block, with `padding` inside its borders.
    pub fn padding(self, padding: Padding) -> (r: Block)
        ensures
            r == (Block { padding: padding, ..self }),
    {
        Block { padding: padding, ..self }
    }

    /// Where `title` stands: at its own position, or else at the block's default.
    pub open spec fn place_of(self, title: Title) -> Position {
        match title.position {
            Some(p) => p,
            None => self.titles_position,
        }
    }

    /// Whether some title stands at `position` (its own, or the block's default).
    pub open spec fn has_title_at(self, position: Position) -> bool {
        exists|i: int|
            0 <= i < self.titles@.len() && self.place_of(#[trigger] self.titles@[i])
                == position
    }

    /// Whether some title stands at `position`.
    pub fn have_title_at_position(&self, position: Position) -> (r: bool)
        ensures
            r == self.has_title_at(position),
    {
        let mut i: usize = 0;
        while i < self.titles.len()
            invariant
                i <= self.titles@.len(),
                forall|j: int|
                    0 <= j < i ==> self.place_of(#[trigger] self.titles@[j]) != position,
            decreases self.titles@.len() - i,
        {
            let p = match self.titles[i].position {
                Some(p) => p,
                None => self.titles_position,
            };
            if p == position {
                return true;
            }
            i = i + 1;
        }
        false
    }

    /// Whether the left and right paddings, and the top and bottom ones, add
    /// up within `u16`.
    pub open spec fn padding_fits(self) -> bool {
        &&& self.padding.left + self.padding.right <= u16::MAX
        &&& self.padding.top + self.padding.bottom <= u16::MAX
    }

    /// The area left inside the block drawn over `area`: the area less one
    /// cell on each side that has a border (on the top and bottom also for a
    /// title standing there) and less the padding on each side, all
    /// saturating; a border never moves the corner past the far edge.
    pub open spec fn inner_spec(self, area: Rect) -> Rect {
        let l: int = if self.borders.left { 1 } else { 0 };
        let r: int = if self.borders.right { 1 } else { 0 };
        let t: int = if self.borders.top || self.has_title_at(Position::Top) { 1 } else { 0 };
        let b: int = if self.borders.bottom || self.has_title_at(Position::Bottom) { 1 } else { 0 };
        let x = if area.x + l < area.right_spec() { area.x + l } else { area.right_spec() };
        let y = if area.y + t < area.bottom_spec() { area.y + t } else { area.bottom_spec() };
        Rect {
            x: sat_add(x, self.padding.left as int) as u16,
            y: sat_add(y, self.padding.top as int) as u16,
            width: sat_sub(area.width as int, l + r + self.padding.left + self.padding.right) as u16,
            height: sat_sub(area.height as int, t + b + self.padding.top + self.padding.bottom) as u16,
        }
    }

    /// The area inside the block never starts before `area` and, where it is
    /// not empty, never ends after it.
    pub proof fn lemma_inner_within(self, area: Rect)
        ensures
            self.inner_spec(area).x >= area.x,
            self.inner_spec(area).y >= area.y,
            self.inner_spec(area).width > 0 ==> self.inner_spec(area).x + self.inner_spec(area).width
                <= area.x + area.width,
            self.inner_spec(area).height > 0 ==> self.inner_spec(area).y + self.inner_spec(area).height
                <= area.y + area.height,
    {
    }

    /// The area left inside the block drawn over `area` (see `inner_spec`).
    /// It never starts before `area` and, where it is not empty, never ends
    /// after it.
    pub fn inner(&self, area: Rect) -> (r: Rect)
        requires
            self.padding_fits(),
        ensures
            r == self.inner_spec(area),
            r.x >= area.x,
            r.y >= area.y,
            r.width > 0 ==> r.x + r.width <= area.x + area.width,
            r.height > 0 ==> r.y + r.height <= area.y + area.height,
    {
        let mut inner = area;
        if self.borders.left {
            let x = inner.x.saturating_add(1);
            let right = inner.right();
            inner.x = if x < right { x } else { right };
            inner.width = inner.width.saturating_sub(1);
        }
        if self.borders.top || self.have_title_at_position(Position::Top) {
            let y = inner.y.saturating_add(1);
            let bottom = inner.bottom();
            inner.y = if y < bottom { y } else { bottom };
            inner.height = inner.height.saturating_sub(1);
        }
        if self.borders.right {
            inner.width = inner.width.saturating_sub(1);
        }
        if self.borders.bottom || self.have_title_at_position(Position::Bottom) {
            inner.height = inner.height.saturating_sub(1);
        }
        inner.x = inner.x.saturating_add(self.padding.left);
        inner.y = inner.y.saturating_add(self.padding.top);
        inner.width = inner.width.saturating_sub(self.padding.left + self.padding.right);
        inner.height = inner.height.saturating_sub(self.padding.top + self.padding.bottom);
        inner
    }
}

impl Title {
    /// Whether the two titles hold the same text, alignment and position.
    pub open spec fn same_as(self, other: Title) -> bool {
        &&& self.content@ == other.content@
        &&& self.alignment == other.alignment
        &&& self.position == other.position
    }
}

impl Clone for Title {
    fn clone(&self) -> (r: Title)
        ensures
            r.same_as(*self),
    {
        Title { content: self.content.clone(), alignment: self.alignment, position: self.position }
    }
}

impl Block {
    /// Whether the two blocks hold the same titles (text, alignment and
    /// position) and agree on everything else.
    pub open spec fn same_as(self, other: Block) -> bool {
        &&& self.titles@.len() == other.titles@.len()
        &&& forall|i: int|
            0 <= i < self.titles@.len() ==> #[trigger] self.titles@[i].same_as(other.titles@[i])
        &&& self.titles_style == other.titles_style
        &&& self.titles_alignment == other.titles_alignment
        &&& self.titles_position == other.titles_position
        &&& self.borders == other.borders
        &&& self.border_style == other.border_style
        &&& self.border_type == other.border_type
        &&& self.style == other.style
        &&& self.padding == other.padding
    }
}

impl Clone for Block {
    fn clone(&self) -> (r: Block)
        ensures
            r.same_as(*self),
    {
        let mut titles: Vec<Title> = Vec::new();
        let mut i: usize = 0;
        while i < self.titles.len()
            invariant
                i <= self.titles@.len(),
                titles@.len() == i,
                forall|j: int| 0 <= j < i ==> #[trigger] titles@[j].same_as(self.titles@[j]),
            decreases self.titles@.len() - i,
        {
            titles.push(self.titles[i].clone());
            i = i + 1;
        }
        Block {
            titles,
            titles_style: self.titles_style,
            titles_alignment: self.titles_alignment,
            titles_position: self.titles_position,
            borders: self.borders,
            border_style: self.border_style,
            border_type: self.border_type,
            style: self.style,
            padding: self.padding,
        }
    }
}

impl Default for Block {
    fn default() -> (r: Block)
        ensures
            r.titles@.len() == 0,
            r.titles_style == Style::empty(),
            r.titles_alignment == Alignment::Left,
            r.titles_position == Position::Top,
            r.borders == (Borders { top: false, right: false, bottom: false, left: false }),
            r.border_style == Style::empty(),
            r.border_type == BorderType::Plain,
            r.style == Style::empty(),
            r.padding == (Padding { left: 0, right: 0, top: 0, bottom: 0 }),
    {
        Block::new()
    }
}

/// A title stands at `position` exactly when its own position is
/// `position`, or it has none and the block places its titles there.
pub proof fn lemma_title_place(block: Block, position: Position)
    ensures
        block.has_title_at(position) <==> exists|i: int|
            0 <= i < block.titles@.len() && (#[trigger] block.titles@[i].position == Some(position)
                || (block.titles@[i].position is None && block.titles_position == position)),
{
    if block.has_title_at(position) {
        let i = choose|i: int|
            0 <= i < block.titles@.len() && block.place_of(#[trigger] block.titles@[i]) == position;
        assert(block.titles@[i].position == Some(position) || (block.titles@[i].position is None
            && block.titles_position == position));
    }
    if exists|i: int|
        0 <= i < block.titles@.len() && (#[trigger] block.titles@[i].position == Some(position) || (
        block.titles@[i].position is None && block.titles_position == position)) {
        let i = choose|i: int|
            0 <= i < block.titles@.len() && (#[trigger] block.titles@[i].position == Some(position) || (
            block.titles@[i].position is None && block.titles_position == position));
        assert(block.place_of(block.titles@[i]) == position);
    }
}

/// A block without borders or padding whose titles have no position of
/// their own keeps one row for them, on the side its titles go: the top row
/// (the area starts one row lower) or the bottom row (the area keeps its
/// top); without titles it keeps the whole area.
pub proof fn lemma_title_row_kept(block: Block, area: Rect)
    requires
        block.borders == (Borders { top: false, right: false, bottom: false, left: false }),
        block.padding == (Padding { left: 0, right: 0, top: 0, bottom: 0 }),
        forall|i: int| 0 <= i < block.titles@.len() ==> (#[trigger] block.titles@[i]).position is None,
        area.height >= 1,
        area.y + area.height <= u16::MAX,
    ensures
        block.titles@.len() == 0 ==> block.inner_spec(area) == area,
        block.titles@.len() > 0 && block.titles_position == Position::Top ==> block.inner_spec(area)
            == (Rect { x: area.x, y: (area.y + 1) as u16, width: area.width, height: (area.height - 1) as u16 }),
        block.titles@.len() > 0 && block.titles_position == Position::Bottom ==> block.inner_spec(
            area,
        ) == (Rect { x: area.x, y: area.y, width: area.width, height: (area.height - 1) as u16 }),
{
    lemma_title_place(block, Position::Top);
    lemma_title_place(block, Position::Bottom);
    if block.titles@.len() > 0 {
        assert(block.titles@[0].position is None);
    }
}

/// In an area with room for them, a block takes one column for a left or
/// right border, one row for a top or bottom border (or a title standing on
/// that side), and then its padding on each side: the area inside starts
/// that far in and is that much smaller.
pub proof fn lemma_inner_takes_borders_and_padding(block: Block, area: Rect)
    requires
        area.x + area.width <= u16::MAX,
        area.y + area.height <= u16::MAX,
        ({
            let l: int = if block.borders.left { 1 } else { 0 };
            let r: int = if block.borders.right { 1 } else { 0 };
            l + r + block.padding.left + block.padding.right <= area.width
        }),
        ({
            let t: int = if block.borders.top || block.has_title_at(Position::Top) { 1 } else { 0 };
            let b: int = if block.borders.bottom || block.has_title_at(Position::Bottom) { 1 } else { 0 };
            t + b + block.padding.top + block.padding.bottom <= area.height
        }),
    ensures
        ({
            let l: int = if block.borders.left { 1 } else { 0 };
            let r: int = if block.borders.right { 1 } else { 0 };
            let t: int = if block.borders.top || block.has_title_at(Position::Top) { 1 } else { 0 };
            let b: int = if block.borders.bottom || block.has_title_at(Position::Bottom) { 1 } else { 0 };
            block.inner_spec(area) == (Rect {
                x: (area.x + l + block.padding.left) as u16,
                y: (area.y + t + block.padding.top) as u16,
                width: (area.width - l - r - block.padding.left - block.padding.right) as u16,
                height: (area.height - t - b - block.padding.top - block.padding.bottom) as u16,
            })
        }),
{
}

} // verus!
