//! Colors and styles of terminal cells, and how one style is laid over another.

use vstd::prelude::*;

verus! {

/// A terminal color.
#[derive(Clone, Copy, Debug, PartialEq, Eq, Hash)]
pub enum Color {
    Reset,
    Black,
    Red,
    Green,
    Yellow,
    Blue,
    Magenta,
    Cyan,
    Gray,
    DarkGray,
    LightRed,
    LightGreen,
    LightYellow,
    LightBlue,
    LightMagenta,
    LightCyan,
    White,
    Rgb(u8, u8, u8),
    Indexed(u8),
}

/// How a cell is drawn. A color left at `None` and a modifier bit left clear keep
/// whatever the cell already has; `add_modifier` and `sub_modifier` are bit sets
/// of text attributes (bold, italic, ...) to switch on and off.
#[derive(Clone, Copy, Debug, PartialEq, Eq, Hash)]
pub struct Style {
    pub fg: Option<Color>,
    pub bg: Option<Color>,
    pub underline_color: Option<Color>,
    pub add_modifier: u16,
    pub sub_modifier: u16,
}

/// `preferred` where it is set, else `fallback`.
pub open spec fn or_color(preferred: Option<Color>, fallback: Option<Color>) -> Option<Color> {
    match preferred {
        Some(c) => Some(c),
        None => fallback,
    }
}

fn pick_color(preferred: Option<Color>, fallback: Option<Color>) -> (r: Option<Color>)
    ensures
        r == or_color(preferred, fallback),
{
    match preferred {
        Some(c) => Some(c),
        None => fallback,
    }
}

impl Style {
    /// The style that changes nothing.
    pub open spec fn empty() -> Style {
        Style { fg: None, bg: None, underline_color: None, add_modifier: 0, sub_modifier: 0 }
    }

    /// `other` laid over `self`: each color that `other` sets wins, the
    /// modifiers that `other` removes are dropped from those `self` adds, the
    /// ones it adds are dropped from those `self` removes, and `other`'s own
    /// additions and removals are kept.
    pub open spec fn patch_spec(self, other: Style) -> Style {
        Style {
            fg: or_color(other.fg, self.fg),
            bg: or_color(other.bg, self.bg),
            underline_color: or_color(other.underline_color, self.underline_color),
            add_modifier: (self.add_modifier & !other.sub_modifier) | other.add_modifier,
            sub_modifier: (self.sub_modifier & !other.add_modifier) | other.sub_modifier,
        }
    }

    /// The style that changes nothing.
    pub fn new() -> (r: Style)
        ensures
            r == Style::empty(),
    {
        Style { fg: None, bg: None, underline_color: None, add_modifier: 0, sub_modifier: 0 }
    }

    /// Lays `other` over this style (see `patch_spec`).
    pub fn patch(self, other: Style) -> (r: Style)
        ensures
            r == self.patch_spec(other),
    {
        Style {
            fg: pick_color(other.fg, self.fg),
            bg: pick_color(other.bg, self.bg),
            underline_color: pick_color(other.underline_color, self.underline_color),
            add_modifier: (self.add_modifier & !other.sub_modifier) | other.add_modifier,
            sub_modifier: (self.sub_modifier & !other.add_modifier) | other.sub_modifier,
        }
    }
}

impl Default for Style {
    fn default() -> (r: Style)
        ensures
            r == Style::empty(),
    {
        Style::new()
    }
}

/// The empty style is a neutral element: laying it over a style, or a style
/// over it, gives that style back.
pub proof fn lemma_patch_empty(s: Style)
    ensures
        s.patch_spec(Style::empty()) == s,
        Style::empty().patch_spec(s) == s,
{
    let a = s.add_modifier;
    let b = s.sub_modifier;
    assert((a & !0u16) | 0u16 == a) by (bit_vector);
    assert((b & !0u16) | 0u16 == b) by (bit_vector);
    assert((0u16 & !b) | a == a) by (bit_vector);
    assert((0u16 & !a) | b == b) by (bit_vector);
}

/// Laying styles over one another is associative: patching with `b` and then
/// with `c` is patching with `b` patched by `c`.
pub proof fn lemma_patch_associative(a: Style, b: Style, c: Style)
    ensures
        a.patch_spec(b).patch_spec(c) == a.patch_spec(b.patch_spec(c)),
{
    let (aa, asub, ba, bs, ca, cs) = (
        a.add_modifier,
        a.sub_modifier,
        b.add_modifier,
        b.sub_modifier,
        c.add_modifier,
        c.sub_modifier,
    );
    assert((((aa & !bs) | ba) & !cs) | ca == (aa & !((bs & !ca) | cs)) | ((ba & !cs) | ca))
        by (bit_vector);
    assert((((asub & !ba) | bs) & !ca) | cs == (asub & !((ba & !cs) | ca)) | ((bs & !ca) | cs))
        by (bit_vector);
}

} // verus!
