//! How a piece of text looks: colours and text attributes.
use vstd::prelude::*;

verus! {

/// A colour given by its red, green and blue parts.
#[derive(Clone, Copy, PartialEq, Eq, Structural, Debug)]
pub enum Color {
    Rgb(u8, u8, u8),
}

/// A set of text attributes.
#[derive(Clone, Copy, PartialEq, Eq, Structural, Debug)]
pub struct Modifier {
    pub bold: bool,
    pub dim: bool,
    pub italic: bool,
    pub underlined: bool,
    pub reversed: bool,
    pub crossed_out: bool,
}

impl Modifier {
    /// No attribute at all.
    pub open spec fn none() -> Modifier {
        Modifier {
            bold: false,
            dim: false,
            italic: false,
            underlined: false,
            reversed: false,
            crossed_out: false,
        }
    }

    /// The attributes of either set.
    pub open spec fn or(self, other: Modifier) -> Modifier {
        Modifier {
            bold: self.bold || other.bold,
            dim: self.dim || other.dim,
            italic: self.italic || other.italic,
            underlined: self.underlined || other.underlined,
            reversed: self.reversed || other.reversed,
            crossed_out: self.crossed_out || other.crossed_out,
        }
    }

    /// The empty set.
    pub fn empty() -> (set: Modifier)
        ensures
            set == Modifier::none(),
    {
        Modifier {
            bold: false,
            dim: false,
            italic: false,
            underlined: false,
            reversed: false,
            crossed_out: false,
        }
    }

    /// Bold alone.
    pub fn bold() -> (set: Modifier)
        ensures
            set == (Modifier { bold: true, ..Modifier::none() }),
    {
        Modifier { bold: true, ..Modifier::empty() }
    }

    /// Dim alone.
    pub fn dim() -> (set: Modifier)
        ensures
            set == (Modifier { dim: true, ..Modifier::none() }),
    {
        Modifier { dim: true, ..Modifier::empty() }
    }

    /// Italic alone.
    pub fn italic() -> (set: Modifier)
        ensures
            set == (Modifier { italic: true, ..Modifier::none() }),
    {
        Modifier { italic: true, ..Modifier::empty() }
    }

    /// Underlined alone.
    pub fn underlined() -> (set: Modifier)
        ensures
            set == (Modifier { underlined: true, ..Modifier::none() }),
    {
        Modifier { underlined: true, ..Modifier::empty() }
    }

    /// Reversed alone.
    pub fn reversed() -> (set: Modifier)
        ensures
            set == (Modifier { reversed: true, ..Modifier::none() }),
    {
        Modifier { reversed: true, ..Modifier::empty() }
    }

    /// Crossed out alone.
    pub fn crossed_out() -> (set: Modifier)
        ensures
            set == (Modifier { crossed_out: true, ..Modifier::none() }),
    {
        Modifier { crossed_out: true, ..Modifier::empty() }
    }

    /// The attributes of either set.
    pub fn union(self, other: Modifier) -> (set: Modifier)
        ensures
            set == self.or(other),
    {
        Modifier {
            bold: self.bold || other.bold,
            dim: self.dim || other.dim,
            italic: self.italic || other.italic,
            underlined: self.underlined || other.underlined,
            reversed: self.reversed || other.reversed,
            crossed_out: self.crossed_out || other.crossed_out,
        }
    }

    /// Whether every attribute of `other` is in this set.
    pub fn contains(self, other: Modifier) -> (answer: bool)
        ensures
            answer == (self.or(other) == self),
    {
        self.union(other) == self
    }
}

/// How a span is drawn: optional colours and the attributes that are switched on.
#[derive(Clone, Copy, PartialEq, Eq, Structural, Debug)]
pub struct Style {
    pub fg: Option<Color>,
    pub bg: Option<Color>,
    pub add_modifier: Modifier,
}

impl Style {
    /// No colour and no attribute.
    pub open spec fn plain() -> Style {
        Style { fg: None, bg: None, add_modifier: Modifier::none() }
    }

    /// This style with more attributes switched on.
    pub open spec fn with(self, modifier: Modifier) -> Style {
        Style { add_modifier: self.add_modifier.or(modifier), ..self }
    }

    /// This style overlaid by another: its colours win where it has any, attributes add up.
    pub open spec fn overlaid(self, top: Style) -> Style {
        Style {
            fg: if top.fg is Some {
                top.fg
            } else {
                self.fg
            },
            bg: if top.bg is Some {
                top.bg
            } else {
                self.bg
            },
            add_modifier: self.add_modifier.or(top.add_modifier),
        }
    }

    /// The plain style.
    pub fn new() -> (style: Style)
        ensures
            style == Style::plain(),
    {
        Style { fg: None, bg: None, add_modifier: Modifier::empty() }
    }

    /// This style with more attributes switched on.
    pub fn add_modifier(self, modifier: Modifier) -> (style: Style)
        ensures
            style == self.with(modifier),
    {
        Style { fg: self.fg, bg: self.bg, add_modifier: self.add_modifier.union(modifier) }
    }

    /// This style with another text colour.
    pub fn fg(self, color: Color) -> (style: Style)
        ensures
            style == (Style { fg: Some(color), ..self }),
    {
        Style { fg: Some(color), bg: self.bg, add_modifier: self.add_modifier }
    }

    /// This style with another background colour.
    pub fn bg(self, color: Color) -> (style: Style)
        ensures
            style == (Style { bg: Some(color), ..self }),
    {
        Style { fg: self.fg, bg: Some(color), add_modifier: self.add_modifier }
    }

    /// This style overlaid by another: its colours win where it has any, attributes add up.
    pub fn patch(self, top: Style) -> (style: Style)
        ensures
            style == self.overlaid(top),
    {
        Style {
            fg: if top.fg.is_some() {
                top.fg
            } else {
                self.fg
            },
            bg: if top.bg.is_some() {
                top.bg
            } else {
                self.bg
            },
            add_modifier: self.add_modifier.union(top.add_modifier),
        }
    }
}

impl Default for Style {
    fn default() -> (style: Style)
        ensures
            style == Style::plain(),
    {
        Style::new()
    }
}

} // verus!
