use vstd::prelude::*;

use crate::geometry::{Au, Rect};

verus! {

/// A colour with four 8-bit channels.
#[derive(Clone, Copy, Debug, PartialEq, Eq, Hash, Structural)]
pub struct Color {
    pub r: u8,
    pub g: u8,
    pub b: u8,
    pub a: u8,
}

#[derive(Clone, Copy, Debug, PartialEq, Eq, Hash, Structural)]
pub enum FontSlant {
    Normal,
    Italic,
    Oblique,
}

#[derive(Clone, Copy, Debug, PartialEq, Eq, Hash, Structural)]
pub enum FontWeight {
    Normal,
    Bold,
}

/// What a text command is drawn with. Every field is set anew for each
/// text command.
#[derive(Clone, Copy, Debug, PartialEq, Eq, Hash, Structural)]
pub struct Font {
    pub size: Au,
    pub slant: FontSlant,
    pub weight: FontWeight,
}

/// A handle on a decoded image that the host keeps.
#[derive(Clone, Copy, Debug, PartialEq, Eq, Hash, Structural)]
pub struct ImageId(pub usize);

/// One paintable unit of a display list.
#[derive(Debug)]
pub enum DisplayCommand {
    /// Fill the rectangle with the colour.
    SolidColor(Color, Rect),
    /// Scale the image to the rectangle's size and paint it at its origin.
    Image(ImageId, Rect),
    /// Draw the text at the rectangle's origin; the text is not wrapped.
    Text(String, Rect, Color, Font),
    /// Not drawn: makes the rectangle a link to the URL.
    Anchor(String, Rect),
}

/// The rectangle of a command.
pub open spec fn spec_rect_of(c: DisplayCommand) -> Rect {
    match c {
        DisplayCommand::SolidColor(_, r) => r,
        DisplayCommand::Image(_, r) => r,
        DisplayCommand::Text(_, r, _, _) => r,
        DisplayCommand::Anchor(_, r) => r,
    }
}

impl DisplayCommand {
    /// The rectangle that the command covers.
    pub fn rect(&self) -> (r: Rect)
        ensures
            r == spec_rect_of(*self),
    {
        match self {
            DisplayCommand::SolidColor(_, r) => *r,
            DisplayCommand::Image(_, r) => *r,
            DisplayCommand::Text(_, r, _, _) => *r,
            DisplayCommand::Anchor(_, r) => *r,
        }
    }
}

} // verus!
