use vstd::prelude::*;

verus! {

/// A color as 0xRRGGBB.
#[derive(Clone, Copy, Debug, PartialEq, Eq, Structural)]
pub struct Rgb(pub u32);

pub fn rgb(hex: u32) -> (c: Rgb)
    ensures
        c == Rgb(hex),
{
    Rgb(hex)
}

/// Attributes of a run of node text; a cursor anchor marks where the visual
/// cursor stands (before the run's characters or, with `cursor_after`, after).
#[derive(Clone, Copy, Debug, PartialEq, Eq, Structural)]
pub struct TextStyle {
    pub bold: bool,
    pub italic: bool,
    pub underline: bool,
    pub strikethrough: bool,
    pub color: Option<Rgb>,
    pub bg: Option<Rgb>,
    pub cursor_anchor: bool,
    pub cursor_after: bool,
}

pub open spec fn plain_style() -> TextStyle {
    TextStyle {
        bold: false,
        italic: false,
        underline: false,
        strikethrough: false,
        color: None,
        bg: None,
        cursor_anchor: false,
        cursor_after: false,
    }
}

impl TextStyle {
    pub fn new() -> (s: TextStyle)
        ensures
            s == plain_style(),
    {
        TextStyle {
            bold: false,
            italic: false,
            underline: false,
            strikethrough: false,
            color: None,
            bg: None,
            cursor_anchor: false,
            cursor_after: false,
        }
    }

    pub fn bold(self) -> (s: TextStyle)
        ensures
            s == (TextStyle { bold: true, ..self }),
    {
        TextStyle { bold: true, ..self }
    }

    pub fn italic(self) -> (s: TextStyle)
        ensures
            s == (TextStyle { italic: true, ..self }),
    {
        TextStyle { italic: true, ..self }
    }

    pub fn underline(self) -> (s: TextStyle)
        ensures
            s == (TextStyle { underline: true, ..self }),
    {
        TextStyle { underline: true, ..self }
    }

    pub fn strikethrough(self) -> (s: TextStyle)
        ensures
            s == (TextStyle { strikethrough: true, ..self }),
    {
        TextStyle { strikethrough: true, ..self }
    }

    pub fn color(self, color: Rgb) -> (s: TextStyle)
        ensures
            s == (TextStyle { color: Some(color), ..self }),
    {
        TextStyle { color: Some(color), ..self }
    }

    pub fn bg(self, color: Rgb) -> (s: TextStyle)
        ensures
            s == (TextStyle { bg: Some(color), ..self }),
    {
        TextStyle { bg: Some(color), ..self }
    }

    pub fn cursor_anchor(self, after: bool) -> (s: TextStyle)
        ensures
            s == (TextStyle { cursor_anchor: true, cursor_after: after, ..self }),
    {
        TextStyle { cursor_anchor: true, cursor_after: after, ..self }
    }
}

/// Fill and inherited text color of a container.
#[derive(Clone, Copy, Debug, PartialEq, Eq, Structural)]
pub struct BoxStyle {
    pub bg: Option<Rgb>,
    pub text_color: Option<Rgb>,
}

impl BoxStyle {
    pub fn new() -> (s: BoxStyle)
        ensures
            s.bg is None,
            s.text_color is None,
    {
        BoxStyle { bg: None, text_color: None }
    }

    pub fn bg(self, color: Rgb) -> (s: BoxStyle)
        ensures
            s == (BoxStyle { bg: Some(color), ..self }),
    {
        BoxStyle { bg: Some(color), ..self }
    }

    pub fn text_color(self, color: Rgb) -> (s: BoxStyle)
        ensures
            s == (BoxStyle { text_color: Some(color), ..self }),
    {
        BoxStyle { text_color: Some(color), ..self }
    }
}

} // verus!
