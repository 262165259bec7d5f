//! RGB colors used to tag tiles, entities and log messages for the
//! (external) rendering layer.

use vstd::prelude::*;

verus! {

/// An RGB color. The core never interprets colors; they are carried along
/// so a renderer can shade tiles, glyphs and messages.
#[derive(Clone, Copy, Debug, PartialEq, Eq, Structural)]
pub struct Color {
    pub r: u8,
    pub g: u8,
    pub b: u8,
}

pub open spec fn spec_white() -> Color {
    Color { r: 255, g: 255, b: 255 }
}

pub open spec fn spec_black() -> Color {
    Color { r: 0, g: 0, b: 0 }
}

pub open spec fn spec_red() -> Color {
    Color { r: 255, g: 0, b: 0 }
}

pub open spec fn spec_green() -> Color {
    Color { r: 0, g: 255, b: 0 }
}

pub open spec fn spec_orange() -> Color {
    Color { r: 255, g: 127, b: 0 }
}

pub open spec fn spec_dark_red() -> Color {
    Color { r: 191, g: 0, b: 0 }
}

pub open spec fn spec_violet() -> Color {
    Color { r: 127, g: 0, b: 255 }
}

pub open spec fn spec_light_violet() -> Color {
    Color { r: 185, g: 115, b: 255 }
}

pub open spec fn spec_light_green() -> Color {
    Color { r: 115, g: 255, b: 115 }
}

pub open spec fn spec_light_yellow() -> Color {
    Color { r: 255, g: 255, b: 115 }
}

pub open spec fn spec_light_azure() -> Color {
    Color { r: 115, g: 170, b: 255 }
}

pub open spec fn spec_lighter_blue() -> Color {
    Color { r: 165, g: 165, b: 255 }
}

pub open spec fn spec_light_red() -> Color {
    Color { r: 255, g: 115, b: 115 }
}

pub open spec fn spec_desaturated_green() -> Color {
    Color { r: 63, g: 127, b: 63 }
}

pub open spec fn spec_darker_green() -> Color {
    Color { r: 0, g: 127, b: 0 }
}

impl Color {
    pub fn new(r: u8, g: u8, b: u8) -> (c: Color)
        ensures
            c == (Color { r, g, b }),
    {
        Color { r, g, b }
    }

    pub fn white() -> (c: Color)
        ensures
            c == spec_white(),
    {
        Color { r: 255, g: 255, b: 255 }
    }

    pub fn black() -> (c: Color)
        ensures
            c == spec_black(),
    {
        Color { r: 0, g: 0, b: 0 }
    }

    pub fn red() -> (c: Color)
        ensures
            c == spec_red(),
    {
        Color { r: 255, g: 0, b: 0 }
    }

    pub fn green() -> (c: Color)
        ensures
            c == spec_green(),
    {
        Color { r: 0, g: 255, b: 0 }
    }

    pub fn orange() -> (c: Color)
        ensures
            c == spec_orange(),
    {
        Color { r: 255, g: 127, b: 0 }
    }

    pub fn dark_red() -> (c: Color)
        ensures
            c == spec_dark_red(),
    {
        Color { r: 191, g: 0, b: 0 }
    }

    pub fn violet() -> (c: Color)
        ensures
            c == spec_violet(),
    {
        Color { r: 127, g: 0, b: 255 }
    }

    pub fn light_violet() -> (c: Color)
        ensures
            c == spec_light_violet(),
    {
        Color { r: 185, g: 115, b: 255 }
    }

    pub fn light_green() -> (c: Color)
        ensures
            c == spec_light_green(),
    {
        Color { r: 115, g: 255, b: 115 }
    }

    pub fn light_yellow() -> (c: Color)
        ensures
            c == spec_light_yellow(),
    {
        Color { r: 255, g: 255, b: 115 }
    }

    pub fn light_azure() -> (c: Color)
        ensures
            c == spec_light_azure(),
    {
        Color { r: 115, g: 170, b: 255 }
    }

    pub fn lighter_blue() -> (c: Color)
        ensures
            c == spec_lighter_blue(),
    {
        Color { r: 165, g: 165, b: 255 }
    }

    pub fn light_red() -> (c: Color)
        ensures
            c == spec_light_red(),
    {
        Color { r: 255, g: 115, b: 115 }
    }

    pub fn desaturated_green() -> (c: Color)
        ensures
            c == spec_desaturated_green(),
    {
        Color { r: 63, g: 127, b: 63 }
    }

    pub fn darker_green() -> (c: Color)
        ensures
            c == spec_darker_green(),
    {
        Color { r: 0, g: 127, b: 0 }
    }
}

} // verus!
