//! Colours attached to entities, tiles and log entries.

use vstd::prelude::*;

verus! {

/// A 24-bit colour.
#[derive(Clone, Copy, Debug, PartialEq, Eq, Structural)]
pub struct Color {
    pub r: u8,
    pub g: u8,
    pub b: u8,
}

impl Color {
    /// Pure black.
    pub open spec fn black_spec() -> Color {
        Color { r: 0, g: 0, b: 0 }
    }

    /// Pure black.
    #[verifier::when_used_as_spec(black_spec)]
    pub fn black() -> (color: Color)
        ensures
            color == Color::black_spec(),
    {
        Color { r: 0, g: 0, b: 0 }
    }

    /// Pure white.
    pub open spec fn white_spec() -> Color {
        Color { r: 255, g: 255, b: 255 }
    }

    /// Pure white.
    #[verifier::when_used_as_spec(white_spec)]
    pub fn white() -> (color: Color)
        ensures
            color == Color::white_spec(),
    {
        Color { r: 255, g: 255, b: 255 }
    }

    /// The red of remains.
    pub open spec fn dark_red_spec() -> Color {
        Color { r: 191, g: 0, b: 0 }
    }

    /// The red of remains.
    #[verifier::when_used_as_spec(dark_red_spec)]
    pub fn dark_red() -> (color: Color)
        ensures
            color == Color::dark_red_spec(),
    {
        Color { r: 191, g: 0, b: 0 }
    }

    /// Pure blue.
    pub open spec fn blue_spec() -> Color {
        Color { r: 0, g: 0, b: 255 }
    }

    /// Pure blue.
    #[verifier::when_used_as_spec(blue_spec)]
    pub fn blue() -> (color: Color)
        ensures
            color == Color::blue_spec(),
    {
        Color { r: 0, g: 0, b: 255 }
    }

    /// A wall that is out of sight.
    pub open spec fn dark_wall_spec() -> Color {
        Color { r: 0, g: 50, b: 50 }
    }

    /// A wall that is out of sight.
    #[verifier::when_used_as_spec(dark_wall_spec)]
    pub fn dark_wall() -> (color: Color)
        ensures
            color == Color::dark_wall_spec(),
    {
        Color { r: 0, g: 50, b: 50 }
    }

    /// A wall in the field of view.
    pub open spec fn light_wall_spec() -> Color {
        Color { r: 70, g: 100, b: 80 }
    }

    /// A wall in the field of view.
    #[verifier::when_used_as_spec(light_wall_spec)]
    pub fn light_wall() -> (color: Color)
        ensures
            color == Color::light_wall_spec(),
    {
        Color { r: 70, g: 100, b: 80 }
    }

    /// Floor that is out of sight.
    pub open spec fn dark_ground_spec() -> Color {
        Color { r: 10, g: 20, b: 25 }
    }

    /// Floor that is out of sight.
    #[verifier::when_used_as_spec(dark_ground_spec)]
    pub fn dark_ground() -> (color: Color)
        ensures
            color == Color::dark_ground_spec(),
    {
        Color { r: 10, g: 20, b: 25 }
    }

    /// Floor in the field of view.
    pub open spec fn light_ground_spec() -> Color {
        Color { r: 170, g: 140, b: 25 }
    }

    /// Floor in the field of view.
    #[verifier::when_used_as_spec(light_ground_spec)]
    pub fn light_ground() -> (color: Color)
        ensures
            color == Color::light_ground_spec(),
    {
        Color { r: 170, g: 140, b: 25 }
    }

}

/// The colour of a cell, from whether it is in the field of view and whether
/// it is a wall.
pub open spec fn tile_color_spec(visible: bool, wall: bool) -> Color {
    if visible {
        if wall {
            Color::light_wall()
        } else {
            Color::light_ground()
        }
    } else {
        if wall {
            Color::dark_wall()
        } else {
            Color::dark_ground()
        }
    }
}

/// The colour in which a cell is drawn.
#[verifier::when_used_as_spec(tile_color_spec)]
pub fn tile_color(visible: bool, wall: bool) -> (color: Color)
    ensures
        color == tile_color_spec(visible, wall),
{
    match (visible, wall) {
        (false, true) => Color::dark_wall(),
        (false, false) => Color::dark_ground(),
        (true, true) => Color::light_wall(),
        (true, false) => Color::light_ground(),
    }
}

} // verus!
