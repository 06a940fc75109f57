//! Plain value types handed to the rendering collaborator.

use vstd::prelude::*;

verus! {

/// An RGB color, one byte per channel.
#[derive(Clone, Copy, Debug, PartialEq, Eq, Structural)]
pub struct Color {
    /// Red channel.
    pub r: u8,
    /// Green channel.
    pub g: u8,
    /// Blue channel.
    pub b: u8,
}

impl Color {
    /// Builds a color from its three channels.
    pub fn rgb(r: u8, g: u8, b: u8) -> (c: Color)
        ensures
            c == (Color { r, g, b }),
    {
        Color { r, g, b }
    }
}

/// The single clear color the renderer fills the frame with before drawing.
pub struct ClearColor(pub Color);

impl Default for ClearColor {
    /// The default clear color is black.
    fn default() -> (r: ClearColor)
        ensures
            r.0 == (Color { r: 0, g: 0, b: 0 }),
    {
        ClearColor(Color::rgb(0, 0, 0))
    }
}

} // verus!
