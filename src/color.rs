use vstd::prelude::*;

verus! {

/// An RGB colour with one byte per channel (0 is none of the channel, 255 is all of it).
#[derive(Debug, Clone, Copy, PartialEq, Eq, Structural)]
pub struct Color {
    pub r: u8,
    pub g: u8,
    pub b: u8,
}

/// Relies on rand::random::<u8>: some byte, every value possible.
#[verifier::external_body]
fn random_channel() -> (r: u8) {
    rand::random::<u8>()
}

impl Color {
    pub open spec fn black_spec() -> Color {
        Color { r: 0, g: 0, b: 0 }
    }

    pub fn new(r: u8, g: u8, b: u8) -> (c: Color)
        ensures
            c == (Color { r, g, b }),
    {
        Color { r, g, b }
    }

    pub fn black() -> (c: Color)
        ensures
            c == (Color { r: 0, g: 0, b: 0 }),
    {
        Color { r: 0, g: 0, b: 0 }
    }

    /// A colour whose channels are drawn independently and uniformly; used as a
    /// placeholder shade for triangles that have no colour of their own.
    pub fn random() -> (c: Color) {
        let r = random_channel();
        let g = random_channel();
        let b = random_channel();
        Color { r, g, b }
    }

    pub fn r(&self) -> (v: u8)
        ensures
            v == self.r,
    {
        self.r
    }

    pub fn g(&self) -> (v: u8)
        ensures
            v == self.g,
    {
        self.g
    }

    pub fn b(&self) -> (v: u8)
        ensures
            v == self.b,
    {
        self.b
    }
}

} // verus!
