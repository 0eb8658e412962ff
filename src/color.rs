use vstd::prelude::*;

verus! {

/// A colour as the drawing layer sees it: red, green and blue channels.
#[derive(Clone, Copy, Debug, PartialEq, Eq, Structural)]
pub struct Color {
    pub r: u8,
    pub g: u8,
    pub b: u8,
}

/// A pixel in the device's own layout: blue, green, red, and a reserved
/// byte that is always zero.
#[derive(Clone, Copy, Debug, PartialEq, Eq, Structural)]
pub struct NativePixel {
    pub blue: u8,
    pub green: u8,
    pub red: u8,
    pub reserved: u8,
}

/// The device pixel that shows colour `c`.
pub open spec fn native_of(c: Color) -> NativePixel {
    NativePixel { blue: c.b, green: c.g, red: c.r, reserved: 0 }
}

/// The colour that device pixel `p` shows.
pub open spec fn color_of(p: NativePixel) -> Color {
    Color { r: p.red, g: p.green, b: p.blue }
}

impl Color {
    /// Black: every channel zero.
    pub fn black() -> (c: Color)
        ensures
            c == (Color { r: 0, g: 0, b: 0 }),
    {
        Color { r: 0, g: 0, b: 0 }
    }

    pub fn new(r: u8, g: u8, b: u8) -> (c: Color)
        ensures
            c == (Color { r, g, b }),
    {
        Color { r, g, b }
    }

    pub fn r(&self) -> (v: u8)
        ensures
            v == self.r,
    {
        self.r
    }

    pub fn g(&self) -> (v: u8)
        ensures
            v == self.g,
    {
        self.g
    }

    pub fn b(&self) -> (v: u8)
        ensures
            v == self.b,
    {
        self.b
    }

    /// The device pixel for this colour, channel by channel.
    pub fn to_native(&self) -> (p: NativePixel)
        ensures
            p == native_of(*self),
    {
        NativePixel::new(self.r, self.g, self.b)
    }
}

impl NativePixel {
    /// A device pixel from its red, green and blue channels.
    pub fn new(red: u8, green: u8, blue: u8) -> (p: NativePixel)
        ensures
            p == (NativePixel { blue, green, red, reserved: 0 }),
    {
        NativePixel { blue, green, red, reserved: 0 }
    }

    /// The colour this pixel shows.
    pub fn to_color(&self) -> (c: Color)
        ensures
            c == color_of(*self),
    {
        Color { r: self.red, g: self.green, b: self.blue }
    }
}

/// Converting a colour to a device pixel and back gives the colour again.
pub proof fn lemma_color_round_trip(c: Color)
    ensures
        color_of(native_of(c)) == c,
{
}

} // verus!
