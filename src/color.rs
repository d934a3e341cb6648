use vstd::prelude::*;

verus! {

/// A displayable pixel color, one byte per channel.
#[derive(Clone, Copy, Debug, PartialEq, Eq, Structural)]
pub struct Color {
    pub r: u8,
    pub g: u8,
    pub b: u8,
}

/// A channel value that can be turned into one byte.
pub trait IntoU8: Sized {
    /// The byte that `into_u8` yields for this value.
    spec fn byte_of(&self) -> u8;

    fn into_u8(self) -> (r: u8)
        ensures
            r == self.byte_of(),
    ;
}

impl IntoU8 for u8 {
    open spec fn byte_of(&self) -> u8 {
        *self
    }

    fn into_u8(self) -> (r: u8) {
        self
    }
}

/// Adds two channels, saturating at 255.
pub open spec fn channel_sum(x: u8, y: u8) -> u8 {
    if x as int + y as int > 255 {
        255
    } else {
        (x + y) as u8
    }
}

fn saturating_channel_add(x1: u8, x2: u8) -> (r: u8)
    ensures
        r == channel_sum(x1, x2),
{
    match x1.checked_add(x2) {
        Some(x3) => x3,
        None => 255,
    }
}

impl Color {
    /// Builds a color from three channel values of one kind.
    pub fn new<T: IntoU8>(r: T, g: T, b: T) -> (c: Color)
        ensures
            c.r == r.byte_of(),
            c.g == g.byte_of(),
            c.b == b.byte_of(),
    {
        Color { r: r.into_u8(), g: g.into_u8(), b: b.into_u8() }
    }

    /// The channel-wise saturating sum of two colors.
    pub open spec fn sum(self, rhs: Color) -> Color {
        Color {
            r: channel_sum(self.r, rhs.r),
            g: channel_sum(self.g, rhs.g),
            b: channel_sum(self.b, rhs.b),
        }
    }
}

impl core::ops::Add<Color> for Color {
    type Output = Color;

    fn add(self, rhs: Color) -> (c: Color)
        ensures
            c == self.sum(rhs),
    {
        Color {
            r: saturating_channel_add(self.r, rhs.r),
            g: saturating_channel_add(self.g, rhs.g),
            b: saturating_channel_add(self.b, rhs.b),
        }
    }
}

impl vstd::std_specs::ops::AddSpecImpl<Color> for Color {
    open spec fn obeys_add_spec() -> bool {
        true
    }

    open spec fn add_req(self, rhs: Color) -> bool {
        true
    }

    open spec fn add_spec(self, rhs: Color) -> Color {
        self.sum(rhs)
    }
}

} // verus!
