use vstd::prelude::*;

verus! {

/// A 24-bit colour.
#[derive(Clone, Copy, Debug, PartialEq, Eq, Structural)]
pub struct Rgb {
    pub r: u8,
    pub g: u8,
    pub b: u8,
}

impl Rgb {
    /// The colour as the number `0xRRGGBB`.
    pub open spec fn spec_to_u32(self) -> int {
        self.r * 65536 + self.g * 256 + self.b
    }

    /// The colour that `0xRRGGBB` writes; higher bits are ignored.
    pub open spec fn spec_from_u32(v: u32) -> Rgb {
        Rgb { r: ((v / 65536) % 256) as u8, g: ((v / 256) % 256) as u8, b: (v % 256) as u8 }
    }

    pub fn to_u32(self) -> (v: u32)
        ensures
            v == self.spec_to_u32(),
            Self::spec_from_u32(v) == self,
    {
        let r: u32 = self.r as u32;
        let g: u32 = self.g as u32;
        let b: u32 = self.b as u32;
        r * 65536 + g * 256 + b
    }

    pub fn from_u32(v: u32) -> (c: Rgb)
        ensures
            c == Self::spec_from_u32(v),
            v < 0x1000000 ==> c.spec_to_u32() == v,
    {
        Rgb { r: ((v / 65536) % 256) as u8, g: ((v / 256) % 256) as u8, b: (v % 256) as u8 }
    }
}

/// The palette is what its hexadecimal names say.
pub proof fn lemma_palette_codes()
    ensures
        Rgb::spec_from_u32(0x000000) == spec_ink(),
        Rgb::spec_from_u32(0xF0E68C) == spec_parchment(),
        Rgb::spec_from_u32(0x333333) == spec_shadow(),
{
}

/// The text colour, `#000000`.
pub open spec fn spec_ink() -> Rgb {
    Rgb { r: 0x00, g: 0x00, b: 0x00 }
}

/// The page colour, `#F0E68C`.
pub open spec fn spec_parchment() -> Rgb {
    Rgb { r: 0xF0, g: 0xE6, b: 0x8C }
}

/// The colour the page is tinted toward under the spotlight, `#333333`.
pub open spec fn spec_shadow() -> Rgb {
    Rgb { r: 0x33, g: 0x33, b: 0x33 }
}

pub fn ink() -> (c: Rgb)
    ensures
        c == spec_ink(),
{
    Rgb { r: 0x00, g: 0x00, b: 0x00 }
}

pub fn parchment() -> (c: Rgb)
    ensures
        c == spec_parchment(),
{
    Rgb { r: 0xF0, g: 0xE6, b: 0x8C }
}

pub fn shadow() -> (c: Rgb)
    ensures
        c == spec_shadow(),
{
    Rgb { r: 0x33, g: 0x33, b: 0x33 }
}

/// How a cell's background is obtained.
///
/// `Mixed` asks for `base` moved toward `toward` by `hundredths / 100`; the
/// mixing itself is floating-point work and is left to whoever paints.
#[derive(Clone, Copy, Debug, PartialEq, Eq, Structural)]
pub enum Background {
    Plain(Rgb),
    Mixed { base: Rgb, toward: Rgb, hundredths: u8 },
}

/// One styled character of the grid.
#[derive(Clone, Copy, Debug, PartialEq, Eq, Structural)]
pub struct Cell {
    pub ch: char,
    pub fg: Rgb,
    pub bg: Background,
}

} // verus!
