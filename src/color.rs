use vstd::prelude::*;

verus! {

/// A true-color triple.
#[derive(Clone, Copy, Debug, PartialEq, Eq, Structural)]
pub struct Rgba {
    pub r: u8,
    pub g: u8,
    pub b: u8,
}

/// The color whose channels are the three low bytes of `hex`, red highest.
pub open spec fn rgba_of(hex: u32) -> Rgba {
    Rgba { r: ((hex / 0x10000) % 0x100) as u8, g: ((hex / 0x100) % 0x100) as u8, b: (hex % 0x100) as u8 }
}

pub fn rgb(hex: u32) -> (c: Rgba)
    ensures
        c == rgba_of(hex),
{
    let r = ((hex >> 16u32) & 0xff) as u8;
    let g = ((hex >> 8u32) & 0xff) as u8;
    let b = (hex & 0xff) as u8;
    assert(((hex >> 16u32) & 0xff) == (hex / 0x10000) % 0x100) by (bit_vector);
    assert(((hex >> 8u32) & 0xff) == (hex / 0x100) % 0x100) by (bit_vector);
    assert((hex & 0xff) == hex % 0x100) by (bit_vector);
    Rgba { r, g, b }
}

pub fn red() -> (c: Rgba)
    ensures
        c == (Rgba { r: 255, g: 0, b: 0 }),
{
    rgb(0xff0000)
}

pub fn green() -> (c: Rgba)
    ensures
        c == (Rgba { r: 0, g: 255, b: 0 }),
{
    rgb(0x00ff00)
}

pub fn blue() -> (c: Rgba)
    ensures
        c == (Rgba { r: 0, g: 0, b: 255 }),
{
    rgb(0x0000ff)
}

pub fn yellow() -> (c: Rgba)
    ensures
        c == (Rgba { r: 255, g: 255, b: 0 }),
{
    rgb(0xffff00)
}

pub fn black() -> (c: Rgba)
    ensures
        c == (Rgba { r: 0, g: 0, b: 0 }),
{
    rgb(0x000000)
}

pub fn white() -> (c: Rgba)
    ensures
        c == (Rgba { r: 255, g: 255, b: 255 }),
{
    rgb(0xffffff)
}

} // verus!
