//! Color and geometry value types of the display layer: RGBA colors with
//! saturating channel arithmetic and hex-string parsing, pixel points,
//! and the sized/positioned-rectangle interfaces with their iterators.

use vstd::prelude::*;

verus! {

/// One channel of an RGBA color.
#[derive(Clone, Copy, Hash, Debug, PartialEq, Eq, PartialOrd, Ord, Structural)]
pub enum Color {
    Red,
    Green,
    Blue,
    Alpha,
}

/// The byte position of a channel inside an [`Rgba`] value.
pub open spec fn channel_index(c: Color) -> int {
    match c {
        Color::Red => 0,
        Color::Green => 1,
        Color::Blue => 2,
        Color::Alpha => 3,
    }
}

/// A sixteen-color palette in the classic intensity arrangement.
pub enum Rgbi {
    Black,
    DarkGray,
    LightGray,
    White,
    DarkBlue,
    Blue,
    DarkGreen,
    Green,
    DarkCyan,
    Cyan,
    DarkRed,
    Red,
    DarkMagenta,
    Magenta,
    DarkYellow,
    Yellow,
}

/// The sixteen wool dye colors.
pub enum MCWool {
    Black,
    DarkGray,
    Gray,
    White,
    Brown,
    Red,
    Orange,
    Yellow,
    Lime,
    Green,
    Cyan,
    LightBlue,
    Blue,
    Purple,
    Magenta,
    Pink,
}

/// Saturating byte addition.
pub open spec fn sat_add(a: int, b: int) -> int {
    if a + b > 255 {
        255
    } else {
        a + b
    }
}

/// Saturating byte subtraction.
pub open spec fn sat_sub(a: int, b: int) -> int {
    if a - b < 0 {
        0
    } else {
        a - b
    }
}

/// Byte multiplication, clamped to 255 on overflow.
pub open spec fn sat_mul(a: int, b: int) -> int {
    if a * b > 255 {
        255
    } else {
        a * b
    }
}

/// An RGBA color: one byte per channel, red first, alpha last.
#[derive(PartialEq, Eq, Clone, Copy, Debug)]
pub struct Rgba {
    pub value: [u8; 4],
}

impl Rgba {
    /// The red channel.
    pub open spec fn red(&self) -> u8 {
        self.value[0]
    }

    /// The green channel.
    pub open spec fn green(&self) -> u8 {
        self.value[1]
    }

    /// The blue channel.
    pub open spec fn blue(&self) -> u8 {
        self.value[2]
    }

    /// The alpha channel.
    pub open spec fn alpha(&self) -> u8 {
        self.value[3]
    }

    /// A color from its four channels.
    pub fn new(red: u8, green: u8, blue: u8, alpha: u8) -> (c: Rgba)
        ensures
            c.red() == red,
            c.green() == green,
            c.blue() == blue,
            c.alpha() == alpha,
    {
        Rgba { value: [red, green, blue, alpha] }
    }

    /// A fully opaque color from its three color channels.
    pub fn new_opaque(red: u8, green: u8, blue: u8) -> (c: Rgba)
        ensures
            c.red() == red,
            c.green() == green,
            c.blue() == blue,
            c.alpha() == 255,
    {
        Rgba { value: [red, green, blue, 255] }
    }

    /// Opaque black.
    pub fn black() -> (c: Rgba)
        ensures
            c.red() == 0 && c.green() == 0 && c.blue() == 0 && c.alpha() == 255,
    {
        Rgba::new_opaque(0, 0, 0)
    }

    /// Opaque white.
    pub fn white() -> (c: Rgba)
        ensures
            c.red() == 255 && c.green() == 255 && c.blue() == 255 && c.alpha() == 255,
    {
        Rgba::new_opaque(255, 255, 255)
    }

    /// Opaque middle gray.
    pub fn gray() -> (c: Rgba)
        ensures
            c.red() == 0xAA && c.green() == 0xAA && c.blue() == 0xAA && c.alpha() == 255,
    {
        Rgba::new_opaque(0xAA, 0xAA, 0xAA)
    }

    /// Opaque dark gray.
    pub fn dark_gray() -> (c: Rgba)
        ensures
            c.red() == 55 && c.green() == 55 && c.blue() == 55 && c.alpha() == 255,
    {
        Rgba::new_opaque(55, 55, 55)
    }

    /// Opaque pure red.
    pub fn pure_red() -> (c: Rgba)
        ensures
            c.red() == 255 && c.green() == 0 && c.blue() == 0 && c.alpha() == 255,
    {
        Rgba::new_opaque(255, 0, 0)
    }

    /// Opaque pure green.
    pub fn pure_green() -> (c: Rgba)
        ensures
            c.red() == 0 && c.green() == 255 && c.blue() == 0 && c.alpha() == 255,
    {
        Rgba::new_opaque(0, 255, 0)
    }

    /// Opaque pure blue.
    pub fn pure_blue() -> (c: Rgba)
        ensures
            c.red() == 0 && c.green() == 0 && c.blue() == 255 && c.alpha() == 255,
    {
        Rgba::new_opaque(0, 0, 255)
    }

    /// The byte of one channel.
    pub fn channel(&self, c: Color) -> (r: u8)
        ensures
            r == self.value[channel_index(c)],
    {
        match c {
            Color::Red => self.value[0],
            Color::Green => self.value[1],
            Color::Blue => self.value[2],
            Color::Alpha => self.value[3],
        }
    }

    /// Channel-wise saturating addition; a channel tops out at 255.
    pub fn add(self, rhs: Rgba) -> (r: Rgba)
        ensures
            r.red() == sat_add(self.red() as int, rhs.red() as int),
            r.green() == sat_add(self.green() as int, rhs.green() as int),
            r.blue() == sat_add(self.blue() as int, rhs.blue() as int),
            r.alpha() == sat_add(self.alpha() as int, rhs.alpha() as int),
    {
        Rgba {
            value: [
                sat_add_exec(self.value[0], rhs.value[0]),
                sat_add_exec(self.value[1], rhs.value[1]),
                sat_add_exec(self.value[2], rhs.value[2]),
                sat_add_exec(self.value[3], rhs.value[3]),
            ],
        }
    }

    /// Channel-wise saturating subtraction; a channel bottoms out at 0.
    pub fn sub(self, rhs: Rgba) -> (r: Rgba)
        ensures
            r.red() == sat_sub(self.red() as int, rhs.red() as int),
            r.green() == sat_sub(self.green() as int, rhs.green() as int),
            r.blue() == sat_sub(self.blue() as int, rhs.blue() as int),
            r.alpha() == sat_sub(self.alpha() as int, rhs.alpha() as int),
    {
        Rgba {
            value: [
                sat_sub_exec(self.value[0], rhs.value[0]),
                sat_sub_exec(self.value[1], rhs.value[1]),
                sat_sub_exec(self.value[2], rhs.value[2]),
                sat_sub_exec(self.value[3], rhs.value[3]),
            ],
        }
    }

    /// Every channel scaled by `rhs`, clamped to 255 on overflow.
    pub fn mul(self, rhs: u8) -> (r: Rgba)
        ensures
            r.red() == sat_mul(self.red() as int, rhs as int),
            r.green() == sat_mul(self.green() as int, rhs as int),
            r.blue() == sat_mul(self.blue() as int, rhs as int),
            r.alpha() == sat_mul(self.alpha() as int, rhs as int),
    {
        Rgba {
            value: [
                sat_mul_exec(self.value[0], rhs),
                sat_mul_exec(self.value[1], rhs),
                sat_mul_exec(self.value[2], rhs),
                sat_mul_exec(self.value[3], rhs),
            ],
        }
    }

    /// Every channel divided by `rhs`; division by zero is excluded.
    pub fn div(self, rhs: u8) -> (r: Rgba)
        requires
            rhs != 0,
        ensures
            r.red() == self.red() / rhs,
            r.green() == self.green() / rhs,
            r.blue() == self.blue() / rhs,
            r.alpha() == self.alpha() / rhs,
    {
        Rgba {
            value: [
                self.value[0] / rhs,
                self.value[1] / rhs,
                self.value[2] / rhs,
                self.value[3] / rhs,
            ],
        }
    }

    /// Mixes the three color channels of `self` and `rhs` in proportion
    /// `proportion` (0 keeps `self`, 255 gives almost all of `rhs`); the
    /// alpha channel of `self` is kept.
    pub fn blend(self, rhs: Rgba, proportion: u8) -> (r: Rgba)
        ensures
            r.red() as int == blend_channel(self.red() as int, rhs.red() as int,
                proportion as int),
            r.green() as int == blend_channel(self.green() as int, rhs.green() as int,
                proportion as int),
            r.blue() as int == blend_channel(self.blue() as int, rhs.blue() as int,
                proportion as int),
            r.alpha() == self.alpha(),
    {
        Rgba {
            value: [
                blend_color(self.value[0], rhs.value[0], proportion),
                blend_color(self.value[1], rhs.value[1], proportion),
                blend_color(self.value[2], rhs.value[2], proportion),
                self.value[3],
            ],
        }
    }

    /// The color packed into one machine word, blue in the low byte, then
    /// green, red, and alpha: the layout a pixel buffer expects.
    pub fn to_u32(&self) -> (r: u32)
        ensures
            r == self.alpha() as int * 0x1000000 + self.red() as int * 0x10000 + self.green() as int
                * 0x100 + self.blue() as int,
    {
        self.value[3] as u32 * 0x1000000 + self.value[0] as u32 * 0x10000 + self.value[1] as u32
            * 0x100 + self.value[2] as u32
    }

    /// The color unpacked from one machine word, inverting
    /// [`Rgba::to_u32`].
    pub fn from_u32(v: u32) -> (c: Rgba)
        ensures
            c.alpha() == v as int / 0x1000000,
            c.red() == (v as int / 0x10000) % 0x100,
            c.green() == (v as int / 0x100) % 0x100,
            c.blue() == v as int % 0x100,
    {
        Rgba {
            value: [
                ((v / 0x10000) % 0x100) as u8,
                ((v / 0x100) % 0x100) as u8,
                (v % 0x100) as u8,
                (v / 0x1000000) as u8,
            ],
        }
    }
}

impl Default for Rgba {
    /// Opaque black.
    fn default() -> (c: Rgba)
        ensures
            c.red() == 0 && c.green() == 0 && c.blue() == 0 && c.alpha() == 255,
    {
        Rgba::new(0, 0, 0, 255)
    }
}

/// Saturating byte addition.
fn sat_add_exec(a: u8, b: u8) -> (r: u8)
    ensures
        r == sat_add(a as int, b as int),
{
    let s: u16 = a as u16 + b as u16;
    if s > 255 {
        255
    } else {
        s as u8
    }
}

/// Saturating byte subtraction.
fn sat_sub_exec(a: u8, b: u8) -> (r: u8)
    ensures
        r == sat_sub(a as int, b as int),
{
    if a < b {
        0
    } else {
        a - b
    }
}

/// Byte multiplication, clamped to 255 on overflow.
fn sat_mul_exec(a: u8, b: u8) -> (r: u8)
    ensures
        r == sat_mul(a as int, b as int),
{
    proof {
        assert((a as u16) * (b as u16) <= 255 * 255) by (nonlinear_arith)
            requires
                a <= 255,
                b <= 255,
        ;
    }
    let p: u16 = a as u16 * b as u16;
    if p > 255 {
        255
    } else {
        p as u8
    }
}

/// The mix of bytes `a` and `b` in proportion `t`:
/// `(b·t + a·(255−t) + 1) / 256`.
pub open spec fn blend_channel(a: int, b: int, t: int) -> int {
    (b * t + a * (255 - t) + 1) / 256
}

/// Mixes two channel bytes in proportion `t`, as [`blend_channel`] says.
pub fn blend_color(a: u8, b: u8, t: u8) -> (r: u8)
    ensures
        r as int == blend_channel(a as int, b as int, t as int),
{
    let a16: u16 = a as u16;
    let b16: u16 = b as u16;
    let t16: u16 = t as u16;
    proof {
        assert(b16 * t16 + a16 * (255 - t16) <= 255 * 255) by (nonlinear_arith)
            requires
                a16 <= 255,
                b16 <= 255,
                t16 <= 255,
        ;
    }
    ((b16 * t16 + a16 * (255 - t16) + 1) / 256) as u8
}

/// The value of one hexadecimal digit, upper or lower case.
pub open spec fn hex_val(c: char) -> Option<u8> {
    match c {
        '0' => Some(0u8),
        '1' => Some(1u8),
        '2' => Some(2u8),
        '3' => Some(3u8),
        '4' => Some(4u8),
        '5' => Some(5u8),
        '6' => Some(6u8),
        '7' => Some(7u8),
        '8' => Some(8u8),
        '9' => Some(9u8),
        'A' | 'a' => Some(10u8),
        'B' | 'b' => Some(11u8),
        'C' | 'c' => Some(12u8),
        'D' | 'd' => Some(13u8),
        'E' | 'e' => Some(14u8),
        'F' | 'f' => Some(15u8),
        _ => None,
    }
}

/// Decodes one hexadecimal digit, upper or lower case.
pub fn hex_code_to_u4(c: char) -> (r: Option<u8>)
    ensures
        r == hex_val(c),
{
    match c {
        '0' => Some(0),
        '1' => Some(1),
        '2' => Some(2),
        '3' => Some(3),
        '4' => Some(4),
        '5' => Some(5),
        '6' => Some(6),
        '7' => Some(7),
        '8' => Some(8),
        '9' => Some(9),
        'A' | 'a' => Some(10),
        'B' | 'b' => Some(11),
        'C' | 'c' => Some(12),
        'D' | 'd' => Some(13),
        'E' | 'e' => Some(14),
        'F' | 'f' => Some(15),
        _ => None,
    }
}

/// The byte written by two hexadecimal digits, high digit first.
pub open spec fn hex_pair_val(hi: char, lo: char) -> Option<u8> {
    if hex_val(hi) is Some && hex_val(lo) is Some {
        Some((hex_val(hi).unwrap() * 16 + hex_val(lo).unwrap()) as u8)
    } else {
        None
    }
}

/// Decodes the byte written by two hexadecimal digits, high digit first.
pub fn hex_code_to_u8(chars: [char; 2]) -> (r: Option<u8>)
    ensures
        r == hex_pair_val(chars[0], chars[1]),
{
    let hi = match hex_code_to_u4(chars[0]) {
        Some(h) => h,
        None => {
            return None;
        },
    };
    let lo = match hex_code_to_u4(chars[1]) {
        Some(l) => l,
        None => {
            return None;
        },
    };
    Some(hi * 16 + lo)
}

/// A point in display space.
#[derive(PartialEq, Eq, Clone, Copy, Debug)]
pub struct Point<T> {
    pub x: T,
    pub y: T,
}

/// A pixel position or extent.
pub type Pixel = Point<u32>;

impl<T> Point<T> {
    /// A point from its coordinates.
    #[inline]
    pub fn new(x: T, y: T) -> (p: Point<T>)
        ensures
            p.x == x,
            p.y == y,
    {
        Point { x, y }
    }
}

impl Point<u32> {
    /// Coordinate-wise addition.
    pub fn add(self, rhs: Point<u32>) -> (p: Point<u32>)
        requires
            self.x + rhs.x <= u32::MAX,
            self.y + rhs.y <= u32::MAX,
        ensures
            p.x == self.x + rhs.x,
            p.y == self.y + rhs.y,
    {
        Point { x: self.x + rhs.x, y: self.y + rhs.y }
    }
}

/// Something with a pixel extent.
pub trait DisplaySized {
    /// The extent, at the specification level.
    spec fn spec_size(&self) -> Point<u32>;

    /// The extent.
    fn get_size(&self) -> (r: Point<u32>)
        ensures
            r == self.spec_size(),
    ;

    /// The number of pixels covered.
    fn get_area(&self) -> (r: u32)
        requires
            self.spec_size().x * self.spec_size().y <= u32::MAX,
        ensures
            r == self.spec_size().x * self.spec_size().y,
    {
        let number = self.get_size();
        number.x * number.y
    }

    /// An iterator over the covered positions, row by row.
    fn iter(&self) -> (it: AreaIter)
        ensures
            it.size == self.spec_size(),
            it.index == (Point { x: 0u32, y: 0u32 }),
    {
        AreaIter { size: self.get_size(), index: Point::new(0, 0) }
    }
}

/// Something with a pixel position.
pub trait DisplayPosition {
    /// The position, at the specification level.
    spec fn spec_position(&self) -> Point<u32>;

    /// The position.
    fn get_position(&self) -> (r: Point<u32>)
        ensures
            r == self.spec_position(),
    ;
}

/// Walks the positions `(x, y)` with `x` up to and including `size.x`
/// and `y` up to and including `size.y`, row by row.
pub struct AreaIter {
    pub size: Point<u32>,
    pub index: Point<u32>,
}

impl AreaIter {
    /// The next position, or `None` once every row has been walked.
    pub fn next(&mut self) -> (r: Option<Point<u32>>)
        requires
            old(self).size.x < u32::MAX,
            old(self).size.y < u32::MAX,
        ensures
            final(self).size == old(self).size,
            old(self).index.y > old(self).size.y ==> r is None && final(self).index == old(
                self,
            ).index,
            old(self).index.y <= old(self).size.y ==> r == Some(old(self).index) && (if old(
                self,
            ).index.x >= old(self).size.x {
                final(self).index == (Point { x: 0u32, y: (old(self).index.y + 1) as u32 })
            } else {
                final(self).index == (Point {
                    x: (old(self).index.x + 1) as u32,
                    y: old(self).index.y,
                })
            }),
    {
        if self.index.y > self.size.y {
            return None;
        }
        let out = self.index;
        if self.index.x >= self.size.x {
            self.index = Point::new(0, self.index.y + 1);
        } else {
            self.index = Point::new(self.index.x + 1, self.index.y);
        }
        Some(out)
    }
}

/// Walks the positions of a rectangle: an [`AreaIter`] shifted by the
/// rectangle's offset.
pub struct RectIter {
    pub offset: Point<u32>,
    pub area_iter: AreaIter,
}

impl RectIter {
    /// The next shifted position, or `None` once the area is walked.
    pub fn next(&mut self) -> (r: Option<Point<u32>>)
        requires
            old(self).area_iter.size.x < u32::MAX,
            old(self).area_iter.size.y < u32::MAX,
            old(self).offset.x + old(self).area_iter.size.x < u32::MAX,
            old(self).offset.y + old(self).area_iter.size.y < u32::MAX,
            old(self).area_iter.index.x <= old(self).area_iter.size.x,
            old(self).area_iter.index.y <= old(self).area_iter.size.y + 1,
        ensures
            final(self).offset == old(self).offset,
            final(self).area_iter.size == old(self).area_iter.size,
            old(self).area_iter.index.y > old(self).area_iter.size.y ==> r is None,
            old(self).area_iter.index.y <= old(self).area_iter.size.y ==> r == Some(
                (Point {
                    x: (old(self).area_iter.index.x + old(self).offset.x) as u32,
                    y: (old(self).area_iter.index.y + old(self).offset.y) as u32,
                }),
            ),
    {
        let out = self.area_iter.next();
        match out {
            Some(p) => Some(p.add(self.offset)),
            None => None,
        }
    }
}

/// Something with both a position and an extent: a rectangle on the
/// display.
pub trait DisplayRect: DisplayPosition + DisplaySized {
    /// An iterator over the rectangle's positions, shifted to its place.
    fn rect_iter(&self) -> (it: RectIter)
        ensures
            it.offset == self.spec_position(),
            it.area_iter.size == self.spec_size(),
            it.area_iter.index == (Point { x: 0u32, y: 0u32 }),
    {
        RectIter {
            offset: self.get_position(),
            area_iter: AreaIter { size: self.get_size(), index: Point::new(0, 0) },
        }
    }

    /// Whether `pixel` lies inside the rectangle.  The lower bound of the
    /// vertical test compares against the horizontal start, exactly as
    /// the surrounding renderer expects.
    fn contains(&self, pixel: Pixel) -> (r: bool)
        requires
            self.spec_position().x + self.spec_size().x <= u32::MAX,
            self.spec_position().y + self.spec_size().y <= u32::MAX,
        ensures
            r == (pixel.x >= self.spec_position().x && pixel.y >= self.spec_position().x && pixel.x
                <= self.spec_position().x + self.spec_size().x && pixel.y <= self.spec_position().y
                + self.spec_size().y),
    {
        let position = self.get_position();
        let size = self.get_size().add(position);
        pixel.x >= position.x && pixel.y >= position.x && pixel.x <= size.x && pixel.y <= size.y
    }

    /// Translates a coordinate local to this rectangle into its parent's
    /// space; the rectangle's position is relative to the parent's
    /// origin.
    #[inline]
    fn map_to_parent<P: DisplaySized>(&self, parent: &P, local: Pixel) -> (r: Pixel)
        requires
            local.x + self.spec_position().x <= u32::MAX,
            local.y + self.spec_position().y <= u32::MAX,
        ensures
            r.x == local.x + self.spec_position().x,
            r.y == local.y + self.spec_position().y,
    {
        local.add(self.get_position())
    }

    /// Translates a flat pixel index local to this rectangle into a flat
    /// index in the parent's space; `None` when the position falls below
    /// the parent.
    fn index_map_to_parent<P: DisplaySized>(&self, parent: &P, local: u32) -> (r: Option<u32>)
        requires
            self.spec_size().x > 0,
            local / self.spec_size().x + self.spec_position().x <= u32::MAX,
            local % self.spec_size().x + self.spec_position().y <= u32::MAX,
            parent.spec_size().x * (local / self.spec_size().x + self.spec_position().x) + (local
                % self.spec_size().x + self.spec_position().y) <= u32::MAX,
        ensures
            ({
                let gx = local / self.spec_size().x + self.spec_position().x;
                let gy = local % self.spec_size().x + self.spec_position().y;
                if parent.spec_size().y <= gy {
                    r is None
                } else {
                    r == Some((parent.spec_size().x * gx + gy) as u32)
                }
            }),
    {
        let size_x = self.get_size().x;
        let local_p = Pixel::new(local / size_x, local % size_x);
        let global_pixel = self.map_to_parent(parent, local_p);
        proof {
            assert(local % size_x < size_x);
        }
        if parent.get_size().y <= global_pixel.y {
            return None;
        }
        let px = parent.get_size().x;
        proof {
            assert(px * global_pixel.x + global_pixel.y <= u32::MAX);
        }
        Some(px * global_pixel.x + global_pixel.y)
    }
}

impl<T: DisplayPosition + DisplaySized> DisplayRect for T {

}

impl DisplaySized for Point<u32> {
    /// A point stands for its own extent.
    open spec fn spec_size(&self) -> Point<u32> {
        *self
    }

    /// A point stands for its own extent.
    #[inline]
    fn get_size(&self) -> (r: Point<u32>)
        ensures
            r == self.spec_size(),
    {
        *self
    }
}

/// Reading a color from hexadecimal text failed: a pair of characters
/// that is no hexadecimal byte, or too short a text.  The reported
/// length counts the characters examined before the text ran out.
#[derive(Debug)]
pub enum CharsToRgbaError {
    InvalidStr(String),
    InsufficientLength(usize),
}

/// Reading a color from a configuration value failed.
#[derive(Debug)]
pub enum TomlToRgbaError {
    InsufficientStrLen(usize),
    InvalidStr(String),
    IncorrectArrayType(usize),
    InvalidEntryType,
    IntConversionFail,
}

impl From<CharsToRgbaError> for TomlToRgbaError {
    /// A hexadecimal-text failure under the configuration error's names.
    fn from(value: CharsToRgbaError) -> (r: TomlToRgbaError) {
        match value {
            CharsToRgbaError::InvalidStr(s) => TomlToRgbaError::InvalidStr(s),
            CharsToRgbaError::InsufficientLength(len) => TomlToRgbaError::InsufficientStrLen(len),
        }
    }
}

impl vstd::std_specs::convert::FromSpecImpl<CharsToRgbaError> for TomlToRgbaError {
    open spec fn obeys_from_spec() -> bool {
        true
    }

    open spec fn from_spec(v: CharsToRgbaError) -> TomlToRgbaError {
        match v {
            CharsToRgbaError::InvalidStr(s) => TomlToRgbaError::InvalidStr(s),
            CharsToRgbaError::InsufficientLength(len) => TomlToRgbaError::InsufficientStrLen(len),
        }
    }
}

/// The byte written at pair position `i` of a hexadecimal text, if both
/// of its characters are there and are hexadecimal digits.
pub open spec fn hex_pair_at(s: Seq<char>, i: int) -> Option<u8> {
    if 2 * i + 1 < s.len() {
        hex_pair_val(s[2 * i], s[2 * i + 1])
    } else {
        None
    }
}

/// The outcome of reading a color from hexadecimal text.
pub ghost enum HexParse {
    Color { red: u8, green: u8, blue: u8, alpha: u8 },
    BadPair { hi: char, lo: char },
    Short { seen: int },
}

/// Reading a color from hexadecimal text: three mandatory byte pairs
/// for red, green and blue, then an optional fourth for alpha, which
/// falls back to 255 when missing or not hexadecimal.
pub open spec fn parse_hex_color(s: Seq<char>) -> HexParse {
    if s.len() < 2 {
        HexParse::Short { seen: s.len() as int }
    } else if hex_pair_at(s, 0) is None {
        HexParse::BadPair { hi: s[0], lo: s[1] }
    } else if s.len() < 4 {
        HexParse::Short {
            seen: if s.len() == 3 {
                3
            } else {
                2
            },
        }
    } else if hex_pair_at(s, 1) is None {
        HexParse::BadPair { hi: s[2], lo: s[3] }
    } else if s.len() < 6 {
        HexParse::Short {
            seen: if s.len() == 5 {
                5
            } else {
                4
            },
        }
    } else if hex_pair_at(s, 2) is None {
        HexParse::BadPair { hi: s[4], lo: s[5] }
    } else {
        HexParse::Color {
            red: hex_pair_at(s, 0).unwrap(),
            green: hex_pair_at(s, 1).unwrap(),
            blue: hex_pair_at(s, 2).unwrap(),
            alpha: if s.len() >= 8 && hex_pair_at(s, 3) is Some {
                hex_pair_at(s, 3).unwrap()
            } else {
                255u8
            },
        }
    }
}

impl Rgba {
    /// Reads a color from hexadecimal text, as [`parse_hex_color`]
    /// describes: `"rrggbb"` or `"rrggbbaa"`, upper or lower case.
    pub fn from_hex_str(s: &str) -> (r: Result<Rgba, CharsToRgbaError>)
        ensures
            match r {
                Ok(c) => parse_hex_color(s@) == (HexParse::Color {
                    red: c.red(),
                    green: c.green(),
                    blue: c.blue(),
                    alpha: c.alpha(),
                }),
                Err(CharsToRgbaError::InsufficientLength(k)) => parse_hex_color(s@)
                    == (HexParse::Short { seen: k as int }),
                Err(CharsToRgbaError::InvalidStr(w)) => (parse_hex_color(s@)
                    matches HexParse::BadPair { hi, lo } && w@ =~= seq![hi, lo]),
            },
    {
        let n = s.unicode_len();
        if n < 2 {
            return Err(CharsToRgbaError::InsufficientLength(n));
        }
        let red = match hex_code_to_u8([s.get_char(0), s.get_char(1)]) {
            Some(b) => b,
            None => {
                let mut w = String::new();
                crate::text::push_char(&mut w, s.get_char(0));
                crate::text::push_char(&mut w, s.get_char(1));
                return Err(CharsToRgbaError::InvalidStr(w));
            },
        };
        if n < 4 {
            let seen: usize = if n == 3 {
                3
            } else {
                2
            };
            return Err(CharsToRgbaError::InsufficientLength(seen));
        }
        let green = match hex_code_to_u8([s.get_char(2), s.get_char(3)]) {
            Some(b) => b,
            None => {
                let mut w = String::new();
                crate::text::push_char(&mut w, s.get_char(2));
                crate::text::push_char(&mut w, s.get_char(3));
                return Err(CharsToRgbaError::InvalidStr(w));
            },
        };
        if n < 6 {
            let seen: usize = if n == 5 {
                5
            } else {
                4
            };
            return Err(CharsToRgbaError::InsufficientLength(seen));
        }
        let blue = match hex_code_to_u8([s.get_char(4), s.get_char(5)]) {
            Some(b) => b,
            None => {
                let mut w = String::new();
                crate::text::push_char(&mut w, s.get_char(4));
                crate::text::push_char(&mut w, s.get_char(5));
                return Err(CharsToRgbaError::InvalidStr(w));
            },
        };
        let alpha = if n >= 8 {
            match hex_code_to_u8([s.get_char(6), s.get_char(7)]) {
                Some(b) => b,
                None => 255,
            }
        } else {
            255
        };
        Ok(Rgba::new(red, green, blue, alpha))
    }
}

} // verus!
