//! Colours: the named palette and the cycling lookup from a cluster id; and
//! the step from a filled raster to a picture.

use crate::raster::{
    array_into_raw_vec, array_is_standard_layout, buffer_from_raw, picture_bytes, picture_height, picture_width,
    raster_shape, raster_standard, raster_store, Picture, Raster,
};
use vstd::prelude::*;

verus! {

/// A pixel colour: one byte for each of the red, green and blue channels.
#[derive(Clone, Copy, Debug, PartialEq, Eq, Structural)]
pub struct Color {
    pub r: u8,
    pub g: u8,
    pub b: u8,
}

impl Color {
    /// The colour with the given channels.
    pub fn new(r: u8, g: u8, b: u8) -> (c: Self)
        ensures
            c == (Color { r, g, b }),
    {
        Self { r, g, b }
    }
}

/// Names for the colours the renderer knows.
#[derive(Clone, Copy, Debug, PartialEq, Eq, Structural)]
pub enum Colors {
    Black,
    White,
    Red,
    Green,
    Blue,
    // Accent colours
    DarkRed,
    NavyBlue,
    DarkBlue,
    SunYellow,
    // Grays
    FaintGray,
    LightGray,
    MediumGray,
    HeavyGray,
    DarkGray,
    // Space grays
    SpaceFaintGray,
    SpaceLightGray,
    SpaceMediumGray,
    SpaceHeavyGray,
    SpaceDarkGray,
}

impl Colors {
    /// The channel values of a named colour.
    pub open spec fn rgb(self) -> Color {
        match self {
            Colors::Black => Color { r: 0, g: 0, b: 0 },
            Colors::White => Color { r: 1, g: 1, b: 1 },
            Colors::Red => Color { r: 1, g: 0, b: 0 },
            Colors::Green => Color { r: 0, g: 1, b: 0 },
            Colors::Blue => Color { r: 0, g: 0, b: 1 },
            Colors::DarkRed => Color { r: 175, g: 0, b: 0 },
            Colors::NavyBlue => Color { r: 0, g: 159, b: 255 },
            Colors::DarkBlue => Color { r: 51, g: 122, b: 183 },
            Colors::SunYellow => Color { r: 255, g: 175, b: 0 },
            Colors::FaintGray => Color { r: 238, g: 238, b: 238 },
            Colors::LightGray => Color { r: 221, g: 221, b: 221 },
            Colors::MediumGray => Color { r: 204, g: 204, b: 204 },
            Colors::HeavyGray => Color { r: 187, g: 187, b: 187 },
            Colors::DarkGray => Color { r: 154, g: 154, b: 154 },
            Colors::SpaceFaintGray => Color { r: 192, g: 197, b: 206 },
            Colors::SpaceLightGray => Color { r: 167, g: 173, b: 186 },
            Colors::SpaceMediumGray => Color { r: 101, g: 115, b: 126 },
            Colors::SpaceHeavyGray => Color { r: 79, g: 91, b: 102 },
            Colors::SpaceDarkGray => Color { r: 52, g: 61, b: 70 },
        }
    }

    /// The palette entry that a cluster id selects. Ids from zero upwards cycle
    /// through four space grays. A negative id, such as the `-1` that marks a
    /// pixel without a root, is black unless it is a multiple of four, which
    /// shares the first gray with zero.
    pub open spec fn of_id(i: int) -> Colors {
        if i % 4 == 0 {
            Colors::SpaceFaintGray
        } else if i < 0 {
            Colors::Black
        } else if i % 4 == 1 {
            Colors::SpaceLightGray
        } else if i % 4 == 2 {
            Colors::SpaceMediumGray
        } else {
            Colors::SpaceDarkGray
        }
    }

    /// The channel values of a named colour.
    pub fn value(&self) -> (c: Color)
        ensures
            c == self.rgb(),
    {
        match *self {
            Colors::Black => Color::new(0, 0, 0),
            Colors::White => Color::new(1, 1, 1),
            Colors::Red => Color::new(1, 0, 0),
            Colors::Green => Color::new(0, 1, 0),
            Colors::Blue => Color::new(0, 0, 1),
            Colors::DarkRed => Color::new(175, 0, 0),
            Colors::NavyBlue => Color::new(0, 159, 255),
            Colors::DarkBlue => Color::new(51, 122, 183),
            Colors::SunYellow => Color::new(255, 175, 0),
            Colors::FaintGray => Color::new(238, 238, 238),
            Colors::LightGray => Color::new(221, 221, 221),
            Colors::MediumGray => Color::new(204, 204, 204),
            Colors::HeavyGray => Color::new(187, 187, 187),
            Colors::DarkGray => Color::new(154, 154, 154),
            Colors::SpaceFaintGray => Color::new(192, 197, 206),
            Colors::SpaceLightGray => Color::new(167, 173, 186),
            Colors::SpaceMediumGray => Color::new(101, 115, 126),
            Colors::SpaceHeavyGray => Color::new(79, 91, 102),
            Colors::SpaceDarkGray => Color::new(52, 61, 70),
        }
    }

    /// The colour of a cluster id: the same id always gives the same colour.
    pub fn from_int(i: isize) -> (c: Color)
        ensures
            c == Colors::of_id(i as int).rgb(),
    {
        match i % 4 {
            0 => Colors::SpaceFaintGray.value(),
            1 => Colors::SpaceLightGray.value(),
            2 => Colors::SpaceMediumGray.value(),
            3 => Colors::SpaceDarkGray.value(),
            _ => Colors::Black.value(),
        }
    }
}

/// A raster that a picture can be made of: it is laid out row by row, its
/// two pixel axes fit the picture's 32-bit dimensions, and it stores at least
/// three bytes for every pixel.
pub open spec fn picturable(arr: Raster) -> bool {
    &&& raster_standard(arr)
    &&& raster_shape(arr).0 <= u32::MAX
    &&& raster_shape(arr).1 <= u32::MAX
    &&& 3 * raster_shape(arr).1 * raster_shape(arr).0 <= raster_store(arr).len()
}

/// The picture of a raster: as wide as the raster has columns, as high as it
/// has rows, made of the raster's bytes as they are stored.
pub fn array_to_image(arr: Raster) -> (img: Picture)
    requires
        picturable(arr),
    ensures
        picture_width(img) == raster_shape(arr).1,
        picture_height(img) == raster_shape(arr).0,
        picture_bytes(img) == raster_store(arr),
{
    let (height, width, _) = arr.dim();
    let raw = array_into_raw_vec(arr);
    buffer_from_raw(width as u32, height as u32, raw).unwrap()
}

/// `array_to_image` for any raster: `None` where no picture can be made.
pub fn try_array_to_image(arr: Raster) -> (img: Option<Picture>)
    ensures
        img is Some <==> picturable(arr),
        img matches Some(p) ==> {
            &&& picture_width(p) == raster_shape(arr).1
            &&& picture_height(p) == raster_shape(arr).0
            &&& picture_bytes(p) == raster_store(arr)
        },
{
    let (height, width, _) = arr.dim();
    if !array_is_standard_layout(&arr) || height > u32::MAX as usize || width > u32::MAX as usize {
        return None;
    }
    let raw = array_into_raw_vec(arr);
    buffer_from_raw(width as u32, height as u32, raw)
}

} // verus!
