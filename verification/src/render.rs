//! The layout of rendered pictures: three bytes to a pixel, red, green and
//! blue, the pixels row by row from the top.
//!
//! What colour a temperature gets is the caller's choice, handed in as a
//! function of the colouring and the value.

use vstd::prelude::*;
use crate::grid::TemperatureRead;
use crate::eeprom::Dyadic;
use crate::settings::ColorTypes;
use crate::PIXEL_COUNT;

verus! {

/// Number of bytes of a rendered frame.
pub const IMAGE_BYTES: usize = 2304;

/// Width of the colour scale, in pixels.
pub const GRADIENT_WIDTH: usize = 1;

/// Height of the colour scale, in pixels.
pub const GRADIENT_HEIGHT: usize = 256;

/// Number of pixels of the colour scale.
pub const GRADIENT_COUNT: usize = 256;

/// Number of bytes of the colour scale.
pub const GRADIENT_BYTES: usize = 768;

/// The colour of pixel `pixel` in a picture: its three bytes.
pub open spec fn color_at(picture: Seq<u8>, pixel: int) -> [u8; 3] {
    [picture[3 * pixel], picture[3 * pixel + 1], picture[3 * pixel + 2]]
}

/// The level of row `row` of the colour scale, as a fraction of the full
/// scale: the top row stands for the whole, each row below for 1/256 less.
pub open spec fn gradient_level(row: int) -> Dyadic {
    Dyadic { numerator: (256 - row) as i32, exponent: 8 }
}

/// A rendered frame with the temperatures that it shows.
#[derive(Clone, Copy, Debug, PartialEq)]
pub struct ImageRead<T> {
    pub pixels: [u8; IMAGE_BYTES],
    pub temperature_read: TemperatureRead<T>,
}

impl<T: Copy> ImageRead<T> {
    /// The black picture of the given temperatures.
    pub fn black(temperature_read: TemperatureRead<T>) -> (read: ImageRead<T>)
        ensures
            read.temperature_read == temperature_read,
            forall|byte: int| 0 <= byte < IMAGE_BYTES ==> #[trigger] read.pixels[byte] == 0,
    {
        ImageRead { pixels: [0; IMAGE_BYTES], temperature_read }
    }
}

/// Renders a frame: every pixel gets the colour that `palette` gives for
/// the colouring, the pixel's temperature and the bounds of the frame.
pub fn color_image<T: Copy, F: Fn(ColorTypes, T, T, T) -> [u8; 3]>(
    color_type: &ColorTypes,
    temperatures: &TemperatureRead<T>,
    palette: F,
) -> (image: ImageRead<T>)
    requires
        forall|pixel: int|
            0 <= pixel < PIXEL_COUNT ==> call_requires(
                palette,
                (
                    *color_type,
                    #[trigger] temperatures.temperature_grid[pixel],
                    temperatures.min_temp,
                    temperatures.max_temp,
                ),
            ),
    ensures
        image.temperature_read == *temperatures,
        forall|pixel: int|
            0 <= pixel < PIXEL_COUNT ==> call_ensures(
                palette,
                (
                    *color_type,
                    temperatures.temperature_grid[pixel],
                    temperatures.min_temp,
                    temperatures.max_temp,
                ),
                #[trigger] color_at(image.pixels@, pixel),
            ),
{
    let mut res_pixels: [u8; IMAGE_BYTES] = [0; IMAGE_BYTES];
    let min_temp = temperatures.min_temp;
    let max_temp = temperatures.max_temp;

    let mut i: usize = 0;
    while i < PIXEL_COUNT
        invariant
            i <= PIXEL_COUNT,
            min_temp == temperatures.min_temp,
            max_temp == temperatures.max_temp,
            forall|pixel: int|
                0 <= pixel < PIXEL_COUNT ==> call_requires(
                    palette,
                    (*color_type, #[trigger] temperatures.temperature_grid[pixel], min_temp, max_temp),
                ),
            forall|pixel: int|
                0 <= pixel < i ==> call_ensures(
                    palette,
                    (*color_type, temperatures.temperature_grid[pixel], min_temp, max_temp),
                    #[trigger] color_at(res_pixels@, pixel),
                ),
        decreases PIXEL_COUNT - i,
    {
        let index: usize = i * 3;
        let temp = temperatures.temperature_grid[i];
        let color = palette(*color_type, temp, min_temp, max_temp);
        let ghost before = res_pixels@;
        res_pixels[index] = color[0];
        res_pixels[index + 1] = color[1];
        res_pixels[index + 2] = color[2];
        proof {
            assert(color_at(res_pixels@, i as int) =~= color);
            assert forall|pixel: int| 0 <= pixel < i implies call_ensures(
                palette,
                (*color_type, temperatures.temperature_grid[pixel], min_temp, max_temp),
                #[trigger] color_at(res_pixels@, pixel),
            ) by {
                assert(color_at(res_pixels@, pixel) =~= color_at(before, pixel));
            }
        }
        i += 1;
    }

    ImageRead { pixels: res_pixels, temperature_read: *temperatures }
}

/// Renders the colour scale: a column of 256 pixels, the top one with the
/// colour of the full scale, each one below with that of 1/256 less.
pub fn color_gradient<F: Fn(ColorTypes, Dyadic) -> [u8; 3]>(
    color_type: ColorTypes,
    palette: F,
) -> (gradient: [u8; GRADIENT_BYTES])
    requires
        forall|row: int|
            0 <= row < GRADIENT_HEIGHT ==> call_requires(
                palette,
                (color_type, #[trigger] gradient_level(row)),
            ),
    ensures
        forall|row: int|
            0 <= row < GRADIENT_HEIGHT ==> call_ensures(
                palette,
                (color_type, gradient_level(row)),
                #[trigger] color_at(gradient@, row),
            ),
{
    let mut gradient: [u8; GRADIENT_BYTES] = [0; GRADIENT_BYTES];
    let mut y: usize = 0;
    while y < GRADIENT_HEIGHT
        invariant
            y <= GRADIENT_HEIGHT,
            forall|row: int|
                0 <= row < GRADIENT_HEIGHT ==> call_requires(
                    palette,
                    (color_type, #[trigger] gradient_level(row)),
                ),
            forall|row: int|
                0 <= row < y ==> call_ensures(
                    palette,
                    (color_type, gradient_level(row)),
                    #[trigger] color_at(gradient@, row),
                ),
        decreases GRADIENT_HEIGHT - y,
    {
        let level = Dyadic { numerator: (GRADIENT_HEIGHT - y) as i32, exponent: 8 };
        assert(level == gradient_level(y as int));
        let color = palette(color_type, level);
        let index: usize = y * 3;
        let ghost before = gradient@;
        gradient[index] = color[0];
        gradient[index + 1] = color[1];
        gradient[index + 2] = color[2];
        proof {
            assert(color_at(gradient@, y as int) =~= color);
            assert forall|row: int| 0 <= row < y implies call_ensures(
                palette,
                (color_type, gradient_level(row)),
                #[trigger] color_at(gradient@, row),
            ) by {
                assert(color_at(gradient@, row) =~= color_at(before, row));
            }
        }
        y += 1;
    }
    gradient
}

/// The colour scale of a colouring.
pub fn get_scale<F: Fn(ColorTypes, Dyadic) -> [u8; 3]>(color_type: ColorTypes, palette: F) -> (scale:
    [u8; GRADIENT_BYTES])
    requires
        forall|row: int|
            0 <= row < GRADIENT_HEIGHT ==> call_requires(
                palette,
                (color_type, #[trigger] gradient_level(row)),
            ),
    ensures
        forall|row: int|
            0 <= row < GRADIENT_HEIGHT ==> call_ensures(
                palette,
                (color_type, gradient_level(row)),
                #[trigger] color_at(scale@, row),
            ),
{
    color_gradient(color_type, palette)
}

/// Where the palette gives one colour for every temperature, the picture
/// of a frame is one picture: two renderings of the same frame with the
/// same colouring agree in every byte.
pub proof fn lemma_rendering_is_determined<T, F: Fn(ColorTypes, T, T, T) -> [u8; 3]>(
    color_type: ColorTypes,
    temperatures: TemperatureRead<T>,
    palette: F,
    first: Seq<u8>,
    second: Seq<u8>,
)
    requires
        first.len() == IMAGE_BYTES,
        second.len() == IMAGE_BYTES,
        forall|value: T, one: [u8; 3], other: [u8; 3]|
            call_ensures(
                palette,
                (color_type, value, temperatures.min_temp, temperatures.max_temp),
                one,
            ) && call_ensures(
                palette,
                (color_type, value, temperatures.min_temp, temperatures.max_temp),
                other,
            ) ==> one == other,
        forall|pixel: int|
            0 <= pixel < PIXEL_COUNT ==> call_ensures(
                palette,
                (
                    color_type,
                    temperatures.temperature_grid[pixel],
                    temperatures.min_temp,
                    temperatures.max_temp,
                ),
                #[trigger] color_at(first, pixel),
            ),
        forall|pixel: int|
            0 <= pixel < PIXEL_COUNT ==> call_ensures(
                palette,
                (
                    color_type,
                    temperatures.temperature_grid[pixel],
                    temperatures.min_temp,
                    temperatures.max_temp,
                ),
                #[trigger] color_at(second, pixel),
            ),
    ensures
        first == second,
{
    assert forall|byte: int| 0 <= byte < IMAGE_BYTES implies first[byte] == second[byte] by {
        let pixel = byte / 3;
        let one = color_at(first, pixel);
        let other = color_at(second, pixel);
        assert(one == other);
        assert(one[0] == first[3 * pixel] && one[1] == first[3 * pixel + 1] && one[2] == first[3
            * pixel + 2]);
        assert(other[0] == second[3 * pixel] && other[1] == second[3 * pixel + 1] && other[2]
            == second[3 * pixel + 2]);
    }
    assert(first =~= second);
}

/// Where the palette gives one colour for every level, the colour scale of
/// a colouring is one scale: two renderings with the same colouring agree
/// in every byte.
pub proof fn lemma_scale_is_determined<F: Fn(ColorTypes, Dyadic) -> [u8; 3]>(
    color_type: ColorTypes,
    palette: F,
    first: Seq<u8>,
    second: Seq<u8>,
)
    requires
        first.len() == GRADIENT_BYTES,
        second.len() == GRADIENT_BYTES,
        forall|level: Dyadic, one: [u8; 3], other: [u8; 3]|
            call_ensures(palette, (color_type, level), one) && call_ensures(
                palette,
                (color_type, level),
                other,
            ) ==> one == other,
        forall|row: int|
            0 <= row < GRADIENT_HEIGHT ==> call_ensures(
                palette,
                (color_type, gradient_level(row)),
                #[trigger] color_at(first, row),
            ),
        forall|row: int|
            0 <= row < GRADIENT_HEIGHT ==> call_ensures(
                palette,
                (color_type, gradient_level(row)),
                #[trigger] color_at(second, row),
            ),
    ensures
        first == second,
{
    assert forall|byte: int| 0 <= byte < GRADIENT_BYTES implies first[byte] == second[byte] by {
        let row = byte / 3;
        let one = color_at(first, row);
        let other = color_at(second, row);
        assert(one == other);
        assert(one[0] == first[3 * row] && one[1] == first[3 * row + 1] && one[2] == first[3 * row
            + 2]);
        assert(other[0] == second[3 * row] && other[1] == second[3 * row + 1] && other[2]
            == second[3 * row + 2]);
    }
    assert(first =~= second);
}

/// Where the palette computes a function, a picture holds for every pixel
/// the value of that function for the colouring, the pixel's temperature
/// and the bounds of the frame, and the colour scale holds for every row
/// the value of that function for the level of the row, the full scale on
/// top.
pub proof fn lemma_colours_of_function<
    T,
    F: Fn(ColorTypes, T, T, T) -> [u8; 3],
    G: Fn(ColorTypes, Dyadic) -> [u8; 3],
>(
    color_type: ColorTypes,
    temperatures: TemperatureRead<T>,
    palette: F,
    colour: spec_fn(ColorTypes, T, T, T) -> [u8; 3],
    picture: Seq<u8>,
    scale_palette: G,
    scale_colour: spec_fn(ColorTypes, Dyadic) -> [u8; 3],
    scale: Seq<u8>,
)
    requires
        forall|value: T, low: T, high: T, given: [u8; 3]|
            call_ensures(palette, (color_type, value, low, high), given) ==> given == colour(
                color_type,
                value,
                low,
                high,
            ),
        forall|level: Dyadic, given: [u8; 3]|
            call_ensures(scale_palette, (color_type, level), given) ==> given == scale_colour(
                color_type,
                level,
            ),
        forall|pixel: int|
            0 <= pixel < PIXEL_COUNT ==> call_ensures(
                palette,
                (
                    color_type,
                    temperatures.temperature_grid[pixel],
                    temperatures.min_temp,
                    temperatures.max_temp,
                ),
                #[trigger] color_at(picture, pixel),
            ),
        forall|row: int|
            0 <= row < GRADIENT_HEIGHT ==> call_ensures(
                scale_palette,
                (color_type, gradient_level(row)),
                #[trigger] color_at(scale, row),
            ),
    ensures
        forall|pixel: int|
            0 <= pixel < PIXEL_COUNT ==> #[trigger] color_at(picture, pixel) == colour(
                color_type,
                temperatures.temperature_grid[pixel],
                temperatures.min_temp,
                temperatures.max_temp,
            ),
        forall|row: int|
            0 <= row < GRADIENT_HEIGHT ==> #[trigger] color_at(scale, row) == scale_colour(
                color_type,
                gradient_level(row),
            ),
        gradient_level(0) == (Dyadic { numerator: 256, exponent: 8 }),
{
}

} // verus!
