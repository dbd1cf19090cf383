//! Colouring escape-time grids: a random palette, and a grid painted into an
//! RGB image buffer of the `image` crate.
use crate::fractal::{fractal_wf, Fractal, MAX_ITERATIONS};
use image::{ImageBuffer, Rgb};
use vstd::prelude::*;

verus! {

/// The `image` crate's RGB pixel; its one public field, the channel array,
/// is visible to the proofs.
#[verifier::external_type_specification]
#[verifier::reject_recursive_types(T)]
pub struct ExRgb<T>(image::Rgb<T>);

/// A painted frame: an RGB image buffer of the `image` crate. Its contents are
/// known to the proofs only through `rgb_pixels`.
#[verifier::external_body]
pub struct RgbFrame {
    pub buffer: ImageBuffer<Rgb<u8>, Vec<u8>>,
}

/// The channels `(red, green, blue)` of a colour.
pub open spec fn channels(c: Rgb<u8>) -> (u8, u8, u8) {
    (c.0@[0], c.0@[1], c.0@[2])
}

/// What an RGB image buffer holds: the colour channels of each pixel, keyed by
/// `(x, y)`; the keys are exactly the points inside the buffer.
pub uninterp spec fn rgb_pixels(b: RgbFrame) -> Map<(u32, u32), (u8, u8, u8)>;

/// The points `(x, y)` with `x < width` and `y < height`.
pub open spec fn pixel_domain(width: u32, height: u32) -> Set<(u32, u32)> {
    Set::new(|p: (u32, u32)| p.0 < width && p.1 < height)
}

/// Relies on rand::random::<u8>, a draw from the thread-local generator:
/// nothing is promised of the value that comes back.
#[verifier::external_body]
fn random_channel() -> u8 {
    rand::random::<u8>()
}

/// Relies on image::ImageBuffer::new: a `width` × `height` buffer whose pixels
/// are all black; it panics when `3 · width · height` overflows `usize`.
#[verifier::external_body]
fn new_rgb_buffer(width: u32, height: u32) -> (r: RgbFrame)
    requires
        3 * width * height <= usize::MAX,
    ensures
        rgb_pixels(r).dom() == pixel_domain(width, height),
        forall|p: (u32, u32)| #[trigger] rgb_pixels(r).contains_key(p) ==> rgb_pixels(r)[p] == (0u8, 0u8, 0u8),
{
    RgbFrame { buffer: ImageBuffer::new(width, height) }
}

/// Relies on image::ImageBuffer::put_pixel: the pixel at `(x, y)` becomes
/// `pixel`, the others stay; it panics outside the buffer.
#[verifier::external_body]
fn put_rgb_pixel(frame: &mut RgbFrame, x: u32, y: u32, pixel: Rgb<u8>)
    requires
        rgb_pixels(*old(frame)).contains_key((x, y)),
    ensures
        rgb_pixels(*final(frame)) == rgb_pixels(*old(frame)).insert((x, y), channels(pixel)),
{
    frame.buffer.put_pixel(x, y, pixel)
}

/// A colour whose three channels are drawn at random.
fn generate_random_color() -> Rgb<u8> {
    let red: u8 = random_channel();
    let green: u8 = random_channel();
    let blue: u8 = random_channel();
    Rgb([red, green, blue])
}

/// A palette of `number_of_colors + 1` random colours, one for each escape
/// time `0..=number_of_colors`.
pub fn generate_random_palette(number_of_colors: u8) -> (r: Vec<Rgb<u8>>)
    requires
        number_of_colors < u8::MAX,
    ensures
        r@.len() == number_of_colors + 1,
{
    let mut color_vec: Vec<Rgb<u8>> = Vec::new();
    let mut i: u8 = 0;
    while i <= number_of_colors
        invariant
            number_of_colors < u8::MAX,
            i <= number_of_colors + 1,
            color_vec@.len() == i,
        decreases number_of_colors + 1 - i,
    {
        let color = generate_random_color();
        color_vec.insert(i as usize, color);
        i = i + 1;
    }
    color_vec
}

/// The grid has at most `height` rows of at most `width` cells, and each cell
/// indexes a colour of `palette`.
pub open spec fn paintable(width: u32, height: u32, frame: Seq<Vec<u8>>, palette: Seq<Rgb<u8>>) -> bool {
    &&& frame.len() <= height
    &&& forall|y: int| 0 <= y < frame.len() ==> #[trigger] frame[y]@.len() <= width
    &&& forall|y: int, x: int|
        0 <= y < frame.len() && 0 <= x < frame[y]@.len() ==> #[trigger] frame[y]@[x] < palette.len()
}

/// Tells whether `frame` can be painted into a `width` × `height` image with
/// `palette`.
pub fn is_paintable(width: u32, height: u32, frame: &Fractal, palette: &Vec<Rgb<u8>>) -> (r: bool)
    ensures
        r == paintable(width, height, frame@, palette@),
{
    if frame.len() > height as usize {
        return false;
    }
    let mut y: usize = 0;
    while y < frame.len()
        invariant
            frame@.len() <= height,
            y <= frame@.len(),
            forall|yy: int| 0 <= yy < y ==> #[trigger] frame@[yy]@.len() <= width,
            forall|yy: int, x: int|
                0 <= yy < y && 0 <= x < frame@[yy]@.len() ==> #[trigger] frame@[yy]@[x] < palette@.len(),
        decreases frame@.len() - y,
    {
        let row = &frame[y];
        if row.len() > width as usize {
            return false;
        }
        let mut x: usize = 0;
        while x < row.len()
            invariant
                y < frame@.len(),
                row@ == frame@[y as int]@,
                x <= row@.len(),
                forall|xx: int| 0 <= xx < x ==> #[trigger] row@[xx] < palette@.len(),
            decreases row@.len() - x,
        {
            if row[x] as usize >= palette.len() {
                assert(frame@[y as int]@[x as int] >= palette@.len());
                return false;
            }
            x = x + 1;
        }
        assert forall|yy: int, xx: int|
            0 <= yy < y + 1 && 0 <= xx < frame@[yy]@.len() implies #[trigger] frame@[yy]@[xx] < palette@.len() by {
            if yy == y {
                assert(row@[xx] < palette@.len());
            }
        }
        y = y + 1;
    }
    true
}

/// The grid has a cell at column `x` of row `y`.
pub open spec fn covers(frame: Seq<Vec<u8>>, x: int, y: int) -> bool {
    0 <= y < frame.len() && 0 <= x < frame[y]@.len()
}

/// The colour channels that pixel `(x, y)` of a painted grid takes: the
/// palette colour of its cell, or black where the grid has no cell.
pub open spec fn painted_color(frame: Seq<Vec<u8>>, palette: Seq<Rgb<u8>>, x: int, y: int) -> (u8, u8, u8) {
    if covers(frame, x, y) {
        channels(palette[frame[y]@[x] as int])
    } else {
        (0u8, 0u8, 0u8)
    }
}

/// Paints an escape-time grid into a `width` × `height` image: pixel `(x, y)`
/// takes the palette colour at index `frame[y][x]`, and stays black where the
/// grid has no cell.
pub fn paint_frame(width: u32, height: u32, frame: &Fractal, palette: &Vec<Rgb<u8>>) -> (r: RgbFrame)
    requires
        3 * width * height <= usize::MAX,
        paintable(width, height, frame@, palette@),
    ensures
        rgb_pixels(r).dom() == pixel_domain(width, height),
        forall|x: u32, y: u32|
            x < width && y < height ==> #[trigger] rgb_pixels(r)[(x, y)] == painted_color(frame@, palette@, x as int, y as int),
{
    let mut imgbuf = new_rgb_buffer(width, height);
    assert forall|x: u32, y: u32| x < width && y < height implies #[trigger] rgb_pixels(imgbuf)[(x, y)] == (0u8, 0u8, 0u8) by {
        assert(pixel_domain(width, height).contains((x, y)));
        assert(rgb_pixels(imgbuf).contains_key((x, y)));
    }
    let mut i: usize = 0;
    while i < frame.len()
        invariant
            paintable(width, height, frame@, palette@),
            i <= frame@.len(),
            rgb_pixels(imgbuf).dom() == pixel_domain(width, height),
            forall|x: u32, y: u32|
                x < width && y < height ==> #[trigger] rgb_pixels(imgbuf)[(x, y)] == (if y < i {
                    painted_color(frame@, palette@, x as int, y as int)
                } else {
                    (0u8, 0u8, 0u8)
                }),
        decreases frame@.len() - i,
    {
        let row = &frame[i];
        let mut j: usize = 0;
        while j < row.len()
            invariant
                paintable(width, height, frame@, palette@),
                i < frame@.len(),
                j <= row@.len(),
                row@ == frame@[i as int]@,
                rgb_pixels(imgbuf).dom() == pixel_domain(width, height),
                forall|x: u32, y: u32|
                    x < width && y < height ==> #[trigger] rgb_pixels(imgbuf)[(x, y)] == (if y < i || (y == i && x < j) {
                        painted_color(frame@, palette@, x as int, y as int)
                    } else {
                        (0u8, 0u8, 0u8)
                    }),
            decreases row@.len() - j,
        {
            let cell = row[j];
            let color = palette[cell as usize];
            let x: u32 = j as u32;
            let y: u32 = i as u32;
            assert(pixel_domain(width, height).contains((x, y)));
            put_rgb_pixel(&mut imgbuf, x, y, color);
            assert(rgb_pixels(imgbuf).dom() =~= pixel_domain(width, height));
            j = j + 1;
        }
        assert forall|x: u32, y: u32| x < width && y < height implies #[trigger] rgb_pixels(imgbuf)[(x, y)] == (if y < i + 1 {
            painted_color(frame@, palette@, x as int, y as int)
        } else {
            (0u8, 0u8, 0u8)
        }) by {
            if y == i && x >= row@.len() {
                assert(!covers(frame@, x as int, y as int));
            }
        }
        i = i + 1;
    }
    assert forall|x: u32, y: u32| x < width && y < height implies #[trigger] rgb_pixels(imgbuf)[(x, y)] == painted_color(frame@, palette@, x as int, y as int) by {
        if y >= i {
            assert(!covers(frame@, x as int, y as int));
        }
    }
    imgbuf
}

/// A well-formed escape-time grid can be painted with any palette of
/// `MAX_ITERATIONS + 1` colours, such as `generate_random_palette(MAX_ITERATIONS)`
/// returns: no cell indexes outside the palette.
pub proof fn lemma_valid_fractal_is_paintable(width: u32, height: u32, frame: Seq<Vec<u8>>, palette: Seq<Rgb<u8>>)
    requires
        fractal_wf(width as nat, height as nat, frame),
        palette.len() == MAX_ITERATIONS + 1,
    ensures
        paintable(width, height, frame, palette),
{
}

} // verus!
