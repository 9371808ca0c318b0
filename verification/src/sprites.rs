//! Pixel-art sprites: rows of `#` (filled) and `.` (empty) scaled up into an
//! RGBA image.

use vstd::prelude::*;
use vstd::string::{StrSliceExecFns, StringSliceAdditionalSpecFns};

verus! {

/// An RGBA pixel.
pub type Colour = [u8; 4];

pub const GREEN: Colour = [104, 251, 53, 255];
pub const WHITE: Colour = [255, 255, 255, 255];
pub const TRANSPARENT: Colour = [0, 0, 0, 0];

/// A rendered sprite: an RGBA image buffer of the `image` crate, ready to be
/// encoded. Verus does not look inside it; `image_size` and `image_pixels`
/// say what it holds.
#[verifier::external_body]
pub struct SpriteImage {
    pub buffer: image::ImageBuffer<image::Rgba<u8>, Vec<u8>>,
}

/// The pixels an image holds, row by row: pixel (`x`, `y`) is at
/// `pixel_index(width, x, y)`.
pub uninterp spec fn image_pixels(img: SpriteImage) -> Seq<[u8; 4]>;

/// The width and height an image was made with.
pub uninterp spec fn image_size(img: SpriteImage) -> (u32, u32);

/// Where pixel (`x`, `y`) sits among the pixels of an image `w` pixels wide.
pub open spec fn pixel_index(w: int, x: int, y: int) -> int {
    y * w + x
}

/// `ImageBuffer::from_pixel`: a `width` × `height` image with every pixel
/// `fill`. It panics when the buffer length (four bytes a pixel) overflows
/// `usize`, which `requires` rules out.
#[verifier::external_body]
fn image_from_pixel(width: u32, height: u32, fill: Colour) -> (img: SpriteImage)
    requires
        (width as int) * (height as int) * 4 <= usize::MAX,
    ensures
        image_size(img) == (width, height),
        image_pixels(img) == Seq::new((width as int * height as int) as nat, |i: int| fill),
{
    SpriteImage { buffer: image::ImageBuffer::from_pixel(width, height, image::Rgba(fill)) }
}

/// `ImageBuffer::put_pixel`: pixel (`x`, `y`) becomes `pixel`; nothing else
/// changes. It panics outside the image, which `requires` rules out.
#[verifier::external_body]
fn image_put_pixel(img: &mut SpriteImage, x: u32, y: u32, pixel: Colour)
    requires
        x < image_size(*old(img)).0,
        y < image_size(*old(img)).1,
    ensures
        image_size(*final(img)) == image_size(*old(img)),
        image_pixels(*final(img)) == image_pixels(*old(img)).update(
            pixel_index(image_size(*old(img)).0 as int, x as int, y as int),
            pixel,
        ),
{
    img.buffer.put_pixel(x, y, image::Rgba(pixel));
}

/// Pixel positions inside a `w` × `h` image have distinct indices below `w * h`.
proof fn lemma_pixel_index(w: int, h: int, x: int, y: int, x2: int, y2: int)
    requires
        0 <= x < w,
        0 <= y < h,
        0 <= x2 < w,
        0 <= y2 < h,
    ensures
        0 <= pixel_index(w, x, y) < w * h,
        pixel_index(w, x, y) == pixel_index(w, x2, y2) <==> (x == x2 && y == y2),
{
    assert(0 <= y * w + x < w * h) by (nonlinear_arith)
        requires
            0 <= x < w,
            0 <= y < h,
    ;
    if y < y2 {
        assert(y * w + x < y2 * w + x2) by (nonlinear_arith)
            requires
                0 <= x < w,
                0 <= x2,
                y < y2,
        ;
    } else if y2 < y {
        assert(y2 * w + x2 < y * w + x) by (nonlinear_arith)
            requires
                0 <= x2 < w,
                0 <= x,
                y2 < y,
        ;
    }
}

/// The characters of each row of a sprite.
pub open spec fn sprite_rows(pattern: Seq<&str>) -> Seq<Seq<char>> {
    pattern.map_values(|line: &str| line@)
}

/// Row `r`, character `c` of the pattern is a `#`.
pub open spec fn cell_filled(rows: Seq<Seq<char>>, r: int, c: int) -> bool {
    &&& 0 <= r < rows.len()
    &&& 0 <= c < rows[r].len()
    &&& rows[r][c] == '#'
}

/// The pixel at (`x`, `y`): each `#` becomes a `scale`×`scale` block of
/// `colour`; everything else is transparent.
pub open spec fn sprite_pixel(rows: Seq<Seq<char>>, scale: int, colour: Colour, x: int, y: int) -> Colour {
    if cell_filled(rows, y / scale, x / scale) {
        colour
    } else {
        TRANSPARENT
    }
}

/// Every row has the same length in bytes.
pub open spec fn rows_same_width(pattern: Seq<&str>) -> bool {
    forall|i: int| 0 <= i < pattern.len() ==> (#[trigger] pattern[i]).spec_bytes().len() == pattern[0].spec_bytes().len()
}

/// Render a pixel-art sprite. Each `#` in `pattern` becomes a `scale×scale`
/// block in `colour`; everything else is transparent. All rows in `pattern`
/// must be the same length. Output size: (row length × scale) × (rows × scale).
pub fn render_sprite(scale: u32, colour: Colour, pattern: &[&str]) -> (image: SpriteImage)
    requires
        pattern@.len() > 0,
        pattern@.len() <= u32::MAX,
        rows_same_width(pattern@),
        pattern@[0].spec_bytes().len() * scale <= u32::MAX,
        pattern@.len() * scale <= u32::MAX,
        pattern@[0].spec_bytes().len() * scale * pattern@.len() * scale * 4 <= usize::MAX,
    ensures
        image_size(image) == (
            (pattern@[0].spec_bytes().len() * scale) as u32,
            (pattern@.len() * scale) as u32,
        ),
        forall|y: int, x: int|
            0 <= y < image_size(image).1 && 0 <= x < image_size(image).0 ==> #[trigger] image_pixels(
                image,
            )[pixel_index(image_size(image).0 as int, x, y)] == sprite_pixel(
                sprite_rows(pattern@),
                scale as int,
                colour,
                x,
                y,
            ),
{
    let ghost rows = sprite_rows(pattern@);
    let n_rows = pattern.len();
    let ghost bytes = pattern@[0].spec_bytes().len();
    let cols = pattern[0].len() as u32;
    proof {
        if scale > 0 {
            assert(bytes <= u32::MAX) by (nonlinear_arith)
                requires
                    bytes * scale <= u32::MAX,
                    scale > 0,
            ;
            assert(cols == bytes);
        } else {
            assert(cols * scale == 0) by (nonlinear_arith)
                requires
                    scale == 0,
            ;
            assert(bytes * scale == 0) by (nonlinear_arith)
                requires
                    scale == 0,
            ;
        }
    }
    let width = cols * scale;
    let height = n_rows as u32 * scale;
    assert((width as int) * (height as int) * 4 <= usize::MAX) by (nonlinear_arith)
        requires
            width == bytes * scale,
            height == pattern@.len() * scale,
            bytes * scale * pattern@.len() * scale * 4 <= usize::MAX,
    ;
    let mut img = image_from_pixel(width, height, TRANSPARENT);
    let ghost w = width as int;
    let ghost h = height as int;
    assert forall|yy: int, xx: int|
        0 <= yy < h && 0 <= xx < w implies #[trigger] image_pixels(img)[pixel_index(w, xx, yy)] == TRANSPARENT by {
        lemma_pixel_index(w, h, xx, yy, xx, yy);
    }
    for y in 0..height
        invariant
            n_rows == pattern@.len(),
            rows == sprite_rows(pattern@),
            w == width,
            h == height,
            width == pattern@[0].spec_bytes().len() * scale,
            height == pattern@.len() * scale,
            image_size(img) == (width, height),
            image_pixels(img).len() == w * h,
            forall|yy: int, xx: int|
                0 <= yy < h && 0 <= xx < w ==> #[trigger] image_pixels(img)[pixel_index(w, xx, yy)] == if yy
                    < y {
                    sprite_pixel(rows, scale as int, colour, xx, yy)
                } else {
                    TRANSPARENT
                },
    {
        let r = (y / scale) as usize;
        for x in 0..width
            invariant
                n_rows == pattern@.len(),
                rows == sprite_rows(pattern@),
                w == width,
                h == height,
                y < height,
                scale > 0,
                r == y / scale,
                image_size(img) == (width, height),
                image_pixels(img).len() == w * h,
                forall|yy: int, xx: int|
                    0 <= yy < h && 0 <= xx < w ==> #[trigger] image_pixels(img)[pixel_index(w, xx, yy)]
                        == if yy < y || (yy == y && xx < x) {
                        sprite_pixel(rows, scale as int, colour, xx, yy)
                    } else {
                        TRANSPARENT
                    },
        {
            let c = (x / scale) as usize;
            let mut filled = false;
            if r < n_rows {
                let text: &str = pattern[r];
                assert(rows[r as int] == text@);
                if c < text.unicode_len() {
                    filled = text.get_char(c) == '#';
                }
            }
            assert(filled == cell_filled(rows, (y / scale) as int, (x / scale) as int));
            let ghost before = image_pixels(img);
            proof {
                lemma_pixel_index(w, h, x as int, y as int, x as int, y as int);
            }
            if filled {
                image_put_pixel(&mut img, x, y, colour);
            }
            proof {
                let after = image_pixels(img);
                assert forall|yy: int, xx: int|
                    0 <= yy < h && 0 <= xx < w implies #[trigger] after[pixel_index(w, xx, yy)] == if yy
                        < y || (yy == y && xx < x + 1) {
                        sprite_pixel(rows, scale as int, colour, xx, yy)
                    } else {
                        TRANSPARENT
                    } by {
                    lemma_pixel_index(w, h, xx, yy, x as int, y as int);
                    assert(before[pixel_index(w, xx, yy)] == if yy < y || (yy == y && xx < x) {
                        sprite_pixel(rows, scale as int, colour, xx, yy)
                    } else {
                        TRANSPARENT
                    });
                    if xx == x && yy == y {
                        assert(sprite_pixel(rows, scale as int, colour, xx, yy) == if filled {
                            colour
                        } else {
                            TRANSPARENT
                        });
                    }
                }
            }
        }
    }
    img
}

} // verus!
