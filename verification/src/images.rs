//! Fitting pictures to the terminal.
//!
//! A picture is a list of RGB pixels, row by row, with its width and height.
//! It is scaled into a canvas of the size of the terminal window: either to
//! the whole canvas, or as large as its proportions allow, centred, with
//! black around it. A terminal cell is about twice as high as it is wide, so
//! a picture that is fitted to the height of the canvas is drawn twice as
//! wide as its proportions say.

use vstd::prelude::*;
use vstd::math::min;
use crate::units::div_nearest;

verus! {

/// The size a picture of `width` by `height` pixels is drawn at on a canvas
/// of `new_width` by `new_height` cells.
///
/// Without regard to proportions it fills the canvas. With regard to them, a
/// picture that is less wide than the canvas, in proportion, takes the
/// height of the canvas and twice the width that goes with it, as far as
/// there is room; any other takes the width of the canvas and the height
/// that goes with it. A picture without pixels is drawn at no size.
pub open spec fn fit_size(
    width: int,
    height: int,
    new_width: int,
    new_height: int,
    keep_aspect_ratio: bool,
) -> (int, int) {
    if !keep_aspect_ratio {
        (new_width, new_height)
    } else if width <= 0 || height <= 0 {
        (0, 0)
    } else if new_width * height > width * new_height {
        (min(2 * div_nearest(new_height * width, height), new_width), new_height)
    } else {
        (new_width, div_nearest(new_width * height, width))
    }
}

/// A picture never outgrows its canvas.
pub proof fn lemma_fit_size_fits(
    width: int,
    height: int,
    new_width: int,
    new_height: int,
    keep_aspect_ratio: bool,
)
    requires
        0 <= width,
        0 <= height,
        0 <= new_width,
        0 <= new_height,
    ensures
        0 <= fit_size(width, height, new_width, new_height, keep_aspect_ratio).0 <= new_width,
        0 <= fit_size(width, height, new_width, new_height, keep_aspect_ratio).1 <= new_height,
{
    if keep_aspect_ratio && width > 0 && height > 0 {
        if new_width * height > width * new_height {
            let n = new_height * width;
            assert(n >= 0) by (nonlinear_arith)
                requires
                    n == new_height * width,
                    new_height >= 0,
                    width >= 0,
            ;
            assert((2 * n + height) / (2 * height) >= 0) by (nonlinear_arith)
                requires
                    n >= 0,
                    height > 0,
            ;
        } else {
            let n = new_width * height;
            assert(0 <= n <= width * new_height) by (nonlinear_arith)
                requires
                    n == new_width * height,
                    !(new_width * height > width * new_height),
                    new_width >= 0,
                    height >= 0,
            ;
            assert(0 <= (2 * n + width) / (2 * width) <= new_height) by (nonlinear_arith)
                requires
                    0 <= n <= width * new_height,
                    width > 0,
                    new_height >= 0,
            ;
        }
    }
}

/// The size a picture is drawn at.
pub fn fit(width: u16, height: u16, new_width: u16, new_height: u16, keep_aspect_ratio: bool) -> (size:
    (u16, u16))
    ensures
        (size.0 as int, size.1 as int) == fit_size(
            width as int,
            height as int,
            new_width as int,
            new_height as int,
            keep_aspect_ratio,
        ),
        size.0 <= new_width,
        size.1 <= new_height,
{
    proof {
        lemma_fit_size_fits(
            width as int,
            height as int,
            new_width as int,
            new_height as int,
            keep_aspect_ratio,
        );
    }
    if !keep_aspect_ratio {
        return (new_width, new_height);
    }
    if width == 0 || height == 0 {
        return (0, 0);
    }
    let w = width as u64;
    let h = height as u64;
    let nw = new_width as u64;
    let nh = new_height as u64;
    assert(nw * h <= 0xffff * 0xffff && w * nh <= 0xffff * 0xffff && nh * w <= 0xffff * 0xffff)
        by (nonlinear_arith)
        requires
            w <= 0xffff,
            h <= 0xffff,
            nw <= 0xffff,
            nh <= 0xffff,
    ;
    if nw * h > w * nh {
        let scaled_width: u64 = (2 * (nh * w) + h) / (2 * h);
        assert(scaled_width <= 0xffff * 0xffff * 2 + 0xffff) by (nonlinear_arith)
            requires
                scaled_width == (2 * (nh * w) + h) / (2 * h),
                nh * w <= 0xffff * 0xffff,
                h > 0,
                h <= 0xffff,
        ;
        let doubled = 2 * scaled_width;
        if doubled < nw {
            (doubled as u16, new_height)
        } else {
            (new_width, new_height)
        }
    } else {
        let scaled_height: u64 = (2 * (nw * h) + w) / (2 * w);
        (new_width, scaled_height as u16)
    }
}

/// The colour of the canvas cell `(row, col)` when a picture is drawn at
/// `size` in the middle of a canvas of `new_width` by `new_height` cells:
/// inside the picture the pixel that `pixel_at` names, outside it black.
pub open spec fn centered(
    size: (int, int),
    new_width: int,
    new_height: int,
    row: int,
    col: int,
    pixel_at: spec_fn(int, int) -> (u8, u8, u8),
) -> (u8, u8, u8) {
    let x_offset = (new_width - size.0) / 2;
    let y_offset = (new_height - size.1) / 2;
    if y_offset <= row < y_offset + size.1 && x_offset <= col < x_offset + size.0 {
        pixel_at(col - x_offset, row - y_offset)
    } else {
        (0u8, 0u8, 0u8)
    }
}

/// The pixel of the picture that the scaled pixel `(x, y)` is taken from:
/// the nearest one above and to the left.
pub open spec fn nearest_source(
    image: Seq<(u8, u8, u8)>,
    width: int,
    height: int,
    size: (int, int),
) -> spec_fn(int, int) -> (u8, u8, u8) {
    |x: int, y: int| image[((y * height) / size.1) * width + (x * width) / size.0]
}

/// `canvas` has `new_height` rows of `new_width` cells.
pub open spec fn is_canvas(canvas: Seq<Vec<(u8, u8, u8)>>, new_width: int, new_height: int) -> bool {
    &&& canvas.len() == new_height
    &&& forall|row: int| 0 <= row < new_height ==> (#[trigger] canvas[row])@.len() == new_width
}

/// A source pixel lies inside the picture.
proof fn lemma_source_in_picture(x: int, y: int, width: int, height: int, sw: int, sh: int)
    requires
        0 <= x < sw,
        0 <= y < sh,
        0 < width,
        0 < height,
    ensures
        0 <= (x * width) / sw < width,
        0 <= (y * height) / sh < height,
        0 <= ((y * height) / sh) * width + (x * width) / sw < width * height,
{
    let sx = (x * width) / sw;
    let sy = (y * height) / sh;
    assert(0 <= sx < width) by (nonlinear_arith)
        requires
            sx == (x * width) / sw,
            0 <= x < sw,
            0 < width,
    ;
    assert(0 <= sy < height) by (nonlinear_arith)
        requires
            sy == (y * height) / sh,
            0 <= y < sh,
            0 < height,
    ;
    assert(0 <= sy * width + sx < width * height) by (nonlinear_arith)
        requires
            0 <= sx < width,
            0 <= sy < height,
    ;
}

/// Scales a picture onto a canvas by taking, for every cell, the nearest
/// pixel above and to the left.
pub fn scale_image(
    image: &[(u8, u8, u8)],
    width: u16,
    height: u16,
    new_width: u16,
    new_height: u16,
    keep_aspect_ratio: bool,
) -> (scaled: Vec<Vec<(u8, u8, u8)>>)
    requires
        image@.len() >= width * height,
        !keep_aspect_ratio && new_width > 0 && new_height > 0 ==> width > 0 && height > 0,
    ensures
        is_canvas(scaled@, new_width as int, new_height as int),
        forall|row: int, col: int|
            0 <= row < new_height && 0 <= col < new_width ==> #[trigger] scaled@[row]@[col]
                == centered(
                fit_size(
                    width as int,
                    height as int,
                    new_width as int,
                    new_height as int,
                    keep_aspect_ratio,
                ),
                new_width as int,
                new_height as int,
                row,
                col,
                nearest_source(
                    image@,
                    width as int,
                    height as int,
                    fit_size(
                        width as int,
                        height as int,
                        new_width as int,
                        new_height as int,
                        keep_aspect_ratio,
                    ),
                ),
            ),
{
    let (scaled_width, scaled_height) = fit(width, height, new_width, new_height, keep_aspect_ratio);
    let ghost size = (scaled_width as int, scaled_height as int);
    let ghost source = nearest_source(image@, width as int, height as int, size);
    let x_offset = (new_width - scaled_width) / 2;
    let y_offset = (new_height - scaled_height) / 2;
    let mut scaled: Vec<Vec<(u8, u8, u8)>> = Vec::new();
    let mut row: u16 = 0;
    while row < new_height
        invariant
            row <= new_height,
            scaled_width <= new_width,
            scaled_height <= new_height,
            x_offset == (new_width - scaled_width) / 2,
            y_offset == (new_height - scaled_height) / 2,
            size == (scaled_width as int, scaled_height as int),
            source == nearest_source(image@, width as int, height as int, size),
            image@.len() >= width * height,
            scaled_width > 0 && scaled_height > 0 ==> width > 0 && height > 0,
            scaled@.len() == row,
            forall|r: int| 0 <= r < row ==> (#[trigger] scaled@[r])@.len() == new_width,
            forall|r: int, c: int|
                0 <= r < row && 0 <= c < new_width ==> #[trigger] scaled@[r]@[c] == centered(
                    size,
                    new_width as int,
                    new_height as int,
                    r,
                    c,
                    source,
                ),
        decreases new_height - row,
    {
        let mut cells: Vec<(u8, u8, u8)> = Vec::new();
        let mut col: u16 = 0;
        while col < new_width
            invariant
                row < new_height,
                col <= new_width,
                scaled_width <= new_width,
                scaled_height <= new_height,
                x_offset == (new_width - scaled_width) / 2,
                y_offset == (new_height - scaled_height) / 2,
                size == (scaled_width as int, scaled_height as int),
                source == nearest_source(image@, width as int, height as int, size),
                image@.len() >= width * height,
                scaled_width > 0 && scaled_height > 0 ==> width > 0 && height > 0,
                cells@.len() == col,
                forall|c: int|
                    0 <= c < col ==> #[trigger] cells@[c] == centered(
                        size,
                        new_width as int,
                        new_height as int,
                        row as int,
                        c,
                        source,
                    ),
            decreases new_width - col,
        {
            let inside = y_offset <= row && row - y_offset < scaled_height && x_offset <= col && col
                - x_offset < scaled_width;
            if inside {
                let x = (col - x_offset) as usize;
                let y = (row - y_offset) as usize;
                proof {
                    lemma_source_in_picture(
                        x as int,
                        y as int,
                        width as int,
                        height as int,
                        scaled_width as int,
                        scaled_height as int,
                    );
                    assert(x * width <= 0xffff * 0xffff && y * height <= 0xffff * 0xffff)
                        by (nonlinear_arith)
                        requires
                            x <= 0xffff,
                            y <= 0xffff,
                            width <= 0xffff,
                            height <= 0xffff,
                    ;
                }
                let src_x = (x * (width as usize)) / (scaled_width as usize);
                let src_y = (y * (height as usize)) / (scaled_height as usize);
                assert(src_y * width <= 0xffff * 0xffff) by (nonlinear_arith)
                    requires
                        src_y < height,
                        width <= 0xffff,
                        height <= 0xffff,
                ;
                cells.push(image[src_y * (width as usize) + src_x]);
            } else {
                cells.push((0, 0, 0));
            }
            col += 1;
        }
        scaled.push(cells);
        row += 1;
    }
    scaled
}

/// Calls `image::imageops::resize` with `FilterType::CatmullRom` on the
/// picture that `pixels` holds, and hands back the buffer of the result.
///
/// The buffer must hold exactly the picture. The crate allocates a buffer of
/// three bytes to a pixel for the result and, on the way, one of four
/// 32-bit numbers to a pixel for the picture resampled in height only; both
/// must be of a size that a vector can have. With sizes of 16 bits no product
/// of channels and one side can overflow on the way. The result is a picture
/// of the new size, three bytes to a pixel. Nothing is claimed of its
/// content: the crate computes it in floating point, to a precision that may
/// differ from one machine to the next.
#[verifier::external_body]
fn resize_catmull_rom(
    pixels: Vec<u8>,
    width: u16,
    height: u16,
    new_width: u16,
    new_height: u16,
) -> (resized: Vec<u8>)
    requires
        pixels@.len() == 3 * (width * height),
        3 * (new_width * new_height) <= isize::MAX,
        16 * (width * new_height) <= isize::MAX,
    ensures
        resized@.len() == 3 * (new_width * new_height),
{
    let source = image::RgbImage::from_raw(width as u32, height as u32, pixels).unwrap();
    let filter = image::imageops::FilterType::CatmullRom;
    image::imageops::resize(&source, new_width as u32, new_height as u32, filter).into_raw()
}

/// The bytes of a picture of `width` by `height` pixels whose pixels are
/// taken from `image` in order; pixels that `image` does not have are black.
pub open spec fn source_bytes(image: Seq<(u8, u8, u8)>, width: int, height: int) -> Seq<u8> {
    Seq::new(
        (3 * (width * height)) as nat,
        |i: int|
            {
                let pixel = if i / 3 < image.len() {
                    image[i / 3]
                } else {
                    (0u8, 0u8, 0u8)
                };
                if i % 3 == 0 {
                    pixel.0
                } else if i % 3 == 1 {
                    pixel.1
                } else {
                    pixel.2
                }
            },
    )
}

/// The pixel `(x, y)` of a picture that is `width` pixels wide and held in a
/// byte buffer, three bytes to a pixel.
pub open spec fn buffer_pixel(bytes: Seq<u8>, width: int) -> spec_fn(int, int) -> (u8, u8, u8) {
    |x: int, y: int|
        (bytes[3 * (y * width + x)], bytes[3 * (y * width + x) + 1], bytes[3 * (y * width + x) + 2])
}

/// The pixels of a byte buffer, three bytes to a pixel. Bytes left over at
/// the end make no pixel.
pub fn rgb_pixels(bytes: &[u8]) -> (pixels: Vec<(u8, u8, u8)>)
    ensures
        pixels@.len() == bytes@.len() / 3,
        forall|i: int|
            0 <= i < pixels@.len() ==> #[trigger] pixels@[i] == (
                bytes@[3 * i],
                bytes@[3 * i + 1],
                bytes@[3 * i + 2],
            ),
{
    let count = bytes.len() / 3;
    let mut pixels: Vec<(u8, u8, u8)> = Vec::new();
    let mut i: usize = 0;
    while i < count
        invariant
            count == bytes@.len() / 3,
            bytes@.len() <= usize::MAX,
            i <= count,
            pixels@.len() == i,
            forall|k: int|
                0 <= k < i ==> #[trigger] pixels@[k] == (
                    bytes@[3 * k],
                    bytes@[3 * k + 1],
                    bytes@[3 * k + 2],
                ),
        decreases count - i,
    {
        assert(3 * i + 3 <= bytes@.len());
        pixels.push((bytes[3 * i], bytes[3 * i + 1], bytes[3 * i + 2]));
        i += 1;
    }
    pixels
}

/// The byte buffer of a picture of `width` by `height` pixels taken from
/// `image`.
fn picture_bytes(image: &[(u8, u8, u8)], width: u16, height: u16) -> (bytes: Vec<u8>)
    requires
        3 * width * height <= usize::MAX,
    ensures
        bytes@ == source_bytes(image@, width as int, height as int),
{
    assert(width * height <= 0xffff * 0xffff) by (nonlinear_arith)
        requires
            width <= 0xffff,
            height <= 0xffff,
    ;
    assert(3 * width * height == 3 * (width * height)) by (nonlinear_arith);
    let count: usize = (width as usize) * (height as usize);
    let mut bytes: Vec<u8> = Vec::new();
    let mut i: usize = 0;
    while i < count
        invariant
            count == width * height,
            3 * count <= usize::MAX,
            i <= count,
            bytes@.len() == 3 * i,
            forall|k: int|
                0 <= k < 3 * i ==> #[trigger] bytes@[k] == source_bytes(
                    image@,
                    width as int,
                    height as int,
                )[k],
        decreases count - i,
    {
        let pixel = if i < image.len() {
            image[i]
        } else {
            (0, 0, 0)
        };
        bytes.push(pixel.0);
        bytes.push(pixel.1);
        bytes.push(pixel.2);
        i += 1;
    }
    assert(bytes@ =~= source_bytes(image@, width as int, height as int));
    bytes
}

/// Draws a picture that is held in a byte buffer in the middle of a black
/// canvas.
pub fn place_centered(
    picture: &Vec<u8>,
    width: u16,
    height: u16,
    new_width: u16,
    new_height: u16,
) -> (canvas: Vec<Vec<(u8, u8, u8)>>)
    requires
        picture@.len() == 3 * width * height,
        width <= new_width,
        height <= new_height,
    ensures
        is_canvas(canvas@, new_width as int, new_height as int),
        forall|row: int, col: int|
            0 <= row < new_height && 0 <= col < new_width ==> #[trigger] canvas@[row]@[col]
                == centered(
                (width as int, height as int),
                new_width as int,
                new_height as int,
                row,
                col,
                buffer_pixel(picture@, width as int),
            ),
{
    let ghost size = (width as int, height as int);
    let ghost source = buffer_pixel(picture@, width as int);
    let x_offset = (new_width - width) / 2;
    let y_offset = (new_height - height) / 2;
    let total = picture.len();
    let mut canvas: Vec<Vec<(u8, u8, u8)>> = Vec::new();
    let mut row: u16 = 0;
    while row < new_height
        invariant
            row <= new_height,
            width <= new_width,
            height <= new_height,
            total == picture@.len(),
            picture@.len() == 3 * width * height,
            x_offset == (new_width - width) / 2,
            y_offset == (new_height - height) / 2,
            size == (width as int, height as int),
            source == buffer_pixel(picture@, width as int),
            canvas@.len() == row,
            forall|r: int| 0 <= r < row ==> (#[trigger] canvas@[r])@.len() == new_width,
            forall|r: int, c: int|
                0 <= r < row && 0 <= c < new_width ==> #[trigger] canvas@[r]@[c] == centered(
                    size,
                    new_width as int,
                    new_height as int,
                    r,
                    c,
                    source,
                ),
        decreases new_height - row,
    {
        let mut cells: Vec<(u8, u8, u8)> = Vec::new();
        let mut col: u16 = 0;
        while col < new_width
            invariant
                row < new_height,
                col <= new_width,
                width <= new_width,
                height <= new_height,
                total == picture@.len(),
                picture@.len() == 3 * width * height,
                x_offset == (new_width - width) / 2,
                y_offset == (new_height - height) / 2,
                size == (width as int, height as int),
                source == buffer_pixel(picture@, width as int),
                cells@.len() == col,
                forall|c: int|
                    0 <= c < col ==> #[trigger] cells@[c] == centered(
                        size,
                        new_width as int,
                        new_height as int,
                        row as int,
                        c,
                        source,
                    ),
            decreases new_width - col,
        {
            let inside = y_offset <= row && row - y_offset < height && x_offset <= col && col
                - x_offset < width;
            if inside {
                let x = (col - x_offset) as usize;
                let y = (row - y_offset) as usize;
                let w = width as usize;
                let ghost len = picture@.len() as int;
                assert(0 <= 3 * (y * w + x) && 3 * (y * w + x) + 2 < len && y * w <= 0xffff
                    * 0xffff) by (nonlinear_arith)
                    requires
                        0 <= x < w,
                        0 <= y < height,
                        w == width,
                        len == 3 * width * height,
                        w <= 0xffff,
                        height <= 0xffff,
                ;
                let at = 3 * (y * w + x);
                cells.push((picture[at], picture[at + 1], picture[at + 2]));
            } else {
                cells.push((0, 0, 0));
            }
            col += 1;
        }
        canvas.push(cells);
        row += 1;
    }
    canvas
}

/// The buffers that resampling needs are of a size that a vector can have:
/// three bytes to a pixel for the picture and for the resampled picture, and
/// sixteen bytes to a pixel for the picture resampled in height only.
pub open spec fn room_to_resample(width: int, height: int, new_width: int, new_height: int) -> bool {
    &&& 3 * (width * height) <= isize::MAX
    &&& 3 * (new_width * new_height) <= isize::MAX
    &&& 16 * (width * new_height) <= isize::MAX
}

/// `canvas` shows some picture of the size `size` in the middle of a canvas
/// of `new_width` by `new_height` cells, with black around it.
pub open spec fn shows_a_picture(
    canvas: Seq<Vec<(u8, u8, u8)>>,
    size: (int, int),
    new_width: int,
    new_height: int,
) -> bool {
    &&& is_canvas(canvas, new_width, new_height)
    &&& exists|picture: Seq<u8>|
        picture.len() == 3 * size.0 * size.1 && forall|row: int, col: int|
            0 <= row < new_height && 0 <= col < new_width ==> #[trigger] canvas[row]@[col]
                == centered(size, new_width, new_height, row, col, buffer_pixel(picture, size.0))
}

/// Scales a picture onto a canvas by resampling it with the Catmull-Rom
/// filter. The resampled picture has the size that fits the canvas and sits
/// in its middle; what it looks like is up to the filter.
pub fn quality_scale_image(
    image: &[(u8, u8, u8)],
    width: u16,
    height: u16,
    new_width: u16,
    new_height: u16,
    keep_aspect_ratio: bool,
) -> (scaled: Vec<Vec<(u8, u8, u8)>>)
    requires
        room_to_resample(width as int, height as int, new_width as int, new_height as int),
    ensures
        shows_a_picture(
            scaled@,
            fit_size(
                width as int,
                height as int,
                new_width as int,
                new_height as int,
                keep_aspect_ratio,
            ),
            new_width as int,
            new_height as int,
        ),
{
    let (scaled_width, scaled_height) = fit(width, height, new_width, new_height, keep_aspect_ratio);
    proof {
        assert(3 * (scaled_width * scaled_height) <= 3 * (new_width * new_height) && 16 * (width
            * scaled_height) <= 16 * (width * new_height) && 3 * width * height == 3 * (width
            * height) && 3 * scaled_width * scaled_height == 3 * (scaled_width * scaled_height))
            by (nonlinear_arith)
            requires
                0 <= scaled_width <= new_width,
                0 <= scaled_height <= new_height,
                0 <= width,
                0 <= height,
        ;
    }
    let source = picture_bytes(image, width, height);
    let resized = resize_catmull_rom(source, width, height, scaled_width, scaled_height);
    place_centered(&resized, scaled_width, scaled_height, new_width, new_height)
}

/// Fits a decoded picture to the terminal, by resampling or by picking the
/// nearest pixels, and hands it back with the size the picture had.
pub fn read_image(
    pixels: &[(u8, u8, u8)],
    width: u16,
    height: u16,
    term_width: u16,
    term_height: u16,
    quality_scale: bool,
    keep_aspect_ratio: bool,
) -> (fitted: (u16, u16, Vec<Vec<(u8, u8, u8)>>))
    requires
        quality_scale ==> room_to_resample(
            width as int,
            height as int,
            term_width as int,
            term_height as int,
        ),
        !quality_scale ==> pixels@.len() >= width * height,
        !quality_scale && !keep_aspect_ratio && term_width > 0 && term_height > 0 ==> width > 0
            && height > 0,
    ensures
        fitted.0 == width,
        fitted.1 == height,
        is_canvas(fitted.2@, term_width as int, term_height as int),
        quality_scale ==> shows_a_picture(
            fitted.2@,
            fit_size(
                width as int,
                height as int,
                term_width as int,
                term_height as int,
                keep_aspect_ratio,
            ),
            term_width as int,
            term_height as int,
        ),
        !quality_scale ==> forall|row: int, col: int|
            0 <= row < term_height && 0 <= col < term_width ==> #[trigger] fitted.2@[row]@[col]
                == centered(
                fit_size(
                    width as int,
                    height as int,
                    term_width as int,
                    term_height as int,
                    keep_aspect_ratio,
                ),
                term_width as int,
                term_height as int,
                row,
                col,
                nearest_source(
                    pixels@,
                    width as int,
                    height as int,
                    fit_size(
                        width as int,
                        height as int,
                        term_width as int,
                        term_height as int,
                        keep_aspect_ratio,
                    ),
                ),
            ),
{
    let scaled = if quality_scale {
        quality_scale_image(pixels, width, height, term_width, term_height, keep_aspect_ratio)
    } else {
        scale_image(pixels, width, height, term_width, term_height, keep_aspect_ratio)
    };
    (width, height, scaled)
}

/// The number that two bytes hold, low byte first.
pub open spec fn le_u16(low: u8, high: u8) -> int {
    low + 256 * high
}

/// The pixel `i` of a raw bitmap: the three bytes from `4 + 3 * i` on.
pub open spec fn bitmap_pixel(bytes: Seq<u8>, i: int) -> (u8, u8, u8) {
    (bytes[4 + 3 * i], bytes[5 + 3 * i], bytes[6 + 3 * i])
}

/// The bytes hold all the pixels that the heading of the bitmap announces.
pub open spec fn bitmap_complete(bytes: Seq<u8>) -> bool {
    bytes.len() >= 4 ==> 4 + 3 * (le_u16(bytes[0], bytes[1]) * le_u16(bytes[2], bytes[3]))
        <= bytes.len()
}

/// Reads a raw bitmap: width and height as two bytes each, low byte first,
/// then the pixels row by row, three bytes to a pixel. Bytes too few for a
/// heading are no bitmap.
pub fn read_bitmap(bytes: &[u8]) -> (bitmap: Option<(u16, u16, Vec<Vec<(u8, u8, u8)>>)>)
    requires
        bitmap_complete(bytes@),
    ensures
        bitmap is Some <==> bytes@.len() >= 4,
        bitmap matches Some((width, height, screen)) ==> {
            &&& width == le_u16(bytes@[0], bytes@[1])
            &&& height == le_u16(bytes@[2], bytes@[3])
            &&& is_canvas(screen@, width as int, height as int)
            &&& forall|y: int, x: int|
                0 <= y < height && 0 <= x < width ==> #[trigger] screen@[y]@[x] == bitmap_pixel(
                    bytes@,
                    y * width + x,
                )
        },
{
    if bytes.len() < 4 {
        return None;
    }
    let width: u16 = (bytes[0] as u16) + 256 * (bytes[1] as u16);
    let height: u16 = (bytes[2] as u16) + 256 * (bytes[3] as u16);
    let total = bytes.len();
    let mut screen: Vec<Vec<(u8, u8, u8)>> = Vec::new();
    let mut y: u16 = 0;
    while y < height
        invariant
            y <= height,
            total == bytes@.len(),
            4 + 3 * (width * height) <= bytes@.len(),
            screen@.len() == y,
            forall|r: int| 0 <= r < y ==> (#[trigger] screen@[r])@.len() == width,
            forall|r: int, c: int|
                0 <= r < y && 0 <= c < width ==> #[trigger] screen@[r]@[c] == bitmap_pixel(
                    bytes@,
                    r * width + c,
                ),
        decreases height - y,
    {
        let mut row: Vec<(u8, u8, u8)> = Vec::new();
        let mut x: u16 = 0;
        while x < width
            invariant
                y < height,
                x <= width,
                total == bytes@.len(),
                4 + 3 * (width * height) <= bytes@.len(),
                row@.len() == x,
                forall|c: int|
                    0 <= c < x ==> #[trigger] row@[c] == bitmap_pixel(bytes@, y * width + c),
            decreases width - x,
        {
            let w = width as usize;
            let ghost len = bytes@.len() as int;
            assert(0 <= y * w + x && 4 + 3 * (y * w + x) + 2 < len && y * w <= 0xffff * 0xffff)
                by (nonlinear_arith)
                requires
                    0 <= x < w,
                    0 <= y < height,
                    w == width,
                    4 + 3 * (width * height) <= len,
                    w <= 0xffff,
                    height <= 0xffff,
            ;
            let at = 4 + 3 * ((y as usize) * w + (x as usize));
            row.push((bytes[at], bytes[at + 1], bytes[at + 2]));
            x += 1;
        }
        screen.push(row);
        y += 1;
    }
    Some((width, height, screen))
}

} // verus!
