//! The image buffer: three bytes per pixel, red then green then blue, the
//! pixels row after row.

use crate::bands::{band, band_start, lemma_band_within_columns, Band};
use crate::config::RenderConfig;
use crate::palette::{shade, shade_of, Rgb};
use vstd::prelude::*;

verus! {

/// Place of pixel `(x, y)` among the pixels, counted row after row.
pub open spec fn pixel_index(width: int, x: int, y: int) -> int {
    y * width + x
}

/// Index in the buffer of the first of the three bytes of pixel `(x, y)`.
pub open spec fn pixel_offset(width: int, x: int, y: int) -> int {
    pixel_index(width, x, y) * 3
}

/// `(x, y)` is a pixel of an image of `width` by `height`.
pub open spec fn in_image(width: int, height: int, x: int, y: int) -> bool {
    0 <= x < width && 0 <= y < height
}

/// One of the three bytes of a colour, in the order they are stored.
pub open spec fn channel(color: Rgb, which: int) -> u8 {
    if which == 0 {
        color.red
    } else if which == 1 {
        color.green
    } else {
        color.blue
    }
}

/// The buffer after the three bytes from `offset` on have been set to `color`.
pub open spec fn paint(image: Seq<u8>, offset: int, color: Rgb) -> Seq<u8> {
    image.update(offset, color.red).update(offset + 1, color.green).update(
        offset + 2,
        color.blue,
    )
}

/// The buffer holds `color` at pixel `(x, y)`.
pub open spec fn shows(image: Seq<u8>, width: int, x: int, y: int, color: Rgb) -> bool {
    let offset = pixel_offset(width, x, y);
    &&& image[offset] == color.red
    &&& image[offset + 1] == color.green
    &&& image[offset + 2] == color.blue
}

/// The colour of pixel `(x, y)` when `samples` holds, for every pixel at its
/// place, the number of passes its orbit survived.
pub open spec fn color_at(config: RenderConfig, samples: Seq<u32>, x: int, y: int) -> Rgb {
    shade_of(
        samples[pixel_index(config.width as int, x, y)] as int,
        config.max_iterations as int,
    )
}

/// The buffer holds at pixel `(x, y)` the colour that `samples` gives it.
pub open spec fn pixel_done(
    image: Seq<u8>,
    config: RenderConfig,
    samples: Seq<u32>,
    x: int,
    y: int,
) -> bool {
    shows(image, config.width as int, x, y, color_at(config, samples, x, y))
}

/// The finished image: byte `i` is channel `i % 3` of the colour of the pixel
/// at place `i / 3`.
pub open spec fn rendered(config: RenderConfig, samples: Seq<u32>) -> Seq<u8> {
    Seq::new(
        config.spec_buffer_len() as nat,
        |i: int| channel(shade_of(samples[i / 3] as int, config.max_iterations as int), i % 3),
    )
}

/// What the buffer holds after the pixels listed in `order` have been
/// coloured one after the other, the first of the list first.
pub open spec fn painted(
    image: Seq<u8>,
    config: RenderConfig,
    samples: Seq<u32>,
    order: Seq<(int, int)>,
) -> Seq<u8>
    decreases order.len(),
{
    if order.len() == 0 {
        image
    } else {
        let (x, y) = order.last();
        paint(
            painted(image, config, samples, order.drop_last()),
            pixel_offset(config.width as int, x, y),
            color_at(config, samples, x, y),
        )
    }
}

/// `order` lists pixels of the image only, and each of them at least once.
pub open spec fn colours_every_pixel(config: RenderConfig, order: Seq<(int, int)>) -> bool {
    &&& forall|k: int|
        0 <= k < order.len() ==> in_image(
            config.width as int,
            config.height as int,
            (#[trigger] order[k]).0,
            order[k].1,
        )
    &&& forall|x: int, y: int|
        in_image(config.width as int, config.height as int, x, y) ==> #[trigger] order.contains(
            (x, y),
        )
}

/// A pixel of the image has its place among the pixels, and its three bytes
/// lie inside the buffer.
pub proof fn lemma_pixel_in_buffer(width: int, height: int, x: int, y: int)
    requires
        in_image(width, height, x, y),
    ensures
        0 <= pixel_index(width, x, y) < width * height,
        0 <= pixel_offset(width, x, y),
        pixel_offset(width, x, y) + 3 <= width * height * 3,
{
    assert(0 <= y * width && y * width + width <= height * width && height * width == width
        * height) by (nonlinear_arith)
        requires
            0 <= y < height,
            0 < width,
    ;
}

/// Two different pixels of the image have different places, so that the bytes
/// of one do not touch the bytes of the other.
pub proof fn lemma_pixels_apart(width: int, x: int, y: int, other_x: int, other_y: int)
    requires
        0 <= x < width,
        0 <= other_x < width,
        (x, y) != (other_x, other_y),
    ensures
        pixel_index(width, x, y) != pixel_index(width, other_x, other_y),
        pixel_offset(width, x, y) + 3 <= pixel_offset(width, other_x, other_y) || pixel_offset(
            width,
            other_x,
            other_y,
        ) + 3 <= pixel_offset(width, x, y),
{
    if y != other_y {
        assert(y * width + x != other_y * width + other_x) by (nonlinear_arith)
            requires
                0 <= x < width,
                0 <= other_x < width,
                y != other_y,
        ;
    }
}

/// Every place below `width * height` is the place of one pixel of the image:
/// the one in column `place % width` of row `place / width`.
pub proof fn lemma_place_has_pixel(width: int, height: int, place: int)
    requires
        0 <= place < width * height,
        0 <= height,
    ensures
        in_image(width, height, place % width, place / width),
        pixel_index(width, place % width, place / width) == place,
{
    assert(0 < width) by (nonlinear_arith)
        requires
            0 <= place < width * height,
            0 <= height,
    ;
    let row = place / width;
    let column = place % width;
    assert(row * width + column == place && 0 <= column < width && 0 <= row) by (nonlinear_arith)
        requires
            0 < width,
            0 <= place,
            row == place / width,
            column == place % width,
    ;
    assert(row < height) by (nonlinear_arith)
        requires
            row * width + column < width * height,
            0 <= column,
            0 < width,
    ;
}

/// Index in the buffer of the first byte of pixel `(x, y)`.
pub fn offset_of(config: &RenderConfig, x: u32, y: u32) -> (offset: usize)
    requires
        config.valid(),
        x < config.width,
        y < config.height,
    ensures
        offset == pixel_offset(config.width as int, x as int, y as int),
        offset + 3 <= config.spec_buffer_len(),
{
    proof {
        lemma_pixel_in_buffer(config.width as int, config.height as int, x as int, y as int);
        assert(0 <= y * config.width <= pixel_index(config.width as int, x as int, y as int))
            by (nonlinear_arith)
            requires
                0 <= y,
                0 <= config.width,
                0 <= x,
        ;
    }
    ((y as usize) * (config.width as usize) + (x as usize)) * 3
}

/// A buffer for the whole image, every byte 0.
pub fn blank(config: &RenderConfig) -> (image: Vec<u8>)
    requires
        config.valid(),
    ensures
        image@.len() == config.spec_buffer_len(),
        forall|i: int| 0 <= i < image@.len() ==> image@[i] == 0,
{
    let len: usize = config.buffer_len();
    vec![0u8; len]
}

/// Colours one pixel: writes the colour that belongs to `iterations`, the
/// number of passes the orbit of pixel `(x, y)` survived, into the three bytes
/// of that pixel and leaves every other byte as it was.
pub fn mandelbrot(x: u32, y: u32, iterations: u32, config: &RenderConfig, image: &mut Vec<u8>)
    requires
        config.valid(),
        x < config.width,
        y < config.height,
        old(image)@.len() == config.spec_buffer_len(),
    ensures
        final(image)@ == paint(
            old(image)@,
            pixel_offset(config.width as int, x as int, y as int),
            shade_of(iterations as int, config.max_iterations as int),
        ),
{
    let color: Rgb = shade(iterations, config.max_iterations);
    let offset: usize = offset_of(config, x, y);
    image[offset] = color.red;
    image[offset + 1] = color.green;
    image[offset + 2] = color.blue;
}

/// Colouring pixel `(x, y)` makes the buffer show its colour there and
/// changes no other pixel.
pub proof fn lemma_paint_one_pixel(
    image: Seq<u8>,
    width: int,
    height: int,
    x: int,
    y: int,
    color: Rgb,
)
    requires
        in_image(width, height, x, y),
        image.len() == width * height * 3,
    ensures
        paint(image, pixel_offset(width, x, y), color).len() == image.len(),
        shows(paint(image, pixel_offset(width, x, y), color), width, x, y, color),
        forall|other_x: int, other_y: int, other: Rgb|
            #![trigger shows(paint(image, pixel_offset(width, x, y), color), width, other_x, other_y, other)]
            in_image(width, height, other_x, other_y) && (other_x, other_y) != (x, y) ==> (shows(
                paint(image, pixel_offset(width, x, y), color),
                width,
                other_x,
                other_y,
                other,
            ) <==> shows(image, width, other_x, other_y, other)),
{
    lemma_pixel_in_buffer(width, height, x, y);
    let after = paint(image, pixel_offset(width, x, y), color);
    assert forall|other_x: int, other_y: int, other: Rgb|
        in_image(width, height, other_x, other_y) && (other_x, other_y) != (x, y) implies (
    #[trigger] shows(after, width, other_x, other_y, other) <==> shows(
        image,
        width,
        other_x,
        other_y,
        other,
    )) by {
        lemma_pixel_in_buffer(width, height, other_x, other_y);
        lemma_pixels_apart(width, x, y, other_x, other_y);
    }
}

/// A buffer in which every pixel shows its colour is the finished image.
pub proof fn lemma_all_pixels_done(image: Seq<u8>, config: RenderConfig, samples: Seq<u32>)
    requires
        image.len() == config.spec_buffer_len(),
        forall|x: int, y: int|
            in_image(config.width as int, config.height as int, x, y) ==> #[trigger] pixel_done(
                image,
                config,
                samples,
                x,
                y,
            ),
    ensures
        image == rendered(config, samples),
{
    let width = config.width as int;
    let height = config.height as int;
    assert forall|i: int| 0 <= i < image.len() implies image[i] == rendered(config, samples)[i] by {
        let place = i / 3;
        assert(0 <= place < width * height);
        lemma_place_has_pixel(width, height, place);
        assert(pixel_done(image, config, samples, place % width, place / width));
    }
    assert(image =~= rendered(config, samples));
}

/// In the finished image every pixel shows the colour that belongs to its own
/// sample.
pub proof fn lemma_render_shows_every_pixel(config: RenderConfig, samples: Seq<u32>)
    requires
        config.valid(),
    ensures
        rendered(config, samples).len() == config.spec_buffer_len(),
        forall|x: int, y: int|
            in_image(config.width as int, config.height as int, x, y) ==> #[trigger] pixel_done(
                rendered(config, samples),
                config,
                samples,
                x,
                y,
            ),
{
    let width = config.width as int;
    let height = config.height as int;
    let image = rendered(config, samples);
    assert(0 <= config.spec_buffer_len()) by (nonlinear_arith)
        requires
            0 <= width,
            0 <= height,
            config.spec_buffer_len() == width * height * 3,
    ;
    assert forall|x: int, y: int| in_image(width, height, x, y) implies #[trigger] pixel_done(
        image,
        config,
        samples,
        x,
        y,
    ) by {
        lemma_pixel_in_buffer(width, height, x, y);
    }
}

/// No byte of the finished image is left out: byte `i` is one of the three
/// bytes of the pixel in column `(i / 3) % width` of row `(i / 3) / width`,
/// which is a pixel of the image, and holds that channel of its colour.
pub proof fn lemma_render_complete(config: RenderConfig, samples: Seq<u32>, i: int)
    requires
        config.valid(),
        0 <= i < config.spec_buffer_len(),
    ensures
        i < rendered(config, samples).len(),
        in_image(
            config.width as int,
            config.height as int,
            (i / 3) % (config.width as int),
            (i / 3) / (config.width as int),
        ),
        i == pixel_offset(
            config.width as int,
            (i / 3) % (config.width as int),
            (i / 3) / (config.width as int),
        ) + i % 3,
        rendered(config, samples)[i] == channel(
            color_at(
                config,
                samples,
                (i / 3) % (config.width as int),
                (i / 3) / (config.width as int),
            ),
            i % 3,
        ),
{
    lemma_place_has_pixel(config.width as int, config.height as int, i / 3);
}

/// The order in which the pixels are coloured does not matter, nor does what
/// the buffer held before: once every pixel of the image has been coloured at
/// least once, the buffer is the finished image.
pub proof fn lemma_any_order_renders(
    start: Seq<u8>,
    config: RenderConfig,
    samples: Seq<u32>,
    order: Seq<(int, int)>,
)
    requires
        start.len() == config.spec_buffer_len(),
        colours_every_pixel(config, order),
    ensures
        painted(start, config, samples, order) == rendered(config, samples),
{
    lemma_painted_pixels(start, config, samples, order);
    let image = painted(start, config, samples, order);
    assert forall|x: int, y: int|
        in_image(config.width as int, config.height as int, x, y) implies #[trigger] pixel_done(
        image,
        config,
        samples,
        x,
        y,
    ) by {
        assert(order.contains((x, y)));
    }
    lemma_all_pixels_done(image, config, samples);
}

/// Two runs over the same samples end with the same bytes, whatever order
/// each of them coloured the pixels in.
pub proof fn lemma_runs_agree(
    config: RenderConfig,
    samples: Seq<u32>,
    first_start: Seq<u8>,
    first_order: Seq<(int, int)>,
    second_start: Seq<u8>,
    second_order: Seq<(int, int)>,
)
    requires
        first_start.len() == config.spec_buffer_len(),
        second_start.len() == config.spec_buffer_len(),
        colours_every_pixel(config, first_order),
        colours_every_pixel(config, second_order),
    ensures
        painted(first_start, config, samples, first_order) == painted(
            second_start,
            config,
            samples,
            second_order,
        ),
{
    lemma_any_order_renders(first_start, config, samples, first_order);
    lemma_any_order_renders(second_start, config, samples, second_order);
}

/// After the pixels in `order` have been coloured, each of them shows its
/// colour, and the buffer is as long as before.
pub proof fn lemma_painted_pixels(
    start: Seq<u8>,
    config: RenderConfig,
    samples: Seq<u32>,
    order: Seq<(int, int)>,
)
    requires
        start.len() == config.spec_buffer_len(),
        forall|k: int|
            0 <= k < order.len() ==> in_image(
                config.width as int,
                config.height as int,
                (#[trigger] order[k]).0,
                order[k].1,
            ),
    ensures
        painted(start, config, samples, order).len() == start.len(),
        forall|x: int, y: int|
            in_image(config.width as int, config.height as int, x, y) && order.contains((x, y))
                ==> #[trigger] pixel_done(
                painted(start, config, samples, order),
                config,
                samples,
                x,
                y,
            ),
    decreases order.len(),
{
    if order.len() > 0 {
        let width = config.width as int;
        let height = config.height as int;
        let earlier = order.drop_last();
        let (last_x, last_y) = order.last();
        let before = painted(start, config, samples, earlier);
        let after = painted(start, config, samples, order);
        assert(in_image(width, height, order[order.len() - 1].0, order[order.len() - 1].1));
        lemma_painted_pixels(start, config, samples, earlier);
        lemma_paint_one_pixel(
            before,
            width,
            height,
            last_x,
            last_y,
            color_at(config, samples, last_x, last_y),
        );
        assert forall|x: int, y: int|
            in_image(width, height, x, y) && order.contains((x, y)) implies #[trigger] pixel_done(
            after,
            config,
            samples,
            x,
            y,
        ) by {
            if (x, y) != (last_x, last_y) {
                let k = choose|k: int| 0 <= k < order.len() && order[k] == (x, y);
                assert(earlier[k] == (x, y));
                assert(pixel_done(before, config, samples, x, y));
            }
        }
    }
}

/// Renders the whole image on the calling thread, band after band as the
/// workers would take them: `samples` holds, for the pixel at each place, the
/// number of passes its orbit survived.
pub fn render(config: &RenderConfig, samples: &Vec<u32>) -> (image: Vec<u8>)
    requires
        config.valid(),
        samples@.len() == config.spec_pixel_count(),
    ensures
        image@ == rendered(*config, samples@),
{
    let ghost width = config.width as int;
    let ghost height = config.height as int;
    let ghost threads = config.thread_count as int;
    let mut image: Vec<u8> = blank(config);
    let mut worker: u32 = 0;
    while worker < config.thread_count
        invariant
            config.valid(),
            samples@.len() == config.spec_pixel_count(),
            image@.len() == config.spec_buffer_len(),
            width == config.width,
            height == config.height,
            threads == config.thread_count,
            worker <= config.thread_count,
            forall|x: int, y: int|
                in_image(width, height, x, y) && x < band_start(width, threads, worker as int)
                    ==> #[trigger] pixel_done(image@, *config, samples@, x, y),
        decreases config.thread_count - worker,
    {
        let columns: Band = band(config, worker);
        proof {
            lemma_band_within_columns(width, threads, worker as int);
        }
        let mut x: u32 = columns.start;
        while x < columns.end
            invariant
                config.valid(),
                samples@.len() == config.spec_pixel_count(),
                image@.len() == config.spec_buffer_len(),
                width == config.width,
                height == config.height,
                columns.start <= x <= columns.end <= config.width,
                forall|done_x: int, y: int|
                    in_image(width, height, done_x, y) && done_x < x ==> #[trigger] pixel_done(
                        image@,
                        *config,
                        samples@,
                        done_x,
                        y,
                    ),
            decreases columns.end - x,
        {
            let mut y: u32 = 0;
            while y < config.height
                invariant
                    config.valid(),
                    samples@.len() == config.spec_pixel_count(),
                    image@.len() == config.spec_buffer_len(),
                    width == config.width,
                    height == config.height,
                    x < config.width,
                    y <= config.height,
                    forall|done_x: int, done_y: int|
                        in_image(width, height, done_x, done_y) && (done_x < x || (done_x == x
                            && done_y < y)) ==> #[trigger] pixel_done(
                            image@,
                            *config,
                            samples@,
                            done_x,
                            done_y,
                        ),
                decreases config.height - y,
            {
                proof {
                    lemma_pixel_in_buffer(width, height, x as int, y as int);
                    assert(0 <= y * config.width <= pixel_index(width, x as int, y as int))
                        by (nonlinear_arith)
                        requires
                            0 <= y,
                            0 <= config.width,
                            0 <= x,
                            width == config.width,
                    ;
                }
                let place: usize = (y as usize) * (config.width as usize) + (x as usize);
                let ghost before = image@;
                mandelbrot(x, y, samples[place], config, &mut image);
                proof {
                    lemma_paint_one_pixel(
                        before,
                        width,
                        height,
                        x as int,
                        y as int,
                        color_at(*config, samples@, x as int, y as int),
                    );
                    assert forall|done_x: int, done_y: int|
                        in_image(width, height, done_x, done_y) && (done_x < x || (done_x == x
                            && done_y < y + 1)) implies #[trigger] pixel_done(
                        image@,
                        *config,
                        samples@,
                        done_x,
                        done_y,
                    ) by {
                        if (done_x, done_y) != (x as int, y as int) {
                            assert(pixel_done(before, *config, samples@, done_x, done_y));
                        }
                    }
                }
                y += 1;
            }
            x += 1;
        }
        worker += 1;
    }
    proof {
        lemma_band_within_columns(width, threads, threads - 1);
        lemma_all_pixels_done(image@, *config, samples@);
    }
    image
}

} // verus!
