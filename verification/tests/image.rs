use mandelbrot::config::{PlaneWindow, RenderConfig};
use mandelbrot::image::{blank, mandelbrot, offset_of, render};
use mandelbrot::palette::{shade, Rgb};

fn config(width: u32, height: u32, thread_count: u32) -> RenderConfig {
    let window = PlaneWindow { re_min: -2, re_max: 1, im_min: -1, im_max: 1 };
    RenderConfig::new(width, height, 1000, thread_count, window).unwrap()
}

// A count for every pixel, row after row, that differs from pixel to pixel.
fn samples(c: &RenderConfig) -> Vec<u32> {
    (0..c.width * c.height).map(|place| (place * 37 + 2) % 1001).collect()
}

fn pixel(image: &[u8], c: &RenderConfig, x: u32, y: u32) -> Rgb {
    let offset = ((y * c.width + x) * 3) as usize;
    Rgb { red: image[offset], green: image[offset + 1], blue: image[offset + 2] }
}

#[test]
fn offsets_run_row_after_row_three_bytes_a_pixel() {
    let c = config(4, 3, 2);
    assert_eq!(offset_of(&c, 0, 0), 0);
    assert_eq!(offset_of(&c, 1, 0), 3);
    assert_eq!(offset_of(&c, 3, 0), 9);
    assert_eq!(offset_of(&c, 0, 1), 12);
    assert_eq!(offset_of(&c, 2, 1), 18);
    assert_eq!(offset_of(&c, 3, 2), 33);
}

#[test]
fn offsets_of_the_standard_picture() {
    let c = RenderConfig::standard();
    assert_eq!(offset_of(&c, 0, 0), 0);
    assert_eq!(offset_of(&c, 7999, 0), 23_997);
    assert_eq!(offset_of(&c, 0, 1), 24_000);
    assert_eq!(offset_of(&c, 5333, 2285), (2285 * 8000 + 5333) * 3);
    assert_eq!(offset_of(&c, 7999, 4570) + 3, c.buffer_len());
}

#[test]
fn no_two_pixels_share_a_byte() {
    let c = config(5, 4, 5);
    let mut taken = vec![false; c.buffer_len()];
    for y in 0..c.height {
        for x in 0..c.width {
            let offset = offset_of(&c, x, y);
            for byte in offset..offset + 3 {
                assert!(!taken[byte]);
                taken[byte] = true;
            }
        }
    }
    assert!(taken.iter().all(|&t| t));
}

#[test]
fn blank_image_is_all_zero() {
    let c = config(4, 3, 2);
    let image = blank(&c);
    assert_eq!(image.len(), 36);
    assert!(image.iter().all(|&byte| byte == 0));
    assert_eq!(blank(&config(0, 3, 2)).len(), 0);
}

#[test]
fn mandelbrot_writes_red_green_blue_at_the_pixel() {
    let c = config(4, 3, 2);
    let mut image = blank(&c);
    mandelbrot(2, 1, 2, &c, &mut image);
    assert_eq!(&image[18..21], &[248, 1, 4]);
    mandelbrot(3, 2, 1000, &c, &mut image);
    assert_eq!(&image[33..36], &[0, 253, 244]);
}

#[test]
fn mandelbrot_leaves_every_other_byte_as_it_was() {
    let c = config(4, 3, 2);
    let mut image = vec![7u8; c.buffer_len()];
    mandelbrot(1, 2, 2, &c, &mut image);
    let offset = offset_of(&c, 1, 2);
    assert_eq!(offset, 27);
    for (i, &byte) in image.iter().enumerate() {
        if i < offset || i >= offset + 3 {
            assert_eq!(byte, 7, "byte {}", i);
        }
    }
    assert_eq!(pixel(&image, &c, 1, 2), shade(2, 1000));
}

#[test]
fn mandelbrot_overwrites_what_the_pixel_held() {
    let c = config(2, 2, 1);
    let mut image = blank(&c);
    mandelbrot(1, 0, 2, &c, &mut image);
    mandelbrot(1, 0, 1000, &c, &mut image);
    assert_eq!(image, vec![0, 0, 0, 0, 253, 244, 0, 0, 0, 0, 0, 0]);
}

#[test]
fn render_of_two_by_two() {
    let c = config(2, 2, 2);
    let image = render(&c, &vec![0, 1000, 100, 2]);
    assert_eq!(image, vec![0, 0, 0, 0, 253, 244, 0, 76, 48, 248, 1, 4]);
}

#[test]
fn render_colours_every_pixel_by_its_own_sample() {
    let c = config(6, 5, 3);
    let counts = samples(&c);
    let image = render(&c, &counts);
    assert_eq!(image.len(), c.buffer_len());
    for y in 0..c.height {
        for x in 0..c.width {
            let count = counts[(y * c.width + x) as usize];
            assert_eq!(pixel(&image, &c, x, y), shade(count, c.max_iterations));
        }
    }
}

#[test]
fn render_leaves_no_byte_unwritten() {
    // Every sample gives a colour without a zero byte, so a zero would be a gap.
    let c = config(8, 3, 4);
    let counts = vec![2u32; c.pixel_count()];
    assert_eq!(shade(2, 1000), Rgb { red: 248, green: 1, blue: 4 });
    let image = render(&c, &counts);
    assert_eq!(image.len(), 72);
    assert!(image.iter().all(|&byte| byte != 0));
}

#[test]
fn render_twice_gives_the_same_bytes() {
    let c = config(6, 5, 3);
    let counts = samples(&c);
    assert_eq!(render(&c, &counts), render(&c, &counts));
}

#[test]
fn render_does_not_depend_on_the_number_of_workers() {
    let counts = samples(&config(12, 4, 1));
    let one = render(&config(12, 4, 1), &counts);
    for threads in [2u32, 3, 4, 6, 12] {
        assert_eq!(render(&config(12, 4, threads), &counts), one);
    }
}

#[test]
fn any_order_of_colouring_gives_the_rendered_image() {
    let c = config(6, 5, 3);
    let counts = samples(&c);
    let expected = render(&c, &counts);

    // Last pixel first, and on top of a buffer that is not blank.
    let mut backwards = vec![9u8; c.buffer_len()];
    for place in (0..c.width * c.height).rev() {
        let (x, y) = (place % c.width, place / c.width);
        mandelbrot(x, y, counts[place as usize], &c, &mut backwards);
    }
    assert_eq!(backwards, expected);

    // The bands taken in turn, one pixel of each at a time, some pixels twice.
    let mut interleaved = blank(&c);
    let each = c.width / c.thread_count;
    for step in 0..each * c.height {
        for worker in 0..c.thread_count {
            let (x, y) = (worker * each + step / c.height, step % c.height);
            mandelbrot(x, y, counts[(y * c.width + x) as usize], &c, &mut interleaved);
            if step % 4 == 0 {
                mandelbrot(x, y, counts[(y * c.width + x) as usize], &c, &mut interleaved);
            }
        }
    }
    assert_eq!(interleaved, expected);
}

#[test]
fn render_of_an_empty_image_is_empty() {
    assert_eq!(render(&config(0, 4, 2), &Vec::new()), Vec::<u8>::new());
    assert_eq!(render(&config(4, 0, 2), &Vec::new()), Vec::<u8>::new());
}

#[test]
fn render_of_one_row_of_the_gradient() {
    let c = config(4, 1, 4);
    let image = render(&c, &vec![0, 334, 335, 1000]);
    assert_eq!(image, vec![0, 0, 0, 187, 255, 252, 0, 0, 0, 0, 253, 244]);
}
