//! Full render passes into in-memory buffers.

use fractal_raster::canvas::{geometry_fits, put_pixel, Canvas};
use fractal_raster::color::{iteration_color, rgb_to_native};
use fractal_raster::escape::{escape_count, FractalVariant, MAX_ITERATIONS};
use fractal_raster::render::{render_frame, render_julia, render_mandelbrot, try_render};
use num_complex::Complex;

fn canvas(width: usize, height: usize, stride: usize) -> Canvas {
    Canvas {
        width,
        height,
        stride,
        bytes_per_pixel: 2,
    }
}

/// Mandelbrot first-escape table for the variant's aspect-derived window,
/// exactly as the rasterizer's driver computes it.
fn mandelbrot_escapes(width: usize, height: usize) -> Vec<Option<u16>> {
    let cxmin = -2f32;
    let cxmax = 1f32;
    let ysize = (cxmax - cxmin) * ((height as f32) / (width as f32));
    let cymin = -1.0 * ysize / 2.0;
    let cymax = ysize / 2.0;
    let scalex = (cxmax - cxmin) / width as f32;
    let scaley = (cymax - cymin) / height as f32;
    let mut table = vec![None; width * height];
    for y in 0..height {
        for x in 0..width {
            let cx = cxmin + x as f32 * scalex;
            let cy = cymin + y as f32 * scaley;
            let c = Complex::new(cx, cy);
            let mut z = Complex::new(0f32, 0f32);
            for t in 0..MAX_ITERATIONS {
                if z.norm() > 2.0 {
                    table[y * width + x] = Some(t);
                    break;
                }
                z = z * z + c;
            }
        }
    }
    table
}

/// Julia first-escape table: note the swapped, asymmetric use of x and y in
/// the mapping, kept exactly for the intended visual orientation.
fn julia_escapes(width: usize, height: usize) -> Vec<Option<u16>> {
    let kx = -0.9f32;
    let ky = 0.27015f32;
    let mut table = vec![None; width * height];
    for y in 0..height {
        for x in 0..width {
            let mut zx = 3.0 * (y as f32 - 0.5 * height as f32) / (height as f32);
            let mut zy = 2.0 * (x as f32 - 0.5 * width as f32) / (width as f32);
            for s in 0..MAX_ITERATIONS {
                if zx * zx + zy * zy >= 4.0 {
                    table[y * width + x] = Some(s);
                    break;
                }
                if s == MAX_ITERATIONS - 1 {
                    break;
                }
                let tmp = zx * zx - zy * zy + kx;
                zy = 2.0 * zx * zy + ky;
                zx = tmp;
            }
        }
    }
    table
}

#[test]
fn corner_pixel_of_four_by_four() {
    // On a 4x4 canvas the window is (-2, 1) x (-1.5, 1.5); pixel (0, 0) maps
    // to the window corner (-2, -1.5).
    let width = 4usize;
    let height = 4usize;
    let ysize = 3.0f32 * (height as f32 / width as f32);
    let scalex = 3.0f32 / width as f32;
    let cx = -2.0 + 0 as f32 * scalex;
    let cy = -1.0 * ysize / 2.0;
    assert_eq!(cx, -2.0);
    assert_eq!(cy, -1.5);

    let cv = canvas(width, height, 8);
    let mut buf = vec![0u8; 32];
    let escapes = mandelbrot_escapes(width, height);
    render_mandelbrot(&cv, &mut buf, &escapes);

    // The corner pixel got a packed value: exactly what its count packs to.
    let count = escape_count(FractalVariant::Mandelbrot, escapes[0]);
    let (r, g, b) = iteration_color(count);
    let native = rgb_to_native(r, g, b);
    assert_eq!(buf[0], (native & 0xff) as u8);
    assert_eq!(buf[1], (native >> 8) as u8);
}

#[test]
fn one_by_one_canvas_writes_two_bytes() {
    let cv = canvas(1, 1, 2);
    let mut buf = vec![0x55u8; 4];
    let escapes = mandelbrot_escapes(1, 1);
    render_mandelbrot(&cv, &mut buf, &escapes);

    let count = escape_count(FractalVariant::Mandelbrot, escapes[0]);
    let (r, g, b) = iteration_color(count);
    let native = rgb_to_native(r, g, b);
    assert_eq!(buf[0], (native & 0xff) as u8);
    assert_eq!(buf[1], (native >> 8) as u8);
    // Exactly two bytes changed; the rest of the buffer is untouched.
    assert_eq!(&buf[2..], &[0x55u8, 0x55u8][..]);
    assert_eq!(buf.len(), 4);
}

#[test]
fn rendering_is_deterministic() {
    let cv = canvas(8, 6, 20);
    let escapes = mandelbrot_escapes(8, 6);
    let mut first = vec![0u8; 120];
    let mut second = vec![0u8; 120];
    render_mandelbrot(&cv, &mut first, &escapes);
    render_mandelbrot(&cv, &mut second, &escapes);
    assert_eq!(first, second);

    // A second pass over an already rendered buffer changes nothing.
    let again = first.clone();
    let mut rendered_twice = again.clone();
    render_mandelbrot(&cv, &mut rendered_twice, &escapes);
    assert_eq!(rendered_twice, again);

    let escapes_j = julia_escapes(8, 6);
    let mut ja = vec![9u8; 120];
    let mut jb = vec![9u8; 120];
    render_julia(&cv, &mut ja, &escapes_j);
    render_julia(&cv, &mut jb, &escapes_j);
    assert_eq!(ja, jb);
}

#[test]
fn row_padding_is_preserved() {
    // stride 10 leaves 2 padding bytes per row beyond the 4x2-byte pixels.
    let cv = canvas(4, 3, 10);
    let mut buf = vec![0xeeu8; 30];
    let escapes = julia_escapes(4, 3);
    render_julia(&cv, &mut buf, &escapes);
    for row in 0..3 {
        assert_eq!(buf[row * 10 + 8], 0xee);
        assert_eq!(buf[row * 10 + 9], 0xee);
    }
}

#[test]
fn writer_stores_little_endian() {
    let cv = canvas(2, 2, 4);
    let mut buf = vec![0u8; 16];
    put_pixel(&cv, &mut buf, 1, 1, 0xabcd);
    assert_eq!(buf[4 + 2], 0xcd);
    assert_eq!(buf[4 + 3], 0xab);
    for (k, byte) in buf.iter().enumerate() {
        if k != 6 && k != 7 {
            assert_eq!(*byte, 0);
        }
    }
}

#[test]
fn writer_drops_out_of_range_pixels() {
    let cv = canvas(2, 2, 4);
    let before = vec![0x17u8; 16];
    let mut buf = before.clone();
    // x == width and y == height are the first out-of-range coordinates:
    // the write is skipped entirely, every surrounding byte unchanged.
    put_pixel(&cv, &mut buf, 2, 0, 0xffff);
    assert_eq!(buf, before);
    put_pixel(&cv, &mut buf, 0, 2, 0xffff);
    assert_eq!(buf, before);
    put_pixel(&cv, &mut buf, 1000, 1000, 0xffff);
    assert_eq!(buf, before);
}

#[test]
fn try_render_rejects_bad_geometry() {
    let escapes = vec![None; 4];

    // Zero-sized canvases are refused, not divided by.
    let mut buf = vec![7u8; 16];
    assert!(!try_render(
        FractalVariant::Mandelbrot,
        &canvas(0, 2, 4),
        &mut buf,
        &escapes
    ));
    assert!(!try_render(
        FractalVariant::Mandelbrot,
        &canvas(2, 0, 4),
        &mut buf,
        &escapes
    ));
    // A stride smaller than a packed row is refused.
    assert!(!try_render(
        FractalVariant::Mandelbrot,
        &canvas(2, 2, 3),
        &mut buf,
        &escapes
    ));
    // A pixel narrower than the packed 16 bits is refused.
    let thin = Canvas {
        width: 2,
        height: 2,
        stride: 4,
        bytes_per_pixel: 1,
    };
    assert!(!try_render(FractalVariant::Mandelbrot, &thin, &mut buf, &escapes));
    // A buffer shorter than height * stride is refused.
    let mut short = vec![7u8; 7];
    assert!(!try_render(
        FractalVariant::Mandelbrot,
        &canvas(2, 2, 4),
        &mut short,
        &escapes
    ));
    assert_eq!(short, vec![7u8; 7]);
    // An escape table that is not one entry per pixel is refused.
    let mut ok_buf = vec![7u8; 16];
    let wrong = vec![None; 3];
    assert!(!try_render(
        FractalVariant::Mandelbrot,
        &canvas(2, 2, 4),
        &mut ok_buf,
        &wrong
    ));
    assert_eq!(ok_buf, vec![7u8; 16]);
    // Everything consistent: the render happens.
    assert!(try_render(
        FractalVariant::Julia,
        &canvas(2, 2, 4),
        &mut ok_buf,
        &escapes
    ));
    assert_ne!(ok_buf, vec![7u8; 16]);
}

#[test]
fn geometry_fits_matches_renderability() {
    assert!(geometry_fits(&canvas(2, 2, 4), 16));
    assert!(geometry_fits(&canvas(2, 2, 4), 8));
    assert!(!geometry_fits(&canvas(2, 2, 4), 7));
    assert!(!geometry_fits(&canvas(0, 2, 4), 16));
    assert!(!geometry_fits(&canvas(2, 2, 3), 16));
}

#[test]
fn variants_use_their_own_encodings() {
    // The same escape table renders differently under the two variants:
    // the ascending index and the descending counter are not the same value.
    let cv = canvas(2, 1, 4);
    let escapes = vec![Some(4u16), None];
    let mut m = vec![0u8; 4];
    let mut j = vec![0u8; 4];
    render_frame(FractalVariant::Mandelbrot, &cv, &mut m, &escapes);
    render_frame(FractalVariant::Julia, &cv, &mut j, &escapes);
    // Some(4): index 3 versus counter 28; None: 31 versus 1.
    let pack = |count: u16| {
        let (r, g, b) = iteration_color(count);
        rgb_to_native(r, g, b)
    };
    assert_eq!(u16::from_le_bytes([m[0], m[1]]), pack(3));
    assert_eq!(u16::from_le_bytes([j[0], j[1]]), pack(28));
    assert_eq!(u16::from_le_bytes([m[2], m[3]]), pack(31));
    assert_eq!(u16::from_le_bytes([j[2], j[3]]), pack(1));
}
