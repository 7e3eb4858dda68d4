use pathtracer::image::RGBA;
use pathtracer::tracer::trace;
use std::cell::RefCell;

#[test]
fn trace_puts_each_colour_at_its_coordinate() {
    let img = trace(4, 3, |x, y| RGBA { r: x as u8, g: y as u8, b: (10 * y + x) as u8, a: 255 });
    assert_eq!(img.width(), 4);
    assert_eq!(img.height(), 3);
    for y in 0..3 {
        for x in 0..4 {
            let expected = RGBA { r: x as u8, g: y as u8, b: (10 * y + x) as u8, a: 255 };
            assert_eq!(img.get(x, y), expected);
        }
    }
}

#[test]
fn trace_visits_rows_from_the_top_and_each_pixel_once() {
    let seen: RefCell<Vec<(usize, usize)>> = RefCell::new(Vec::new());
    let img = trace(3, 2, |x, y| {
        seen.borrow_mut().push((x, y));
        RGBA { r: 0, g: 0, b: 0, a: 255 }
    });
    assert_eq!(img.width(), 3);
    assert_eq!(*seen.borrow(), vec![(0, 0), (1, 0), (2, 0), (0, 1), (1, 1), (2, 1)]);
}

#[test]
fn trace_without_pixels_asks_for_no_colour() {
    let calls = RefCell::new(0u32);
    let img = trace(0, 5, |_, _| {
        *calls.borrow_mut() += 1;
        RGBA { r: 1, g: 1, b: 1, a: 1 }
    });
    assert_eq!(img.width(), 0);
    assert_eq!(img.height(), 5);
    assert_eq!(*calls.borrow(), 0);
    assert_eq!(img.as_bytes().len(), 0);
}

fn quantize(c: f64) -> u8 {
    let c = if c > 1.0 { 1.0 } else if c < 0.0 { 0.0 } else { c };
    (c * 255.999) as u8
}

// The sky seen through the fixed camera, one unjittered sample per pixel:
// white blended towards (0.5, 0.7, 1.0) by half of the unit direction's
// height plus one, then the square root of each channel.
fn sky(x: usize, y: usize, width: usize, height: usize) -> RGBA {
    let u = x as f64 / (width - 1) as f64;
    let v = 1.0 - y as f64 / (height - 1) as f64;
    let view_width = 16.0 / 9.0 * 2.0;
    let dx = -view_width / 2.0 + view_width * u;
    let dy = -1.0 + 2.0 * v;
    let dz = -1.0;
    let len = (dx * dx + dy * dy + dz * dz).sqrt();
    let t = 0.5 * (dy * (1.0 / len) + 1.0);
    let blend = |a: f64, b: f64| a - t * (a - b);
    RGBA {
        r: quantize(blend(1.0, 0.5).sqrt()),
        g: quantize(blend(1.0, 0.7).sqrt()),
        b: quantize(blend(1.0, 1.0).sqrt()),
        a: quantize(1.0),
    }
}

#[test]
fn trace_three_by_two_sky_gradient() {
    let img = trace(3, 2, |x, y| sky(x, y, 3, 2));
    let expected: [[(u8, u8, u8); 3]; 2] = [
        [(204, 226, 255), (193, 220, 255), (204, 226, 255)],
        [(237, 245, 255), (246, 250, 255), (237, 245, 255)],
    ];
    for y in 0..2 {
        for x in 0..3 {
            let (r, g, b) = expected[y][x];
            assert_eq!(img.get(x, y), RGBA { r, g, b, a: 255 });
        }
    }
    let again = trace(3, 2, |x, y| sky(x, y, 3, 2));
    assert_eq!(again.as_bytes(), img.as_bytes());
}
