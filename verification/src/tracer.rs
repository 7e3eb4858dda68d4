//! The render driver: one pass over the pixel grid.

use vstd::prelude::*;
use crate::image::{lemma_with_pixel, Image, RGBA};

verus! {

/// Whether the driver reaches `(x, y)` before `(col, row)`: it goes through
/// the rows from the top, and through each row from the left.
spec fn shaded_before(x: int, y: int, col: int, row: int) -> bool {
    y < row || (y == row && x < col)
}

/// Render an image of the given size: `shade` is asked once for the colour
/// of each pixel, row by row from the top and from left to right in each
/// row, and the answer is written to that pixel.
pub fn trace<F: Fn(usize, usize) -> RGBA>(width: usize, height: usize, shade: F) -> (image: Image)
    requires
        width * height * 4 <= usize::MAX,
        forall|x: usize, y: usize| x < width && y < height ==> call_requires(shade, (x, y)),
    ensures
        image@.wf(),
        image@.width == width,
        image@.height == height,
        forall|x: usize, y: usize|
            x < width && y < height ==> call_ensures(
                shade,
                (x, y),
                #[trigger] image@.pixel(x as int, y as int),
            ),
{
    let mut image = Image::empty(width, height);
    let mut y: usize = 0;
    while y < height
        invariant
            y <= height,
            image@.wf(),
            image@.width == width,
            image@.height == height,
            forall|i: usize, j: usize| i < width && j < height ==> call_requires(shade, (i, j)),
            forall|i: usize, j: usize|
                i < width && j < y ==> call_ensures(
                    shade,
                    (i, j),
                    #[trigger] image@.pixel(i as int, j as int),
                ),
        decreases height - y,
    {
        let mut x: usize = 0;
        while x < width
            invariant
                x <= width,
                y < height,
                image@.wf(),
                image@.width == width,
                image@.height == height,
                forall|i: usize, j: usize| i < width && j < height ==> call_requires(shade, (i, j)),
                forall|i: usize, j: usize|
                    i < width && j < height && shaded_before(i as int, j as int, x as int, y as int)
                        ==> call_ensures(shade, (i, j), #[trigger] image@.pixel(i as int, j as int)),
            decreases width - x,
        {
            let color = shade(x, y);
            let ghost before = image@;
            image.set(x, y, color);
            proof {
                lemma_with_pixel(before, x as int, y as int, color, x as int, y as int);
                assert forall|i: usize, j: usize|
                    i < width && j < height && shaded_before(
                        i as int,
                        j as int,
                        x as int + 1,
                        y as int,
                    ) implies call_ensures(
                    shade,
                    (i, j),
                    #[trigger] image@.pixel(i as int, j as int),
                ) by {
                    lemma_with_pixel(before, x as int, y as int, color, i as int, j as int);
                }
            }
            x += 1;
        }
        y += 1;
    }
    image
}

} // verus!
