//! The binary PPM encoding of an image.

use vstd::prelude::*;
use crate::image::{rgb_bytes, rgba_bytes, Image, ImageView, RGBA};

verus! {

/// The ASCII digit for `d`, which is below ten.
pub open spec fn digit(d: nat) -> u8
    recommends
        d < 10,
{
    (0x30 + d) as u8
}

/// The decimal numeral of `n` in ASCII, without leading zeros.
pub open spec fn decimal(n: nat) -> Seq<u8>
    decreases n,
{
    if n < 10 {
        seq![digit(n)]
    } else {
        decimal(n / 10).push(digit(n % 10))
    }
}

/// The header of a binary PPM file: the magic number, the size and the
/// largest channel value, each followed by white space.
pub open spec fn ppm_header(width: nat, height: nat) -> Seq<u8> {
    seq![0x50u8, 0x36, 0x0a] + decimal(width) + seq![0x20u8] + decimal(height)
        + seq![0x20u8, 0x32, 0x35, 0x35, 0x0a]
}

/// The binary PPM file of an image: the header, then red, green and blue of
/// each pixel. The format has no alpha channel.
pub open spec fn ppm_file(img: ImageView) -> Seq<u8> {
    ppm_header(img.width, img.height) + rgb_bytes(img.pixels)
}

/// Append the decimal numeral of `n` to `out`.
pub fn push_decimal(out: &mut Vec<u8>, n: usize)
    ensures
        final(out)@ == old(out)@ + decimal(n as nat),
    decreases n,
{
    if n >= 10 {
        push_decimal(out, n / 10);
    }
    let d: u8 = (n % 10) as u8;
    out.push(0x30 + d);
    assert(out@ =~= old(out)@ + decimal(n as nat));
}

proof fn lemma_rgb_bytes_push(pixels: Seq<RGBA>, p: RGBA)
    ensures
        rgb_bytes(pixels.push(p)) == rgb_bytes(pixels) + seq![p.r, p.g, p.b],
{
    assert(rgb_bytes(pixels.push(p)) =~= rgb_bytes(pixels) + seq![p.r, p.g, p.b]);
}

impl Image {
    /// Write this image in binary PPM format to the end of a buffer.
    ///
    /// The PPM format is simple, but has no compression and no transparency.
    pub fn write_ppm(&self, w: &mut Vec<u8>)
        ensures
            final(w)@ == old(w)@ + ppm_file(self@),
    {
        let width = self.width();
        let height = self.height();
        let bytes = self.as_bytes();
        w.push(0x50);
        w.push(0x36);
        w.push(0x0a);
        push_decimal(w, width);
        w.push(0x20);
        push_decimal(w, height);
        w.push(0x20);
        w.push(0x32);
        w.push(0x35);
        w.push(0x35);
        w.push(0x0a);
        assert(w@ =~= old(w)@ + ppm_header(self@.width, self@.height));
        let count: usize = width * height;
        let mut k: usize = 0;
        while k < count
            invariant
                k <= count,
                count == self@.pixels.len(),
                count * 4 <= usize::MAX,
                bytes@ == rgba_bytes(self@.pixels),
                w@ == old(w)@ + ppm_header(self@.width, self@.height) + rgb_bytes(
                    self@.pixels.take(k as int),
                ),
            decreases count - k,
        {
            let ghost p = self@.pixels[k as int];
            w.push(bytes[k * 4]);
            w.push(bytes[k * 4 + 1]);
            w.push(bytes[k * 4 + 2]);
            proof {
                lemma_rgb_bytes_push(self@.pixels.take(k as int), p);
                assert(self@.pixels.take(k as int).push(p) =~= self@.pixels.take(k + 1));
            }
            k += 1;
        }
        assert(self@.pixels.take(count as int) =~= self@.pixels);
    }
}

} // verus!
