//! The pixel buffer a render fills, and its plain PPM encoding.
//!
//! The buffer stores 8-bit RGB pixels row-major with row `0` at the bottom,
//! as the renderer computes them; the PPM encoding writes the rows top to
//! bottom, so it walks them in reverse, one `r g b` line per pixel after the
//! `P3` header.

use vstd::prelude::*;

verus! {

/// Decimal digits of `n`, most significant first, as ASCII bytes.
pub open spec fn dec_digits(n: int) -> Seq<u8>
    decreases n,
{
    if n < 10 {
        seq![(48 + n) as u8]
    } else {
        dec_digits(n / 10) + seq![(48 + n % 10) as u8]
    }
}

/// The `r g b` line the PPM encoding writes for one pixel.
pub open spec fn pixel_line(r: u8, g: u8, b: u8) -> Seq<u8> {
    dec_digits(r as int) + seq![32u8] + dec_digits(g as int) + seq![32u8] + dec_digits(b as int)
        + seq![10u8]
}

/// The lines for the first `i` pixels of row `j` of a buffer `width` pixels
/// wide.
pub open spec fn row_lines(data: Seq<u8>, width: int, j: int, i: int) -> Seq<u8>
    decreases i,
{
    if i <= 0 {
        Seq::empty()
    } else {
        row_lines(data, width, j, i - 1) + pixel_line(
            data[3 * ((j * width) + (i - 1))],
            data[3 * ((j * width) + (i - 1)) + 1],
            data[3 * ((j * width) + (i - 1)) + 2],
        )
    }
}

/// The lines for the top `k` rows of the buffer, highest row first.
pub open spec fn rows_rev(data: Seq<u8>, width: int, height: int, k: int) -> Seq<u8>
    decreases k,
{
    if k <= 0 {
        Seq::empty()
    } else {
        rows_rev(data, width, height, k - 1) + row_lines(data, width, height - k, width)
    }
}

/// The plain PPM header: `P3`, the dimensions, and the maximum channel value.
pub open spec fn ppm_header(width: int, height: int) -> Seq<u8> {
    seq![80u8, 51u8, 10u8] + dec_digits(width) + seq![32u8] + dec_digits(height) + seq![10u8]
        + seq![50u8, 53u8, 53u8, 10u8]
}

/// A render target: 8-bit RGB pixels, row-major, row `0` at the bottom.
pub struct Image {
    width: usize,
    height: usize,
    pixels: Vec<u8>,
}

impl Image {
    /// Width in pixels.
    pub closed spec fn spec_width(&self) -> int {
        self.width as int
    }

    /// Height in pixels.
    pub closed spec fn spec_height(&self) -> int {
        self.height as int
    }

    /// The stored bytes: three per pixel, red then green then blue.
    pub closed spec fn pixel_data(&self) -> Seq<u8> {
        self.pixels@
    }

    /// The buffer holds exactly three bytes per pixel.
    pub open spec fn wf(&self) -> bool {
        self.pixel_data().len() == 3 * self.spec_width() * self.spec_height()
    }

    /// Position of the red byte of pixel `(i, j)`.
    pub open spec fn pixel_index(&self, i: int, j: int) -> int {
        3 * ((j * self.spec_width()) + i)
    }

    /// A pixel's bytes lie inside the buffer.
    proof fn lemma_pixel_index_bounds(&self, i: int, j: int)
        requires
            self.wf(),
            0 <= i < self.spec_width(),
            0 <= j < self.spec_height(),
        ensures
            0 <= self.pixel_index(i, j),
            self.pixel_index(i, j) + 3 <= self.pixel_data().len(),
    {
        let w = self.spec_width();
        let h = self.spec_height();
        assert(0 <= (j * w) + i && 3 * ((j * w) + i) + 3 <= 3 * w * h) by (nonlinear_arith)
            requires
                0 <= i < w,
                0 <= j < h,
        ;
    }

    /// Creates an all-black image of the given dimensions.
    pub fn new(width: usize, height: usize) -> (img: Image)
        requires
            3 * width * height <= usize::MAX,
        ensures
            img.wf(),
            img.spec_width() == width,
            img.spec_height() == height,
            forall|p: int| 0 <= p < img.pixel_data().len() ==> img.pixel_data()[p] == 0,
    {
        proof {
            assert(width * height <= 3 * width * height && 3 * (width * height) == 3 * width
                * height) by (nonlinear_arith)
                requires
                    width >= 0,
                    height >= 0,
            ;
        }
        let n: usize = 3 * (width * height);
        let mut pixels: Vec<u8> = Vec::new();
        let mut p: usize = 0;
        while p < n
            invariant
                p <= n,
                pixels@.len() == p,
                forall|q: int| 0 <= q < p ==> pixels@[q] == 0,
            decreases n - p,
        {
            pixels.push(0);
            p = p + 1;
        }
        Image { width, height, pixels }
    }

    /// Width in pixels.
    pub fn width(&self) -> (w: usize)
        ensures
            w == self.spec_width(),
    {
        self.width
    }

    /// Height in pixels.
    pub fn height(&self) -> (h: usize)
        ensures
            h == self.spec_height(),
    {
        self.height
    }

    /// The red, green and blue bytes of pixel `(i, j)`.
    pub fn get_pixel(&self, i: usize, j: usize) -> (rgb: (u8, u8, u8))
        requires
            self.wf(),
            i < self.spec_width(),
            j < self.spec_height(),
        ensures
            rgb.0 == self.pixel_data()[self.pixel_index(i as int, j as int)],
            rgb.1 == self.pixel_data()[self.pixel_index(i as int, j as int) + 1],
            rgb.2 == self.pixel_data()[self.pixel_index(i as int, j as int) + 2],
    {
        proof {
            self.lemma_pixel_index_bounds(i as int, j as int);
            assert(self.pixels.len() == self.pixel_data().len());
        }
        let idx: usize = 3 * ((j * self.width) + i);
        (self.pixels[idx], self.pixels[idx + 1], self.pixels[idx + 2])
    }

    /// Stores the red, green and blue bytes of pixel `(i, j)`, leaving every
    /// other byte as it was.
    pub fn set_pixel(&mut self, i: usize, j: usize, r: u8, g: u8, b: u8)
        requires
            old(self).wf(),
            i < old(self).spec_width(),
            j < old(self).spec_height(),
        ensures
            final(self).wf(),
            final(self).spec_width() == old(self).spec_width(),
            final(self).spec_height() == old(self).spec_height(),
            final(self).pixel_data() == old(self).pixel_data().update(
                old(self).pixel_index(i as int, j as int),
                r,
            ).update(old(self).pixel_index(i as int, j as int) + 1, g).update(
                old(self).pixel_index(i as int, j as int) + 2,
                b,
            ),
    {
        proof {
            self.lemma_pixel_index_bounds(i as int, j as int);
            assert(self.pixels.len() == self.pixel_data().len());
        }
        let idx: usize = 3 * ((j * self.width) + i);
        self.pixels.set(idx, r);
        self.pixels.set(idx + 1, g);
        self.pixels.set(idx + 2, b);
    }

    /// Encodes the image as a plain (ASCII) PPM file: the `P3` header, then
    /// one `r g b` line per pixel, rows written top to bottom.
    pub fn ppm_bytes(&self) -> (out: Vec<u8>)
        requires
            self.wf(),
        ensures
            out@ == ppm_header(self.spec_width(), self.spec_height()) + rows_rev(
                self.pixel_data(),
                self.spec_width(),
                self.spec_height(),
                self.spec_height(),
            ),
    {
        let ghost data = self.pixel_data();
        let ghost w = self.spec_width();
        let ghost h = self.spec_height();
        let mut out: Vec<u8> = Vec::new();
        out.push(80u8);
        out.push(51u8);
        out.push(10u8);
        push_decimal(&mut out, self.width);
        out.push(32u8);
        push_decimal(&mut out, self.height);
        out.push(10u8);
        out.push(50u8);
        out.push(53u8);
        out.push(53u8);
        out.push(10u8);
        assert(out@ =~= ppm_header(w, h));
        let ghost header = ppm_header(w, h);

        let mut k: usize = 0;
        while k < self.height
            invariant
                self.wf(),
                data == self.pixel_data(),
                w == self.spec_width(),
                h == self.spec_height(),
                header == ppm_header(w, h),
                k <= self.height,
                out@ == header + rows_rev(data, w, h, k as int),
            decreases self.height - k,
        {
            let j: usize = self.height - 1 - k;
            let mut i: usize = 0;
            while i < self.width
                invariant
                    self.wf(),
                    data == self.pixel_data(),
                    w == self.spec_width(),
                    h == self.spec_height(),
                    header == ppm_header(w, h),
                    k < self.height,
                    j == self.height - 1 - k,
                    i <= self.width,
                    out@ == header + rows_rev(data, w, h, k as int) + row_lines(
                        data,
                        w,
                        j as int,
                        i as int,
                    ),
                decreases self.width - i,
            {
                let (r, g, b) = self.get_pixel(i, j);
                push_pixel_line(&mut out, r, g, b);
                assert(out@ =~= header + rows_rev(data, w, h, k as int) + row_lines(
                    data,
                    w,
                    j as int,
                    i as int + 1,
                ));
                i = i + 1;
            }
            proof {
                assert(h - (k as int + 1) == j as int);
                assert(out@ =~= header + rows_rev(data, w, h, k as int + 1));
            }
            k = k + 1;
        }
        out
    }
}

/// Appends the decimal digits of `n`, most significant first.
fn push_decimal(out: &mut Vec<u8>, n: usize)
    ensures
        final(out)@ == old(out)@ + dec_digits(n as int),
    decreases n,
{
    if n >= 10 {
        push_decimal(out, n / 10);
    }
    let d: u8 = (n % 10) as u8;
    out.push(48 + d);
    assert(out@ =~= old(out)@ + dec_digits(n as int));
}

/// Appends the `r g b` line of one pixel.
fn push_pixel_line(out: &mut Vec<u8>, r: u8, g: u8, b: u8)
    ensures
        final(out)@ == old(out)@ + pixel_line(r, g, b),
{
    push_decimal(out, r as usize);
    out.push(32u8);
    push_decimal(out, g as usize);
    out.push(32u8);
    push_decimal(out, b as usize);
    out.push(10u8);
    assert(out@ =~= old(out)@ + pixel_line(r, g, b));
}

} // verus!
