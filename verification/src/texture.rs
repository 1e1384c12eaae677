//! Image-backed texture storage.
//!
//! The application decodes the texture file into 8-bit RGB bytes; this module
//! holds the decoded pixels and answers texel lookups. The floating-point
//! mapping from surface coordinates to a texel index stays with the caller;
//! the clamp of the computed index to the last texel is here.

use vstd::prelude::*;

verus! {

/// Error that [`ImageTexture::new`] and the application's texture loader can
/// return.
#[derive(Debug)]
pub enum ImageTextureError {
    /// Error opening or reading the image file.
    IOError,
    /// Error decoding the image: an unsupported format, or pixel data that
    /// does not match the stated dimensions.
    DecodeError,
}

/// Texture of an image: decoded 8-bit RGB pixels, row-major from the top
/// row.
#[derive(Clone)]
pub struct ImageTexture {
    width: usize,
    height: usize,
    data: Vec<u8>,
}

impl ImageTexture {
    /// Width in texels.
    pub closed spec fn spec_width(&self) -> int {
        self.width as int
    }

    /// Height in texels.
    pub closed spec fn spec_height(&self) -> int {
        self.height as int
    }

    /// The decoded bytes: three per texel, red then green then blue.
    pub closed spec fn texel_data(&self) -> Seq<u8> {
        self.data@
    }

    /// The buffer holds exactly three bytes per texel.
    pub open spec fn wf(&self) -> bool {
        self.texel_data().len() == 3 * self.spec_width() * self.spec_height()
    }

    /// Creates a new [`ImageTexture`] from decoded pixel data: three bytes
    /// per texel, row-major. Accepts the data exactly when its length
    /// matches the dimensions, and reports a decode error otherwise.
    pub fn new(width: usize, height: usize, data: Vec<u8>) -> (r: Result<Self, ImageTextureError>)
        ensures
            r is Ok <==> data@.len() == 3 * width * height,
            r is Ok ==> {
                let t = r->Ok_0;
                &&& t.wf()
                &&& t.spec_width() == width
                &&& t.spec_height() == height
                &&& t.texel_data() == data@
            },
            r is Err ==> r->Err_0 is DecodeError,
    {
        proof {
            assert(data.len() == data@.len());
        }
        let expected = match width.checked_mul(height) {
            Some(texels) => texels.checked_mul(3),
            None => None,
        };
        proof {
            assert((3 * (width * height)) == 3 * width * height) by (nonlinear_arith);
        }
        match expected {
            Some(len) if len == data.len() => Ok(ImageTexture { width, height, data }),
            _ => Err(ImageTextureError::DecodeError),
        }
    }

    /// Width in texels.
    pub fn width(&self) -> (w: usize)
        ensures
            w == self.spec_width(),
    {
        self.width
    }

    /// Height in texels.
    pub fn height(&self) -> (h: usize)
        ensures
            h == self.spec_height(),
    {
        self.height
    }

    /// Position of the red byte of texel `(i, j)`.
    pub open spec fn texel_index(&self, i: int, j: int) -> int {
        3 * ((j * self.spec_width()) + i)
    }

    /// The red, green and blue bytes of texel `(i, j)`.
    pub fn get_pixel(&self, i: usize, j: usize) -> (rgb: (u8, u8, u8))
        requires
            self.wf(),
            i < self.spec_width(),
            j < self.spec_height(),
        ensures
            rgb.0 == self.texel_data()[self.texel_index(i as int, j as int)],
            rgb.1 == self.texel_data()[self.texel_index(i as int, j as int) + 1],
            rgb.2 == self.texel_data()[self.texel_index(i as int, j as int) + 2],
    {
        proof {
            let w = self.spec_width();
            let h = self.spec_height();
            assert(0 <= (j * w) + i && 3 * ((j * w) + i) + 3 <= 3 * w * h) by (nonlinear_arith)
                requires
                    0 <= i < w,
                    0 <= j < h,
            ;
            assert(self.data.len() == self.texel_data().len());
        }
        let idx: usize = 3 * ((j * self.width) + i);
        (self.data[idx], self.data[idx + 1], self.data[idx + 2])
    }
}

/// Clamps a computed texel index to the texture: indices past the last texel
/// of an axis map to that last texel.
pub fn clamp_index(i: usize, size: usize) -> (r: usize)
    requires
        size >= 1,
    ensures
        r == (if i < size {
            i as int
        } else {
            size - 1
        }),
{
    if i < size {
        i
    } else {
        size - 1
    }
}

} // verus!
