//! An RGBA pixel buffer and the blend of one buffer onto another.

use vstd::prelude::*;

verus! {

/// What a raster holds: its size in pixels and its bytes. Each pixel is
/// four bytes (red, green, blue, alpha); the pixels follow each other row
/// by row from the top-left corner.
pub struct Bitmap {
    pub width: nat,
    pub height: nat,
    pub data: Seq<u8>,
}

/// An RGBA image with eight bits per channel and straight alpha.
#[derive(Debug)]
pub struct Raster {
    width: u32,
    height: u32,
    pixels: Vec<u8>,
}

impl View for Raster {
    type V = Bitmap;

    closed spec fn view(&self) -> Bitmap {
        Bitmap {
            width: self.width as nat,
            height: self.height as nat,
            data: self.pixels@,
        }
    }
}

/// The bytes of `bottom` after `top` has been blended onto it with the
/// top-left corner of `top` at `(x, y)`.
pub uninterp spec fn overlaid(bottom: Bitmap, top: Bitmap, x: int, y: int) -> Seq<u8>;

/// The index in `top` of the pixel that lies over pixel `k` of `bottom`
/// when the top-left corner of `top` is at `(x, y)`; `None` where no pixel
/// of `top` lies over it.
pub open spec fn cover(bottom: Bitmap, top: Bitmap, x: int, y: int, k: int) -> Option<int> {
    let u = k % (bottom.width as int) - x;
    let v = k / (bottom.width as int) - y;
    if 0 <= u < top.width && 0 <= v < top.height {
        Some(v * top.width + u)
    } else {
        None
    }
}

/// What is stated of byte `i` of `bottom` after the blend. Where no pixel
/// of `top` covers its pixel, or one with an alpha of zero, the byte is
/// kept. Where one with full alpha covers it, the byte is that pixel's.
/// Under any other alpha the byte is not stated here.
pub open spec fn blended(bottom: Bitmap, top: Bitmap, x: int, y: int, i: int, byte: u8) -> bool {
    match cover(bottom, top, x, y, i / 4) {
        None => byte == bottom.data[i],
        Some(k) => {
            &&& top.data[4 * k + 3] == 0 ==> byte == bottom.data[i]
            &&& top.data[4 * k + 3] == 255 ==> byte == top.data[4 * k + i % 4]
        },
    }
}

/// The four bytes of pixel `k`.
pub open spec fn pixel(bitmap: Bitmap, k: int) -> Seq<u8> {
    bitmap.data.subrange(4 * k, 4 * k + 4)
}

/// Whether every pixel has an alpha of zero.
pub open spec fn transparent(bitmap: Bitmap) -> bool {
    forall|k: int| 0 <= k < bitmap.width * bitmap.height ==> #[trigger] bitmap.data[4 * k + 3] == 0
}

/// Whether every pixel has full alpha.
pub open spec fn opaque(bitmap: Bitmap) -> bool {
    forall|k: int|
        0 <= k < bitmap.width * bitmap.height ==> #[trigger] bitmap.data[4 * k + 3] == 255
}

/// `bottom` with `top` blended onto it at `(x, y)`.
pub open spec fn stamp(bottom: Bitmap, top: Bitmap, x: int, y: int) -> Bitmap {
    Bitmap { width: bottom.width, height: bottom.height, data: overlaid(bottom, top, x, y) }
}

/// What is stated of pixel `k` of `bottom` after the blend that gave
/// `after`: it is kept where no pixel of `top` covers it, or one with an
/// alpha of zero, and it is the covering pixel where that has full alpha.
pub open spec fn settled(bottom: Bitmap, top: Bitmap, x: int, y: int, k: int, after: Bitmap) -> bool {
    match cover(bottom, top, x, y, k) {
        None => pixel(after, k) == pixel(bottom, k),
        Some(m) => {
            &&& top.data[4 * m + 3] == 0 ==> pixel(after, k) == pixel(bottom, k)
            &&& top.data[4 * m + 3] == 255 ==> pixel(after, k) == pixel(top, m)
        },
    }
}

/// Calls `image::imageops::overlay` on the two buffers. The bottom buffer
/// keeps its size. Each pixel of the bottom that a pixel of the top covers
/// is blended with it: under an alpha of zero it is kept, under full alpha
/// it is replaced, and what any other alpha gives is only named. Pixels
/// that the top does not cover are kept, and parts of the top that fall
/// outside the bottom are dropped.
#[verifier::external_body]
fn overlay_onto(base: &mut Raster, top: &Raster, x: i64, y: i64)
    requires
        old(base).wf(),
        top.wf(),
    ensures
        final(base)@.width == old(base)@.width,
        final(base)@.height == old(base)@.height,
        final(base)@.data == overlaid(old(base)@, top@, x as int, y as int),
        final(base)@.data.len() == old(base)@.data.len(),
        forall|i: int|
            0 <= i < old(base)@.data.len() ==> blended(
                old(base)@,
                top@,
                x as int,
                y as int,
                i,
                #[trigger] final(base)@.data[i],
            ),
{
    let pixels = std::mem::take(&mut base.pixels);
    let mut bottom = image::RgbaImage::from_raw(base.width, base.height, pixels).unwrap();
    let layer = image::ImageBuffer::<image::Rgba<u8>, &[u8]>::from_raw(
        top.width,
        top.height,
        top.pixels.as_slice(),
    ).unwrap();
    image::imageops::overlay(&mut bottom, &layer, x, y);
    base.pixels = bottom.into_raw();
}

/// A pixel of a bitmap, given by its column and row, has an index.
pub proof fn lemma_cell_index(u: int, v: int, width: int, height: int)
    requires
        0 <= u < width,
        0 <= v < height,
    ensures
        0 <= v * width + u < width * height,
{
    assert(v * width + u < width * height) by (nonlinear_arith)
        requires
            0 <= u < width,
            0 <= v < height,
    ;
    assert(0 <= v * width) by (nonlinear_arith)
        requires
            0 <= v,
            0 <= width,
    ;
}

impl Raster {
    /// The buffer holds exactly its pixels, and one row of them can be
    /// addressed.
    pub open spec fn wf(&self) -> bool {
        &&& self@.data.len() == 4 * self@.width * self@.height
        &&& 4 * self@.width <= usize::MAX
    }

    /// A raster of the given size over the given bytes; `None` where the
    /// bytes are not exactly four for each pixel.
    pub fn new(width: u32, height: u32, pixels: Vec<u8>) -> (r: Option<Raster>)
        ensures
            match r {
                Some(raster) => raster.wf() && raster@ == (Bitmap {
                    width: width as nat,
                    height: height as nat,
                    data: pixels@,
                }),
                None => pixels@.len() != 4 * width * height || 4 * width > usize::MAX,
            },
    {
        let row: u128 = 4 * (width as u128);
        assert(row * (height as u128) <= 0x4_0000_0000 * 0x1_0000_0000) by (nonlinear_arith)
            requires
                row <= 0x4_0000_0000,
                (height as u128) <= 0x1_0000_0000,
        ;
        let wanted: u128 = row * (height as u128);
        assert(wanted == 4 * width * height) by (nonlinear_arith)
            requires
                wanted == row * (height as u128),
                row == 4 * (width as u128),
        ;
        if pixels.len() as u128 == wanted && row <= usize::MAX as u128 {
            Some(Raster { width, height, pixels })
        } else {
            None
        }
    }

    /// The width in pixels.
    pub fn width(&self) -> (r: u32)
        ensures
            r == self@.width,
    {
        self.width
    }

    /// The height in pixels.
    pub fn height(&self) -> (r: u32)
        ensures
            r == self@.height,
    {
        self.height
    }

    /// The bytes of the raster.
    pub fn pixels(&self) -> (r: &Vec<u8>)
        ensures
            r@ == self@.data,
    {
        &self.pixels
    }

    /// The bytes of the raster, which is given up.
    pub fn into_pixels(self) -> (r: Vec<u8>)
        ensures
            r@ == self@.data,
    {
        self.pixels
    }
}

/// Blends `overlay` onto `base` with the top-left corner of the overlay at
/// `(x, y)`. What falls outside `base` is clipped. A pixel of `base` is
/// kept where the overlay does not cover it or is transparent, and replaced
/// where the overlay is opaque; a fully transparent overlay leaves `base`
/// as it was.
pub fn composite(base: &mut Raster, overlay: &Raster, x: i64, y: i64)
    requires
        old(base).wf(),
        overlay.wf(),
    ensures
        final(base).wf(),
        final(base)@ == stamp(old(base)@, overlay@, x as int, y as int),
        forall|k: int|
            0 <= k < old(base)@.width * old(base)@.height ==> #[trigger] settled(
                old(base)@,
                overlay@,
                x as int,
                y as int,
                k,
                final(base)@,
            ),
        transparent(overlay@) ==> final(base)@ == old(base)@,
{
    overlay_onto(base, overlay, x, y);
    proof {
        let before = old(base)@;
        let after = final(base)@;
        let top = overlay@;
        assert(before.data.len() == 4 * (before.width * before.height)) by (nonlinear_arith)
            requires
                before.data.len() == 4 * before.width * before.height,
        ;
        assert(top.data.len() == 4 * (top.width * top.height)) by (nonlinear_arith)
            requires
                top.data.len() == 4 * top.width * top.height,
        ;
        assert forall|k: int| 0 <= k < before.width * before.height implies #[trigger] settled(
            before,
            top,
            x as int,
            y as int,
            k,
            after,
        ) by {
            let i = 4 * k;
            assert(blended(before, top, x as int, y as int, i, after.data[i]));
            assert(blended(before, top, x as int, y as int, i + 1, after.data[i + 1]));
            assert(blended(before, top, x as int, y as int, i + 2, after.data[i + 2]));
            assert(blended(before, top, x as int, y as int, i + 3, after.data[i + 3]));
            match cover(before, top, x as int, y as int, k) {
                None => {
                    assert(pixel(after, k) =~= pixel(before, k));
                },
                Some(m) => {
                    lemma_cell_index(
                        k % (before.width as int) - x,
                        k / (before.width as int) - y,
                        top.width as int,
                        top.height as int,
                    );
                    if top.data[4 * m + 3] == 0 {
                        assert(pixel(after, k) =~= pixel(before, k));
                    }
                    if top.data[4 * m + 3] == 255 {
                        assert(pixel(after, k) =~= pixel(top, m));
                    }
                },
            }
        }
        if transparent(top) {
            assert forall|i: int| 0 <= i < before.data.len() implies after.data[i]
                == before.data[i] by {
                assert(blended(before, top, x as int, y as int, i, after.data[i]));
                if let Some(m) = cover(before, top, x as int, y as int, i / 4) {
                    let u = (i / 4) % (before.width as int) - x;
                    let v = (i / 4) / (before.width as int) - y;
                    lemma_cell_index(u, v, top.width as int, top.height as int);
                }
            }
            assert(after.data =~= before.data);
        }
    }
}

} // verus!
