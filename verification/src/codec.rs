//! Deterministic, lossy RGBA to packed 16-bit pixel conversion.
//!
//! Each pixel is packed into two bytes: the high byte keeps the top five
//! bits of red and the top three bits of green, the low byte keeps the next
//! three bits of green and the top five bits of blue. Alpha is discarded;
//! there is no dithering. Unpacking reconstructs each channel at the middle
//! of its quantization step, so a round trip is off by at most half a step
//! per channel.

use vstd::prelude::*;

verus! {

/// The high byte of a packed pixel: five bits of red, three of green.
pub open spec fn pack_hi(r: u8, g: u8) -> u8 {
    (r & 0xf8) | ((g >> 5) & 0x07)
}

/// The low byte of a packed pixel: three bits of green, five of blue.
pub open spec fn pack_lo(g: u8, b: u8) -> u8 {
    ((g << 3) & 0xe0) | ((b >> 3) & 0x1f)
}

/// The red channel reconstructed from the high byte, at mid-step.
pub open spec fn unpack_r(hi: u8) -> u8 {
    (hi & 0xf8) | 0x04
}

/// The green channel reconstructed from both bytes, at mid-step.
pub open spec fn unpack_g(hi: u8, lo: u8) -> u8 {
    ((hi & 0x07) << 5) | (((lo >> 5) & 0x07) << 2) | 0x02
}

/// The blue channel reconstructed from the low byte, at mid-step.
pub open spec fn unpack_b(lo: u8) -> u8 {
    ((lo & 0x1f) << 3) | 0x04
}

/// Pack one RGB triple into its two bytes.
pub fn pack_pixel(r: u8, g: u8, b: u8) -> (p: (u8, u8))
    ensures
        p.0 == pack_hi(r, g),
        p.1 == pack_lo(g, b),
{
    ((r & 0xf8) | ((g >> 5) & 0x07), ((g << 3) & 0xe0) | ((b >> 3) & 0x1f))
}

/// Unpack two packed bytes into the mid-step RGB triple.
pub fn unpack_pixel(hi: u8, lo: u8) -> (rgb: (u8, u8, u8))
    ensures
        rgb.0 == unpack_r(hi),
        rgb.1 == unpack_g(hi, lo),
        rgb.2 == unpack_b(lo),
{
    (
        (hi & 0xf8) | 0x04,
        ((hi & 0x07) << 5) | (((lo >> 5) & 0x07) << 2) | 0x02,
        ((lo & 0x1f) << 3) | 0x04,
    )
}

/// Packing an RGB triple and unpacking it again reproduces each channel
/// within its quantization step: red and blue within four, green within
/// two.
pub proof fn lemma_pack_roundtrip(r: u8, g: u8, b: u8)
    ensures
        -4 <= unpack_r(pack_hi(r, g)) - r <= 4,
        -2 <= unpack_g(pack_hi(r, g), pack_lo(g, b)) - g <= 2,
        -4 <= unpack_b(pack_lo(g, b)) - b <= 4,
{
    assert((((((r & 0xf8) | ((g >> 5) & 0x07)) & 0xf8) | 0x04) as u16) + 4 >= r as u16
        && (((((r & 0xf8) | ((g >> 5) & 0x07)) & 0xf8) | 0x04) as u16) <= (r as u16) + 4) by
        (bit_vector);
    assert(((((((r & 0xf8) | ((g >> 5) & 0x07)) & 0x07) << 5) | ((((((g << 3) & 0xe0) | ((b >> 3)
        & 0x1f)) >> 5) & 0x07) << 2) | 0x02) as u16) + 2 >= g as u16 && ((((((r & 0xf8) | ((g
        >> 5) & 0x07)) & 0x07) << 5) | ((((((g << 3) & 0xe0) | ((b >> 3) & 0x1f)) >> 5) & 0x07)
        << 2) | 0x02) as u16) <= (g as u16) + 2) by (bit_vector);
    assert((((((((g << 3) & 0xe0) | ((b >> 3) & 0x1f)) & 0x1f) << 3) | 0x04) as u16) + 4 >= b
        as u16 && ((((((((g << 3) & 0xe0) | ((b >> 3) & 0x1f)) & 0x1f) << 3) | 0x04) as u16)
        <= (b as u16) + 4)) by (bit_vector);
}

/// An RGBA image held as plain bytes: four bytes per pixel, rows first.
pub struct RgbaPixels {
    width: u32,
    height: u32,
    data: Vec<u8>,
}

impl RgbaPixels {
    /// The number of pixels.
    pub open spec fn pixel_count(&self) -> int {
        self.spec_width() * self.spec_height()
    }

    /// Well-formedness: four bytes for each pixel, and a byte count that
    /// fits addressing.
    pub open spec fn wf(&self) -> bool {
        &&& self.spec_data().len() == 4 * self.pixel_count()
        &&& self.spec_data().len() <= 0xFFFF_FFFF
    }

    /// The width in pixels.
    pub closed spec fn spec_width(&self) -> int {
        self.width as int
    }

    /// The height in pixels.
    pub closed spec fn spec_height(&self) -> int {
        self.height as int
    }

    /// The raw RGBA bytes.
    pub closed spec fn spec_data(&self) -> Seq<u8> {
        self.data@
    }

    /// The red value of pixel `p` in row-first order.
    pub open spec fn spec_r(&self, p: int) -> u8 {
        self.spec_data()[4 * p]
    }

    /// The green value of pixel `p`.
    pub open spec fn spec_g(&self, p: int) -> u8 {
        self.spec_data()[4 * p + 1]
    }

    /// The blue value of pixel `p`.
    pub open spec fn spec_b(&self, p: int) -> u8 {
        self.spec_data()[4 * p + 2]
    }

    /// Wrap raw RGBA bytes; `None` when the byte count does not match the
    /// dimensions or could not be addressed.
    pub fn new(width: u32, height: u32, data: Vec<u8>) -> (r: Option<RgbaPixels>)
        ensures
            r is Some <==> data@.len() == 4 * ((width as int) * (height as int)) && 4 * ((
            width as int) * (height as int)) <= 0xFFFF_FFFF,
            r matches Some(img) ==> img.wf() && img.spec_width() == width && img.spec_height()
                == height && img.spec_data() == data@,
    {
        proof {
            assert((width as int) * (height as int) <= 0xFFFF_FFFF * 0xFFFF_FFFF) by (
            nonlinear_arith)
                requires
                    0 <= width <= 0xFFFF_FFFF,
                    0 <= height <= 0xFFFF_FFFF,
            ;
        }
        let prod: u64 = (width as u64) * (height as u64);
        if prod <= 0x3FFF_FFFF {
            let need: u64 = 4 * prod;
            if data.len() as u64 == need {
                Some(RgbaPixels { width, height, data })
            } else {
                None
            }
        } else {
            None
        }
    }
}

/// Pixel `p` of `src` (RGBA bytes) is packed at bytes `2p` and `2p + 1` of
/// `dst`.
pub open spec fn pixel_packed(dst: Seq<u8>, src: Seq<u8>, p: int) -> bool {
    &&& dst[2 * p] == pack_hi(src[4 * p], src[4 * p + 1])
    &&& dst[2 * p + 1] == pack_lo(src[4 * p + 1], src[4 * p + 2])
}

/// A frame buffer of packed 16-bit pixels, two bytes per pixel.
pub struct St7789Img {
    width: u32,
    height: u32,
    img_buff: Vec<u8>,
}

impl St7789Img {
    /// The number of pixels.
    pub open spec fn pixel_count(&self) -> int {
        self.spec_width() * self.spec_height()
    }

    /// Well-formedness: two bytes for each pixel, and a byte count that
    /// fits addressing.
    pub open spec fn wf(&self) -> bool {
        &&& self.spec_buf().len() == 2 * self.pixel_count()
        &&& self.spec_buf().len() <= 0xFFFF_FFFF
    }

    /// The width in pixels.
    pub closed spec fn spec_width(&self) -> int {
        self.width as int
    }

    /// The height in pixels.
    pub closed spec fn spec_height(&self) -> int {
        self.height as int
    }

    /// The packed bytes.
    pub closed spec fn spec_buf(&self) -> Seq<u8> {
        self.img_buff@
    }

    /// A zeroed frame buffer for the given dimensions.
    pub fn new(width: u32, height: u32) -> (r: Self)
        requires
            2 * ((width as int) * (height as int)) <= 0xFFFF_FFFF,
        ensures
            r.wf(),
            r.spec_width() == width,
            r.spec_height() == height,
            r.spec_buf() == Seq::new((2 * ((width as int) * (height as int))) as nat, |i: int| 0u8),
    {
        let n: usize = (width as usize) * (height as usize) * 2;
        let mut img_buff: Vec<u8> = Vec::new();
        let mut i: usize = 0;
        while i < n
            invariant
                i <= n,
                img_buff@.len() == i,
                forall|k: int| 0 <= k < i ==> img_buff@[k] == 0u8,
            decreases n - i,
        {
            img_buff.push(0u8);
            i = i + 1;
        }
        proof {
            assert(img_buff@ =~= Seq::new((2 * ((width as int) * (height as int))) as nat,
                |i: int| 0u8));
        }
        St7789Img { width, height, img_buff }
    }

    /// How many bytes the frame buffer holds.
    pub fn byte_len(&self) -> (n: usize)
        ensures
            n == self.spec_buf().len(),
    {
        self.img_buff.len()
    }

    /// The packed bytes, for inspection and transfer.
    pub fn bytes(&self) -> (r: &Vec<u8>)
        ensures
            r@ == self.spec_buf(),
    {
        &self.img_buff
    }

    /// Convert an RGBA image of the same dimensions into the packed
    /// 16-bit frame buffer, pixel by pixel, alpha discarded.
    pub fn set_image(&mut self, image: &RgbaPixels)
        requires
            old(self).wf(),
            image.wf(),
            image.spec_width() == old(self).spec_width(),
            image.spec_height() == old(self).spec_height(),
        ensures
            final(self).wf(),
            final(self).spec_width() == old(self).spec_width(),
            final(self).spec_height() == old(self).spec_height(),
            final(self).spec_buf().len() == old(self).spec_buf().len(),
            forall|p: int|
                0 <= p < old(self).pixel_count() ==> pixel_packed(
                    final(self).spec_buf(),
                    image.spec_data(),
                    p,
                ),
    {
        let w: usize = self.width as usize;
        let h: usize = self.height as usize;
        let mut k: usize = 0;
        let mut i: usize = 0;
        while i < h
            invariant
                old(self).wf(),
                image.wf(),
                image.spec_width() == old(self).spec_width(),
                image.spec_height() == old(self).spec_height(),
                w == old(self).spec_width(),
                h == old(self).spec_height(),
                i <= h,
                i * w <= w * h,
                k == 2 * (i * w),
                self.width == old(self).width,
                self.height == old(self).height,
                self.img_buff@.len() == old(self).spec_buf().len(),
                forall|p: int| 0 <= p < i * w ==> pixel_packed(self.img_buff@, image.spec_data(), p),
            decreases h - i,
        {
            proof {
                assert((i + 1) * w == i * w + w && i * w + w <= h * w && h * w == w * h) by (
                nonlinear_arith)
                    requires
                        i < h,
                        w >= 0,
                        h >= 0,
                ;
            }
            let mut j: usize = 0;
            while j < w
                invariant
                    old(self).wf(),
                    image.wf(),
                    image.spec_width() == old(self).spec_width(),
                    image.spec_height() == old(self).spec_height(),
                    w == old(self).spec_width(),
                    h == old(self).spec_height(),
                    i < h,
                    j <= w,
                    i * w + w <= w * h,
                    w * h == old(self).pixel_count(),
                    k == 2 * (i * w) + 2 * j,
                    self.width == old(self).width,
                    self.height == old(self).height,
                    self.img_buff@.len() == old(self).spec_buf().len(),
                    forall|p: int|
                        0 <= p < i * w + j ==> pixel_packed(self.img_buff@, image.spec_data(), p),
                decreases w - j,
            {
                let p: usize = i * w + j;
                let base: usize = 4 * p;
                let ghost pre_buf = self.img_buff@;
                let r = image.data[base];
                let g = image.data[base + 1];
                let b = image.data[base + 2];
                self.img_buff[k] = (r & 0xf8) | ((g >> 5) & 0x07);
                k = k + 1;
                self.img_buff[k] = ((g << 3) & 0xe0) | ((b >> 3) & 0x1f);
                k = k + 1;
                proof {
                    assert(self.img_buff@[2 * (p as int)] == pack_hi(
                        image.spec_data()[4 * (p as int)],
                        image.spec_data()[4 * (p as int) + 1],
                    ));
                    assert(self.img_buff@[2 * (p as int) + 1] == pack_lo(
                        image.spec_data()[4 * (p as int) + 1],
                        image.spec_data()[4 * (p as int) + 2],
                    ));
                    assert(pixel_packed(self.img_buff@, image.spec_data(), p as int));
                    assert forall|q: int| 0 <= q < i * w + j implies pixel_packed(
                        self.img_buff@,
                        image.spec_data(),
                        q,
                    ) by {
                        assert(pixel_packed(pre_buf, image.spec_data(), q));
                        assert(self.img_buff@[2 * q] == pre_buf[2 * q]);
                        assert(self.img_buff@[2 * q + 1] == pre_buf[2 * q + 1]);
                    }
                }
                j = j + 1;
            }
            i = i + 1;
        }
        proof {
            assert(i * w == w * h) by (nonlinear_arith)
                requires
                    i == h,
                    w >= 0,
                    h >= 0,
            ;
        }
    }
}

} // verus!
