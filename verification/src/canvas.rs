use vstd::prelude::*;
use crate::channel::{A, B, G, R, channel_selected, lemma_single_flag_channels};
use crate::pixels::{
    arr_clone, arr_dim, arr_get, arr_seq, arr_set, arr_slice, arr_standard, arr_zeros, PixelArray,
};
use crate::view::ImageView;

verus! {

/// Errors reported by canvas operations.
#[derive(Debug, Clone, Copy, PartialEq, Eq, Structural)]
pub enum Error {
    /// A coordinate fell outside the canvas; each flag tells independently
    /// whether the width bound or the height bound was violated.
    OutOfBounds { width: bool, height: bool },
    /// The two canvases of a merge do not have the same dimensions.
    DimensionMismatch,
}

/// A dense pixel buffer with fixed dimensions: one byte per channel, four
/// channels per pixel (red, green, blue, alpha, in that order), rows stored
/// one after the other.
pub struct Canvas {
    width: usize,
    height: usize,
    pixels: PixelArray,
}

/// Position of the first byte of pixel `(x, y)` in a row-major buffer whose
/// rows are `w` pixels wide.
pub open spec fn pixel_base(w: nat, x: nat, y: nat) -> int {
    ((y * w + x) * 4) as int
}

/// The buffer `s` (row width `w`) after a masked write of `v` to pixel
/// `(x, y)`: exactly the bytes of the selected channels of that pixel become
/// `v`; every other byte keeps its value.
pub open spec fn masked_write(s: Seq<u8>, w: nat, x: nat, y: nat, mask: u8, v: u8) -> Seq<u8> {
    Seq::new(
        s.len(),
        |i: int|
            if pixel_base(w, x, y) <= i < pixel_base(w, x, y) + 4 && channel_selected(
                mask,
                i - pixel_base(w, x, y),
            ) {
                v
            } else {
                s[i]
            },
    )
}

/// The buffer `s` (row width `w`) after an RGB write to pixel `(x, y)`: red,
/// green and blue become the given values, alpha becomes fully opaque, and
/// every other byte keeps its value.
pub open spec fn rgb_write(s: Seq<u8>, w: nat, x: nat, y: nat, r: u8, g: u8, b: u8) -> Seq<u8> {
    Seq::new(
        s.len(),
        |i: int|
            {
                let base = pixel_base(w, x, y);
                if i == base {
                    r
                } else if i == base + 1 {
                    g
                } else if i == base + 2 {
                    b
                } else if i == base + 3 {
                    255u8
                } else {
                    s[i]
                }
            },
    )
}

/// The alpha byte of pixel `p` in buffer `s`.
pub open spec fn alpha_byte(s: Seq<u8>, p: int) -> u8 {
    s[4 * p + 3]
}

/// The destination buffer `d` after merging the source buffer `s` over it:
/// every byte of a pixel whose source alpha byte is nonzero is replaced by
/// the source byte at the same position; the bytes of the other pixels stay.
pub open spec fn merged(d: Seq<u8>, s: Seq<u8>) -> Seq<u8> {
    Seq::new(
        d.len(),
        |i: int|
            if alpha_byte(s, i / 4) == 0 {
                d[i]
            } else {
                s[i]
            },
    )
}

impl Canvas {
    /// Width in pixels.
    pub closed spec fn spec_width(self) -> nat {
        self.width as nat
    }

    /// Height in pixels.
    pub closed spec fn spec_height(self) -> nat {
        self.height as nat
    }

    /// The bytes of the buffer in row-major, channel-minor order.
    pub closed spec fn bytes(self) -> Seq<u8> {
        arr_seq(self.pixels)
    }

    /// Well-formed: the buffer has the canvas's dimensions, four bytes per
    /// pixel, stored contiguously in row-major order.
    pub closed spec fn wf(self) -> bool {
        &&& arr_dim(self.pixels) == (self.height as nat, self.width as nat, 4nat)
        &&& arr_standard(self.pixels)
        &&& arr_seq(self.pixels).len() == self.width * self.height * 4
        &&& self.width * self.height * 4 <= isize::MAX
    }

    /// Width in pixels.
    pub fn width(&self) -> (w: usize)
        ensures
            w == self.spec_width(),
    {
        self.width
    }

    /// Height in pixels.
    pub fn height(&self) -> (h: usize)
        ensures
            h == self.spec_height(),
    {
        self.height
    }

    /// A canvas of the given dimensions, fully transparent black: every byte
    /// of the buffer is zero. The bounds are the allocator's: the buffer,
    /// and each axis on its own, must fit in `isize` bytes.
    pub fn new(width: usize, height: usize) -> (c: Self)
        requires
            width * height * 4 <= isize::MAX,
            width * 4 <= isize::MAX,
            height * 4 <= isize::MAX,
        ensures
            c.wf(),
            c.spec_width() == width,
            c.spec_height() == height,
            c.bytes() == Seq::new((width * height * 4) as nat, |i: int| 0u8),
    {
        let pixels = arr_zeros(height, width);
        proof {
            assert(height * width * 4 == width * height * 4) by (nonlinear_arith);
        }
        Canvas { width, height, pixels }
    }

    /// The raw bytes of the buffer, row-major and channel-minor, without
    /// copying.
    pub fn raw_bytes(&self) -> (s: &[u8])
        requires
            self.wf(),
        ensures
            s@ == self.bytes(),
            s@.len() == self.spec_width() * self.spec_height() * 4,
    {
        arr_slice(&self.pixels)
    }

    /// A read-only interleaved RGBA view over the canvas's buffer, without
    /// copying: the view's dimensions equal the canvas's own and its bytes
    /// are exactly the canvas's bytes.
    pub fn as_image<'a>(&'a self) -> (v: ImageView<'a>)
        requires
            self.wf(),
            self.spec_width() <= u32::MAX,
            self.spec_height() <= u32::MAX,
        ensures
            v.wf(),
            v.spec_width() == self.spec_width(),
            v.spec_height() == self.spec_height(),
            v.bytes() == self.bytes(),
    {
        let raw = arr_slice(&self.pixels);
        ImageView::from_parts(self.width as u32, self.height as u32, raw)
    }

    /// Write `value` to every channel of pixel `(x, y)` that `channels`
    /// selects, leaving all other bytes unchanged; out-of-bounds coordinates
    /// are rejected with flags naming the violated axes.
    pub fn set(&mut self, x: usize, y: usize, channels: u8, value: u8) -> (r: Result<(), Error>)
        requires
            old(self).wf(),
        ensures
            final(self).wf(),
            final(self).spec_width() == old(self).spec_width(),
            final(self).spec_height() == old(self).spec_height(),
            x < old(self).spec_width() && y < old(self).spec_height() ==> {
                &&& r == Ok::<(), Error>(())
                &&& final(self).bytes() == masked_write(
                    old(self).bytes(),
                    old(self).spec_width(),
                    x as nat,
                    y as nat,
                    channels,
                    value,
                )
            },
            x >= old(self).spec_width() || y >= old(self).spec_height() ==> {
                &&& r == (Err::<(), Error>(
                    Error::OutOfBounds {
                        width: x >= old(self).spec_width(),
                        height: y >= old(self).spec_height(),
                    },
                ))
                &&& final(self).bytes() == old(self).bytes()
            },
    {
        if x >= self.width || y >= self.height {
            Err(Error::OutOfBounds { width: x >= self.width, height: y >= self.height })
        } else {
            let ghost s0 = self.bytes();
            let ghost w = self.spec_width();
            let ghost h = self.spec_height();
            proof {
                lemma_in_bounds_base(w, h, x as nat, y as nat);
            }
            if channels & R == R {
                arr_set(&mut self.pixels, y, x, 0, value);
            }
            if channels & G == G {
                arr_set(&mut self.pixels, y, x, 1, value);
            }
            if channels & B == B {
                arr_set(&mut self.pixels, y, x, 2, value);
            }
            if channels & A == A {
                arr_set(&mut self.pixels, y, x, 3, value);
            }
            proof {
                assert(self.bytes() =~= masked_write(s0, w, x as nat, y as nat, channels, value));
            }
            Ok(())
        }
    }

    /// Set pixel `(x, y)` to the given red, green and blue values with fully
    /// opaque alpha, by four sequential masked writes; the bounds check of
    /// the first write rejects out-of-bounds coordinates.
    pub fn set_rgb(&mut self, x: usize, y: usize, value: [u8; 3]) -> (r: Result<(), Error>)
        requires
            old(self).wf(),
        ensures
            final(self).wf(),
            final(self).spec_width() == old(self).spec_width(),
            final(self).spec_height() == old(self).spec_height(),
            x < old(self).spec_width() && y < old(self).spec_height() ==> {
                &&& r == Ok::<(), Error>(())
                &&& final(self).bytes() == rgb_write(
                    old(self).bytes(),
                    old(self).spec_width(),
                    x as nat,
                    y as nat,
                    value[0],
                    value[1],
                    value[2],
                )
                &&& final(self).bytes()[pixel_base(old(self).spec_width(), x as nat, y as nat) + 3]
                    == 255u8
            },
            x >= old(self).spec_width() || y >= old(self).spec_height() ==> {
                &&& r == (Err::<(), Error>(
                    Error::OutOfBounds {
                        width: x >= old(self).spec_width(),
                        height: y >= old(self).spec_height(),
                    },
                ))
                &&& final(self).bytes() == old(self).bytes()
            },
    {
        let ghost s0 = self.bytes();
        let ghost w = self.spec_width();
        let ghost h = self.spec_height();
        match self.set(x, y, R, value[0]) {
            Err(e) => {
                return Err(e);
            },
            Ok(_) => {},
        }
        match self.set(x, y, G, value[1]) {
            Err(e) => {
                return Err(e);
            },
            Ok(_) => {},
        }
        match self.set(x, y, B, value[2]) {
            Err(e) => {
                return Err(e);
            },
            Ok(_) => {},
        }
        match self.set(x, y, A, 255) {
            Err(e) => {
                return Err(e);
            },
            Ok(_) => {},
        }
        proof {
            lemma_single_flag_channels();
            lemma_in_bounds_base(w, h, x as nat, y as nat);
            assert(self.bytes() =~= rgb_write(s0, w, x as nat, y as nat, value[0], value[1],
            value[2]));
        }
        Ok(())
    }

    /// Overlay `other` onto `self`: wherever a pixel of `other` has nonzero
    /// alpha, the pixel of `self` at the same position is replaced by the
    /// four bytes of `other`'s pixel, copied verbatim; pixels of `other`
    /// with zero alpha leave `self` untouched. Canvases of different
    /// dimensions are rejected and `self` is left unchanged.
    pub fn merge(&mut self, other: &Canvas) -> (r: Result<(), Error>)
        requires
            old(self).wf(),
            other.wf(),
        ensures
            final(self).wf(),
            final(self).spec_width() == old(self).spec_width(),
            final(self).spec_height() == old(self).spec_height(),
            old(self).spec_width() == other.spec_width() && old(self).spec_height()
                == other.spec_height() ==> {
                &&& r == Ok::<(), Error>(())
                &&& final(self).bytes() == merged(old(self).bytes(), other.bytes())
            },
            old(self).spec_width() != other.spec_width() || old(self).spec_height()
                != other.spec_height() ==> {
                &&& r == (Err::<(), Error>(Error::DimensionMismatch))
                &&& final(self).bytes() == old(self).bytes()
            },
    {
        if self.width != other.width || self.height != other.height {
            return Err(Error::DimensionMismatch);
        }
        let w = self.width;
        let h = self.height;
        let ghost d0 = self.bytes();
        let ghost src = other.bytes();
        let mut y: usize = 0;
        while y < h
            invariant
                y <= h,
                self.wf(),
                other.wf(),
                self.width == w,
                self.height == h,
                other.spec_width() == w as nat,
                other.spec_height() == h as nat,
                src == other.bytes(),
                d0.len() == self.bytes().len(),
                src.len() == d0.len(),
                forall|i: int|
                    0 <= i < 4 * ((y * w) as int) ==> self.bytes()[i] == merged(d0, src)[i],
                forall|i: int|
                    4 * ((y * w) as int) <= i < d0.len() ==> self.bytes()[i] == d0[i],
            decreases h - y,
        {
            let mut x: usize = 0;
            proof {
                lemma_row_bounds(w as nat, h as nat, y as nat);
            }
            while x < w
                invariant
                    x <= w,
                    y < h,
                    self.wf(),
                    other.wf(),
                    self.width == w,
                    self.height == h,
                    other.spec_width() == w as nat,
                    other.spec_height() == h as nat,
                    src == other.bytes(),
                    d0.len() == self.bytes().len(),
                    src.len() == d0.len(),
                    4 * ((y * w + x) as int) <= d0.len(),
                    forall|i: int|
                        0 <= i < 4 * ((y * w + x) as int) ==> self.bytes()[i] == merged(
                            d0,
                            src,
                        )[i],
                    forall|i: int|
                        4 * ((y * w + x) as int) <= i < d0.len() ==> self.bytes()[i] == d0[i],
                decreases w - x,
            {
                proof {
                    lemma_in_bounds_base(w as nat, h as nat, x as nat, y as nat);
                }
                let ghost p = (y * w + x) as int;
                let alpha = arr_get(&other.pixels, y, x, 3);
                if alpha != 0 {
                    let v0 = arr_get(&other.pixels, y, x, 0);
                    arr_set(&mut self.pixels, y, x, 0, v0);
                    let v1 = arr_get(&other.pixels, y, x, 1);
                    arr_set(&mut self.pixels, y, x, 1, v1);
                    let v2 = arr_get(&other.pixels, y, x, 2);
                    arr_set(&mut self.pixels, y, x, 2, v2);
                    let v3 = arr_get(&other.pixels, y, x, 3);
                    arr_set(&mut self.pixels, y, x, 3, v3);
                }
                proof {
                    assert forall|i: int| 0 <= i < 4 * (p + 1) implies self.bytes()[i] == merged(
                        d0,
                        src,
                    )[i] by {
                        if 4 * p <= i < 4 * (p + 1) {
                            lemma_byte_pixel(i, p);
                        }
                    }
                    assert(forall|i: int|
                        4 * (p + 1) <= i < d0.len() ==> self.bytes()[i] == d0[i]);
                }
                x += 1;
            }
            y += 1;
        }
        proof {
            assert(4 * ((h * w) as int) == d0.len()) by (nonlinear_arith)
                requires
                    d0.len() == w * h * 4,
            ;
            assert(self.bytes() =~= merged(d0, src));
        }
        Ok(())
    }
}

impl Clone for Canvas {
    /// An independent deep copy: same dimensions, identical bytes, in a
    /// separate buffer.
    fn clone(&self) -> (c: Self)
        ensures
            c.spec_width() == self.spec_width(),
            c.spec_height() == self.spec_height(),
            c.bytes() == self.bytes(),
            self.wf() ==> c.wf(),
    {
        Canvas { width: self.width, height: self.height, pixels: arr_clone(&self.pixels) }
    }
}

/// Law: a masked write is idempotent. Writing the same channels of the same
/// pixel with the same value twice gives the buffer that one write gives.
pub proof fn lemma_set_idempotent(s: Seq<u8>, w: nat, x: nat, y: nat, mask: u8, v: u8)
    ensures
        masked_write(masked_write(s, w, x, y, mask, v), w, x, y, mask, v) == masked_write(
            s,
            w,
            x,
            y,
            mask,
            v,
        ),
{
    assert(masked_write(masked_write(s, w, x, y, mask, v), w, x, y, mask, v) =~= masked_write(
        s,
        w,
        x,
        y,
        mask,
        v,
    ));
}

/// Law: merging a fully transparent source is a no-op. If the alpha byte of
/// every source pixel is zero, the destination keeps every byte.
pub proof fn lemma_merge_transparent(d: Seq<u8>, s: Seq<u8>)
    requires
        s.len() == d.len(),
        d.len() % 4 == 0,
        forall|p: int| 0 <= p && 4 * p + 3 < s.len() ==> alpha_byte(s, p) == 0,
    ensures
        merged(d, s) == d,
{
    assert forall|i: int| 0 <= i < d.len() implies merged(d, s)[i] == d[i] by {
        lemma_byte_pixel_bounds(i, d.len() as int);
        assert(alpha_byte(s, i / 4) == 0);
    }
    assert(merged(d, s) =~= d);
}

/// Law: merging a source whose only nonzero-alpha pixel is `p0` onto an
/// all-zero destination copies that pixel's four bytes verbatim and leaves
/// every byte of every other pixel zero.
pub proof fn lemma_merge_single_opaque(d: Seq<u8>, s: Seq<u8>, p0: int)
    requires
        s.len() == d.len(),
        d.len() % 4 == 0,
        0 <= p0,
        4 * p0 + 3 < s.len(),
        forall|i: int| 0 <= i < d.len() ==> d[i] == 0,
        alpha_byte(s, p0) != 0,
        forall|p: int| 0 <= p && 4 * p + 3 < s.len() && p != p0 ==> alpha_byte(s, p) == 0,
    ensures
        forall|i: int| 4 * p0 <= i < 4 * p0 + 4 ==> merged(d, s)[i] == s[i],
        forall|i: int|
            0 <= i < d.len() && !(4 * p0 <= i < 4 * p0 + 4) ==> merged(d, s)[i] == 0,
{
    assert forall|i: int| 4 * p0 <= i < 4 * p0 + 4 implies merged(d, s)[i] == s[i] by {
        lemma_byte_pixel(i, p0);
    }
    assert forall|i: int|
        0 <= i < d.len() && !(4 * p0 <= i < 4 * p0 + 4) implies merged(d, s)[i] == 0 by {
        lemma_byte_pixel_bounds(i, d.len() as int);
        assert(i / 4 != p0);
        assert(alpha_byte(s, i / 4) == 0);
    }
}

/// Every byte position of a buffer whose length is a whole number of pixels
/// lies among the four bytes of its own pixel `i / 4`.
proof fn lemma_byte_pixel_bounds(i: int, len: int)
    requires
        0 <= i < len,
        len % 4 == 0,
    ensures
        0 <= i / 4,
        4 * (i / 4) <= i < 4 * (i / 4) + 4,
        4 * (i / 4) + 3 < len,
{
    vstd::arithmetic::div_mod::lemma_fundamental_div_mod(i, 4);
    vstd::arithmetic::div_mod::lemma_mod_bound(i, 4);
    vstd::arithmetic::div_mod::lemma_fundamental_div_mod(len, 4);
}

/// The four bytes of pixel `p` occupy positions `4p` to `4p + 3`, and each
/// of them maps back to pixel `p`.
proof fn lemma_byte_pixel(i: int, p: int)
    requires
        0 <= p,
        4 * p <= i < 4 * (p + 1),
    ensures
        i / 4 == p,
{
    vstd::arithmetic::div_mod::lemma_fundamental_div_mod_converse(i, 4, p, i - 4 * p);
}

/// The first byte of an in-bounds pixel leaves room for its four bytes
/// inside a `w` by `h` buffer.
proof fn lemma_in_bounds_base(w: nat, h: nat, x: nat, y: nat)
    requires
        x < w,
        y < h,
    ensures
        (y * w + x) * 4 + 4 <= w * h * 4,
        pixel_base(w, x, y) == 4 * ((y * w + x) as int),
{
    assert((y * w + x) * 4 + 4 <= w * h * 4) by (nonlinear_arith)
        requires
            x < w,
            y < h,
    ;
}

/// A full row of pixels fits in the buffer.
proof fn lemma_row_bounds(w: nat, h: nat, y: nat)
    requires
        y < h,
    ensures
        4 * ((y * w + w) as int) <= w * h * 4,
        (y * w + w) == ((y + 1) * w),
{
    assert(4 * ((y * w + w) as int) <= w * h * 4 && (y * w + w) == ((y + 1)
        * w)) by (nonlinear_arith)
        requires
            y < h,
    ;
}

} // verus!
