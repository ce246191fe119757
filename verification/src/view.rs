use vstd::prelude::*;

verus! {

/// A read-only view of a canvas's buffer in standard interleaved RGBA
/// order: the declared dimensions together with a borrowed byte slice of
/// exactly `width * height * 4` bytes. The view borrows the canvas's
/// storage and cannot outlive it; an image encoder consumes it as-is.
pub struct ImageView<'a> {
    width: u32,
    height: u32,
    data: &'a [u8],
}

impl<'a> ImageView<'a> {
    /// Declared width in pixels.
    pub closed spec fn spec_width(self) -> nat {
        self.width as nat
    }

    /// Declared height in pixels.
    pub closed spec fn spec_height(self) -> nat {
        self.height as nat
    }

    /// The interleaved RGBA bytes the view presents.
    pub closed spec fn bytes(self) -> Seq<u8> {
        self.data@
    }

    /// Well-formed: the slice holds exactly four bytes per declared pixel.
    pub closed spec fn wf(self) -> bool {
        self.data@.len() == self.width * self.height * 4
    }

    /// A view over `data` with the given dimensions.
    pub fn from_parts(width: u32, height: u32, data: &'a [u8]) -> (v: Self)
        requires
            data@.len() == width * height * 4,
        ensures
            v.wf(),
            v.spec_width() == width,
            v.spec_height() == height,
            v.bytes() == data@,
    {
        ImageView { width, height, data }
    }

    /// Declared width in pixels.
    pub fn width(&self) -> (w: u32)
        ensures
            w == self.spec_width(),
    {
        self.width
    }

    /// Declared height in pixels.
    pub fn height(&self) -> (h: u32)
        ensures
            h == self.spec_height(),
    {
        self.height
    }

    /// The interleaved RGBA bytes the view presents.
    pub fn data(&self) -> (s: &'a [u8])
        ensures
            s@ == self.bytes(),
            self.wf() ==> s@.len() == self.spec_width() * self.spec_height() * 4,
    {
        self.data
    }
}

} // verus!
