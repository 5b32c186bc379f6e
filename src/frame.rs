use vstd::arithmetic::div_mod::{lemma_div_denominator, lemma_fundamental_div_mod};
use vstd::prelude::*;

verus! {

/// Bytes per pixel in the row-major frame layout.
pub const BYTES_PER_PIXEL: usize = 3;

/// Number of whole rows in a buffer of `len` bytes whose rows are `width`
/// pixels of three bytes each; a trailing partial row is not counted.
pub fn frame_height(len: usize, width: usize) -> (r: usize)
    requires
        width > 0,
    ensures
        r as int == len as int / (width as int * 3),
{
    proof {
        lemma_div_denominator(len as int, width as int, 3);
    }
    len / width / BYTES_PER_PIXEL
}

/// Number of leading bytes of a `len`-byte buffer that make up whole rows of
/// `width` pixels: what an image built from the buffer actually reads.
pub fn frame_used_len(len: usize, width: usize) -> (r: usize)
    requires
        width > 0,
    ensures
        r as int == (len as int / (width as int * 3)) * (width as int * 3),
        r <= len,
        len - r < width * 3,
{
    let h = frame_height(len, width);
    proof {
        lemma_height_truncates(len as int, width as int);
        assert(h * width * 3 == h * (width * 3)) by (nonlinear_arith);
        assert(h * width <= h * width * 3) by (nonlinear_arith);
    }
    h * width * BYTES_PER_PIXEL
}

/// The derived height is the floor of the length over the row size: the
/// whole rows fit in the buffer, and what is left over is shorter than a row.
pub proof fn lemma_height_truncates(len: int, width: int)
    requires
        len >= 0,
        width > 0,
    ensures
        (len / (width * 3)) * (width * 3) <= len,
        len - (len / (width * 3)) * (width * 3) < width * 3,
        len % (width * 3) != 0 ==> (len / (width * 3)) * (width * 3) < len,
{
    lemma_fundamental_div_mod(len, width * 3);
    assert((len / (width * 3)) * (width * 3) == (width * 3) * (len / (width * 3))) by (nonlinear_arith);
}

/// Holder of the most recently decoded frame: its raw bytes and its width in
/// pixels. A width of zero means that no frame has been received yet.
pub struct FrameBuffer {
    bytes: Vec<u8>,
    width: usize,
    /// Every frame handed to `publish`, oldest first.
    published: Ghost<Seq<(Seq<u8>, usize)>>,
}

impl FrameBuffer {
    /// The frame that a snapshot returns now.
    pub closed spec fn current(&self) -> (Seq<u8>, usize) {
        (self.bytes@, self.width)
    }

    /// The frames published so far, oldest first.
    pub closed spec fn published(&self) -> Seq<(Seq<u8>, usize)> {
        self.published@
    }

    /// The current frame is the last one published, or the empty frame of
    /// width zero when nothing has been published.
    pub open spec fn wf(&self) -> bool {
        if self.published().len() == 0 {
            self.current() == (Seq::<u8>::empty(), 0usize)
        } else {
            self.current() == self.published().last()
        }
    }

    /// An empty holder: no bytes, width zero.
    pub fn new() -> (r: FrameBuffer)
        ensures
            r.wf(),
            r.published().len() == 0,
            r.current() == (Seq::<u8>::empty(), 0usize),
    {
        FrameBuffer { bytes: Vec::new(), width: 0, published: Ghost(Seq::empty()) }
    }

    /// Replace the stored frame, bytes and width together.
    pub fn publish(&mut self, bytes: Vec<u8>, width: usize)
        requires
            old(self).wf(),
        ensures
            final(self).wf(),
            final(self).current() == (bytes@, width),
            final(self).published() == old(self).published().push((bytes@, width)),
    {
        self.bytes = bytes;
        self.width = width;
        self.published = Ghost(self.published@.push((self.bytes@, width)));
    }

    /// A copy of the stored bytes and width, independent of later publishes.
    pub fn snapshot(&self) -> (r: (Vec<u8>, usize))
        ensures
            (r.0@, r.1) == self.current(),
    {
        (self.bytes.clone(), self.width)
    }

    /// A snapshot is never a mix of two frames: once anything has been
    /// published, what a snapshot returns is exactly the bytes and width of a
    /// single `publish` call, namely the latest.
    pub proof fn lemma_snapshot_untorn(&self)
        requires
            self.wf(),
            self.published().len() > 0,
        ensures
            exists|i: int|
                0 <= i < self.published().len() && #[trigger] self.published()[i]
                    == self.current(),
            self.current() == self.published()[self.published().len() - 1],
    {
        let i = self.published().len() - 1;
        assert(self.published()[i] == self.current());
    }
}

} // verus!
