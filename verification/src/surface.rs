use vstd::prelude::*;
use vstd::arithmetic::div_mod::lemma_fundamental_div_mod_converse;
use vstd::arithmetic::mul::lemma_mul_inequality;

use crate::frame::Frame;

verus! {

// The native-surface backend announces its raw framebuffer geometry once, in
// a startup banner; after that its output is a plain byte stream of
// fixed-size frames whose rows carry stride padding. This module slices that
// stream and strips the padding.

/// Geometry of the raw framebuffer stream, learned from the startup banner.
#[derive(Clone, Copy, PartialEq, Eq, Structural, Debug)]
pub struct RawSurfaceDescriptor {
    pub width: usize,
    pub height: usize,
    pub row_stride_bytes: usize,
    pub frame_size_bytes: usize,
}

impl RawSurfaceDescriptor {
    /// The geometry invariant: each padded row holds at least `width * 4`
    /// bytes and a whole frame holds at least `height` padded rows. The
    /// dimension bounds come from `Frame`, whose sides are `u32`.
    pub open spec fn wf(self) -> bool {
        &&& self.width * 4 <= self.row_stride_bytes
        &&& self.row_stride_bytes * self.height <= self.frame_size_bytes
        &&& self.width <= u32::MAX
        &&& self.height <= u32::MAX
    }

    /// Decides the geometry invariant; a violation is fatal for the backend.
    pub fn validate(&self) -> (b: bool)
        ensures
            b == self.wf(),
    {
        proof {
            assert((self.row_stride_bytes as int) * (self.height as int) < u128::MAX) by (nonlinear_arith)
                requires
                    self.row_stride_bytes <= usize::MAX,
                    self.height <= usize::MAX,
            ;
        }
        let row_ok = (self.width as u128) * 4 <= (self.row_stride_bytes as u128);
        let frame_ok = (self.row_stride_bytes as u128) * (self.height as u128) <= (
        self.frame_size_bytes as u128);
        let fits = self.width <= u32::MAX as usize && self.height <= u32::MAX as usize;
        row_ok && frame_ok && fits
    }

    /// The de-strided pixel bytes of one frame-sized window of the stream:
    /// row `y` of the result is bytes `[y * row_stride_bytes,
    /// y * row_stride_bytes + width * 4)` of the window, rows in original
    /// order.
    pub open spec fn destrided(self, window: Seq<u8>) -> Seq<u8> {
        Seq::new(
            (self.width * self.height * 4) as nat,
            |i: int|
                window[(i / (self.width * 4) as int) * self.row_stride_bytes + i % (self.width
                    * 4) as int],
        )
    }

    /// Copies one frame out of `data` at `start`, stripping row padding.
    pub fn destride_at(&self, data: &Vec<u8>, start: usize) -> (f: Frame)
        requires
            self.wf(),
            start + self.frame_size_bytes <= data@.len(),
        ensures
            f.wf(),
            f.width == self.width as u32,
            f.height == self.height as u32,
            f.pixels@ == self.destrided(
                data@.subrange(start as int, start as int + self.frame_size_bytes as int),
            ),
    {
        let w4: usize = self.width * 4;
        let stride = self.row_stride_bytes;
        let fs = self.frame_size_bytes;
        let height = self.height;
        let ghost window = data@.subrange(start as int, start as int + fs as int);
        let data_len = data.len();
        let mut pixels: Vec<u8> = Vec::new();
        let mut y: usize = 0;
        let mut row_start: usize = 0;
        while y < height
            invariant
                self.wf(),
                w4 == self.width * 4,
                stride == self.row_stride_bytes,
                fs == self.frame_size_bytes,
                height == self.height,
                start + fs <= data@.len() <= usize::MAX,
                window == data@.subrange(start as int, start as int + fs as int),
                y <= height,
                row_start == y * stride,
                pixels@.len() == y * w4,
                forall|i: int|
                    0 <= i < pixels@.len() ==> pixels@[i] == window[(i / (w4 as int)) * (
                    stride as int) + i % (w4 as int)],
            decreases height - y,
        {
            proof {
                lemma_mul_inequality(y as int + 1, height as int, stride as int);
                assert((y + 1) * stride == y * stride + stride) by (nonlinear_arith);
                assert(stride * height == height * stride) by (nonlinear_arith);
            }
            let mut x: usize = 0;
            while x < w4
                invariant
                    self.wf(),
                    w4 == self.width * 4,
                    stride == self.row_stride_bytes,
                    fs == self.frame_size_bytes,
                    height == self.height,
                    start + fs <= data@.len() <= usize::MAX,
                    window == data@.subrange(start as int, start as int + fs as int),
                    y < height,
                    row_start == y * stride,
                    row_start + stride <= fs,
                    x <= w4,
                    w4 <= stride,
                    pixels@.len() == y * w4 + x,
                    forall|i: int|
                        0 <= i < pixels@.len() ==> pixels@[i] == window[(i / (w4 as int)) * (
                        stride as int) + i % (w4 as int)],
                decreases w4 - x,
            {
                let b = data[start + row_start + x];
                pixels.push(b);
                proof {
                    let i = (y * w4 + x) as int;
                    lemma_fundamental_div_mod_converse(i, w4 as int, y as int, x as int);
                    assert(window[(y * stride + x) as int] == data@[(start + y * stride
                        + x) as int]);
                }
                x = x + 1;
            }
            y = y + 1;
            row_start = row_start + stride;
            proof {
                assert(y * stride == (y - 1) * stride + stride) by (nonlinear_arith);
                assert(y * w4 == (y - 1) * w4 + w4) by (nonlinear_arith);
            }
        }
        proof {
            assert(height * w4 == self.width * self.height * 4) by (nonlinear_arith)
                requires
                    w4 == self.width * 4,
                    height == self.height,
            ;
            assert(pixels@ =~= self.destrided(window));
            assert((self.width as u32) * (self.height as u32) * 4 == self.width * self.height
                * 4);
        }
        Frame { width: self.width as u32, height: self.height as u32, pixels }
    }

    /// Slices and de-strides one frame from the front of `data`. A buffer
    /// even one byte short of `frame_size_bytes`, or a geometry that breaks
    /// the invariant, is rejected before any slicing happens.
    pub fn extract_frame(&self, data: &Vec<u8>) -> (r: Option<Frame>)
        ensures
            (r is Some) <==> (self.wf() && self.frame_size_bytes <= data@.len()),
            r is Some ==> {
                let f = r->Some_0;
                &&& f.wf()
                &&& f.width == self.width as u32
                &&& f.height == self.height as u32
                &&& f.pixels@ == self.destrided(
                    data@.subrange(0, self.frame_size_bytes as int),
                )
            },
    {
        if !self.validate() {
            return None;
        }
        if data.len() < self.frame_size_bytes {
            return None;
        }
        Some(self.destride_at(data, 0))
    }
}

/// Incremental slicer for the raw surface stream: accumulates arbitrary
/// chunks and hands out every complete, de-strided frame, keeping the
/// remainder for the next chunk.
pub struct SurfaceFramer {
    pub desc: RawSurfaceDescriptor,
    pub stash: Vec<u8>,
}

impl SurfaceFramer {
    pub open spec fn wf(self) -> bool {
        &&& self.desc.wf()
        &&& self.desc.frame_size_bytes > 0
    }

    /// Builds a framer; a geometry that breaks the invariant, or one whose
    /// frames would be empty, is refused.
    pub fn new(desc: RawSurfaceDescriptor) -> (r: Option<SurfaceFramer>)
        ensures
            (r is Some) <==> (desc.wf() && desc.frame_size_bytes > 0),
            r is Some ==> {
                let f = r->Some_0;
                &&& f.wf()
                &&& f.desc == desc
                &&& f.stash@ == Seq::<u8>::empty()
            },
    {
        if desc.validate() && desc.frame_size_bytes > 0 {
            Some(SurfaceFramer { desc, stash: Vec::new() })
        } else {
            None
        }
    }

    /// Feeds one chunk of the byte stream, wherever the chunk boundary fell,
    /// and returns every frame completed by it, in stream order.
    pub fn push_chunk(&mut self, chunk: &[u8]) -> (frames: Vec<Frame>)
        requires
            old(self).wf(),
        ensures
            final(self).wf(),
            final(self).desc == old(self).desc,
            ({
                let b = old(self).stash@ + chunk@;
                let fs = old(self).desc.frame_size_bytes as int;
                let n = b.len() as int / fs;
                &&& frames@.len() == n
                &&& (forall|k: int|
                    0 <= k < n ==> {
                        let f = #[trigger] frames@[k];
                        &&& f.wf()
                        &&& f.width == old(self).desc.width as u32
                        &&& f.height == old(self).desc.height as u32
                        &&& f.pixels@ == old(self).desc.destrided(
                            b.subrange(k * fs, (k + 1) * fs),
                        )
                    })
                &&& final(self).stash@ == b.subrange(n * fs, b.len() as int)
            }),
    {
        let ghost b = old(self).stash@ + chunk@;
        let mut i: usize = 0;
        let n = chunk.len();
        while i < n
            invariant
                i <= n,
                n == chunk@.len(),
                self.desc == old(self).desc,
                self.stash@ == old(self).stash@ + chunk@.subrange(0, i as int),
            decreases n - i,
        {
            let c = *vstd::slice::slice_index_get(chunk, i);
            self.stash.push(c);
            proof {
                assert(self.stash@ =~= old(self).stash@ + chunk@.subrange(0, i as int + 1));
            }
            i = i + 1;
        }
        proof {
            assert(self.stash@ =~= b);
        }
        let fs = self.desc.frame_size_bytes;
        let mut frames: Vec<Frame> = Vec::new();
        let mut offset: usize = 0;
        proof {
            assert(frames@.len() * (fs as int) == 0) by (nonlinear_arith)
                requires
                    frames@.len() == 0,
            ;
        }
        while fs <= self.stash.len() - offset
            invariant
                self.desc == old(self).desc,
                self.desc.wf(),
                fs == self.desc.frame_size_bytes,
                fs > 0,
                self.stash@ == b,
                offset <= self.stash@.len(),
                offset == frames@.len() * fs,
                forall|k: int|
                    0 <= k < frames@.len() ==> {
                        let f = #[trigger] frames@[k];
                        &&& f.wf()
                        &&& f.width == self.desc.width as u32
                        &&& f.height == self.desc.height as u32
                        &&& f.pixels@ == self.desc.destrided(
                            b.subrange(k * (fs as int), (k + 1) * (fs as int)),
                        )
                    },
            decreases self.stash@.len() - offset,
        {
            let desc = self.desc;
            let f = desc.destride_at(&self.stash, offset);
            proof {
                let k = frames@.len() as int;
                assert((k + 1) * (fs as int) == k * (fs as int) + fs) by (nonlinear_arith);
            }
            frames.push(f);
            offset = offset + fs;
        }
        proof {
            let n = b.len() as int / (fs as int);
            lemma_fundamental_div_mod_converse(
                b.len() as int,
                fs as int,
                frames@.len() as int,
                b.len() - offset,
            );
            assert(frames@.len() == n);
        }
        let mut rest: Vec<u8> = Vec::new();
        let total = self.stash.len();
        let mut j: usize = offset;
        while j < total
            invariant
                offset <= j <= total,
                total == self.stash@.len(),
                self.stash@ == b,
                rest@ == b.subrange(offset as int, j as int),
            decreases total - j,
        {
            let c = self.stash[j];
            rest.push(c);
            proof {
                assert(rest@ =~= b.subrange(offset as int, j as int + 1));
            }
            j = j + 1;
        }
        self.stash = rest;
        frames
    }
}

} // verus!
