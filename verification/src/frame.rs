use vstd::prelude::*;

verus! {

/// One decoded image of the simulator screen: packed RGBA bytes, row-major,
/// no padding between rows.
#[derive(Debug)]
pub struct Frame {
    pub width: u32,
    pub height: u32,
    pub pixels: Vec<u8>,
}

/// The mathematical shadow of a `Frame`.
pub ghost struct FrameView {
    pub width: u32,
    pub height: u32,
    pub pixels: Seq<u8>,
}

impl View for Frame {
    type V = FrameView;

    open spec fn view(&self) -> FrameView {
        FrameView { width: self.width, height: self.height, pixels: self.pixels@ }
    }
}

impl Frame {
    /// The canonical invariant: the pixel buffer holds exactly
    /// `width * height * 4` bytes.
    pub open spec fn wf(&self) -> bool {
        self.pixels@.len() == self.width * self.height * 4
    }

    /// Builds a frame from raw parts, rejecting a buffer whose length does not
    /// match the geometry.
    pub fn new(width: u32, height: u32, pixels: Vec<u8>) -> (r: Option<Frame>)
        ensures
            (r is Some) <==> pixels@.len() == width * height * 4,
            r is Some ==> {
                let f = r->Some_0;
                &&& f.wf()
                &&& f.width == width
                &&& f.height == height
                &&& f.pixels@ == pixels@
            },
    {
        proof {
            assert((width as int) * (height as int) * 4 < u128::MAX) by (nonlinear_arith)
                requires
                    width <= u32::MAX,
                    height <= u32::MAX,
            ;
        }
        let expected: u128 = (width as u128) * (height as u128) * 4;
        if (pixels.len() as u128) == expected {
            Some(Frame { width, height, pixels })
        } else {
            None
        }
    }
}

} // verus!
