use vstd::prelude::*;

use crate::errors::SimulatorError;
use crate::frame::Frame;

verus! {

// Image decoding sits behind the `image` crate. Whether a byte string
// decodes, and to which pixels, is a function of the bytes alone; that
// function is named `image_decode` and everything downstream is verified
// against the name.

/// What the `image` crate decodes a byte string to: `None` when the bytes are
/// no image, else width, height and the packed RGBA pixels.
pub uninterp spec fn image_decode(bytes: Seq<u8>) -> Option<(u32, u32, Seq<u8>)>;

/// Relies on `image::load_from_memory` (decoding depends on the bytes alone)
/// and `DynamicImage::to_rgba8`, whose buffer holds exactly
/// `width * height * 4` bytes.
#[verifier::external_body]
fn decode_image_bytes(data: &[u8]) -> (r: Result<Frame, String>)
    ensures
        (r is Ok) <==> image_decode(data@) is Some,
        r matches Ok(f) ==> {
            let d = image_decode(data@)->Some_0;
            &&& f.width == d.0
            &&& f.height == d.1
            &&& f.pixels@ == d.2
            &&& f.wf()
        },
{
    match image::load_from_memory(data) {
        Ok(img) => {
            let rgba = img.to_rgba8();
            let width = rgba.width();
            let height = rgba.height();
            let pixels = rgba.into_raw();
            Ok(Frame { width, height, pixels })
        },
        Err(e) => Err(e.to_string()),
    }
}

/// Relies on `image::open` and `DynamicImage::to_rgba8`: the outcome depends
/// on what is on disk, so only the frame invariant is promised.
#[verifier::external_body]
fn load_image_file(path: &str) -> (r: Result<Frame, String>)
    ensures
        r matches Ok(f) ==> f.wf(),
{
    match image::open(path) {
        Ok(img) => {
            let rgba = img.to_rgba8();
            let width = rgba.width();
            let height = rgba.height();
            let pixels = rgba.into_raw();
            Ok(Frame { width, height, pixels })
        },
        Err(e) => Err(e.to_string()),
    }
}

/// Decodes single images of the stream and counts the frames produced.
pub struct FrameDecoder {
    frame_number: u64,
}

impl FrameDecoder {
    /// How many frames this decoder has produced.
    pub closed spec fn decoded_count(&self) -> u64 {
        self.frame_number
    }

    /// A fresh decoder that has produced no frame yet.
    pub fn new() -> (r: FrameDecoder)
        ensures
            r.decoded_count() == 0,
    {
        FrameDecoder { frame_number: 0 }
    }

    /// The number of frames produced so far.
    pub fn frames_decoded(&self) -> (n: u64)
        ensures
            n == self.decoded_count(),
    {
        self.frame_number
    }

    /// Decodes one image; success, and the pixels, are exactly what
    /// `image_decode` gives for these bytes. Only a success counts a frame.
    pub fn decode(&mut self, data: &[u8]) -> (r: Result<Frame, SimulatorError>)
        requires
            old(self).decoded_count() < u64::MAX,
        ensures
            (r is Ok) <==> image_decode(data@) is Some,
            r matches Ok(f) ==> {
                let d = image_decode(data@)->Some_0;
                &&& f.width == d.0
                &&& f.height == d.1
                &&& f.pixels@ == d.2
                &&& f.wf()
                &&& final(self).decoded_count() == old(self).decoded_count() + 1
            },
            r matches Err(e) ==> {
                &&& e is ImageError
                &&& final(self).decoded_count() == old(self).decoded_count()
            },
    {
        match decode_image_bytes(data) {
            Ok(f) => {
                self.frame_number = self.frame_number + 1;
                Ok(f)
            },
            Err(msg) => Err(SimulatorError::ImageError(msg)),
        }
    }

    /// Decodes an image file from disk; what comes back depends on the file
    /// system, so the contract promises the frame invariant and the count.
    pub fn decode_from_path(&mut self, path: &str) -> (r: Result<Frame, SimulatorError>)
        requires
            old(self).decoded_count() < u64::MAX,
        ensures
            r matches Ok(f) ==> {
                &&& f.wf()
                &&& final(self).decoded_count() == old(self).decoded_count() + 1
            },
            r matches Err(e) ==> {
                &&& e is ImageError
                &&& final(self).decoded_count() == old(self).decoded_count()
            },
    {
        match load_image_file(path) {
            Ok(f) => {
                self.frame_number = self.frame_number + 1;
                Ok(f)
            },
            Err(msg) => Err(SimulatorError::ImageError(msg)),
        }
    }
}

/// The byte strings behind a sequence of parts.
pub open spec fn views_of(parts: Seq<Vec<u8>>) -> Seq<Seq<u8>> {
    parts.map_values(|p: Vec<u8>| p@)
}

/// The frames that a sequence of parts decodes to, corrupt parts skipped.
pub open spec fn decoded_seq(parts: Seq<Seq<u8>>) -> Seq<(u32, u32, Seq<u8>)>
    decreases parts.len(),
{
    if parts.len() == 0 {
        Seq::empty()
    } else {
        let rest = decoded_seq(parts.drop_first());
        match image_decode(parts.first()) {
            Some(d) => seq![d] + rest,
            None => rest,
        }
    }
}

pub proof fn lemma_decoded_seq_append(a: Seq<Seq<u8>>, b: Seq<Seq<u8>>)
    ensures
        decoded_seq(a + b) == decoded_seq(a) + decoded_seq(b),
    decreases a.len(),
{
    if a.len() == 0 {
        assert(a + b =~= b);
        assert(decoded_seq(a) + decoded_seq(b) =~= decoded_seq(b));
    } else {
        assert((a + b).first() == a.first());
        assert((a + b).drop_first() =~= a.drop_first() + b);
        lemma_decoded_seq_append(a.drop_first(), b);
        match image_decode(a.first()) {
            Some(d) => {
                assert(seq![d] + (decoded_seq(a.drop_first()) + decoded_seq(b)) =~= (seq![d]
                    + decoded_seq(a.drop_first())) + decoded_seq(b));
            },
            None => {},
        }
    }
}

/// Decodes a run of multipart bodies into frames: a corrupt body is skipped
/// and every later decodable body still becomes a frame, in stream order.
pub fn decode_parts(parts: &Vec<Vec<u8>>) -> (frames: Vec<Frame>)
    ensures
        ({
            let ds = decoded_seq(views_of(parts@));
            &&& frames@.len() == ds.len()
            &&& forall|k: int|
                0 <= k < frames@.len() ==> {
                    let f = #[trigger] frames@[k];
                    &&& f.wf()
                    &&& f.width == ds[k].0
                    &&& f.height == ds[k].1
                    &&& f.pixels@ == ds[k].2
                }
        }),
{
    let mut frames: Vec<Frame> = Vec::new();
    let n = parts.len();
    let mut i: usize = 0;
    while i < n
        invariant
            i <= n,
            n == parts@.len(),
            ({
                let ds = decoded_seq(views_of(parts@.subrange(0, i as int)));
                &&& frames@.len() == ds.len()
                &&& forall|k: int|
                    0 <= k < frames@.len() ==> {
                        let f = #[trigger] frames@[k];
                        &&& f.wf()
                        &&& f.width == ds[k].0
                        &&& f.height == ds[k].1
                        &&& f.pixels@ == ds[k].2
                    }
            }),
        decreases n - i,
    {
        let part: &Vec<u8> = &parts[i];
        proof {
            let pre = views_of(parts@.subrange(0, i as int));
            let one = views_of(parts@.subrange(i as int, i as int + 1));
            assert(one =~= seq![parts@[i as int]@]);
            assert(views_of(parts@.subrange(0, i as int + 1)) =~= pre + one);
            lemma_decoded_seq_append(pre, one);
            assert(one.drop_first() =~= Seq::<Seq<u8>>::empty());
            assert(decoded_seq(Seq::<Seq<u8>>::empty()) == Seq::<(u32, u32, Seq<u8>)>::empty());
        }
        match decode_image_bytes(part.as_slice()) {
            Ok(f) => {
                frames.push(f);
            },
            Err(_) => {},
        }
        i = i + 1;
    }
    proof {
        assert(parts@.subrange(0, n as int) =~= parts@);
    }
    frames
}

/// Locates the external streaming server binary. The search is not wired up;
/// no candidate is ever reported.
pub fn find_simulator_server() -> (r: Option<String>)
    ensures
        r is None,
{
    None
}

} // verus!
