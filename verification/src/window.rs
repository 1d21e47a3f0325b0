use vstd::prelude::*;
use vstd::arithmetic::div_mod::lemma_fundamental_div_mod_converse;
use vstd::string::StringExecFns;

use crate::frame::Frame;
use crate::surface::RawSurfaceDescriptor;

verus! {

// The window-capture backend asks the OS for the window list and picks the
// simulator's main window. Reading the window list is platform work; choosing
// the target from it is pure and is verified here.

/// What the backend reads of one on-screen window: owner and title, layer,
/// and integer pixel bounds.
#[derive(Debug)]
pub struct WindowInfo {
    pub window_id: u64,
    pub owner: String,
    pub layer: i64,
    pub name: String,
    pub width: u64,
    pub height: u64,
}

pub open spec fn window_area(w: WindowInfo) -> int {
    w.width * w.height
}

/// A window the backend may capture: owned by the simulator application, on
/// the base layer, with a non-zero area; an untitled window of tiny area is
/// a decoration, not a target.
pub open spec fn is_capture_candidate(w: WindowInfo) -> bool {
    &&& w.owner@ == "Simulator"@
    &&& w.layer == 0
    &&& window_area(w) > 0
    &&& !(w.name@.len() == 0 && window_area(w) < 100)
}

/// Where channel `c` of an RGBA pixel sits in a BGRA pixel.
pub open spec fn bgra_channel(c: int) -> int {
    if c == 0 {
        2
    } else if c == 2 {
        0
    } else {
        c
    }
}

/// The same pixels with blue and red swapped in every four-byte group.
pub open spec fn swapped_channels(v: Seq<u8>) -> Seq<u8> {
    Seq::new(v.len(), |i: int| v[i - i % 4 + bgra_channel(i % 4)])
}

/// Swaps the blue and red channel of each packed pixel.
fn swap_channels(v: &Vec<u8>) -> (r: Vec<u8>)
    requires
        v@.len() % 4 == 0,
    ensures
        r@ == swapped_channels(v@),
{
    let n = v.len();
    let mut out: Vec<u8> = Vec::new();
    let mut i: usize = 0;
    while n - i >= 4
        invariant
            n == v@.len(),
            n % 4 == 0,
            i <= n,
            i % 4 == 0,
            out@.len() == i,
            forall|j: int|
                0 <= j < i ==> out@[j] == v@[j - j % 4 + bgra_channel(j % 4)],
        decreases n - i,
    {
        let b = v[i];
        let g = v[i + 1];
        let rr = v[i + 2];
        let a = v[i + 3];
        out.push(rr);
        out.push(g);
        out.push(b);
        out.push(a);
        proof {
            vstd::arithmetic::div_mod::lemma_fundamental_div_mod(i as int, 4);
            let q = i as int / 4;
            lemma_fundamental_div_mod_converse(i as int, 4, q, 0);
            lemma_fundamental_div_mod_converse(i + 1, 4, q, 1);
            lemma_fundamental_div_mod_converse(i + 2, 4, q, 2);
            lemma_fundamental_div_mod_converse(i + 3, 4, q, 3);
        }
        i = i + 4;
    }
    proof {
        assert(out@ =~= swapped_channels(v@));
    }
    out
}

/// Converts one captured window image — BGRA pixels with padded rows, as the
/// platform hands them out — into a frame: rows are de-strided in original
/// order and each pixel's blue and red channel are swapped. Rejected before
/// any copying: a zero-sided image, rows narrower than the pixels they must
/// hold, or a buffer shorter than `bytes_per_row * height`.
pub fn bgra_image_to_frame(data: &Vec<u8>, width: u32, height: u32, bytes_per_row: usize) -> (r:
    Option<Frame>)
    ensures
        ({
            let desc = RawSurfaceDescriptor {
                width: width as usize,
                height: height as usize,
                row_stride_bytes: bytes_per_row,
                frame_size_bytes: (bytes_per_row * height) as usize,
            };
            &&& (r is Some) <==> (width > 0 && height > 0 && width * 4 <= bytes_per_row
                && bytes_per_row * height <= data@.len())
            &&& r matches Some(f) ==> {
                &&& f.wf()
                &&& f.width == width
                &&& f.height == height
                &&& f.pixels@ == swapped_channels(
                    desc.destrided(data@.subrange(0, bytes_per_row * height)),
                )
            }
        }),
{
    if width == 0 || height == 0 {
        return None;
    }
    proof {
        assert((bytes_per_row as int) * (height as int) < u128::MAX) by (nonlinear_arith)
            requires
                bytes_per_row <= usize::MAX,
                height <= u32::MAX,
        ;
    }
    if (width as u128) * 4 > bytes_per_row as u128 {
        return None;
    }
    let expected: u128 = (bytes_per_row as u128) * (height as u128);
    if expected > data.len() as u128 {
        return None;
    }
    let frame_size: usize = bytes_per_row * (height as usize);
    let desc = RawSurfaceDescriptor {
        width: width as usize,
        height: height as usize,
        row_stride_bytes: bytes_per_row,
        frame_size_bytes: frame_size,
    };
    let bgra = desc.destride_at(data, 0);
    proof {
        assert(bgra.pixels@.len() % 4 == 0) by (nonlinear_arith)
            requires
                bgra.pixels@.len() == (width as int) * (height as int) * 4,
                width > 0,
                height > 0,
        ;
    }
    let pixels = swap_channels(&bgra.pixels);
    Some(Frame { width, height, pixels })
}

/// Picks the capture target: the first candidate of maximal area, or `None`
/// when no window qualifies this refresh cycle (which is not fatal — the
/// orchestrator keeps polling).
pub fn select_window_target(windows: &Vec<WindowInfo>) -> (r: Option<usize>)
    ensures
        match r {
            Some(i) => {
                &&& i < windows@.len()
                &&& is_capture_candidate(windows@[i as int])
                &&& forall|j: int|
                    0 <= j < windows@.len() && is_capture_candidate(#[trigger] windows@[j])
                        ==> window_area(windows@[j]) <= window_area(windows@[i as int])
                &&& forall|j: int|
                    0 <= j < i && is_capture_candidate(#[trigger] windows@[j]) ==> window_area(
                        windows@[j],
                    ) < window_area(windows@[i as int])
            },
            None => forall|j: int|
                0 <= j < windows@.len() ==> !is_capture_candidate(#[trigger] windows@[j]),
        },
{
    let simulator_owner = String::from_str("Simulator");
    let mut best: Option<usize> = None;
    let mut best_area: u128 = 0;
    let n = windows.len();
    let mut i: usize = 0;
    while i < n
        invariant
            i <= n,
            n == windows@.len(),
            simulator_owner@ == "Simulator"@,
            match best {
                Some(b) => {
                    &&& b < i
                    &&& is_capture_candidate(windows@[b as int])
                    &&& best_area == window_area(windows@[b as int])
                    &&& best_area > 0
                    &&& forall|j: int|
                        0 <= j < i && is_capture_candidate(#[trigger] windows@[j]) ==> window_area(
                            windows@[j],
                        ) <= best_area
                    &&& forall|j: int|
                        0 <= j < b && is_capture_candidate(#[trigger] windows@[j]) ==> window_area(
                            windows@[j],
                        ) < best_area
                },
                None => best_area == 0 && forall|j: int|
                    0 <= j < i ==> !is_capture_candidate(#[trigger] windows@[j]),
            },
        decreases n - i,
    {
        let w = &windows[i];
        proof {
            assert((w.width as int) * (w.height as int) <= u128::MAX) by (nonlinear_arith)
                requires
                    w.width <= u64::MAX,
                    w.height <= u64::MAX,
            ;
        }
        let area: u128 = (w.width as u128) * (w.height as u128);
        let owner_matches = w.owner.eq(&simulator_owner);
        let name_empty = w.name.as_str().is_empty();
        let candidate = owner_matches && w.layer == 0 && area > 0 && !(name_empty && area < 100);
        proof {
            assert(area == window_area(windows@[i as int]));
            assert(owner_matches == (windows@[i as int].owner@ == "Simulator"@));
            assert(name_empty == (windows@[i as int].name@.len() == 0));
            assert(candidate == is_capture_candidate(windows@[i as int]));
        }
        if candidate && area > best_area {
            best = Some(i);
            best_area = area;
        }
        i = i + 1;
    }
    best
}

} // verus!
