use vstd::prelude::*;
use vstd::slice::slice_subrange;
use vstd::string::StringSliceAdditionalSpecFns;

use crate::surface::RawSurfaceDescriptor;
use crate::text::bytes_eq;
use crate::text::find_subslice;
use crate::text::matches_at;
use crate::text::parse_usize;
use crate::text::parsed_usize;
use crate::text::trim_end_slice;
use crate::text::trim_end_spec;
use crate::text::trim_slice;
use crate::text::trim_spec;

verus! {

// The native-surface backend prints a one-time startup banner on stderr:
//
//     Mounting Surface with Attributes: { "width" = 1170; "height" = 2532;
//     "row_size" = 4680; "frame_size" = 11851760; }
//
// possibly folded over several lines. This module parses that banner into a
// `RawSurfaceDescriptor`, and recognises the external stream tool's
// `stream_ready <url>` readiness line.

/// First occurrence of `pat` in `v`, or `-1`.
pub open spec fn first_match_idx(v: Seq<u8>, pat: Seq<u8>) -> int
    decreases v.len(),
{
    if matches_at(v, pat, 0) {
        0
    } else if v.len() == 0 {
        -1
    } else {
        let r = first_match_idx(v.drop_first(), pat);
        if r < 0 {
            -1
        } else {
            r + 1
        }
    }
}

pub proof fn lemma_matches_at_shift(v: Seq<u8>, pat: Seq<u8>, j: int)
    requires
        v.len() > 0,
        0 <= j,
    ensures
        matches_at(v.drop_first(), pat, j) == matches_at(v, pat, j + 1),
{
    if j + pat.len() <= v.drop_first().len() {
        assert(v.drop_first().subrange(j, j + pat.len() as int) =~= v.subrange(
            j + 1,
            j + 1 + pat.len() as int,
        ));
    }
}

pub proof fn lemma_first_match_idx_is(v: Seq<u8>, pat: Seq<u8>, i: int)
    requires
        matches_at(v, pat, i),
        forall|j: int| 0 <= j < i ==> !matches_at(v, pat, j),
    ensures
        first_match_idx(v, pat) == i,
    decreases v.len(),
{
    if i == 0 {
    } else {
        assert(!matches_at(v, pat, 0));
        assert(v.len() > 0);
        lemma_matches_at_shift(v, pat, i - 1);
        assert forall|j: int| 0 <= j < i - 1 implies !matches_at(v.drop_first(), pat, j) by {
            lemma_matches_at_shift(v, pat, j);
        }
        lemma_first_match_idx_is(v.drop_first(), pat, i - 1);
    }
}

pub proof fn lemma_first_match_idx_none(v: Seq<u8>, pat: Seq<u8>)
    requires
        forall|j: int| !matches_at(v, pat, j),
    ensures
        first_match_idx(v, pat) == -1,
    decreases v.len(),
{
    if v.len() > 0 {
        assert forall|j: int| !matches_at(v.drop_first(), pat, j) by {
            if 0 <= j {
                lemma_matches_at_shift(v, pat, j);
            }
        }
        lemma_first_match_idx_none(v.drop_first(), pat);
    }
}

/// Pieces of `v` between occurrences of the byte `sep`.
pub open spec fn spec_split_byte(v: Seq<u8>, sep: u8) -> Seq<Seq<u8>>
    decreases v.len(),
{
    let i = first_match_idx(v, seq![sep]);
    if i < 0 || i >= v.len() {
        seq![v]
    } else {
        seq![v.subrange(0, i)] + spec_split_byte(v.subrange(i + 1, v.len() as int), sep)
    }
}

/// Leading bytes equal to `b` removed.
pub open spec fn drop_leading(s: Seq<u8>, b: u8) -> Seq<u8>
    decreases s.len(),
{
    if s.len() > 0 && s.first() == b {
        drop_leading(s.drop_first(), b)
    } else {
        s
    }
}

/// Trailing bytes equal to `b` removed.
pub open spec fn drop_trailing(s: Seq<u8>, b: u8) -> Seq<u8>
    decreases s.len(),
{
    if s.len() > 0 && s.last() == b {
        drop_trailing(s.drop_last(), b)
    } else {
        s
    }
}

pub proof fn lemma_drop_leading_is_suffix(s: Seq<u8>, b: u8, k: int)
    requires
        0 <= k <= s.len(),
        forall|i: int| 0 <= i < k ==> s[i] == b,
        k == s.len() || s[k] != b,
    ensures
        drop_leading(s, b) == s.subrange(k, s.len() as int),
    decreases s.len(),
{
    if k == 0 {
        assert(s.subrange(0, s.len() as int) =~= s);
    } else {
        lemma_drop_leading_is_suffix(s.drop_first(), b, k - 1);
        assert(s.drop_first().subrange(k - 1, s.drop_first().len() as int) =~= s.subrange(
            k,
            s.len() as int,
        ));
    }
}

pub proof fn lemma_drop_trailing_is_prefix(s: Seq<u8>, b: u8, k: int)
    requires
        0 <= k <= s.len(),
        forall|i: int| k <= i < s.len() ==> s[i] == b,
        k == 0 || s[k - 1] != b,
    ensures
        drop_trailing(s, b) == s.subrange(0, k),
    decreases s.len(),
{
    if s.len() == k {
        assert(s.subrange(0, k) =~= s);
    } else {
        lemma_drop_trailing_is_prefix(s.drop_last(), b, k);
        assert(s.drop_last().subrange(0, k) =~= s.subrange(0, k));
    }
}

/// The banner fields gathered while walking the `key = value` parts; a
/// non-empty part without `=` poisons the whole parse.
#[derive(Clone, Copy)]
pub struct BannerFields {
    pub width: Option<usize>,
    pub height: Option<usize>,
    pub row_size: Option<usize>,
    pub frame_size: Option<usize>,
    pub failed: bool,
}

pub open spec fn empty_fields() -> BannerFields {
    BannerFields { width: None, height: None, row_size: None, frame_size: None, failed: false }
}

/// One `key = value` part folded into the fields: the key is trimmed and
/// stripped of quotes, the value parsed as a decimal; an unknown key is
/// ignored, an empty part skipped, a part without `=` fatal.
pub open spec fn apply_part(acc: BannerFields, part: Seq<u8>) -> BannerFields {
    let p = trim_spec(part);
    if p.len() == 0 {
        acc
    } else {
        let e = first_match_idx(p, seq![61u8]);
        if e < 0 {
            BannerFields {
                width: acc.width,
                height: acc.height,
                row_size: acc.row_size,
                frame_size: acc.frame_size,
                failed: true,
            }
        } else {
            let key = drop_trailing(drop_leading(trim_spec(p.subrange(0, e)), 34), 34);
            let value = trim_spec(p.subrange(e + 1, p.len() as int));
            let parsed = parsed_usize(value);
            if key == "width".spec_bytes() {
                BannerFields {
                    width: parsed,
                    height: acc.height,
                    row_size: acc.row_size,
                    frame_size: acc.frame_size,
                    failed: acc.failed,
                }
            } else if key == "height".spec_bytes() {
                BannerFields {
                    width: acc.width,
                    height: parsed,
                    row_size: acc.row_size,
                    frame_size: acc.frame_size,
                    failed: acc.failed,
                }
            } else if key == "row_size".spec_bytes() {
                BannerFields {
                    width: acc.width,
                    height: acc.height,
                    row_size: parsed,
                    frame_size: acc.frame_size,
                    failed: acc.failed,
                }
            } else if key == "frame_size".spec_bytes() {
                BannerFields {
                    width: acc.width,
                    height: acc.height,
                    row_size: acc.row_size,
                    frame_size: parsed,
                    failed: acc.failed,
                }
            } else {
                acc
            }
        }
    }
}

pub open spec fn fold_parts(acc: BannerFields, parts: Seq<Seq<u8>>) -> BannerFields
    decreases parts.len(),
{
    if parts.len() == 0 {
        acc
    } else {
        fold_parts(apply_part(acc, parts.first()), parts.drop_first())
    }
}

/// Completes the parse: `width` and `height` are mandatory; `row_size`
/// defaults to `width * 4` (an overflow is a failed parse); `frame_size`
/// defaults to `row_size * height`, saturating at the machine limit.
pub open spec fn finish_fields(acc: BannerFields) -> Option<RawSurfaceDescriptor> {
    if acc.failed {
        None
    } else if acc.width is Some && acc.height is Some {
        let w = acc.width->Some_0;
        let h = acc.height->Some_0;
        if acc.row_size is None && w * 4 > usize::MAX {
            None
        } else {
            let rs: usize = if acc.row_size is Some {
                acc.row_size->Some_0
            } else {
                (w * 4) as usize
            };
            let fsz: usize = if acc.frame_size is Some {
                acc.frame_size->Some_0
            } else if rs * h > usize::MAX {
                usize::MAX
            } else {
                (rs * h) as usize
            };
            Some(
                RawSurfaceDescriptor {
                    width: w,
                    height: h,
                    row_stride_bytes: rs,
                    frame_size_bytes: fsz,
                },
            )
        }
    } else {
        None
    }
}

/// The marker that opens the banner.
pub open spec fn attrs_marker() -> Seq<u8> {
    "Mounting Surface with Attributes:".spec_bytes()
}

/// What the text after the marker parses to: trimmed, braces stripped,
/// split on `;`, folded as `key = value` parts.
pub open spec fn spec_parse_attrs_tail(tail: Seq<u8>) -> Option<RawSurfaceDescriptor> {
    let stripped = drop_trailing(drop_leading(trim_spec(tail), 123), 125);
    finish_fields(fold_parts(empty_fields(), spec_split_byte(stripped, 59)))
}

/// The whole banner line parse: everything after the first marker occurrence
/// is the attribute text; a line without the marker carries no banner.
pub open spec fn spec_parse_banner(line: Seq<u8>) -> Option<RawSurfaceDescriptor> {
    let i = first_match_idx(line, attrs_marker());
    if i < 0 {
        None
    } else {
        spec_parse_attrs_tail(line.subrange(i + attrs_marker().len(), line.len() as int))
    }
}

/// Strips leading `{` and trailing `}` bytes.
fn strip_braces<'a>(v: &'a [u8]) -> (r: &'a [u8])
    ensures
        r@ == drop_trailing(drop_leading(v@, 123), 125),
{
    let mut start: usize = 0;
    while start < v.len() && *vstd::slice::slice_index_get(v, start) == 123
        invariant
            start <= v@.len(),
            forall|i: int| 0 <= i < start ==> v@[i] == 123,
        decreases v@.len() - start,
    {
        start = start + 1;
    }
    proof {
        lemma_drop_leading_is_suffix(v@, 123, start as int);
    }
    let mut end: usize = v.len();
    while end > start && *vstd::slice::slice_index_get(v, end - 1) == 125
        invariant
            start <= end <= v@.len(),
            forall|i: int| 0 <= i < start ==> v@[i] == 123,
            forall|i: int| end <= i < v@.len() ==> v@[i] == 125,
        decreases end,
    {
        end = end - 1;
    }
    proof {
        let lead = v@.subrange(start as int, v@.len() as int);
        assert forall|i: int| (end - start) <= i < lead.len() implies lead[i] == 125 by {
            assert(lead[i] == v@[i + start]);
        }
        if end > start {
            assert(lead[end - start - 1] == v@[end - 1]);
        }
        lemma_drop_trailing_is_prefix(lead, 125, end - start);
        assert(lead.subrange(0, end - start) =~= v@.subrange(start as int, end as int));
    }
    slice_subrange(v, start, end)
}

/// Folds the `;`-separated parts of `rest` into the fields.
fn fold_attr_parts(rest: &[u8], acc: BannerFields) -> (r: BannerFields)
    ensures
        r == fold_parts(acc, spec_split_byte(rest@, 59)),
    decreases rest@.len(),
{
    let mut semi: Vec<u8> = Vec::new();
    semi.push(59u8);
    proof {
        assert(semi@ =~= seq![59u8]);
    }
    let n = rest.len();
    match find_subslice(rest, semi.as_slice()) {
        Some(i) => {
            proof {
                lemma_first_match_idx_is(rest@, seq![59u8], i as int);
            }
            let part = slice_subrange(rest, 0, i);
            let acc2 = apply_part_exec(part, acc);
            let tail = slice_subrange(rest, i + 1, n);
            proof {
                let parts = spec_split_byte(rest@, 59);
                assert(parts == seq![rest@.subrange(0, i as int)] + spec_split_byte(tail@, 59));
                assert(parts.first() == rest@.subrange(0, i as int));
                assert(parts.drop_first() =~= spec_split_byte(tail@, 59));
                assert(fold_parts(acc, parts) == fold_parts(acc2, spec_split_byte(tail@, 59)));
            }
            fold_attr_parts(tail, acc2)
        },
        None => {
            proof {
                lemma_first_match_idx_none(rest@, seq![59u8]);
                let parts = spec_split_byte(rest@, 59);
                assert(parts == seq![rest@]);
                assert(parts.first() == rest@);
                assert(parts.drop_first() =~= Seq::<Seq<u8>>::empty());
                assert(fold_parts(apply_part(acc, rest@), Seq::<Seq<u8>>::empty()) == apply_part(
                    acc,
                    rest@,
                ));
            }
            apply_part_exec(rest, acc)
        },
    }
}

/// Applies one `key = value` part.
fn apply_part_exec(part: &[u8], acc: BannerFields) -> (r: BannerFields)
    ensures
        r == apply_part(acc, part@),
{
    let p = trim_slice(part);
    if p.len() == 0 {
        return acc;
    }
    let mut eq_pat: Vec<u8> = Vec::new();
    eq_pat.push(61u8);
    proof {
        assert(eq_pat@ =~= seq![61u8]);
    }
    match find_subslice(p, eq_pat.as_slice()) {
        None => {
            proof {
                lemma_first_match_idx_none(p@, seq![61u8]);
            }
            BannerFields {
                width: acc.width,
                height: acc.height,
                row_size: acc.row_size,
                frame_size: acc.frame_size,
                failed: true,
            }
        },
        Some(e) => {
            proof {
                lemma_first_match_idx_is(p@, seq![61u8], e as int);
            }
            let raw_key = trim_slice(slice_subrange(p, 0, e));
            let key = strip_quotes(raw_key);
            let value = trim_slice(slice_subrange(p, e + 1, p.len()));
            let parsed = parse_usize(value);
            if bytes_eq(key, "width".as_bytes()) {
                BannerFields {
                    width: parsed,
                    height: acc.height,
                    row_size: acc.row_size,
                    frame_size: acc.frame_size,
                    failed: acc.failed,
                }
            } else if bytes_eq(key, "height".as_bytes()) {
                BannerFields {
                    width: acc.width,
                    height: parsed,
                    row_size: acc.row_size,
                    frame_size: acc.frame_size,
                    failed: acc.failed,
                }
            } else if bytes_eq(key, "row_size".as_bytes()) {
                BannerFields {
                    width: acc.width,
                    height: acc.height,
                    row_size: parsed,
                    frame_size: acc.frame_size,
                    failed: acc.failed,
                }
            } else if bytes_eq(key, "frame_size".as_bytes()) {
                BannerFields {
                    width: acc.width,
                    height: acc.height,
                    row_size: acc.row_size,
                    frame_size: parsed,
                    failed: acc.failed,
                }
            } else {
                acc
            }
        },
    }
}

/// Strips leading and trailing `"` bytes, as `str::trim_matches('"')` does.
fn strip_quotes<'a>(v: &'a [u8]) -> (r: &'a [u8])
    ensures
        r@ == drop_trailing(drop_leading(v@, 34), 34),
{
    let mut start: usize = 0;
    while start < v.len() && *vstd::slice::slice_index_get(v, start) == 34
        invariant
            start <= v@.len(),
            forall|i: int| 0 <= i < start ==> v@[i] == 34,
        decreases v@.len() - start,
    {
        start = start + 1;
    }
    proof {
        lemma_drop_leading_is_suffix(v@, 34, start as int);
    }
    let mut end: usize = v.len();
    while end > start && *vstd::slice::slice_index_get(v, end - 1) == 34
        invariant
            start <= end <= v@.len(),
            forall|i: int| 0 <= i < start ==> v@[i] == 34,
            forall|i: int| end <= i < v@.len() ==> v@[i] == 34,
        decreases end,
    {
        end = end - 1;
    }
    proof {
        let lead = v@.subrange(start as int, v@.len() as int);
        assert forall|i: int| (end - start) <= i < lead.len() implies lead[i] == 34 by {
            assert(lead[i] == v@[i + start]);
        }
        if end > start {
            assert(lead[end - start - 1] == v@[end - 1]);
        }
        lemma_drop_trailing_is_prefix(lead, 34, end - start);
        assert(lead.subrange(0, end - start) =~= v@.subrange(start as int, end as int));
    }
    slice_subrange(v, start, end)
}

/// Parses a startup banner line into the surface geometry, exactly as
/// `spec_parse_banner` describes. The geometry still has to pass
/// `RawSurfaceDescriptor::validate`; a violation is fatal for the backend.
pub fn parse_surface_banner(line: &[u8]) -> (r: Option<RawSurfaceDescriptor>)
    ensures
        r == spec_parse_banner(line@),
{
    let marker = "Mounting Surface with Attributes:";
    let marker_bytes = marker.as_bytes();
    let n = line.len();
    match find_subslice(line, marker_bytes) {
        None => {
            proof {
                lemma_first_match_idx_none(line@, attrs_marker());
            }
            None
        },
        Some(i) => {
            proof {
                lemma_first_match_idx_is(line@, attrs_marker(), i as int);
            }
            let tail = slice_subrange(line, i + marker_bytes.len(), n);
            let trimmed = trim_slice(tail);
            let stripped = strip_braces(trimmed);
            let fields = fold_attr_parts(stripped, empty_fields_exec());
            finish_fields_exec(fields)
        },
    }
}

fn empty_fields_exec() -> (r: BannerFields)
    ensures
        r == empty_fields(),
{
    BannerFields { width: None, height: None, row_size: None, frame_size: None, failed: false }
}

fn finish_fields_exec(acc: BannerFields) -> (r: Option<RawSurfaceDescriptor>)
    ensures
        r == finish_fields(acc),
{
    if acc.failed {
        return None;
    }
    let w = match acc.width {
        Some(w) => w,
        None => {
            return None;
        },
    };
    let h = match acc.height {
        Some(h) => h,
        None => {
            return None;
        },
    };
    let rs: usize = match acc.row_size {
        Some(r) => r,
        None => {
            match w.checked_mul(4) {
                Some(x) => x,
                None => {
                    return None;
                },
            }
        },
    };
    let fsz: usize = match acc.frame_size {
        Some(f) => f,
        None => {
            match rs.checked_mul(h) {
                Some(x) => x,
                None => usize::MAX,
            }
        },
    };
    Some(RawSurfaceDescriptor { width: w, height: h, row_stride_bytes: rs, frame_size_bytes: fsz })
}

/// What one stderr line does to the banner accumulator: a line carrying the
/// marker opens a block; while a block is open, non-blank trimmed lines are
/// joined with single spaces; the line that closes the braces ends the block
/// and the whole block is parsed.
pub open spec fn scanner_step(st: Option<Seq<u8>>, line: Seq<u8>) -> (
    Option<Seq<u8>>,
    Option<RawSurfaceDescriptor>,
) {
    let t = trim_end_spec(line);
    match st {
        Some(block) => {
            let block2 = if t.len() > 0 {
                block + seq![32u8] + t
            } else {
                block
            };
            if first_match_idx(t, seq![125u8]) >= 0 {
                (None, spec_parse_banner(block2))
            } else {
                (Some(block2), None)
            }
        },
        None => {
            if first_match_idx(t, attrs_marker()) >= 0 {
                if first_match_idx(t, seq![125u8]) >= 0 {
                    (None, spec_parse_banner(t))
                } else {
                    (Some(t), None)
                }
            } else {
                (None, None)
            }
        },
    }
}

/// Accumulates the startup banner from the backend's stderr, line by line,
/// tolerating a banner folded over several lines.
pub struct BannerScanner {
    block: Option<Vec<u8>>,
}

impl View for BannerScanner {
    type V = Option<Seq<u8>>;

    closed spec fn view(&self) -> Option<Seq<u8>> {
        match self.block {
            Some(b) => Some(b@),
            None => None,
        }
    }
}

impl BannerScanner {
    /// A scanner that has seen no banner yet.
    pub fn new() -> (r: BannerScanner)
        ensures
            r@ is None,
    {
        BannerScanner { block: None }
    }

    /// Feeds one stderr line; returns the parsed geometry the moment the
    /// banner closes, exactly as `scanner_step` describes.
    pub fn on_line(&mut self, line: &[u8]) -> (r: Option<RawSurfaceDescriptor>)
        ensures
            final(self)@ == scanner_step(old(self)@, line@).0,
            r == scanner_step(old(self)@, line@).1,
    {
        let t = trim_end_slice(line);
        let mut brace: Vec<u8> = Vec::new();
        brace.push(125u8);
        proof {
            assert(brace@ =~= seq![125u8]);
        }
        let closes = match find_subslice(t, brace.as_slice()) {
            Some(i) => {
                proof {
                    lemma_first_match_idx_is(t@, seq![125u8], i as int);
                }
                true
            },
            None => {
                proof {
                    lemma_first_match_idx_none(t@, seq![125u8]);
                }
                false
            },
        };
        let has_block = match &self.block {
            Some(_) => true,
            None => false,
        };
        if has_block {
            if t.len() > 0 {
                let block = match &mut self.block {
                    Some(b) => b,
                    None => {
                        proof {
                            assert(false);
                        }
                        return None;
                    },
                };
                block.push(32u8);
                let n = t.len();
                let mut i: usize = 0;
                let ghost joined = old(self)@->Some_0 + seq![32u8] + t@;
                while i < n
                    invariant
                        i <= n,
                        n == t@.len(),
                        block@ == old(self)@->Some_0 + seq![32u8] + t@.subrange(0, i as int),
                    decreases n - i,
                {
                    block.push(*vstd::slice::slice_index_get(t, i));
                    proof {
                        assert(block@ =~= old(self)@->Some_0 + seq![32u8] + t@.subrange(
                            0,
                            i as int + 1,
                        ));
                    }
                    i = i + 1;
                }
                proof {
                    assert(block@ =~= joined);
                }
            }
            if closes {
                let block = match self.block.take() {
                    Some(b) => b,
                    None => {
                        proof {
                            assert(false);
                        }
                        return None;
                    },
                };
                return parse_surface_banner(block.as_slice());
            }
            return None;
        }
        let marker = "Mounting Surface with Attributes:";
        let opens = match find_subslice(t, marker.as_bytes()) {
            Some(i) => {
                proof {
                    lemma_first_match_idx_is(t@, attrs_marker(), i as int);
                }
                true
            },
            None => {
                proof {
                    lemma_first_match_idx_none(t@, attrs_marker());
                }
                false
            },
        };
        if opens {
            if closes {
                return parse_surface_banner(t);
            }
            self.block = Some(crate::text::subrange_vec(t, 0, t.len()));
            proof {
                assert(t@.subrange(0, t@.len() as int) =~= t@);
            }
            return None;
        }
        None
    }
}

/// Recognises the readiness line of the external stream tool and returns the
/// announced URL: the line, trimmed, must begin with `stream_ready `.
pub fn parse_stream_ready(line: &[u8]) -> (r: Option<Vec<u8>>)
    ensures
        ({
            let t = trim_spec(line@);
            let p = "stream_ready ".spec_bytes();
            if t.len() >= p.len() && t.subrange(0, p.len() as int) == p {
                r matches Some(url) && url@ == t.subrange(p.len() as int, t.len() as int)
            } else {
                r is None
            }
        }),
{
    let t = trim_slice(line);
    let prefix = "stream_ready ";
    let prefix_bytes = prefix.as_bytes();
    if crate::text::starts_with_bytes(t, prefix_bytes) {
        Some(crate::text::subrange_vec(t, prefix_bytes.len(), t.len()))
    } else {
        None
    }
}

} // verus!
