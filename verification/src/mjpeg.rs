use vstd::prelude::*;
use vstd::slice::slice_index_get;
use vstd::string::StringSliceAdditionalSpecFns;

use crate::text::dec_digits;
use crate::text::lower_bytes;
use crate::text::parsed_usize;
use crate::text::push_decimal;
use crate::text::push_str_bytes;
use crate::text::to_lower_bytes;
use crate::text::trim_end_slice;
use crate::text::trim_end_spec;
use crate::text::trim_slice;
use crate::text::trim_spec;

verus! {

// The multipart-replace wire format: a stream of parts, each introduced by a
// boundary line, described by header lines, and carried as exactly
// `Content-Length` body bytes followed by a CRLF trailer. The reader below is
// a byte-at-a-time state machine, so the answer cannot depend on where the
// underlying transport happened to cut its chunks; that independence is
// proved in `lemma_feed_append`.

#[derive(Clone, Copy, PartialEq, Eq, Structural, Debug)]
pub enum ReaderMode {
    /// Accumulating header or boundary lines.
    ReadingHeaders,
    /// Reading exactly `body_target` body bytes.
    ReadingBody,
    /// Discarding the two-byte CRLF trailer after a body.
    ConsumingTrailer,
}

/// The mathematical state of the reader.
pub ghost struct ReaderModel {
    pub mode: ReaderMode,
    pub line: Seq<u8>,
    pub content_length: Option<usize>,
    pub body: Seq<u8>,
    pub body_target: usize,
    pub trailer_remaining: usize,
}

pub open spec fn init_model() -> ReaderModel {
    ReaderModel {
        mode: ReaderMode::ReadingHeaders,
        line: Seq::empty(),
        content_length: None,
        body: Seq::empty(),
        body_target: 0,
        trailer_remaining: 0,
    }
}

/// A completed header or boundary line, already stripped of trailing
/// whitespace, steps the machine: a boundary line (`--` prefix) forgets any
/// recorded length; a blank line with a recorded length opens the body; a
/// `content-length:` header (case-insensitive) records the length.
pub open spec fn process_line(m: ReaderModel) -> (ReaderModel, Option<Seq<u8>>) {
    let t = trim_end_spec(m.line);
    let boundary = "--".spec_bytes();
    if t.len() >= boundary.len() && t.subrange(0, boundary.len() as int) == boundary {
        (
            ReaderModel {
                mode: ReaderMode::ReadingHeaders,
                line: Seq::empty(),
                content_length: None,
                body: m.body,
                body_target: m.body_target,
                trailer_remaining: m.trailer_remaining,
            },
            None,
        )
    } else if t.len() == 0 {
        match m.content_length {
            Some(n) => {
                if n > 0 {
                    (
                        ReaderModel {
                            mode: ReaderMode::ReadingBody,
                            line: Seq::empty(),
                            content_length: None,
                            body: Seq::empty(),
                            body_target: n,
                            trailer_remaining: m.trailer_remaining,
                        },
                        None,
                    )
                } else {
                    (
                        ReaderModel {
                            mode: ReaderMode::ConsumingTrailer,
                            line: Seq::empty(),
                            content_length: None,
                            body: Seq::empty(),
                            body_target: 0,
                            trailer_remaining: 2,
                        },
                        Some(Seq::empty()),
                    )
                }
            },
            None => {
                (
                    ReaderModel {
                        mode: ReaderMode::ReadingHeaders,
                        line: Seq::empty(),
                        content_length: None,
                        body: m.body,
                        body_target: m.body_target,
                        trailer_remaining: m.trailer_remaining,
                    },
                    None,
                )
            },
        }
    } else {
        let lower = lower_bytes(t);
        let header = "content-length:".spec_bytes();
        let cl = if lower.len() >= header.len() && lower.subrange(0, header.len() as int)
            == header {
            match parsed_usize(trim_spec(lower.subrange(header.len() as int, lower.len() as int))) {
                Some(n) => Some(n),
                None => m.content_length,
            }
        } else {
            m.content_length
        };
        (
            ReaderModel {
                mode: ReaderMode::ReadingHeaders,
                line: Seq::empty(),
                content_length: cl,
                body: m.body,
                body_target: m.body_target,
                trailer_remaining: m.trailer_remaining,
            },
            None,
        )
    }
}

/// One byte steps the machine and possibly completes one part.
pub open spec fn step(m: ReaderModel, b: u8) -> (ReaderModel, Option<Seq<u8>>) {
    match m.mode {
        ReaderMode::ReadingHeaders => {
            if b == 10 {
                process_line(m)
            } else {
                (
                    ReaderModel {
                        mode: ReaderMode::ReadingHeaders,
                        line: m.line.push(b),
                        content_length: m.content_length,
                        body: m.body,
                        body_target: m.body_target,
                        trailer_remaining: m.trailer_remaining,
                    },
                    None,
                )
            }
        },
        ReaderMode::ReadingBody => {
            let body2 = m.body.push(b);
            if body2.len() >= m.body_target {
                (
                    ReaderModel {
                        mode: ReaderMode::ConsumingTrailer,
                        line: Seq::empty(),
                        content_length: None,
                        body: Seq::empty(),
                        body_target: 0,
                        trailer_remaining: 2,
                    },
                    Some(body2),
                )
            } else {
                (
                    ReaderModel {
                        mode: ReaderMode::ReadingBody,
                        line: m.line,
                        content_length: m.content_length,
                        body: body2,
                        body_target: m.body_target,
                        trailer_remaining: m.trailer_remaining,
                    },
                    None,
                )
            }
        },
        ReaderMode::ConsumingTrailer => {
            if m.trailer_remaining <= 1 {
                (
                    ReaderModel {
                        mode: ReaderMode::ReadingHeaders,
                        line: Seq::empty(),
                        content_length: None,
                        body: Seq::empty(),
                        body_target: 0,
                        trailer_remaining: 0,
                    },
                    None,
                )
            } else {
                (
                    ReaderModel {
                        mode: ReaderMode::ConsumingTrailer,
                        line: m.line,
                        content_length: m.content_length,
                        body: m.body,
                        body_target: m.body_target,
                        trailer_remaining: (m.trailer_remaining - 1) as usize,
                    },
                    None,
                )
            }
        },
    }
}

pub open spec fn opt_part(o: Option<Seq<u8>>) -> Seq<Seq<u8>> {
    match o {
        Some(p) => seq![p],
        None => Seq::empty(),
    }
}

/// Folding a whole byte string through the machine: the final state and the
/// parts completed along the way, in stream order.
pub open spec fn feed(m: ReaderModel, bytes: Seq<u8>) -> (ReaderModel, Seq<Seq<u8>>)
    decreases bytes.len(),
{
    if bytes.len() == 0 {
        (m, Seq::empty())
    } else {
        let (m1, out) = step(m, bytes.first());
        let (m2, parts) = feed(m1, bytes.drop_first());
        (m2, opt_part(out) + parts)
    }
}

/// Chunk boundaries cannot matter: feeding `a + b` in one piece reaches the
/// same state and yields the same parts as feeding `a`, then `b`. Applied
/// inductively, any chunking of a byte stream decodes identically.
pub proof fn lemma_feed_append(m: ReaderModel, a: Seq<u8>, b: Seq<u8>)
    ensures
        feed(m, a + b).0 == feed(feed(m, a).0, b).0,
        feed(m, a + b).1 == feed(m, a).1 + feed(feed(m, a).0, b).1,
    decreases a.len(),
{
    if a.len() == 0 {
        assert(a + b =~= b);
        assert(feed(m, a).1 + feed(feed(m, a).0, b).1 =~= feed(m, b).1);
    } else {
        let (m1, out) = step(m, a.first());
        assert((a + b).first() == a.first());
        assert((a + b).drop_first() =~= a.drop_first() + b);
        lemma_feed_append(m1, a.drop_first(), b);
        assert(opt_part(out) + (feed(m1, a.drop_first()).1 + feed(
            feed(m1, a.drop_first()).0,
            b,
        ).1) =~= (opt_part(out) + feed(m1, a.drop_first()).1) + feed(
            feed(m1, a.drop_first()).0,
            b,
        ).1);
    }
}

pub proof fn lemma_feed_snoc(m: ReaderModel, s: Seq<u8>, b: u8)
    ensures
        feed(m, s.push(b)).0 == step(feed(m, s).0, b).0,
        feed(m, s.push(b)).1 == feed(m, s).1 + opt_part(step(feed(m, s).0, b).1),
{
    assert(s.push(b) =~= s + seq![b]);
    lemma_feed_append(m, s, seq![b]);
    let m1 = feed(m, s).0;
    let one = seq![b];
    assert(one.first() == b);
    assert(one.drop_first() =~= Seq::<u8>::empty());
    let m2 = step(m1, b).0;
    assert(feed(m2, Seq::<u8>::empty()).0 == m2);
    assert(feed(m2, Seq::<u8>::empty()).1 == Seq::<Seq<u8>>::empty());
    assert(feed(m1, one).0 == step(m1, b).0);
    assert(feed(m1, one).1 =~= opt_part(step(m1, b).1));
}

/// Incremental reader for the multipart stream.
pub struct MjpegReader {
    mode: ReaderMode,
    line: Vec<u8>,
    content_length: Option<usize>,
    body: Vec<u8>,
    body_target: usize,
    trailer_remaining: usize,
}

impl View for MjpegReader {
    type V = ReaderModel;

    closed spec fn view(&self) -> ReaderModel {
        ReaderModel {
            mode: self.mode,
            line: self.line@,
            content_length: self.content_length,
            body: self.body@,
            body_target: self.body_target,
            trailer_remaining: self.trailer_remaining,
        }
    }
}

impl MjpegReader {
    /// A fresh reader, waiting for the first boundary or header line.
    pub fn new() -> (r: MjpegReader)
        ensures
            r@ == init_model(),
    {
        let r = MjpegReader {
            mode: ReaderMode::ReadingHeaders,
            line: Vec::new(),
            content_length: None,
            body: Vec::new(),
            body_target: 0,
            trailer_remaining: 0,
        };
        proof {
            assert(r@.line =~= init_model().line);
            assert(r@.body =~= init_model().body);
        }
        r
    }

    /// A completed line steps the machine.
    fn process_line_exec(&mut self) -> (out: Option<Vec<u8>>)
        ensures
            final(self)@ == process_line(old(self)@).0,
            ({
                let o = process_line(old(self)@).1;
                match out {
                    Some(p) => o matches Some(sp) && p@ == sp,
                    None => o is None,
                }
            }),
    {
        let is_boundary: bool;
        let is_blank: bool;
        let header_value: Option<usize>;
        {
            let t = trim_end_slice(self.line.as_slice());
            let boundary = "--";
            is_boundary = crate::text::starts_with_bytes(t, boundary.as_bytes());
            is_blank = t.len() == 0;
            if !is_boundary && !is_blank {
                let lower = to_lower_bytes(t);
                let header = "content-length:";
                let header_bytes = header.as_bytes();
                if crate::text::starts_with_bytes(lower.as_slice(), header_bytes) {
                    let rest = trim_slice(
                        vstd::slice::slice_subrange(
                            lower.as_slice(),
                            header_bytes.len(),
                            lower.len(),
                        ),
                    );
                    proof {
                        assert(lower@.subrange(
                            "content-length:".spec_bytes().len() as int,
                            lower@.len() as int,
                        ) =~= lower_bytes(trim_end_spec(old(self)@.line)).subrange(
                            "content-length:".spec_bytes().len() as int,
                            lower_bytes(trim_end_spec(old(self)@.line)).len() as int,
                        ));
                    }
                    header_value = crate::text::parse_usize(rest);
                } else {
                    header_value = None;
                }
            } else {
                header_value = None;
            }
        }
        if is_boundary {
            self.line = Vec::new();
            self.content_length = None;
            self.mode = ReaderMode::ReadingHeaders;
            proof {
                assert(self@.line =~= process_line(old(self)@).0.line);
            }
            return None;
        }
        if is_blank {
            match self.content_length {
                Some(n) => {
                    self.line = Vec::new();
                    self.content_length = None;
                    if n > 0 {
                        self.mode = ReaderMode::ReadingBody;
                        self.body = Vec::new();
                        self.body_target = n;
                        proof {
                            assert(self@.line =~= process_line(old(self)@).0.line);
                            assert(self@.body =~= process_line(old(self)@).0.body);
                        }
                        return None;
                    } else {
                        self.mode = ReaderMode::ConsumingTrailer;
                        self.body = Vec::new();
                        self.body_target = 0;
                        self.trailer_remaining = 2;
                        let empty_part: Vec<u8> = Vec::new();
                        proof {
                            assert(self@.line =~= process_line(old(self)@).0.line);
                            assert(self@.body =~= process_line(old(self)@).0.body);
                            assert(empty_part@ =~= Seq::<u8>::empty());
                        }
                        return Some(empty_part);
                    }
                },
                None => {
                    self.line = Vec::new();
                    self.mode = ReaderMode::ReadingHeaders;
                    proof {
                        assert(self@.line =~= process_line(old(self)@).0.line);
                    }
                    return None;
                },
            }
        }
        match header_value {
            Some(n) => {
                self.content_length = Some(n);
            },
            None => {},
        }
        self.line = Vec::new();
        self.mode = ReaderMode::ReadingHeaders;
        proof {
            assert(self@.line =~= process_line(old(self)@).0.line);
        }
        None
    }

    /// Feeds one byte, exactly as `step` describes.
    pub fn push_byte(&mut self, b: u8) -> (out: Option<Vec<u8>>)
        ensures
            final(self)@ == step(old(self)@, b).0,
            ({
                let o = step(old(self)@, b).1;
                match out {
                    Some(p) => o matches Some(sp) && p@ == sp,
                    None => o is None,
                }
            }),
    {
        match self.mode {
            ReaderMode::ReadingHeaders => {
                if b == 10 {
                    self.process_line_exec()
                } else {
                    self.line.push(b);
                    None
                }
            },
            ReaderMode::ReadingBody => {
                self.body.push(b);
                if self.body.len() >= self.body_target {
                    let mut done: Vec<u8> = Vec::new();
                    core::mem::swap(&mut done, &mut self.body);
                    self.mode = ReaderMode::ConsumingTrailer;
                    self.line = Vec::new();
                    self.content_length = None;
                    self.body_target = 0;
                    self.trailer_remaining = 2;
                    proof {
                        assert(self@.line =~= step(old(self)@, b).0.line);
                        assert(self@.body =~= step(old(self)@, b).0.body);
                    }
                    Some(done)
                } else {
                    None
                }
            },
            ReaderMode::ConsumingTrailer => {
                if self.trailer_remaining <= 1 {
                    self.mode = ReaderMode::ReadingHeaders;
                    self.line = Vec::new();
                    self.content_length = None;
                    self.body = Vec::new();
                    self.body_target = 0;
                    self.trailer_remaining = 0;
                    proof {
                        assert(self@.line =~= step(old(self)@, b).0.line);
                        assert(self@.body =~= step(old(self)@, b).0.body);
                    }
                    None
                } else {
                    self.trailer_remaining = self.trailer_remaining - 1;
                    None
                }
            },
        }
    }

    /// Feeds one chunk of the byte stream, wherever its boundaries fell, and
    /// returns the parts it completed, in stream order.
    pub fn push_chunk(&mut self, chunk: &[u8]) -> (parts: Vec<Vec<u8>>)
        ensures
            final(self)@ == feed(old(self)@, chunk@).0,
            parts@.len() == feed(old(self)@, chunk@).1.len(),
            forall|k: int|
                0 <= k < parts@.len() ==> parts@[k]@ == feed(old(self)@, chunk@).1[k],
    {
        let mut parts: Vec<Vec<u8>> = Vec::new();
        let n = chunk.len();
        let mut i: usize = 0;
        while i < n
            invariant
                i <= n,
                n == chunk@.len(),
                self@ == feed(old(self)@, chunk@.subrange(0, i as int)).0,
                parts@.len() == feed(old(self)@, chunk@.subrange(0, i as int)).1.len(),
                forall|k: int|
                    0 <= k < parts@.len() ==> parts@[k]@ == feed(
                        old(self)@,
                        chunk@.subrange(0, i as int),
                    ).1[k],
            decreases n - i,
        {
            let b = *slice_index_get(chunk, i);
            proof {
                lemma_feed_snoc(old(self)@, chunk@.subrange(0, i as int), b);
                assert(chunk@.subrange(0, i as int).push(b) =~= chunk@.subrange(0, i as int + 1));
            }
            match self.push_byte(b) {
                Some(p) => {
                    parts.push(p);
                },
                None => {},
            }
            i = i + 1;
        }
        proof {
            assert(chunk@.subrange(0, n as int) =~= chunk@);
        }
        parts
    }
}

/// The boundary marker of the outbound stream.
pub open spec fn part_prefix() -> Seq<u8> {
    "--mjpegstream\r\nContent-Type: image/jpeg\r\nContent-Length: ".spec_bytes()
}

/// One encoded part of the outbound stream: boundary, content type, exact
/// length, blank line, body, trailing CRLF.
pub open spec fn encoded_part(body: Seq<u8>) -> Seq<u8> {
    part_prefix() + dec_digits(body.len()) + "\r\n\r\n".spec_bytes() + body + "\r\n".spec_bytes()
}

/// Wraps one pre-encoded JPEG image as a part of the outbound stream.
pub fn encode_part(body: &Vec<u8>) -> (out: Vec<u8>)
    ensures
        out@ == encoded_part(body@),
{
    let mut out: Vec<u8> = Vec::new();
    push_str_bytes(&mut out, "--mjpegstream\r\nContent-Type: image/jpeg\r\nContent-Length: ");
    push_decimal(&mut out, body.len());
    push_str_bytes(&mut out, "\r\n\r\n");
    let n = body.len();
    let ghost mid = out@;
    let mut i: usize = 0;
    while i < n
        invariant
            i <= n,
            n == body@.len(),
            out@ == mid + body@.subrange(0, i as int),
        decreases n - i,
    {
        out.push(body[i]);
        proof {
            assert(out@ =~= mid + body@.subrange(0, i as int + 1));
        }
        i = i + 1;
    }
    proof {
        assert(body@.subrange(0, n as int) =~= body@);
    }
    push_str_bytes(&mut out, "\r\n");
    proof {
        assert(out@ =~= encoded_part(body@));
    }
    out
}

} // verus!
