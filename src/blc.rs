//! A byte-transparent, length-bounded newline framer.
//!
//! The decoder takes bytes from the front of a caller-owned buffer and yields
//! one frame per `\n`-terminated record, without a trailing `\r`.  A record
//! longer than the bound is reported once, then skipped up to and including
//! its newline.  The encoder appends a frame and a `\n`.  Neither reads the
//! payload as text.
use std::collections::VecDeque;
use vstd::prelude::*;

verus! {

/// The byte that ends a frame.
pub const NL: u8 = 10;

/// The byte that is stripped from the end of a frame, if present.
pub const CR: u8 = 13;

#[verifier::external_type_specification]
#[verifier::external_body]
pub struct ExIoError(std::io::Error);

// ---------------------------------------------------------------------------
// The model
// ---------------------------------------------------------------------------

/// `s` without one trailing carriage return, if it has one.
pub open spec fn strip_cr(s: Seq<u8>) -> Seq<u8> {
    if s.len() > 0 && s.last() == CR {
        s.drop_last()
    } else {
        s
    }
}

/// Index of the first newline in `s`, or `s.len()` when there is none.
pub open spec fn nl_pos(s: Seq<u8>) -> nat
    decreases s.len(),
{
    if s.len() == 0 {
        0
    } else if s[0] == NL {
        0
    } else {
        1 + nl_pos(s.drop_first())
    }
}

/// `s` holds no newline.
pub open spec fn no_nl(s: Seq<u8>) -> bool {
    forall|i: int| 0 <= i < s.len() ==> s[i] != NL
}

/// What one call of the decoder reports.
pub enum Step {
    /// A complete frame, newline and carriage return removed.
    Frame(Seq<u8>),
    /// No complete frame is buffered yet.
    Pending,
    /// The buffered line is longer than the bound.
    Overlong,
}

/// One decode in normal mode on buffer `s` with bound `max`: what is
/// reported, whether the decoder discards afterwards, and what stays buffered.
pub open spec fn scan_line(max: int, s: Seq<u8>) -> (Step, bool, Seq<u8>) {
    let p = nl_pos(s) as int;
    if p < s.len() && p <= max {
        (Step::Frame(strip_cr(s.subrange(0, p))), false, s.subrange(p + 1, s.len() as int))
    } else if s.len() > max {
        (Step::Overlong, true, s)
    } else {
        (Step::Pending, false, s)
    }
}

/// One decode on buffer `s`.  While discarding, everything up to and
/// including the first newline is dropped, and decoding goes on normally
/// after it; without a newline the whole buffer is dropped.
pub open spec fn decode_step(max: int, discarding: bool, s: Seq<u8>) -> (Step, bool, Seq<u8>) {
    if discarding {
        let p = nl_pos(s) as int;
        if p < s.len() {
            scan_line(max, s.subrange(p + 1, s.len() as int))
        } else {
            (Step::Pending, true, Seq::empty())
        }
    } else {
        scan_line(max, s)
    }
}

/// One decode at the end of the stream: what remains after a normal decode
/// that found no frame is a last frame, unless it is empty or a lone `\r`.
pub open spec fn decode_eof_step(max: int, discarding: bool, s: Seq<u8>) -> (Step, bool, Seq<u8>) {
    let (st, d, rest) = decode_step(max, discarding, s);
    if st is Pending && !(rest.len() == 0 || rest == seq![CR]) {
        (Step::Frame(strip_cr(rest)), d, Seq::empty())
    } else {
        (st, d, rest)
    }
}

/// Whether a decoder result reports `st`.
pub open spec fn reports(r: Result<Option<Vec<u8>>, BinaryLinesCodecError>, st: Step) -> bool {
    match r {
        Ok(Some(v)) => st == Step::Frame(v@),
        Ok(None) => st is Pending,
        Err(e) => st is Overlong && e is MaxLineLengthExceeded,
    }
}

/// The outcome of calling the decoder until it yields no frame.
pub struct Drained {
    pub frames: Seq<Seq<u8>>,
    pub discarding: bool,
    pub rest: Seq<u8>,
    pub overlong: bool,
}

/// Calls the decoder on `s` until it reports something other than a frame.
pub open spec fn drain(max: int, discarding: bool, s: Seq<u8>) -> Drained
    decreases s.len(),
{
    let (st, d, rest) = decode_step(max, discarding, s);
    match st {
        Step::Frame(f) => {
            if rest.len() < s.len() {
                let o = drain(max, d, rest);
                Drained { frames: seq![f] + o.frames, ..o }
            } else {
                Drained { frames: seq![f], discarding: d, rest, overlong: false }
            }
        },
        Step::Pending => Drained { frames: seq![], discarding: d, rest, overlong: false },
        Step::Overlong => Drained { frames: seq![], discarding: d, rest, overlong: true },
    }
}

/// The chunks one after the other.
pub open spec fn flatten(chunks: Seq<Seq<u8>>) -> Seq<u8>
    decreases chunks.len(),
{
    if chunks.len() == 0 {
        Seq::empty()
    } else {
        chunks[0] + flatten(chunks.drop_first())
    }
}

/// A stream that arrives in chunks: drain what is buffered, then append the
/// next chunk, until the chunks run out or a line is over-long.
pub open spec fn feed(max: int, discarding: bool, buf: Seq<u8>, chunks: Seq<Seq<u8>>) -> Drained
    decreases chunks.len(),
{
    let o = drain(max, discarding, buf);
    if chunks.len() == 0 || o.overlong {
        o
    } else {
        let o2 = feed(max, o.discarding, o.rest + chunks[0], chunks.drop_first());
        Drained { frames: o.frames + o2.frames, ..o2 }
    }
}

/// The encoding of each frame, one after the other.
pub open spec fn encode_all(xs: Seq<Seq<u8>>) -> Seq<u8>
    decreases xs.len(),
{
    if xs.len() == 0 {
        Seq::empty()
    } else {
        xs[0] + seq![NL] + encode_all(xs.drop_first())
    }
}

/// A frame that a decoder with bound `max` gives back unchanged: no newline,
/// no trailing carriage return, and not longer than the bound.
pub open spec fn framable(x: Seq<u8>, max: int) -> bool {
    &&& no_nl(x)
    &&& x.len() <= max
    &&& (x.len() == 0 || x.last() != CR)
}

// ---------------------------------------------------------------------------
// Lemmas on the model
// ---------------------------------------------------------------------------

/// `nl_pos` is the index of the first newline, or the length.
pub proof fn lemma_nl_pos(s: Seq<u8>)
    ensures
        nl_pos(s) <= s.len(),
        nl_pos(s) < s.len() ==> s[nl_pos(s) as int] == NL,
        forall|i: int| 0 <= i < nl_pos(s) ==> s[i] != NL,
    decreases s.len(),
{
    if s.len() > 0 && s[0] != NL {
        lemma_nl_pos(s.drop_first());
        assert forall|i: int| 0 <= i < nl_pos(s) implies s[i] != NL by {
            if i > 0 {
                assert(s[i] == s.drop_first()[i - 1]);
            }
        }
    }
}

/// The first newline is the one index that has a newline and none before it.
pub proof fn lemma_nl_pos_is(s: Seq<u8>, q: int)
    requires
        0 <= q <= s.len(),
        q < s.len() ==> s[q] == NL,
        forall|i: int| 0 <= i < q ==> s[i] != NL,
    ensures
        nl_pos(s) == q,
{
    lemma_nl_pos(s);
}

/// Where the first newline of a concatenation lies.
pub proof fn lemma_nl_pos_append(a: Seq<u8>, b: Seq<u8>)
    ensures
        nl_pos(a) < a.len() ==> nl_pos(a + b) == nl_pos(a),
        nl_pos(a) == a.len() ==> nl_pos(a + b) == a.len() + nl_pos(b),
{
    lemma_nl_pos(a);
    lemma_nl_pos(b);
    let ab = a + b;
    if nl_pos(a) < a.len() {
        lemma_nl_pos_is(ab, nl_pos(a) as int);
    } else {
        let q = a.len() as int + nl_pos(b);
        assert forall|i: int| 0 <= i < q implies ab[i] != NL by {
            if i >= a.len() {
                assert(ab[i] == b[i - a.len()]);
            }
        }
        lemma_nl_pos_is(ab, q);
    }
}

/// A frame always takes at least the newline out of the buffer.
pub proof fn lemma_frame_shrinks(max: int, d: bool, s: Seq<u8>)
    ensures
        decode_step(max, d, s).0 is Frame ==> decode_step(max, d, s).2.len() < s.len(),
{
    lemma_nl_pos(s);
    if d && nl_pos(s) < s.len() {
        lemma_nl_pos(s.subrange(nl_pos(s) as int + 1, s.len() as int));
    }
}

/// Bytes that arrive later do not change a frame or an over-long report:
/// they only stay buffered behind what was left.
pub proof fn lemma_step_extend(max: int, d: bool, a: Seq<u8>, b: Seq<u8>)
    requires
        !(decode_step(max, d, a).0 is Pending),
    ensures
        decode_step(max, d, a + b) == (
            decode_step(max, d, a).0,
            decode_step(max, d, a).1,
            decode_step(max, d, a).2 + b,
        ),
    decreases (if d { 1int } else { 0int }),
{
    lemma_nl_pos(a);
    lemma_nl_pos_append(a, b);
    let p = nl_pos(a) as int;
    if d {
        let a2 = a.subrange(p + 1, a.len() as int);
        assert((a + b).subrange(p + 1, (a + b).len() as int) =~= a2 + b);
        lemma_step_extend(max, false, a2, b);
    } else {
        if p < a.len() && p <= max {
            assert((a + b).subrange(0, p) =~= a.subrange(0, p));
            assert((a + b).subrange(p + 1, (a + b).len() as int) =~= a.subrange(p + 1, a.len() as int)
                + b);
        }
    }
}

/// A prefix without newline is dropped whole while discarding.
proof fn lemma_discard_prefix(max: int, a: Seq<u8>, b: Seq<u8>)
    requires
        no_nl(a),
    ensures
        decode_step(max, true, a + b) == decode_step(max, true, b),
{
    lemma_nl_pos(a);
    lemma_nl_pos_is(a, a.len() as int);
    lemma_nl_pos_append(a, b);
    lemma_nl_pos(b);
    let q = nl_pos(b) as int;
    if q < b.len() {
        assert((a + b).subrange(a.len() as int + q + 1, (a + b).len() as int) =~= b.subrange(
            q + 1,
            b.len() as int,
        ));
    }
}

/// Two decoder states that report the same step drain alike.
proof fn lemma_drain_same_step(max: int, d1: bool, s1: Seq<u8>, d2: bool, s2: Seq<u8>)
    requires
        decode_step(max, d1, s1) == decode_step(max, d2, s2),
        decode_step(max, d1, s1).0 is Frame ==> decode_step(max, d1, s1).2.len() < s2.len(),
    ensures
        drain(max, d1, s1) == drain(max, d2, s2),
{
    lemma_frame_shrinks(max, d1, s1);
}

/// Drains `b` after the outcome `o` of draining an earlier part of the
/// stream: nothing more once a line was over-long.
pub open spec fn drain_after(max: int, o: Drained, b: Seq<u8>) -> Drained {
    if o.overlong {
        Drained { rest: o.rest + b, ..o }
    } else {
        let o2 = drain(max, o.discarding, o.rest + b);
        Drained { frames: o.frames + o2.frames, ..o2 }
    }
}

/// Draining is the same whether the stream comes in one piece or in two.
pub proof fn lemma_drain_split(max: int, d: bool, a: Seq<u8>, b: Seq<u8>)
    ensures
        drain(max, d, a + b) == drain_after(max, drain(max, d, a), b),
    decreases a.len(),
{
    let (st, d1, r) = decode_step(max, d, a);
    lemma_frame_shrinks(max, d, a);
    lemma_nl_pos(a);
    match st {
        Step::Frame(f) => {
            lemma_step_extend(max, d, a, b);
            lemma_frame_shrinks(max, d, a + b);
            lemma_drain_split(max, d1, r, b);
            let o1 = drain(max, d1, r);
            if !o1.overlong {
                let o2 = drain(max, o1.discarding, o1.rest + b);
                assert(seq![f] + (o1.frames + o2.frames) =~= (seq![f] + o1.frames) + o2.frames);
            }
        },
        Step::Overlong => {
            lemma_step_extend(max, d, a, b);
        },
        Step::Pending => {
            if d {
                if nl_pos(a) < a.len() {
                    let a2 = a.subrange(nl_pos(a) as int + 1, a.len() as int);
                    lemma_nl_pos_append(a, b);
                    assert((a + b).subrange(nl_pos(a) as int + 1, (a + b).len() as int) =~= a2 + b);
                    assert(r == a2);
                    lemma_frame_shrinks(max, false, a2 + b);
                    lemma_drain_same_step(max, true, a + b, false, a2 + b);
                } else {
                    assert(no_nl(a));
                    lemma_discard_prefix(max, a, b);
                    assert(Seq::<u8>::empty() + b =~= b);
                    lemma_frame_shrinks(max, true, b);
                    lemma_drain_same_step(max, true, a + b, true, b);
                }
            } else {
                assert(r == a);
            }
            assert(Seq::<Seq<u8>>::empty() + drain(max, d1, r + b).frames =~= drain(
                max,
                d1,
                r + b,
            ).frames);
        },
    }
}

/// Feeding a stream chunk by chunk yields what draining it whole yields,
/// unless a line is over-long.
pub proof fn lemma_feed_is_drain(max: int, d: bool, buf: Seq<u8>, chunks: Seq<Seq<u8>>)
    requires
        !drain(max, d, buf + flatten(chunks)).overlong,
    ensures
        feed(max, d, buf, chunks) == drain(max, d, buf + flatten(chunks)),
    decreases chunks.len(),
{
    lemma_drain_split(max, d, buf, flatten(chunks));
    let o = drain(max, d, buf);
    if chunks.len() == 0 {
        assert(buf + flatten(chunks) =~= buf);
    } else {
        let c = chunks[0];
        let cs = chunks.drop_first();
        assert(o.rest + flatten(chunks) =~= (o.rest + c) + flatten(cs));
        lemma_feed_is_drain(max, o.discarding, o.rest + c, cs);
    }
}

/// Encoded frames drain back to the frames themselves.
pub proof fn lemma_drain_encoded(max: int, xs: Seq<Seq<u8>>)
    requires
        max >= 0,
        forall|i: int| 0 <= i < xs.len() ==> framable(#[trigger] xs[i], max),
    ensures
        drain(max, false, encode_all(xs)) == (Drained {
            frames: xs,
            discarding: false,
            rest: Seq::empty(),
            overlong: false,
        }),
    decreases xs.len(),
{
    if xs.len() == 0 {
        assert(xs =~= seq![]);
    } else {
        let x = xs[0];
        let tail = encode_all(xs.drop_first());
        assert(framable(xs[0], max));
        assert(x + seq![NL] + tail =~= x + (seq![NL] + tail));
        lemma_nl_pos_is(x, x.len() as int);
        lemma_nl_pos_append(x, seq![NL] + tail);
        lemma_nl_pos_is(seq![NL] + tail, 0);
        let e = encode_all(xs);
        assert(e.subrange(0, x.len() as int) =~= x);
        assert(e.subrange(x.len() as int + 1, e.len() as int) =~= tail);
        assert forall|i: int| 0 <= i < xs.drop_first().len() implies framable(
            #[trigger] xs.drop_first()[i],
            max,
        ) by {
            assert(xs.drop_first()[i] == xs[i + 1]);
        }
        assert(nl_pos(e) == x.len());
        assert(strip_cr(x) == x);
        assert(decode_step(max, false, e) == (Step::Frame(x), false, tail));
        lemma_drain_encoded(max, xs.drop_first());
        assert(seq![x] + xs.drop_first() =~= xs);
    }
}

/// Frames that are encoded and decoded come back in order, however the
/// encoded stream is cut into chunks.
pub proof fn lemma_round_trip_any_chunks(max: int, xs: Seq<Seq<u8>>, chunks: Seq<Seq<u8>>)
    requires
        max >= 0,
        forall|i: int| 0 <= i < xs.len() ==> framable(#[trigger] xs[i], max),
        flatten(chunks) == encode_all(xs),
    ensures
        feed(max, false, Seq::empty(), chunks).frames == xs,
{
    lemma_drain_encoded(max, xs);
    assert(Seq::<u8>::empty() + flatten(chunks) =~= flatten(chunks));
    lemma_feed_is_drain(max, false, Seq::empty(), chunks);
}

/// After an over-long line the decoder yields nothing until a newline
/// arrives, and then decodes exactly what follows the first newline.
pub proof fn lemma_recovery(max: int, s: Seq<u8>)
    ensures
        nl_pos(s) == s.len() ==> drain(max, true, s) == (Drained {
            frames: seq![],
            discarding: true,
            rest: seq![],
            overlong: false,
        }),
        nl_pos(s) < s.len() ==> drain(max, true, s) == drain(
            max,
            false,
            s.subrange(nl_pos(s) as int + 1, s.len() as int),
        ),
{
    lemma_nl_pos(s);
    if nl_pos(s) < s.len() {
        let s2 = s.subrange(nl_pos(s) as int + 1, s.len() as int);
        lemma_frame_shrinks(max, false, s2);
        lemma_drain_same_step(max, true, s, false, s2);
    }
}

/// After an over-long line, however the rest of the stream arrives in
/// chunks: nothing is reported while no newline has come, and then the
/// frames are those of what follows the first newline.
pub proof fn lemma_recovery_any_chunks(max: int, buf: Seq<u8>, chunks: Seq<Seq<u8>>)
    ensures
        nl_pos(buf + flatten(chunks)) == (buf + flatten(chunks)).len() ==> {
            &&& feed(max, true, buf, chunks).frames == Seq::<Seq<u8>>::empty()
            &&& !feed(max, true, buf, chunks).overlong
        },
        nl_pos(buf + flatten(chunks)) < (buf + flatten(chunks)).len() && !drain(
            max,
            false,
            (buf + flatten(chunks)).subrange(
                nl_pos(buf + flatten(chunks)) as int + 1,
                (buf + flatten(chunks)).len() as int,
            ),
        ).overlong ==> feed(max, true, buf, chunks) == drain(
            max,
            false,
            (buf + flatten(chunks)).subrange(
                nl_pos(buf + flatten(chunks)) as int + 1,
                (buf + flatten(chunks)).len() as int,
            ),
        ),
{
    let all = buf + flatten(chunks);
    lemma_recovery(max, all);
    lemma_nl_pos(all);
    if nl_pos(all) == all.len() {
        lemma_feed_is_drain(max, true, buf, chunks);
    } else {
        let rest = all.subrange(nl_pos(all) as int + 1, all.len() as int);
        if !drain(max, false, rest).overlong {
            lemma_feed_is_drain(max, true, buf, chunks);
        }
    }
}

/// A frame ending in `\r\n` decodes to the same bytes as one ending in `\n`.
pub proof fn lemma_cr_strip(max: int, y: Seq<u8>, t: Seq<u8>)
    requires
        no_nl(y),
        y.len() == 0 || y.last() != CR,
        y.len() + 1 <= max,
    ensures
        decode_step(max, false, y + seq![CR, NL] + t) == (Step::Frame(y), false, t),
        decode_step(max, false, y + seq![NL] + t) == (Step::Frame(y), false, t),
{
    let s1 = y + seq![CR, NL] + t;
    let s2 = y + seq![NL] + t;
    lemma_nl_pos_is(s1, y.len() as int + 1);
    lemma_nl_pos_is(s2, y.len() as int);
    assert(s1.subrange(0, y.len() as int + 1) =~= y.push(CR));
    assert(y.push(CR).drop_last() =~= y);
    assert(s1.subrange(y.len() as int + 2, s1.len() as int) =~= t);
    assert(s2.subrange(0, y.len() as int) =~= y);
    assert(s2.subrange(y.len() as int + 1, s2.len() as int) =~= t);
}

// ---------------------------------------------------------------------------
// The codec
// ---------------------------------------------------------------------------

/// A decoder and encoder that splits a byte stream into lines.
#[derive(Clone, Debug, Eq, PartialEq, Hash)]
pub struct BinaryLinesCodec {
    /// Index of the next buffered byte to examine for a newline; the bytes
    /// before it are known to hold none.
    next_index: usize,
    /// The longest line accepted; `usize::MAX` for no bound.
    max_length: usize,
    /// Whether the rest of an over-long line is being dropped.
    is_discarding: bool,
}

/// An error that occurred while encoding or decoding a line.
#[derive(Debug)]
pub enum BinaryLinesCodecError {
    /// The maximum line length was exceeded.
    MaxLineLengthExceeded,
    /// An I/O error occurred.
    Io(std::io::Error),
}

impl From<std::io::Error> for BinaryLinesCodecError {
    fn from(e: std::io::Error) -> Self {
        BinaryLinesCodecError::Io(e)
    }
}

impl vstd::std_specs::convert::FromSpecImpl<std::io::Error> for BinaryLinesCodecError {
    open spec fn obeys_from_spec() -> bool {
        true
    }

    open spec fn from_spec(v: std::io::Error) -> Self {
        BinaryLinesCodecError::Io(v)
    }
}

impl BinaryLinesCodecError {
    /// A description of the error.
    pub fn message(&self) -> (r: String)
        ensures
            self is MaxLineLengthExceeded ==> r@ == "max line length exceeded"@,
    {
        match self {
            BinaryLinesCodecError::MaxLineLengthExceeded => String::from_str(
                "max line length exceeded",
            ),
            BinaryLinesCodecError::Io(e) => io_error_text(e),
        }
    }
}

/// Relies on `std::io::Error`'s `Display`, for the text of an I/O error.
#[verifier::external_body]
fn io_error_text(e: &std::io::Error) -> String {
    e.to_string()
}

impl BinaryLinesCodec {
    /// The longest line accepted.
    pub closed spec fn max_len(&self) -> int {
        self.max_length as int
    }

    /// Whether the rest of an over-long line is being dropped.
    pub closed spec fn discarding(&self) -> bool {
        self.is_discarding
    }

    /// Whether the codec may decode from buffer `s`: what it remembers of
    /// the scan so far agrees with `s`.
    pub closed spec fn ready_for(&self, s: Seq<u8>) -> bool {
        &&& self.next_index <= s.len()
        &&& self.next_index <= self.max_length as int + 1
        &&& forall|i: int| 0 <= i < self.next_index ==> s[i] != NL
    }

    /// Bytes appended to the buffer keep the codec ready for it.
    pub proof fn lemma_ready_extend(&self, s: Seq<u8>, t: Seq<u8>)
        requires
            self.ready_for(s),
        ensures
            self.ready_for(s + t),
    {
        assert forall|i: int| 0 <= i < self.next_index implies (s + t)[i] != NL by {
            assert((s + t)[i] == s[i]);
        }
    }

    /// A codec with no upper bound on the length of a line.
    pub fn new() -> (r: BinaryLinesCodec)
        ensures
            r.max_len() == usize::MAX,
            !r.discarding(),
            forall|s: Seq<u8>| #[trigger] r.ready_for(s),
    {
        BinaryLinesCodec { next_index: 0, max_length: usize::MAX, is_discarding: false }
    }

    /// A codec that reports a line longer than `max_length` bytes, then
    /// drops the rest of that line.
    pub fn new_with_max_length(max_length: usize) -> (r: Self)
        ensures
            r.max_len() == max_length,
            !r.discarding(),
            forall|s: Seq<u8>| #[trigger] r.ready_for(s),
    {
        BinaryLinesCodec { next_index: 0, max_length, is_discarding: false }
    }

    /// Takes the next frame from the front of `buf`.
    pub fn decode(&mut self, buf: &mut VecDeque<u8>) -> (r: Result<
        Option<Vec<u8>>,
        BinaryLinesCodecError,
    >)
        requires
            old(self).ready_for(old(buf)@),
        ensures
            final(self).max_len() == old(self).max_len(),
            final(self).ready_for(final(buf)@),
            reports(r, decode_step(old(self).max_len(), old(self).discarding(), old(buf)@).0),
            final(self).discarding() == decode_step(
                old(self).max_len(),
                old(self).discarding(),
                old(buf)@,
            ).1,
            final(buf)@ == decode_step(old(self).max_len(), old(self).discarding(), old(buf)@).2,
    {
        let ghost max = self.max_len();
        let ghost goal = decode_step(max, self.discarding(), buf@);
        loop
            invariant
                max == old(self).max_len(),
                goal == decode_step(old(self).max_len(), old(self).discarding(), old(buf)@),
                self.max_len() == max,
                self.ready_for(buf@),
                decode_step(max, self.discarding(), buf@) == goal,
            decreases buf@.len(),
        {
            let ghost s = buf@;
            proof {
                lemma_nl_pos(s);
            }
            let len = buf.len();
            let read_to: usize = if self.max_length < len {
                self.max_length + 1
            } else {
                len
            };
            let found = find_newline(buf, self.next_index, read_to);
            if self.is_discarding {
                match found {
                    Some(i) => {
                        proof {
                            lemma_nl_pos_is(s, i as int);
                        }
                        drop_front(buf, i + 1);
                        self.is_discarding = false;
                        self.next_index = 0;
                    },
                    None => {
                        proof {
                            lemma_skip_no_nl(max, s, read_to as int);
                        }
                        drop_front(buf, read_to);
                        self.next_index = 0;
                        if buf.len() == 0 {
                            return Ok(None);
                        }
                    },
                }
            } else {
                match found {
                    Some(i) => {
                        proof {
                            lemma_nl_pos_is(s, i as int);
                        }
                        self.next_index = 0;
                        let mut line = take_front(buf, i + 1);
                        line.truncate(i);
                        proof {
                            assert(line@ =~= s.subrange(0, i as int));
                        }
                        let frame = without_carriage_return(line.as_slice());
                        return Ok(Some(frame));
                    },
                    None => {
                        if len > self.max_length {
                            self.is_discarding = true;
                            return Err(BinaryLinesCodecError::MaxLineLengthExceeded);
                        } else {
                            self.next_index = read_to;
                            return Ok(None);
                        }
                    },
                }
            }
        }
    }

    /// Takes every complete frame from the front of `buf`, calling `decode`
    /// until it yields none; says whether it stopped at an over-long line.
    pub fn decode_all(&mut self, buf: &mut VecDeque<u8>) -> (r: (Vec<Vec<u8>>, bool))
        requires
            old(self).ready_for(old(buf)@),
        ensures
            final(self).max_len() == old(self).max_len(),
            final(self).ready_for(final(buf)@),
            r.0@.map_values(|v: Vec<u8>| v@) == drain(
                old(self).max_len(),
                old(self).discarding(),
                old(buf)@,
            ).frames,
            r.1 == drain(old(self).max_len(), old(self).discarding(), old(buf)@).overlong,
            final(self).discarding() == drain(
                old(self).max_len(),
                old(self).discarding(),
                old(buf)@,
            ).discarding,
            final(buf)@ == drain(old(self).max_len(), old(self).discarding(), old(buf)@).rest,
    {
        let ghost max = self.max_len();
        let ghost goal = drain(max, self.discarding(), buf@);
        let mut frames: Vec<Vec<u8>> = Vec::new();
        loop
            invariant
                max == old(self).max_len(),
                goal == drain(old(self).max_len(), old(self).discarding(), old(buf)@),
                self.max_len() == max,
                self.ready_for(buf@),
                frames@.map_values(|v: Vec<u8>| v@) + drain(max, self.discarding(), buf@).frames
                    == goal.frames,
                drain(max, self.discarding(), buf@).discarding == goal.discarding,
                drain(max, self.discarding(), buf@).rest == goal.rest,
                drain(max, self.discarding(), buf@).overlong == goal.overlong,
            decreases buf@.len(),
        {
            let ghost s = buf@;
            let ghost d = self.discarding();
            proof {
                lemma_frame_shrinks(max, d, s);
            }
            match self.decode(buf) {
                Ok(Some(f)) => {
                    let ghost before = frames@;
                    frames.push(f);
                    proof {
                        let o = drain(max, self.discarding(), buf@);
                        assert(frames@.map_values(|v: Vec<u8>| v@) =~= before.map_values(
                            |v: Vec<u8>| v@,
                        ).push(f@));
                        assert(before.map_values(|v: Vec<u8>| v@) + (seq![f@] + o.frames)
                            =~= before.map_values(|v: Vec<u8>| v@).push(f@) + o.frames);
                    }
                },
                Ok(None) => {
                    proof {
                        assert(frames@.map_values(|v: Vec<u8>| v@) + Seq::<Seq<u8>>::empty()
                            =~= frames@.map_values(|v: Vec<u8>| v@));
                    }
                    return (frames, false);
                },
                Err(_) => {
                    proof {
                        assert(frames@.map_values(|v: Vec<u8>| v@) + Seq::<Seq<u8>>::empty()
                            =~= frames@.map_values(|v: Vec<u8>| v@));
                    }
                    return (frames, true);
                },
            }
        }
    }

    /// Takes the next frame from the front of `buf` at the end of the
    /// stream, where a last line may lack its newline.
    pub fn decode_eof(&mut self, buf: &mut VecDeque<u8>) -> (r: Result<
        Option<Vec<u8>>,
        BinaryLinesCodecError,
    >)
        requires
            old(self).ready_for(old(buf)@),
        ensures
            final(self).max_len() == old(self).max_len(),
            final(self).ready_for(final(buf)@),
            reports(r, decode_eof_step(old(self).max_len(), old(self).discarding(), old(buf)@).0),
            final(self).discarding() == decode_eof_step(
                old(self).max_len(),
                old(self).discarding(),
                old(buf)@,
            ).1,
            final(buf)@ == decode_eof_step(
                old(self).max_len(),
                old(self).discarding(),
                old(buf)@,
            ).2,
    {
        match self.decode(buf) {
            Ok(Some(frame)) => Ok(Some(frame)),
            Ok(None) => {
                if buf.len() == 0 || (buf.len() == 1 && buf[0] == CR) {
                    proof {
                        if buf@.len() == 1 {
                            assert(buf@ =~= seq![CR]);
                        }
                    }
                    Ok(None)
                } else {
                    proof {
                        assert(buf@ != seq![CR]);
                    }
                    let n = buf.len();
                    let ghost left = buf@;
                    let line = take_front(buf, n);
                    proof {
                        assert(line@ =~= left);
                    }
                    let frame = without_carriage_return(line.as_slice());
                    self.next_index = 0;
                    Ok(Some(frame))
                }
            },
            Err(e) => Err(e),
        }
    }

    /// Appends `line` and a newline to `buf`.
    pub fn encode(&mut self, line: &[u8], buf: &mut VecDeque<u8>) -> (r: Result<
        (),
        BinaryLinesCodecError,
    >)
        ensures
            r is Ok,
            *final(self) == *old(self),
            final(buf)@ == old(buf)@ + line@ + seq![NL],
    {
        let mut i: usize = 0;
        let ghost start = buf@;
        while i < line.len()
            invariant
                i <= line@.len(),
                buf@ == start + line@.subrange(0, i as int),
            decreases line@.len() - i,
        {
            buf.push_back(line[i]);
            i = i + 1;
            proof {
                assert(line@.subrange(0, i as int) =~= line@.subrange(0, i - 1).push(line@[i - 1]));
            }
        }
        buf.push_back(NL);
        proof {
            assert(line@.subrange(0, line@.len() as int) =~= line@);
        }
        Ok(())
    }
}

/// The contents of each chunk.
pub open spec fn chunk_views(chunks: Seq<Vec<u8>>) -> Seq<Seq<u8>> {
    chunks.map_values(|c: Vec<u8>| c@)
}

impl BinaryLinesCodec {
    /// Appends `chunk` to `buf`.
    fn append_chunk(buf: &mut VecDeque<u8>, chunk: &Vec<u8>)
        ensures
            final(buf)@ == old(buf)@ + chunk@,
    {
        let ghost start = buf@;
        let mut i: usize = 0;
        while i < chunk.len()
            invariant
                i <= chunk@.len(),
                buf@ == start + chunk@.subrange(0, i as int),
            decreases chunk@.len() - i,
        {
            buf.push_back(chunk[i]);
            i = i + 1;
            proof {
                assert(chunk@.subrange(0, i as int) =~= chunk@.subrange(0, i - 1).push(chunk@[i - 1]));
            }
        }
        proof {
            assert(chunk@.subrange(0, chunk@.len() as int) =~= chunk@);
        }
    }

    /// Decodes what is buffered, then each chunk from index `i` on as it is
    /// appended, until the chunks run out or a line is over-long.
    fn feed_from(&mut self, buf: &mut VecDeque<u8>, chunks: &Vec<Vec<u8>>, i: usize) -> (r: (
        Vec<Vec<u8>>,
        bool,
    ))
        requires
            old(self).ready_for(old(buf)@),
            i <= chunks@.len(),
        ensures
            r.0@.map_values(|v: Vec<u8>| v@) == feed(
                old(self).max_len(),
                old(self).discarding(),
                old(buf)@,
                chunk_views(chunks@).subrange(i as int, chunks@.len() as int),
            ).frames,
            r.1 == feed(
                old(self).max_len(),
                old(self).discarding(),
                old(buf)@,
                chunk_views(chunks@).subrange(i as int, chunks@.len() as int),
            ).overlong,
        decreases chunks@.len() - i,
    {
        let ghost cs = chunk_views(chunks@).subrange(i as int, chunks@.len() as int);
        let (mut frames, overlong) = self.decode_all(buf);
        if i == chunks.len() || overlong {
            return (frames, overlong);
        }
        let ghost before = buf@;
        BinaryLinesCodec::append_chunk(buf, &chunks[i]);
        proof {
            self.lemma_ready_extend(before, chunks@[i as int]@);
            assert(cs[0] == chunks@[i as int]@);
            assert(cs.drop_first() =~= chunk_views(chunks@).subrange(i + 1, chunks@.len() as int));
        }
        let ghost first = frames@.map_values(|v: Vec<u8>| v@);
        let (mut more, overlong2) = self.feed_from(buf, chunks, i + 1);
        let ghost second = more@.map_values(|v: Vec<u8>| v@);
        let ghost f0 = frames@;
        let ghost m0 = more@;
        frames.append(&mut more);
        proof {
            assert(frames@ == f0 + m0);
            assert((f0 + m0).map_values(|v: Vec<u8>| v@) =~= first + second);
        }
        (frames, overlong2)
    }

    /// Decodes a stream that arrives in `chunks` with a fresh codec of bound
    /// `max_length`: the frames, and whether it stopped at an over-long line.
    pub fn decode_stream(max_length: usize, chunks: &Vec<Vec<u8>>) -> (r: (Vec<Vec<u8>>, bool))
        ensures
            r.0@.map_values(|v: Vec<u8>| v@) == feed(
                max_length as int,
                false,
                Seq::empty(),
                chunk_views(chunks@),
            ).frames,
            r.1 == feed(max_length as int, false, Seq::empty(), chunk_views(chunks@)).overlong,
    {
        let mut codec = BinaryLinesCodec::new_with_max_length(max_length);
        let mut buf: VecDeque<u8> = VecDeque::new();
        proof {
            assert(chunk_views(chunks@).subrange(0, chunks@.len() as int) =~= chunk_views(chunks@));
        }
        codec.feed_from(&mut buf, chunks, 0)
    }
}

/// Encoded frames come back in order from `decode_stream`, however the
/// encoded stream is cut into chunks.
pub proof fn lemma_decode_stream_round_trip(max: usize, xs: Seq<Seq<u8>>, chunks: Seq<Vec<u8>>)
    requires
        forall|i: int| 0 <= i < xs.len() ==> framable(#[trigger] xs[i], max as int),
        flatten(chunk_views(chunks)) == encode_all(xs),
    ensures
        feed(max as int, false, Seq::empty(), chunk_views(chunks)).frames == xs,
        !feed(max as int, false, Seq::empty(), chunk_views(chunks)).overlong,
{
    lemma_round_trip_any_chunks(max as int, xs, chunk_views(chunks));
    lemma_drain_encoded(max as int, xs);
    assert(Seq::<u8>::empty() + flatten(chunk_views(chunks)) =~= flatten(chunk_views(chunks)));
    lemma_feed_is_drain(max as int, false, Seq::empty(), chunk_views(chunks));
}

impl Default for BinaryLinesCodec {
    fn default() -> (r: Self)
        ensures
            r.max_len() == usize::MAX,
            !r.discarding(),
            forall|s: Seq<u8>| #[trigger] r.ready_for(s),
    {
        Self::new()
    }
}

/// Dropping a newline-free prefix while discarding changes nothing that
/// the decoder will report.
proof fn lemma_skip_no_nl(max: int, s: Seq<u8>, k: int)
    requires
        0 <= k <= s.len(),
        forall|i: int| 0 <= i < k ==> s[i] != NL,
    ensures
        decode_step(max, true, s.subrange(k, s.len() as int)) == decode_step(max, true, s),
{
    let a = s.subrange(0, k);
    let b = s.subrange(k, s.len() as int);
    assert(a + b =~= s);
    lemma_discard_prefix(max, a, b);
}

/// The first newline in `buf[from..to]`, if any.
fn find_newline(buf: &VecDeque<u8>, from: usize, to: usize) -> (r: Option<usize>)
    requires
        from <= to <= buf@.len(),
    ensures
        match r {
            Some(i) => from <= i < to && buf@[i as int] == NL && forall|j: int|
                from <= j < i ==> buf@[j] != NL,
            None => forall|j: int| from <= j < to ==> buf@[j] != NL,
        },
{
    let mut i = from;
    while i < to
        invariant
            from <= i <= to <= buf@.len(),
            forall|j: int| from <= j < i ==> buf@[j] != NL,
        decreases to - i,
    {
        if buf[i] == NL {
            return Some(i);
        }
        i = i + 1;
    }
    None
}

/// Drops the first `k` bytes of `buf`.
fn drop_front(buf: &mut VecDeque<u8>, k: usize)
    requires
        k <= old(buf)@.len(),
    ensures
        final(buf)@ == old(buf)@.subrange(k as int, old(buf)@.len() as int),
{
    let ghost start = buf@;
    let mut i: usize = 0;
    while i < k
        invariant
            k <= start.len(),
            i <= k,
            buf@ == start.subrange(i as int, start.len() as int),
        decreases k - i,
    {
        buf.pop_front();
        i = i + 1;
    }
}

/// Removes the first `k` bytes of `buf` and returns them.
fn take_front(buf: &mut VecDeque<u8>, k: usize) -> (r: Vec<u8>)
    requires
        k <= old(buf)@.len(),
    ensures
        r@ == old(buf)@.subrange(0, k as int),
        final(buf)@ == old(buf)@.subrange(k as int, old(buf)@.len() as int),
{
    let ghost start = buf@;
    let mut r: Vec<u8> = Vec::new();
    let mut i: usize = 0;
    while i < k
        invariant
            k <= start.len(),
            i <= k,
            r@ == start.subrange(0, i as int),
            buf@ == start.subrange(i as int, start.len() as int),
        decreases k - i,
    {
        match buf.pop_front() {
            Some(b) => r.push(b),
            None => {},
        }
        proof {
            assert(start.subrange(0, i + 1) =~= start.subrange(0, i as int).push(start[i as int]));
        }
        i = i + 1;
    }
    r
}

/// Returns `s` without one trailing `\r`, if it has one.
pub fn without_carriage_return(s: &[u8]) -> (r: Vec<u8>)
    ensures
        r@ == strip_cr(s@),
{
    let n = s.len();
    let keep: usize = if n > 0 && s[n - 1] == CR {
        n - 1
    } else {
        n
    };
    let mut r: Vec<u8> = Vec::new();
    let mut i: usize = 0;
    while i < keep
        invariant
            keep <= n == s@.len(),
            i <= keep,
            r@ == s@.subrange(0, i as int),
        decreases keep - i,
    {
        r.push(s[i]);
        i = i + 1;
    }
    proof {
        assert(r@ =~= strip_cr(s@));
    }
    r
}

} // verus!
