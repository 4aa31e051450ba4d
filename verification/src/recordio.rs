//! The streaming frame decoder.
//!
//! Each frame on the wire is `<ASCII decimal length>\n<length bytes of
//! serialized event>`; a bare `\n` with no preceding digits is a no-op
//! keep-alive. The decoder accepts byte chunks of arbitrary size and
//! alignment and emits the events whose frames completed, in order.
//!
//! The whole behaviour is defined by the per-byte step function [`dec_step`]
//! and its fold [`dec_run`]; the executable codec is proved to follow them
//! exactly, so chunking cannot change what is decoded
//! ([`lemma_dec_run_app`]), and encoding then decoding any event sequence
//! yields it back ([`lemma_stream_round_trip`]).

use crate::errors::CodecError;
use crate::messages::{view_events, Event, EventV};
use crate::wire::slice_index_get;
use crate::wire_event::{
    decode_event, enc_event, encode_event, lemma_enc_event_len, lemma_parse_enc_event, parse_event,
    wf_event,
};
use vstd::prelude::*;

verus! {

// ---------------------------------------------------------------------------
// Specification: the decoder as a state machine over single bytes
// ---------------------------------------------------------------------------

/// Where the decoder stands inside the current frame.
#[verifier::ext_equal]
pub enum PhaseV {
    /// Reading the decimal length field; `acc` is the value of the digits
    /// seen so far, `has_digits` whether there was at least one.
    Len { acc: int, has_digits: bool },
    /// Reading a payload of `target` bytes; `got` holds those received.
    Payload { got: Seq<u8>, target: int },
    /// Decoding stopped: `framing` tells a malformed length field from a
    /// payload that would not deserialize.
    Failed { framing: bool },
}

/// The decoder's full abstract state: its phase and every event emitted.
#[verifier::ext_equal]
pub struct DecoderV {
    pub phase: PhaseV,
    pub emitted: Seq<EventV>,
}

pub open spec fn init_decoder() -> DecoderV {
    DecoderV { phase: PhaseV::Len { acc: 0, has_digits: false }, emitted: Seq::empty() }
}

pub open spec fn is_digit(b: u8) -> bool {
    0x30 <= b <= 0x39
}

pub open spec fn digit_val(b: u8) -> int {
    b - 0x30
}

/// What happens when a payload is complete: a schema-valid payload emits its
/// event and the decoder returns to reading a length; an invalid one stops
/// decoding with the decode failure.
pub open spec fn finish_payload(emitted: Seq<EventV>, payload: Seq<u8>) -> DecoderV {
    match parse_event(payload) {
        Some(e) => DecoderV {
            phase: PhaseV::Len { acc: 0, has_digits: false },
            emitted: emitted.push(e),
        },
        None => DecoderV { phase: PhaseV::Failed { framing: false }, emitted },
    }
}

/// One byte of input. A digit extends the length accumulator (failing if the
/// value cannot be represented); a newline either skips an empty frame or
/// opens the payload; any other byte in the length field is a framing
/// failure. Payload bytes fill the buffer until it reaches the target.
pub open spec fn dec_step(s: DecoderV, b: u8) -> DecoderV {
    match s.phase {
        PhaseV::Failed { .. } => s,
        PhaseV::Len { acc, has_digits } => {
            if b == 0x0A {
                if !has_digits {
                    s
                } else if acc == 0 {
                    finish_payload(s.emitted, Seq::empty())
                } else {
                    DecoderV {
                        phase: PhaseV::Payload { got: Seq::empty(), target: acc },
                        emitted: s.emitted,
                    }
                }
            } else if is_digit(b) {
                if 10 * acc + digit_val(b) <= u64::MAX {
                    DecoderV {
                        phase: PhaseV::Len { acc: 10 * acc + digit_val(b), has_digits: true },
                        emitted: s.emitted,
                    }
                } else {
                    DecoderV { phase: PhaseV::Failed { framing: true }, emitted: s.emitted }
                }
            } else {
                DecoderV { phase: PhaseV::Failed { framing: true }, emitted: s.emitted }
            }
        },
        PhaseV::Payload { got, target } => {
            let got2 = got.push(b);
            if got2.len() == target {
                finish_payload(s.emitted, got2)
            } else {
                DecoderV { phase: PhaseV::Payload { got: got2, target }, emitted: s.emitted }
            }
        },
    }
}

/// The step function folded over a byte sequence.
pub open spec fn dec_run(s: DecoderV, bytes: Seq<u8>) -> DecoderV
    decreases bytes.len(),
{
    if bytes.len() == 0 {
        s
    } else {
        dec_run(dec_step(s, bytes[0]), bytes.skip(1))
    }
}

// ---------------------------------------------------------------------------
// Laws of the state machine
// ---------------------------------------------------------------------------

/// Partial-frame invariance (law): running the decoder over a byte stream
/// split at any point equals running it over the two parts in turn, so the
/// decoded event sequence does not depend on chunk boundaries.
pub proof fn lemma_dec_run_app(s: DecoderV, a: Seq<u8>, b: Seq<u8>)
    ensures
        dec_run(s, a + b) == dec_run(dec_run(s, a), b),
    decreases a.len(),
{
    if a.len() == 0 {
        assert(a + b =~= b);
    } else {
        assert((a + b)[0] == a[0]);
        assert((a + b).skip(1) =~= a.skip(1) + b);
        lemma_dec_run_app(dec_step(s, a[0]), a.skip(1), b);
    }
}

proof fn lemma_dec_run_one(s: DecoderV, b: u8)
    ensures
        dec_run(s, seq![b]) == dec_step(s, b),
{
    assert(seq![b][0] == b);
    assert(seq![b].skip(1) =~= Seq::<u8>::empty());
    assert(dec_run(dec_step(s, b), Seq::<u8>::empty()) == dec_step(s, b));
}

pub proof fn lemma_dec_run_snoc(s: DecoderV, a: Seq<u8>, b: u8)
    ensures
        dec_run(s, a.push(b)) == dec_step(dec_run(s, a), b),
{
    assert(a.push(b) =~= a + seq![b]);
    lemma_dec_run_app(s, a, seq![b]);
    lemma_dec_run_one(dec_run(s, a), b);
}

/// A failed decoder stays failed and emits nothing more, whatever is fed.
pub proof fn lemma_dec_run_failed(s: DecoderV, bytes: Seq<u8>)
    requires
        s.phase is Failed,
    ensures
        dec_run(s, bytes) == s,
    decreases bytes.len(),
{
    if bytes.len() > 0 {
        lemma_dec_run_failed(s, bytes.skip(1));
    }
}

/// Framing failure (law): while reading a length field, a byte that is
/// neither a digit nor a newline stops decoding with the framing failure and
/// emits no event.
pub proof fn lemma_framing_failure(s: DecoderV, b: u8)
    requires
        s.phase is Len,
        b != 0x0A,
        !is_digit(b),
    ensures
        dec_step(s, b) == (DecoderV { phase: PhaseV::Failed { framing: true }, emitted: s.emitted }),
{
}

/// Empty-frame skip (law): a newline with no preceding digits leaves the
/// decoder exactly as it was: no event, no error.
pub proof fn lemma_empty_frame_skip(s: DecoderV)
    requires
        (s.phase matches PhaseV::Len { acc: _, has_digits: false }),
    ensures
        dec_step(s, 0x0A) == s,
{
}

// ---------------------------------------------------------------------------
// Frames: the encoder side of the wire format
// ---------------------------------------------------------------------------

/// The decimal digits of `n`, most significant first.
pub open spec fn dec_digits(n: u64) -> Seq<u8>
    decreases n,
{
    if n < 10 {
        seq![(0x30 + n) as u8]
    } else {
        dec_digits(n / 10).push((0x30 + n % 10) as u8)
    }
}

/// One frame: the payload length in decimal, a newline, the payload.
pub open spec fn frame_for(e: EventV) -> Seq<u8> {
    dec_digits(enc_event(e).len() as u64) + seq![0x0Au8] + enc_event(e)
}

/// A whole stream of frames, one per event, in order.
pub open spec fn frames_for(es: Seq<EventV>) -> Seq<u8>
    decreases es.len(),
{
    if es.len() == 0 {
        Seq::empty()
    } else {
        frame_for(es[0]) + frames_for(es.skip(1))
    }
}

proof fn lemma_run_digits(em: Seq<EventV>, n: u64)
    ensures
        dec_run(DecoderV { phase: PhaseV::Len { acc: 0, has_digits: false }, emitted: em },
            dec_digits(n)) == (DecoderV {
            phase: PhaseV::Len { acc: n as int, has_digits: true },
            emitted: em,
        }),
    decreases n,
{
    let s0 = DecoderV { phase: PhaseV::Len { acc: 0, has_digits: false }, emitted: em };
    if n < 10 {
        let b = (0x30 + n) as u8;
        assert(is_digit(b));
        assert(digit_val(b) == n as int);
        assert(dec_digits(n) =~= seq![b]);
        lemma_dec_run_one(s0, b);
    } else {
        lemma_run_digits(em, n / 10);
        lemma_dec_run_snoc(s0, dec_digits(n / 10), (0x30 + n % 10) as u8);
        let s1 = DecoderV {
            phase: PhaseV::Len { acc: (n / 10) as int, has_digits: true },
            emitted: em,
        };
        let b = (0x30 + n % 10) as u8;
        assert(is_digit(b));
        assert(digit_val(b) == (n % 10) as int);
        assert(10 * ((n / 10) as int) + (n % 10) as int == n as int);
        assert(dec_step(s1, b) == DecoderV {
            phase: PhaseV::Len { acc: n as int, has_digits: true },
            emitted: em,
        });
    }
}

proof fn lemma_run_fill(em: Seq<EventV>, got: Seq<u8>, p: Seq<u8>, target: int)
    requires
        got.len() + p.len() == target,
        p.len() >= 1,
    ensures
        dec_run(DecoderV { phase: PhaseV::Payload { got, target }, emitted: em }, p)
            == finish_payload(em, got + p),
    decreases p.len(),
{
    let s0 = DecoderV { phase: PhaseV::Payload { got, target }, emitted: em };
    let b = p[0];
    let got2 = got.push(b);
    if p.len() == 1 {
        assert(got2.len() == target);
        assert(got + p =~= got2);
        assert(p.skip(1) =~= Seq::<u8>::empty());
        assert(dec_run(s0, p) == dec_run(finish_payload(em, got2), p.skip(1)));
    } else {
        assert(got2.len() < target);
        assert(dec_step(s0, b) == DecoderV {
            phase: PhaseV::Payload { got: got2, target },
            emitted: em,
        });
        lemma_run_fill(em, got2, p.skip(1), target);
        assert(got2 + p.skip(1) =~= got + p);
    }
}

proof fn lemma_run_frame(em: Seq<EventV>, e: EventV)
    requires
        wf_event(e),
        enc_event(e).len() <= u64::MAX,
    ensures
        dec_run(DecoderV { phase: PhaseV::Len { acc: 0, has_digits: false }, emitted: em },
            frame_for(e)) == (DecoderV {
            phase: PhaseV::Len { acc: 0, has_digits: false },
            emitted: em.push(e),
        }),
{
    let s0 = DecoderV { phase: PhaseV::Len { acc: 0, has_digits: false }, emitted: em };
    let payload = enc_event(e);
    let n = payload.len() as u64;
    lemma_enc_event_len(e);
    assert(frame_for(e) =~= dec_digits(n) + (seq![0x0Au8] + payload));
    lemma_dec_run_app(s0, dec_digits(n), seq![0x0Au8] + payload);
    lemma_run_digits(em, n);
    let s1 = DecoderV { phase: PhaseV::Len { acc: n as int, has_digits: true }, emitted: em };
    lemma_dec_run_app(s1, seq![0x0Au8], payload);
    lemma_dec_run_one(s1, 0x0Au8);
    let s2 = DecoderV {
        phase: PhaseV::Payload { got: Seq::empty(), target: n as int },
        emitted: em,
    };
    assert(dec_step(s1, 0x0Au8) == s2);
    lemma_run_fill(em, Seq::empty(), payload, n as int);
    assert(Seq::<u8>::empty() + payload =~= payload);
    lemma_parse_enc_event(e);
}

proof fn lemma_stream_round_trip_from(em: Seq<EventV>, es: Seq<EventV>)
    requires
        forall|i: int|
            0 <= i < es.len() ==> wf_event(#[trigger] es[i]) && enc_event(es[i]).len() <= u64::MAX,
    ensures
        dec_run(DecoderV { phase: PhaseV::Len { acc: 0, has_digits: false }, emitted: em },
            frames_for(es)) == (DecoderV {
            phase: PhaseV::Len { acc: 0, has_digits: false },
            emitted: em + es,
        }),
    decreases es.len(),
{
    let s0 = DecoderV { phase: PhaseV::Len { acc: 0, has_digits: false }, emitted: em };
    if es.len() == 0 {
        assert(frames_for(es) =~= Seq::<u8>::empty());
        assert(em + es =~= em);
    } else {
        lemma_dec_run_app(s0, frame_for(es[0]), frames_for(es.skip(1)));
        lemma_run_frame(em, es[0]);
        lemma_stream_round_trip_from(em.push(es[0]), es.skip(1));
        assert(em.push(es[0]) + es.skip(1) =~= em + es);
    }
}

/// Round trip (law): encoding any sequence of well-formed events into the
/// wire frame format and running the decoder over the whole stream emits
/// exactly those events, in order, and leaves the decoder clean. Together
/// with [`lemma_dec_run_app`], the same holds for any split of the stream
/// into chunks.
pub proof fn lemma_stream_round_trip(es: Seq<EventV>)
    requires
        forall|i: int|
            0 <= i < es.len() ==> wf_event(#[trigger] es[i]) && enc_event(es[i]).len() <= u64::MAX,
    ensures
        dec_run(init_decoder(), frames_for(es)) == (DecoderV {
            phase: PhaseV::Len { acc: 0, has_digits: false },
            emitted: es,
        }),
{
    lemma_stream_round_trip_from(Seq::empty(), es);
    assert(Seq::<EventV>::empty() + es =~= es);
}

/// Round trip under any split (law): cutting the encoded stream at any
/// point and feeding the two parts in turn emits exactly the encoded events;
/// by [`lemma_dec_run_app`], the same holds for any further split of either
/// part, down to one byte at a time.
pub proof fn lemma_round_trip_any_split(es: Seq<EventV>, i: int)
    requires
        forall|j: int|
            0 <= j < es.len() ==> wf_event(#[trigger] es[j]) && enc_event(es[j]).len() <= u64::MAX,
        0 <= i <= frames_for(es).len(),
    ensures
        dec_run(dec_run(init_decoder(), frames_for(es).take(i)), frames_for(es).skip(i)).emitted
            == es,
{
    let bytes = frames_for(es);
    assert(bytes =~= bytes.take(i) + bytes.skip(i));
    lemma_dec_run_app(init_decoder(), bytes.take(i), bytes.skip(i));
    lemma_stream_round_trip(es);
}

// ---------------------------------------------------------------------------
// Executable frame encoder
// ---------------------------------------------------------------------------

fn put_dec_digits(out: &mut Vec<u8>, n: u64)
    ensures
        final(out)@ == old(out)@ + dec_digits(n),
    decreases n,
{
    if n < 10 {
        out.push(0x30 + (n as u8));
        assert(final(out)@ =~= old(out)@ + dec_digits(n));
    } else {
        put_dec_digits(out, n / 10);
        out.push(0x30 + ((n % 10) as u8));
        assert(final(out)@ =~= old(out)@ + dec_digits(n));
    }
}

/// Encodes one event as a complete frame: decimal payload length, newline,
/// payload.
pub fn encode_frame(e: &Event) -> (r: Vec<u8>)
    ensures
        r@ == frame_for(e@),
{
    let mut payload = encode_event(e);
    let mut out: Vec<u8> = Vec::new();
    put_dec_digits(&mut out, payload.len() as u64);
    out.push(0x0A);
    out.append(&mut payload);
    proof {
        assert(out@ =~= frame_for(e@));
    }
    out
}

/// Encodes a sequence of events as consecutive frames.
pub fn encode_frames(events: &Vec<Event>) -> (r: Vec<u8>)
    ensures
        r@ == frames_for(view_events(events@)),
{
    let ghost vs = view_events(events@);
    let mut out: Vec<u8> = Vec::new();
    let n = events.len();
    let mut i: usize = 0;
    while i < n
        invariant
            i <= n,
            n == events.len(),
            vs == view_events(events@),
            vs.len() == n,
            out@ == frames_for(vs.take(i as int)),
        decreases n - i,
    {
        let mut f = encode_frame(&events[i]);
        out.append(&mut f);
        proof {
            assert(vs[i as int] == events@[i as int]@);
            assert(vs.take(i + 1 as int) =~= vs.take(i as int).push(vs[i as int]));
            lemma_frames_for_snoc(vs.take(i as int), vs[i as int]);
        }
        i = i + 1;
    }
    proof {
        assert(vs.take(n as int) =~= vs);
    }
    out
}

proof fn lemma_frames_for_snoc(es: Seq<EventV>, e: EventV)
    ensures
        frames_for(es.push(e)) == frames_for(es) + frame_for(e),
    decreases es.len(),
{
    if es.len() == 0 {
        assert(es.push(e)[0] == e);
        assert(es.push(e).skip(1) =~= Seq::<EventV>::empty());
        assert(frames_for(Seq::<EventV>::empty()) == Seq::<u8>::empty());
        assert(frames_for(es.push(e)) == frame_for(e) + frames_for(Seq::<EventV>::empty()));
        assert(frames_for(es.push(e)) =~= frame_for(e));
        assert(frames_for(es) + frame_for(e) =~= frame_for(e));
    } else {
        assert(es.push(e)[0] == es[0]);
        assert(es.push(e).skip(1) =~= es.skip(1).push(e));
        lemma_frames_for_snoc(es.skip(1), e);
        assert(frames_for(es.push(e)) =~= frames_for(es) + frame_for(e));
    }
}

// ---------------------------------------------------------------------------
// Executable decoder
// ---------------------------------------------------------------------------

/// The streaming decoder for one connection. Created fresh per connection
/// attempt and discarded on teardown; once it has failed it must not be fed
/// again.
pub struct RecordIOCodec {
    in_payload: bool,
    failed: Option<CodecError>,
    acc: u64,
    has_digits: bool,
    buf: Vec<u8>,
    target: u64,
    emitted: Ghost<Seq<EventV>>,
}

impl View for RecordIOCodec {
    type V = DecoderV;

    closed spec fn view(&self) -> DecoderV {
        DecoderV {
            phase: match self.failed {
                Some(CodecError::Framing) => PhaseV::Failed { framing: true },
                Some(CodecError::Decode) => PhaseV::Failed { framing: false },
                None => if self.in_payload {
                    PhaseV::Payload { got: self.buf@, target: self.target as int }
                } else {
                    PhaseV::Len { acc: self.acc as int, has_digits: self.has_digits }
                },
            },
            emitted: self.emitted@,
        }
    }
}

impl RecordIOCodec {
    /// Internal consistency: outside a payload the buffer is empty.
    pub closed spec fn wf(&self) -> bool {
        !self.in_payload ==> self.buf@.len() == 0
    }

    /// A fresh decoder: reading a length, nothing accumulated, nothing
    /// emitted.
    pub fn new() -> (r: RecordIOCodec)
        ensures
            r.wf(),
            r@ == init_decoder(),
    {
        let r = RecordIOCodec {
            in_payload: false,
            failed: None,
            acc: 0,
            has_digits: false,
            buf: Vec::new(),
            target: 0,
            emitted: Ghost(Seq::empty()),
        };
        proof {
            assert(r@ =~= init_decoder());
        }
        r
    }

    /// Feeds one chunk of arbitrary size. Returns the events whose frames
    /// completed within this chunk, in order, and the failure that stopped
    /// decoding, if one did. The new state is exactly the specification's
    /// fold over the chunk; a caller that sees an error must discard the
    /// decoder.
    #[verifier::loop_isolation(false)]
    pub fn write(&mut self, input: &[u8]) -> (r: (Vec<Event>, Option<CodecError>))
        requires
            old(self).wf(),
            !(old(self)@.phase is Failed),
        ensures
            final(self).wf(),
            final(self)@ == dec_run(old(self)@, input@),
            final(self)@.emitted == old(self)@.emitted + view_events(r.0@),
            r.1 is None <==> !(final(self)@.phase is Failed),
            r.1 == Some(CodecError::Framing) <==> final(self)@.phase == (PhaseV::Failed {
                framing: true,
            }),
            r.1 == Some(CodecError::Decode) <==> final(self)@.phase == (PhaseV::Failed {
                framing: false,
            }),
    {
        let mut out: Vec<Event> = Vec::new();
        let n = input.len();
        let mut i: usize = 0;
        while i < n
            invariant
                i <= n,
                self.wf(),
                self@ == dec_run(old(self)@, input@.take(i as int)),
                self@.emitted == old(self)@.emitted + view_events(out@),
                !(self@.phase is Failed),
            decreases n - i,
        {
            let ghost pre = self@;
            let b = *slice_index_get(input, i);
            proof {
                assert(input@.take(i + 1 as int) =~= input@.take(i as int).push(b));
                lemma_dec_run_snoc(old(self)@, input@.take(i as int), b);
            }
            if !self.in_payload {
                if b == 0x0A {
                    if !self.has_digits {
                        // empty frame: keep-alive, nothing to do
                        proof {
                            assert(self@ == dec_step(pre, b));
                        }
                    } else if self.acc == 0 {
                        // a zero-length payload completes at once
                        let decoded = decode_event(self.buf.as_slice());
                        self.acc = 0;
                        self.has_digits = false;
                        match decoded {
                            Some(e) => {
                                proof {
                                    self.emitted@ = self.emitted@.push(e@);
                                }
                                let ghost prev_out = out@;
                                out.push(e);
                                proof {
                                    assert(view_events(out@) =~= view_events(prev_out).push(e@));
                                    assert(old(self)@.emitted + view_events(prev_out).push(e@)
                                        =~= (old(self)@.emitted + view_events(prev_out)).push(e@));
                                    assert(self@ == dec_step(pre, b));
                                }
                            },
                            None => {
                                self.failed = Some(CodecError::Decode);
                                proof {
                                    assert(self@ == dec_step(pre, b));
                                    lemma_dec_run_failed(self@, input@.skip(i + 1 as int));
                                    assert(input@ =~= input@.take(i + 1 as int) + input@.skip(
                                        i + 1 as int,
                                    ));
                                    lemma_dec_run_app(old(self)@, input@.take(i + 1 as int),
                                        input@.skip(i + 1 as int));
                                }
                                return (out, Some(CodecError::Decode));
                            },
                        }
                    } else {
                        // length complete: switch to reading the payload
                        self.target = self.acc;
                        self.acc = 0;
                        self.has_digits = false;
                        self.in_payload = true;
                        proof {
                            assert(self@ == dec_step(pre, b));
                        }
                    }
                } else if 0x30 <= b && b <= 0x39 {
                    let d = (b - 0x30) as u64;
                    if self.acc <= (u64::MAX - d) / 10 {
                        proof {
                            assert(10 * (self.acc as int) + (d as int) <= u64::MAX) by (nonlinear_arith)
                                requires
                                    self.acc as int <= ((u64::MAX - d) as int) / 10,
                                    d <= 9,
                            ;
                        }
                        self.acc = self.acc * 10 + d;
                        self.has_digits = true;
                        proof {
                            assert(self@ == dec_step(pre, b));
                        }
                    } else {
                        proof {
                            assert(10 * (self.acc as int) + (d as int) > u64::MAX) by (nonlinear_arith)
                                requires
                                    self.acc as int > ((u64::MAX - d) as int) / 10,
                                    d <= 9,
                            ;
                        }
                        self.failed = Some(CodecError::Framing);
                        proof {
                            assert(self@ == dec_step(pre, b));
                            lemma_dec_run_failed(self@, input@.skip(i + 1 as int));
                            assert(input@ =~= input@.take(i + 1 as int) + input@.skip(
                                i + 1 as int,
                            ));
                            lemma_dec_run_app(old(self)@, input@.take(i + 1 as int), input@.skip(
                                i + 1 as int,
                            ));
                        }
                        return (out, Some(CodecError::Framing));
                    }
                } else {
                    self.failed = Some(CodecError::Framing);
                    proof {
                        assert(self@ == dec_step(pre, b));
                        lemma_dec_run_failed(self@, input@.skip(i + 1 as int));
                        assert(input@ =~= input@.take(i + 1 as int) + input@.skip(i + 1 as int));
                        lemma_dec_run_app(old(self)@, input@.take(i + 1 as int), input@.skip(
                            i + 1 as int,
                        ));
                    }
                    return (out, Some(CodecError::Framing));
                }
            } else {
                self.buf.push(b);
                if self.buf.len() as u64 == self.target {
                    let decoded = decode_event(self.buf.as_slice());
                    self.buf.clear();
                    self.in_payload = false;
                    self.acc = 0;
                    self.has_digits = false;
                    match decoded {
                        Some(e) => {
                            proof {
                                self.emitted@ = self.emitted@.push(e@);
                            }
                            let ghost prev_out = out@;
                            out.push(e);
                            proof {
                                assert(view_events(out@) =~= view_events(prev_out).push(e@));
                                assert(old(self)@.emitted + view_events(prev_out).push(e@) =~= (old(
                                    self,
                                )@.emitted + view_events(prev_out)).push(e@));
                                assert(self@ == dec_step(pre, b));
                            }
                        },
                        None => {
                            self.failed = Some(CodecError::Decode);
                            proof {
                                assert(self@ == dec_step(pre, b));
                                lemma_dec_run_failed(self@, input@.skip(i + 1 as int));
                                assert(input@ =~= input@.take(i + 1 as int) + input@.skip(
                                    i + 1 as int,
                                ));
                                lemma_dec_run_app(old(self)@, input@.take(i + 1 as int),
                                    input@.skip(i + 1 as int));
                            }
                            return (out, Some(CodecError::Decode));
                        },
                    }
                } else {
                    proof {
                        assert(self@ == dec_step(pre, b));
                    }
                }
            }
            i = i + 1;
        }
        proof {
            assert(input@.take(n as int) =~= input@);
        }
        (out, None)
    }
}

} // verus!
