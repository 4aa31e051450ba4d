//! Primitives of the binary schema encoding.
//!
//! Every message is a concatenation of four primitive forms: a `u64` as
//! eight little-endian bytes; a byte string as its length (`u64`) followed by
//! its bytes; a boolean as one byte (`0` or `1`); an optional value as a
//! boolean presence flag followed by the value. A counted list is its length
//! (`u64`) followed by the encodings of its items.
//!
//! The spec functions below are the definition of the format; executable
//! writers and the reader are proved against them.

use vstd::bytes::*;
use vstd::prelude::*;
use vstd::slice::{slice_subrange, slice_to_vec};

verus! {

// ---------------------------------------------------------------------------
// Specification: encoders
// ---------------------------------------------------------------------------

pub open spec fn enc_u64(x: u64) -> Seq<u8> {
    spec_u64_to_le_bytes(x)
}

pub open spec fn enc_bytes(b: Seq<u8>) -> Seq<u8>
    recommends
        b.len() <= u64::MAX,
{
    enc_u64(b.len() as u64) + b
}

pub open spec fn enc_bool(b: bool) -> Seq<u8> {
    seq![if b { 1u8 } else { 0u8 }]
}

pub open spec fn enc_opt_u64(o: Option<u64>) -> Seq<u8> {
    match o {
        Some(x) => enc_bool(true) + enc_u64(x),
        None => enc_bool(false),
    }
}

pub open spec fn enc_opt_bytes(o: Option<Seq<u8>>) -> Seq<u8> {
    match o {
        Some(b) => enc_bool(true) + enc_bytes(b),
        None => enc_bool(false),
    }
}

// ---------------------------------------------------------------------------
// Specification: parsers ("take" a value off the front, return the rest)
// ---------------------------------------------------------------------------

pub open spec fn take_u64(s: Seq<u8>) -> Option<(u64, Seq<u8>)> {
    if s.len() >= 8 {
        Some((spec_u64_from_le_bytes(s.take(8)), s.skip(8)))
    } else {
        None
    }
}

pub open spec fn take_bytes(s: Seq<u8>) -> Option<(Seq<u8>, Seq<u8>)> {
    match take_u64(s) {
        Some((n, r)) => if r.len() >= n {
            Some((r.take(n as int), r.skip(n as int)))
        } else {
            None
        },
        None => None,
    }
}

pub open spec fn take_bool(s: Seq<u8>) -> Option<(bool, Seq<u8>)> {
    if s.len() >= 1 {
        if s[0] == 1u8 {
            Some((true, s.skip(1)))
        } else if s[0] == 0u8 {
            Some((false, s.skip(1)))
        } else {
            None
        }
    } else {
        None
    }
}

pub open spec fn take_opt_u64(s: Seq<u8>) -> Option<(Option<u64>, Seq<u8>)> {
    match take_bool(s) {
        Some((present, r)) => if present {
            match take_u64(r) {
                Some((x, r2)) => Some((Some(x), r2)),
                None => None,
            }
        } else {
            Some((None, r))
        },
        None => None,
    }
}

pub open spec fn take_opt_bytes(s: Seq<u8>) -> Option<(Option<Seq<u8>>, Seq<u8>)> {
    match take_bool(s) {
        Some((present, r)) => if present {
            match take_bytes(r) {
                Some((b, r2)) => Some((Some(b), r2)),
                None => None,
            }
        } else {
            Some((None, r))
        },
        None => None,
    }
}

// ---------------------------------------------------------------------------
// Round-trip lemmas: parsing an encoding yields the value and the rest
// ---------------------------------------------------------------------------

pub proof fn lemma_take_u64(x: u64, rest: Seq<u8>)
    ensures
        take_u64(enc_u64(x) + rest) == Some((x, rest)),
{
    lemma_auto_spec_u64_to_from_le_bytes();
    let s = enc_u64(x) + rest;
    assert(s.take(8) =~= enc_u64(x));
    assert(s.skip(8) =~= rest);
}

pub proof fn lemma_take_bytes(b: Seq<u8>, rest: Seq<u8>)
    requires
        b.len() <= u64::MAX,
    ensures
        take_bytes(enc_bytes(b) + rest) == Some((b, rest)),
{
    let n = b.len() as u64;
    assert(enc_bytes(b) + rest =~= enc_u64(n) + (b + rest));
    lemma_take_u64(n, b + rest);
    assert((b + rest).take(n as int) =~= b);
    assert((b + rest).skip(n as int) =~= rest);
}

pub proof fn lemma_take_bool(b: bool, rest: Seq<u8>)
    ensures
        take_bool(enc_bool(b) + rest) == Some((b, rest)),
{
    let s = enc_bool(b) + rest;
    assert(s[0] == (if b { 1u8 } else { 0u8 }));
    assert(s.skip(1) =~= rest);
}

pub proof fn lemma_take_opt_u64(o: Option<u64>, rest: Seq<u8>)
    ensures
        take_opt_u64(enc_opt_u64(o) + rest) == Some((o, rest)),
{
    match o {
        Some(x) => {
            assert(enc_opt_u64(o) + rest =~= enc_bool(true) + (enc_u64(x) + rest));
            lemma_take_bool(true, enc_u64(x) + rest);
            lemma_take_u64(x, rest);
        },
        None => {
            lemma_take_bool(false, rest);
        },
    }
}

pub proof fn lemma_take_opt_bytes(o: Option<Seq<u8>>, rest: Seq<u8>)
    requires
        o matches Some(b) ==> b.len() <= u64::MAX,
    ensures
        take_opt_bytes(enc_opt_bytes(o) + rest) == Some((o, rest)),
{
    match o {
        Some(b) => {
            assert(enc_opt_bytes(o) + rest =~= enc_bool(true) + (enc_bytes(b) + rest));
            lemma_take_bool(true, enc_bytes(b) + rest);
            lemma_take_bytes(b, rest);
        },
        None => {
            lemma_take_bool(false, rest);
        },
    }
}

// ---------------------------------------------------------------------------
// Executable writers
// ---------------------------------------------------------------------------

pub fn put_u64(out: &mut Vec<u8>, x: u64)
    ensures
        final(out)@ == old(out)@ + enc_u64(x),
{
    let mut bs = u64_to_le_bytes(x);
    out.append(&mut bs);
}

pub fn put_bytes(out: &mut Vec<u8>, b: &[u8])
    ensures
        final(out)@ == old(out)@ + enc_bytes(b@),
{
    put_u64(out, b.len() as u64);
    out.extend_from_slice(b);
    assert(final(out)@ =~= old(out)@ + enc_bytes(b@));
}

pub fn put_bool(out: &mut Vec<u8>, b: bool)
    ensures
        final(out)@ == old(out)@ + enc_bool(b),
{
    out.push(if b { 1u8 } else { 0u8 });
    assert(final(out)@ =~= old(out)@ + enc_bool(b));
}

pub fn put_opt_u64(out: &mut Vec<u8>, o: Option<u64>)
    ensures
        final(out)@ == old(out)@ + enc_opt_u64(o),
{
    match o {
        Some(x) => {
            put_bool(out, true);
            put_u64(out, x);
            assert(final(out)@ =~= old(out)@ + enc_opt_u64(o));
        },
        None => {
            put_bool(out, false);
        },
    }
}

pub fn put_opt_bytes(out: &mut Vec<u8>, o: Option<&Vec<u8>>)
    ensures
        final(out)@ == old(out)@ + enc_opt_bytes(
            match o {
                Some(b) => Some(b@),
                None => None,
            },
        ),
{
    match o {
        Some(b) => {
            put_bool(out, true);
            put_bytes(out, b.as_slice());
            assert(final(out)@ =~= old(out)@ + enc_opt_bytes(Some(b@)));
        },
        None => {
            put_bool(out, false);
        },
    }
}

// ---------------------------------------------------------------------------
// Executable reader
// ---------------------------------------------------------------------------

/// A cursor over a byte slice; each `take_...` method consumes the bytes of
/// one primitive and mirrors the spec parser of the same name on `rem()`.
pub struct Reader<'a> {
    bytes: &'a [u8],
    pos: usize,
}

impl<'a> Reader<'a> {
    pub closed spec fn wf(&self) -> bool {
        self.pos <= self.bytes@.len()
    }

    /// The bytes not yet consumed.
    pub closed spec fn rem(&self) -> Seq<u8> {
        self.bytes@.skip(self.pos as int)
    }

    pub fn new(bytes: &'a [u8]) -> (r: Reader<'a>)
        ensures
            r.wf(),
            r.rem() == bytes@,
    {
        let r = Reader { bytes, pos: 0 };
        proof {
            assert(r.rem() =~= bytes@);
        }
        r
    }

    /// True when every byte has been consumed.
    pub fn at_end(&self) -> (r: bool)
        requires
            self.wf(),
        ensures
            r == (self.rem().len() == 0),
    {
        self.pos == self.bytes.len()
    }

    /// Consumes one raw byte.
    pub fn take_byte(&mut self) -> (r: Option<u8>)
        requires
            old(self).wf(),
        ensures
            final(self).wf(),
            match r {
                Some(b) => old(self).rem().len() >= 1 && b == old(self).rem()[0]
                    && final(self).rem() == old(self).rem().skip(1),
                None => old(self).rem().len() == 0 && *final(self) == *old(self),
            },
    {
        if self.pos < self.bytes.len() {
            let b = *slice_index_get(self.bytes, self.pos);
            self.pos = self.pos + 1;
            proof {
                assert(old(self).rem()[0] == b);
                assert(old(self).rem().skip(1) =~= self.rem());
            }
            Some(b)
        } else {
            None
        }
    }

    pub fn take_u64(&mut self) -> (r: Option<u64>)
        requires
            old(self).wf(),
        ensures
            final(self).wf(),
            match r {
                Some(x) => take_u64(old(self).rem()) == Some((x, final(self).rem())),
                None => take_u64(old(self).rem()) is None && *final(self) == *old(self),
            },
    {
        if self.bytes.len() - self.pos >= 8 {
            let chunk = slice_subrange(self.bytes, self.pos, self.pos + 8);
            let x = u64_from_le_bytes(chunk);
            self.pos = self.pos + 8;
            proof {
                assert(old(self).rem().take(8) =~= chunk@);
                assert(old(self).rem().skip(8) =~= self.rem());
            }
            Some(x)
        } else {
            None
        }
    }

    pub fn take_bytes(&mut self) -> (r: Option<Vec<u8>>)
        requires
            old(self).wf(),
        ensures
            final(self).wf(),
            match r {
                Some(b) => take_bytes(old(self).rem()) == Some((b@, final(self).rem())),
                None => take_bytes(old(self).rem()) is None,
            },
    {
        let ghost rem0 = self.rem();
        match self.take_u64() {
            Some(n) => {
                let avail = self.bytes.len() - self.pos;
                if n <= avail as u64 {
                    let nn = n as usize;
                    let chunk = slice_subrange(self.bytes, self.pos, self.pos + nn);
                    let v = slice_to_vec(chunk);
                    let ghost mid = self.rem();
                    self.pos = self.pos + nn;
                    proof {
                        assert(mid.take(n as int) =~= v@);
                        assert(mid.skip(n as int) =~= self.rem());
                    }
                    Some(v)
                } else {
                    None
                }
            },
            None => None,
        }
    }

    pub fn take_bool(&mut self) -> (r: Option<bool>)
        requires
            old(self).wf(),
        ensures
            final(self).wf(),
            match r {
                Some(b) => take_bool(old(self).rem()) == Some((b, final(self).rem())),
                None => take_bool(old(self).rem()) is None && *final(self) == *old(self),
            },
    {
        if self.pos < self.bytes.len() {
            let b = *slice_index_get(self.bytes, self.pos);
            if b == 1u8 {
                self.pos = self.pos + 1;
                proof {
                    assert(old(self).rem()[0] == 1u8);
                    assert(old(self).rem().skip(1) =~= self.rem());
                }
                Some(true)
            } else if b == 0u8 {
                self.pos = self.pos + 1;
                proof {
                    assert(old(self).rem()[0] == 0u8);
                    assert(old(self).rem().skip(1) =~= self.rem());
                }
                Some(false)
            } else {
                proof {
                    assert(old(self).rem()[0] == b);
                }
                None
            }
        } else {
            None
        }
    }

    pub fn take_opt_u64(&mut self) -> (r: Option<Option<u64>>)
        requires
            old(self).wf(),
        ensures
            final(self).wf(),
            match r {
                Some(o) => take_opt_u64(old(self).rem()) == Some((o, final(self).rem())),
                None => take_opt_u64(old(self).rem()) is None,
            },
    {
        match self.take_bool() {
            Some(true) => match self.take_u64() {
                Some(x) => Some(Some(x)),
                None => None,
            },
            Some(false) => Some(None),
            None => None,
        }
    }

    pub fn take_opt_bytes(&mut self) -> (r: Option<Option<Vec<u8>>>)
        requires
            old(self).wf(),
        ensures
            final(self).wf(),
            match r {
                Some(o) => take_opt_bytes(old(self).rem()) == Some(
                    (
                        match o {
                            Some(ref b) => Some(b@),
                            None => None,
                        },
                        final(self).rem(),
                    ),
                ),
                None => take_opt_bytes(old(self).rem()) is None,
            },
    {
        match self.take_bool() {
            Some(true) => match self.take_bytes() {
                Some(b) => Some(Some(b)),
                None => None,
            },
            Some(false) => Some(None),
            None => None,
        }
    }
}

} // verus!

verus! {

/// Reads one element of a slice; `vstd`'s indexing specification applied.
pub(crate) fn slice_index_get<T>(s: &[T], i: usize) -> (r: &T)
    requires
        i < s@.len(),
    ensures
        *r == s@[i as int],
{
    &s[i]
}

} // verus!
