use vstd::prelude::*;
use vstd::utf8::{decode_utf8, valid_utf8};
use vstd::string::StringSliceAdditionalSpecFns;
use crate::error::{is_nex_error, Error, Result};

verus! {

/// Little-endian encoding of a `u16`.
pub open spec fn le16(x: u16) -> Seq<u8> {
    seq![(x % 256) as u8, (x / 256) as u8]
}

/// Little-endian encoding of a `u32`.
pub open spec fn le32(x: u32) -> Seq<u8> {
    seq![
        (x % 256) as u8,
        ((x / 256) % 256) as u8,
        ((x / 65536) % 256) as u8,
        (x / 16777216) as u8,
    ]
}

/// Little-endian encoding of a `u64`.
pub open spec fn le64(x: u64) -> Seq<u8> {
    le32((x % 4294967296) as u32) + le32((x / 4294967296) as u32)
}

/// The `u16` whose little-endian encoding is the first two bytes of `b`.
pub open spec fn from_le16(b: Seq<u8>) -> u16 {
    (b[0] + 256 * b[1]) as u16
}

/// The `u32` whose little-endian encoding is the first four bytes of `b`.
pub open spec fn from_le32(b: Seq<u8>) -> u32 {
    (b[0] + 256 * b[1] + 65536 * b[2] + 16777216 * b[3]) as u32
}

/// Decoding an encoded `u16` gives it back.
pub proof fn lemma_le16_roundtrip(x: u16)
    ensures
        le16(x).len() == 2,
        from_le16(le16(x)) == x,
{
}

/// Decoding an encoded `u32` gives it back.
pub proof fn lemma_le32_roundtrip(x: u32)
    ensures
        le32(x).len() == 4,
        from_le32(le32(x)) == x,
{
}

/// Bytes of a string stored with a `u16` length prefix; the prefix is the byte
/// length truncated to 16 bits.
pub open spec fn string_u16_bytes(s: Seq<char>) -> Seq<u8> {
    let b = vstd::utf8::encode_utf8(s);
    le16((b.len() % 65536) as u16) + b
}

/// Reading a length-prefixed string from bytes that start with what
/// `put_string_u16` wrote for `s` (its UTF-8 form shorter than 65536 bytes)
/// gives `s` back and leaves the bytes after it.
pub proof fn lemma_string_u16_roundtrip(s: Seq<char>, rest: Seq<u8>)
    requires
        vstd::utf8::encode_utf8(s).len() < 65536,
    ensures
        ({
            let b = string_u16_bytes(s) + rest;
            let n = from_le16(b) as int;
            &&& b.len() >= 2
            &&& n == vstd::utf8::encode_utf8(s).len()
            &&& b.skip(2).len() >= n
            &&& valid_utf8(b.skip(2).subrange(0, n))
            &&& decode_utf8(b.skip(2).subrange(0, n)) == s
            &&& b.skip(2).skip(n) == rest
        }),
{
    let enc = vstd::utf8::encode_utf8(s);
    let b = string_u16_bytes(s) + rest;
    lemma_le16_roundtrip(enc.len() as u16);
    assert(b.skip(2) =~= enc + rest);
    assert(from_le16(b) == from_le16(le16(enc.len() as u16)));
    assert(b.skip(2).subrange(0, enc.len() as int) =~= enc);
    assert(b.skip(2).skip(enc.len() as int) =~= rest);
    vstd::utf8::encode_utf8_valid_utf8(s);
    vstd::utf8::encode_utf8_decode_utf8(s);
}

pub(crate) fn push_u16_le(v: &mut Vec<u8>, x: u16)
    ensures
        final(v)@ == old(v)@ + le16(x),
{
    v.push((x % 256) as u8);
    v.push((x / 256) as u8);
    assert(final(v)@ =~= old(v)@ + le16(x));
}

pub(crate) fn push_u32_le(v: &mut Vec<u8>, x: u32)
    ensures
        final(v)@ == old(v)@ + le32(x),
{
    v.push((x % 256) as u8);
    v.push(((x / 256) % 256) as u8);
    v.push(((x / 65536) % 256) as u8);
    v.push((x / 16777216) as u8);
    assert(final(v)@ =~= old(v)@ + le32(x));
}

pub(crate) fn push_slice(v: &mut Vec<u8>, b: &[u8])
    ensures
        final(v)@ == old(v)@ + b@,
{
    let ghost v0 = v@;
    let mut k: usize = 0;
    while k < b.len()
        invariant
            k <= b@.len(),
            v@ == v0 + b@.subrange(0, k as int),
        decreases b@.len() - k,
    {
        v.push(b[k]);
        k = k + 1;
        assert(v@ =~= v0 + b@.subrange(0, k as int));
    }
    assert(b@.subrange(0, b@.len() as int) =~= b@);
}

/// The string whose UTF-8 encoding is `bytes`, if it is valid UTF-8.
///
/// Trusted: `std::str::from_utf8` succeeds exactly on valid UTF-8 and the text
/// is the decoding of the bytes, as std documents.
#[verifier::external_body]
pub(crate) fn utf8_to_string(bytes: &[u8]) -> (r: Option<String>)
    ensures
        r is Some <==> valid_utf8(bytes@),
        r matches Some(s) ==> s@ == decode_utf8(bytes@),
{
    std::str::from_utf8(bytes).ok().map(|s| s.to_string())
}

/// Writer of little-endian primitive values.
#[derive(Debug, Clone)]
pub struct ByteStreamOut {
    buf: Vec<u8>,
}

impl View for ByteStreamOut {
    type V = Seq<u8>;

    closed spec fn view(&self) -> Seq<u8> {
        self.buf@
    }
}

impl Default for ByteStreamOut {
    fn default() -> (r: Self)
        ensures
            r@ == Seq::<u8>::empty(),
    {
        ByteStreamOut::new()
    }
}

impl ByteStreamOut {
    /// An empty stream.
    pub fn new() -> (r: Self)
        ensures
            r@ == Seq::<u8>::empty(),
    {
        ByteStreamOut { buf: Vec::new() }
    }

    /// The bytes written so far.
    pub fn into_bytes(self) -> (r: Vec<u8>)
        ensures
            r@ == self@,
    {
        self.buf
    }

    pub fn put_u8(&mut self, v: u8)
        ensures
            final(self)@ == old(self)@.push(v),
    {
        self.buf.push(v);
    }

    pub fn put_u16_le(&mut self, v: u16)
        ensures
            final(self)@ == old(self)@ + le16(v),
    {
        push_u16_le(&mut self.buf, v);
    }

    pub fn put_u32_le(&mut self, v: u32)
        ensures
            final(self)@ == old(self)@ + le32(v),
    {
        push_u32_le(&mut self.buf, v);
    }

    pub fn put_u64_le(&mut self, v: u64)
        ensures
            final(self)@ == old(self)@ + le64(v),
    {
        push_u32_le(&mut self.buf, (v % 4294967296) as u32);
        push_u32_le(&mut self.buf, (v / 4294967296) as u32);
        assert(final(self)@ =~= old(self)@ + le64(v));
    }

    pub fn put_bytes(&mut self, b: &[u8])
        ensures
            final(self)@ == old(self)@ + b@,
    {
        push_slice(&mut self.buf, b);
    }

    /// Writes the UTF-8 bytes of `s` after their length as a little-endian
    /// `u16`; a length above `u16::MAX` is truncated to 16 bits.
    pub fn put_string_u16(&mut self, s: &str)
        ensures
            final(self)@ == old(self)@ + string_u16_bytes(s@),
    {
        let bytes = s.as_bytes();
        let len = (bytes.len() % 65536) as u16;
        self.put_u16_le(len);
        self.put_bytes(bytes);
        assert(final(self)@ =~= old(self)@ + string_u16_bytes(s@));
    }

    /// Writes a PID as a little-endian `u32`.
    pub fn put_pid(&mut self, pid: u32)
        ensures
            final(self)@ == old(self)@ + le32(pid),
    {
        self.put_u32_le(pid);
    }
}

/// Reader of little-endian primitive values; its view is the unread bytes.
#[derive(Debug)]
pub struct ByteStreamIn {
    buf: Vec<u8>,
    pos: usize,
}

impl View for ByteStreamIn {
    type V = Seq<u8>;

    closed spec fn view(&self) -> Seq<u8> {
        self.buf@.subrange(self.pos as int, self.buf@.len() as int)
    }
}

/// The error returned when a read needs more bytes than are left.
pub open spec fn is_underflow(e: Error) -> bool {
    is_nex_error(e, -1, "underflow"@)
}

impl ByteStreamIn {
    #[verifier::type_invariant]
    closed spec fn inv(&self) -> bool {
        self.pos <= self.buf@.len()
    }

    /// A reader over `b`.
    pub fn from_bytes(b: Vec<u8>) -> (r: Self)
        ensures
            r@ == b@,
    {
        let r = ByteStreamIn { buf: b, pos: 0 };
        assert(r@ =~= b@);
        r
    }

    /// A reader over the same unread bytes.
    pub fn duplicate(&self) -> (r: Self)
        ensures
            r@ == self@,
    {
        proof {
            use_type_invariant(self);
        }
        ByteStreamIn { buf: self.buf.clone(), pos: self.pos }
    }

    /// Number of unread bytes.
    pub fn remaining(&self) -> (n: usize)
        ensures
            n == self@.len(),
    {
        proof {
            use_type_invariant(self);
        }
        self.buf.len() - self.pos
    }

    /// Skips `n` unread bytes and returns them.
    fn take(&mut self, n: usize) -> (out: Vec<u8>)
        requires
            n <= old(self)@.len(),
        ensures
            out@ == old(self)@.subrange(0, n as int),
            final(self)@ == old(self)@.skip(n as int),
    {
        proof {
            use_type_invariant(&*self);
        }
        let blen = self.buf.len();
        let mut out: Vec<u8> = Vec::new();
        let mut k: usize = 0;
        while k < n
            invariant
                k <= n,
                blen == self.buf@.len(),
                self.pos + n <= self.buf@.len(),
                out@ == self.buf@.subrange(self.pos as int, self.pos + k),
            decreases n - k,
        {
            out.push(self.buf[self.pos + k]);
            k = k + 1;
            assert(out@ =~= self.buf@.subrange(self.pos as int, self.pos + k));
        }
        self.pos = self.pos + n;
        assert(out@ =~= old(self)@.subrange(0, n as int));
        assert(self@ =~= old(self)@.skip(n as int));
        out
    }

    /// Reads one byte; fails with "underflow" when none is left.
    pub fn get_u8(&mut self) -> (r: Result<u8>)
        ensures
            ({
                let s = old(self)@;
                if s.len() >= 1 {
                    r == Ok::<u8, Error>(s[0]) && final(self)@ == s.skip(1)
                } else {
                    (r matches Err(e) && is_underflow(e)) && final(self)@ == s
                }
            }),
    {
        if self.remaining() < 1 {
            return Err(Error::new(-1, "underflow"));
        }
        let b = self.take(1);
        Ok(b[0])
    }

    /// Reads a little-endian `u16`; fails with "underflow" when fewer than two
    /// bytes are left, reading nothing.
    pub fn get_u16_le(&mut self) -> (r: Result<u16>)
        ensures
            ({
                let s = old(self)@;
                if s.len() >= 2 {
                    r == Ok::<u16, Error>(from_le16(s)) && final(self)@ == s.skip(2)
                } else {
                    (r matches Err(e) && is_underflow(e)) && final(self)@ == s
                }
            }),
    {
        if self.remaining() < 2 {
            return Err(Error::new(-1, "underflow"));
        }
        let b = self.take(2);
        Ok((b[0] as u16) + 256 * (b[1] as u16))
    }

    /// Reads a little-endian `u32`; fails with "underflow" when fewer than four
    /// bytes are left, reading nothing.
    pub fn get_u32_le(&mut self) -> (r: Result<u32>)
        ensures
            ({
                let s = old(self)@;
                if s.len() >= 4 {
                    r == Ok::<u32, Error>(from_le32(s)) && final(self)@ == s.skip(4)
                } else {
                    (r matches Err(e) && is_underflow(e)) && final(self)@ == s
                }
            }),
    {
        if self.remaining() < 4 {
            return Err(Error::new(-1, "underflow"));
        }
        let b = self.take(4);
        Ok((b[0] as u32) + 256 * (b[1] as u32) + 65536 * (b[2] as u32) + 16777216 * (b[3] as u32))
    }

    /// Reads a string stored with a little-endian `u16` length prefix.
    ///
    /// The prefix is consumed even when the read then fails: "underflow" when
    /// fewer bytes than announced are left (nothing more is read), "invalid utf8"
    /// when the announced bytes, which are consumed, are not UTF-8.
    pub fn get_string_u16(&mut self) -> (r: Result<String>)
        ensures
            ({
                let s = old(self)@;
                if s.len() < 2 {
                    (r matches Err(e) && is_underflow(e)) && final(self)@ == s
                } else {
                    let n = from_le16(s) as int;
                    let rest = s.skip(2);
                    if rest.len() < n {
                        (r matches Err(e) && is_underflow(e)) && final(self)@ == rest
                    } else {
                        let body = rest.subrange(0, n);
                        &&& final(self)@ == rest.skip(n)
                        &&& valid_utf8(body) ==> (r matches Ok(t) && t@ == decode_utf8(body))
                        &&& !valid_utf8(body) ==> (r matches Err(e) && is_nex_error(
                            e,
                            -1,
                            "invalid utf8"@,
                        ))
                    }
                }
            }),
    {
        let len = self.get_u16_le()?;
        let len = len as usize;
        if self.remaining() < len {
            return Err(Error::new(-1, "underflow"));
        }
        let bytes = self.take(len);
        match utf8_to_string(bytes.as_slice()) {
            Some(s) => Ok(s),
            None => Err(Error::new(-1, "invalid utf8")),
        }
    }

    /// Reads a PID stored as a little-endian `u32`.
    pub fn get_pid(&mut self) -> (r: Result<u32>)
        ensures
            ({
                let s = old(self)@;
                if s.len() >= 4 {
                    r == Ok::<u32, Error>(from_le32(s)) && final(self)@ == s.skip(4)
                } else {
                    (r matches Err(e) && is_underflow(e)) && final(self)@ == s
                }
            }),
    {
        self.get_u32_le()
    }
}

impl Clone for ByteStreamIn {
    fn clone(&self) -> (r: Self)
        ensures
            r@ == self@,
    {
        self.duplicate()
    }
}

} // verus!
