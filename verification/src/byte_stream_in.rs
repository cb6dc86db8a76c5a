use vstd::prelude::*;
use vstd::utf8::{decode_utf8, valid_utf8};
use crate::byte_stream::{from_le16, from_le32, is_underflow, ByteStreamIn as RawIn};
use crate::byte_stream_settings::ByteStreamSettings;
use crate::error::{is_nex_error, Error, Result};

verus! {

/// Reader of protocol values with optional stream settings; its view is the
/// unread bytes.
#[derive(Debug, Clone)]
pub struct ByteStreamIn {
    inner: RawIn,
    pub settings: Option<ByteStreamSettings>,
}

impl View for ByteStreamIn {
    type V = Seq<u8>;

    closed spec fn view(&self) -> Seq<u8> {
        self.inner@
    }
}

impl ByteStreamIn {
    /// The settings the stream carries.
    pub closed spec fn current_settings(&self) -> Option<ByteStreamSettings> {
        self.settings
    }

    /// A reader over `b`, without settings.
    pub fn from_bytes(b: Vec<u8>) -> (r: Self)
        ensures
            r@ == b@,
            r.current_settings() is None,
    {
        ByteStreamIn { inner: RawIn::from_bytes(b), settings: None }
    }

    /// Number of unread bytes.
    pub fn remaining(&self) -> (n: usize)
        ensures
            n == self@.len(),
    {
        self.inner.remaining()
    }

    /// Reads one byte; fails with "underflow", reading nothing, when none is left.
    pub fn read_u8(&mut self) -> (r: Result<u8>)
        ensures
            final(self).current_settings() == old(self).current_settings(),
            ({
                let s = old(self)@;
                if s.len() >= 1 {
                    r == Ok::<u8, Error>(s[0]) && final(self)@ == s.skip(1)
                } else {
                    (r matches Err(e) && is_underflow(e)) && final(self)@ == s
                }
            }),
    {
        self.inner.get_u8()
    }

    /// Reads a little-endian `u16`; fails with "underflow", reading nothing,
    /// when fewer than two bytes are left.
    pub fn read_u16_le(&mut self) -> (r: Result<u16>)
        ensures
            final(self).current_settings() == old(self).current_settings(),
            ({
                let s = old(self)@;
                if s.len() >= 2 {
                    r == Ok::<u16, Error>(from_le16(s)) && final(self)@ == s.skip(2)
                } else {
                    (r matches Err(e) && is_underflow(e)) && final(self)@ == s
                }
            }),
    {
        self.inner.get_u16_le()
    }

    /// Reads a little-endian `u32`; fails with "underflow", reading nothing,
    /// when fewer than four bytes are left.
    pub fn read_u32_le(&mut self) -> (r: Result<u32>)
        ensures
            final(self).current_settings() == old(self).current_settings(),
            ({
                let s = old(self)@;
                if s.len() >= 4 {
                    r == Ok::<u32, Error>(from_le32(s)) && final(self)@ == s.skip(4)
                } else {
                    (r matches Err(e) && is_underflow(e)) && final(self)@ == s
                }
            }),
    {
        self.inner.get_u32_le()
    }

    /// Reads a string stored with a little-endian `u16` length prefix, as
    /// `byte_stream::ByteStreamIn::get_string_u16` does.
    pub fn read_string_u16(&mut self) -> (r: Result<String>)
        ensures
            final(self).current_settings() == old(self).current_settings(),
            ({
                let s = old(self)@;
                if s.len() < 2 {
                    (r matches Err(e) && is_underflow(e)) && final(self)@ == s
                } else {
                    let n = from_le16(s) as int;
                    let rest = s.skip(2);
                    if rest.len() < n {
                        (r matches Err(e) && is_underflow(e)) && final(self)@ == rest
                    } else {
                        let body = rest.subrange(0, n);
                        &&& final(self)@ == rest.skip(n)
                        &&& valid_utf8(body) ==> (r matches Ok(t) && t@ == decode_utf8(body))
                        &&& !valid_utf8(body) ==> (r matches Err(e) && is_nex_error(
                            e,
                            -1,
                            "invalid utf8"@,
                        ))
                    }
                }
            }),
    {
        self.inner.get_string_u16()
    }

    /// Reads a PID stored as a little-endian `u32`.
    pub fn read_pid(&mut self) -> (r: Result<u32>)
        ensures
            final(self).current_settings() == old(self).current_settings(),
            ({
                let s = old(self)@;
                if s.len() >= 4 {
                    r == Ok::<u32, Error>(from_le32(s)) && final(self)@ == s.skip(4)
                } else {
                    (r matches Err(e) && is_underflow(e)) && final(self)@ == s
                }
            }),
    {
        self.inner.get_pid()
    }

    /// Reads `n` bytes one at a time. When fewer are left, all that are left
    /// are consumed and the read fails with "underflow".
    pub fn read_bytes(&mut self, n: usize) -> (r: Result<Vec<u8>>)
        ensures
            final(self).current_settings() == old(self).current_settings(),
            ({
                let s = old(self)@;
                if n <= s.len() {
                    (r matches Ok(v) && v@ == s.subrange(0, n as int)) && final(self)@ == s.skip(
                        n as int,
                    )
                } else {
                    (r matches Err(e) && is_underflow(e)) && final(self)@ == Seq::<u8>::empty()
                }
            }),
    {
        let ghost s = self@;
        let mut out: Vec<u8> = Vec::new();
        let mut i: usize = 0;
        while i < n
            invariant
                i <= n,
                i <= s.len(),
                s == old(self)@,
                self.current_settings() == old(self).current_settings(),
                out@ == s.subrange(0, i as int),
                self@ == s.skip(i as int),
            decreases n - i,
        {
            let b = self.inner.get_u8();
            match b {
                Ok(v) => {
                    out.push(v);
                    i = i + 1;
                    assert(out@ =~= s.subrange(0, i as int));
                    assert(self@ =~= s.skip(i as int));
                },
                Err(e) => {
                    assert(self@ =~= Seq::<u8>::empty());
                    return Err(e);
                },
            }
        }
        Ok(out)
    }
}

} // verus!
