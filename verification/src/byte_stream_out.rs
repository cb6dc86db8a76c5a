use vstd::prelude::*;
use crate::byte_stream::{le16, le32, string_u16_bytes, ByteStreamOut as RawOut};
use crate::byte_stream_settings::ByteStreamSettings;

verus! {

/// Writer of protocol values with optional stream settings; its view is the
/// bytes written so far.
#[derive(Debug, Clone)]
pub struct ByteStreamOut {
    inner: RawOut,
    pub settings: Option<ByteStreamSettings>,
}

impl View for ByteStreamOut {
    type V = Seq<u8>;

    closed spec fn view(&self) -> Seq<u8> {
        self.inner@
    }
}

impl ByteStreamOut {
    /// The settings the stream carries.
    pub closed spec fn current_settings(&self) -> Option<ByteStreamSettings> {
        self.settings
    }

    /// An empty stream without settings.
    pub fn new() -> (r: Self)
        ensures
            r@ == Seq::<u8>::empty(),
            r.current_settings() is None,
    {
        ByteStreamOut { inner: RawOut::new(), settings: None }
    }

    pub fn put_u8(&mut self, v: u8)
        ensures
            final(self)@ == old(self)@.push(v),
            final(self).current_settings() == old(self).current_settings(),
    {
        self.inner.put_u8(v);
    }

    pub fn put_u16_le(&mut self, v: u16)
        ensures
            final(self)@ == old(self)@ + le16(v),
            final(self).current_settings() == old(self).current_settings(),
    {
        self.inner.put_u16_le(v);
    }

    pub fn put_u32_le(&mut self, v: u32)
        ensures
            final(self)@ == old(self)@ + le32(v),
            final(self).current_settings() == old(self).current_settings(),
    {
        self.inner.put_u32_le(v);
    }

    pub fn put_bytes(&mut self, b: &[u8])
        ensures
            final(self)@ == old(self)@ + b@,
            final(self).current_settings() == old(self).current_settings(),
    {
        self.inner.put_bytes(b);
    }

    /// Writes the UTF-8 bytes of `s` after their length as a little-endian
    /// `u16` (truncated to 16 bits).
    pub fn put_string_u16(&mut self, s: &str)
        ensures
            final(self)@ == old(self)@ + string_u16_bytes(s@),
            final(self).current_settings() == old(self).current_settings(),
    {
        self.inner.put_string_u16(s);
    }

    /// Writes a PID as a little-endian `u32`.
    pub fn put_pid(&mut self, pid: u32)
        ensures
            final(self)@ == old(self)@ + le32(pid),
            final(self).current_settings() == old(self).current_settings(),
    {
        self.inner.put_pid(pid);
    }

    /// The bytes written so far.
    pub fn into_bytes(self) -> (r: Vec<u8>)
        ensures
            r@ == self@,
    {
        self.inner.into_bytes()
    }
}

} // verus!
