use vstd::prelude::*;
use vstd::string::StringSliceAdditionalSpecFns;
use hmac::{Hmac, Mac};
use md5::Md5;
use crate::byte_stream_in::ByteStreamIn;
use crate::error::{is_nex_error, Error, Result};
use crate::rmc_message::{rmc_decoding, rmc_encoding, RMCMessage};

verus! {

/// HMAC-MD5 of `data` under `key` (16 bytes), as computed by the `hmac` crate.
pub uninterp spec fn hmac_md5_spec(key: Seq<u8>, data: Seq<u8>) -> Seq<u8>;

/// HMAC-MD5 of `data` under `key`, via `hmac::Hmac<md5::Md5>`
/// (`new_from_slice`, `update`, `finalize`).
///
/// Trusted: the result is the 16-byte tag that the crate computes, named
/// `hmac_md5_spec`. `new_from_slice` accepts keys of every length, so the call
/// does not fail.
#[verifier::external_body]
pub(crate) fn hmac_md5(key: &[u8], data: &[u8]) -> (tag: [u8; 16])
    ensures
        tag@ == hmac_md5_spec(key@, data@),
{
    let mut mac = <Hmac<Md5> as Mac>::new_from_slice(key).expect("hmac key");
    mac.update(data);
    let out = mac.finalize().into_bytes();
    let mut arr = [0u8; 16];
    arr.copy_from_slice(&out[..16]);
    arr
}

/// Value of an ASCII hexadecimal digit (either case).
pub open spec fn hex_digit(c: u8) -> Option<u8> {
    if 0x30 <= c <= 0x39 {
        Some((c - 0x30) as u8)
    } else if 0x41 <= c <= 0x46 {
        Some((c - 0x41 + 10) as u8)
    } else if 0x61 <= c <= 0x66 {
        Some((c - 0x61 + 10) as u8)
    } else {
        None
    }
}

/// The bytes that a hexadecimal text denotes: `None` when its length is odd
/// or it holds a byte that is not a hex digit.
pub open spec fn hex_decoding(s: Seq<u8>) -> Option<Seq<u8>> {
    if s.len() % 2 != 0 {
        None
    } else if exists|k: int| 0 <= k < s.len() && (#[trigger] hex_digit(s[k])) is None {
        None
    } else {
        Some(
            Seq::new(
                s.len() / 2,
                |i: int| (hex_digit(s[2 * i])->0 * 16 + hex_digit(s[2 * i + 1])->0) as u8,
            ),
        )
    }
}

/// Decodes a hexadecimal text with `hex::decode`.
///
/// Trusted: as the crate's source shows, it fails on an odd length or a byte
/// that is not a hex digit of either case, and otherwise yields one byte per
/// pair of digits, high digit first. The error is returned as the text of the
/// crate's error (`to_string`), which is not stated.
#[verifier::external_body]
fn hex_decode(text: &str) -> (r: std::result::Result<Vec<u8>, String>)
    ensures
        match hex_decoding(text.spec_bytes()) {
            Some(v) => r matches Ok(b) && b@ == v,
            None => r is Err,
        },
{
    hex::decode(text).map_err(|e| e.to_string())
}

/// Compares two 16-byte signatures.
pub(crate) fn sig_eq(a: &[u8; 16], b: &[u8; 16]) -> (r: bool)
    ensures
        r == (a@ == b@),
{
    let mut k: usize = 0;
    while k < 16
        invariant
            k <= 16,
            a@.len() == 16,
            b@.len() == 16,
            forall|m: int| 0 <= m < k ==> a@[m] == b@[m],
        decreases 16 - k,
    {
        if a[k] != b[k] {
            return false;
        }
        k = k + 1;
    }
    assert(a@ =~= b@);
    true
}

/// An HPP packet: sender, RMC payload, its two signatures and, when the payload
/// reads as one, the RMC message.
#[derive(Debug, Clone)]
pub struct HPPPacket {
    pub sender_pid: u32,
    pub payload: Vec<u8>,
    pub access_key_signature: [u8; 16],
    pub password_signature: [u8; 16],
    pub message: Option<RMCMessage>,
}

/// The signature of `payload` under the access key given in hexadecimal, or
/// `None` when the key text is not hexadecimal.
pub open spec fn access_key_signature_of(access_key_hex: Seq<u8>, payload: Seq<u8>) -> Option<
    Seq<u8>,
> {
    match hex_decoding(access_key_hex) {
        Some(key) => Some(hmac_md5_spec(key, payload)),
        None => None,
    }
}

impl Default for HPPPacket {
    fn default() -> (r: Self)
        ensures
            r.sender_pid == 0,
            r.payload@.len() == 0,
            r.access_key_signature@ == Seq::new(16, |k: int| 0u8),
            r.password_signature@ == Seq::new(16, |k: int| 0u8),
            r.message is None,
    {
        let r = HPPPacket {
            sender_pid: 0,
            payload: Vec::new(),
            access_key_signature: [0u8; 16],
            password_signature: [0u8; 16],
            message: None,
        };
        assert(r.access_key_signature@ =~= Seq::new(16, |k: int| 0u8));
        assert(r.password_signature@ =~= Seq::new(16, |k: int| 0u8));
        r
    }
}

impl HPPPacket {
    /// A packet from `sender_pid` carrying `msg`; both signatures are zero.
    pub fn from_rmc(sender_pid: u32, msg: RMCMessage) -> (r: Self)
        ensures
            r.sender_pid == sender_pid,
            r.payload@ == rmc_encoding(msg.protocol_id, msg.method_id, msg.call_id, msg.body@),
            r.message == Some(msg),
            r.access_key_signature@ == Seq::new(16, |k: int| 0u8),
            r.password_signature@ == Seq::new(16, |k: int| 0u8),
    {
        let payload = msg.to_bytes();
        let mut r = HPPPacket::default();
        r.sender_pid = sender_pid;
        r.payload = payload;
        r.message = Some(msg);
        r
    }

    /// A packet from `sender_pid` with `payload`; the message is present when
    /// the payload reads as an RMC message. Always succeeds.
    pub fn parse(sender_pid: u32, payload: Vec<u8>) -> (r: Result<Self>)
        ensures
            r matches Ok(p) && p.sender_pid == sender_pid && p.payload@ == payload@ && (match rmc_decoding(
                payload@,
            ) {
                Ok((pr, m, c, b)) => p.message matches Some(msg) && msg.protocol_id == pr
                    && msg.method_id == m && msg.call_id == c && msg.body@ == b,
                Err(_) => p.message is None,
            }) && p.access_key_signature@ == Seq::new(16, |k: int| 0u8)
                && p.password_signature@ == Seq::new(16, |k: int| 0u8),
    {
        let copy = payload.clone();
        let msg = RMCMessage::from_bytes(ByteStreamIn::from_bytes(copy)).ok();
        let mut r = HPPPacket::default();
        r.sender_pid = sender_pid;
        r.payload = payload;
        r.message = msg;
        Ok(r)
    }

    /// HMAC-MD5 of the payload under the access key given in hexadecimal.
    /// Fails when the key text is not hexadecimal, with a message that starts
    /// with "bad access key hex: ".
    pub fn calculate_access_key_signature(&self, access_key_hex: &str) -> (r: Result<[u8; 16]>)
        ensures
            match access_key_signature_of(access_key_hex.spec_bytes(), self.payload@) {
                Some(sig) => r matches Ok(s) && s@ == sig,
                None => r matches Err(Error::Nex { result_code, message }) && result_code == -1
                    && message@.subrange(0, 20) == "bad access key hex: "@,
            },
    {
        match hex_decode(access_key_hex) {
            Ok(key) => Ok(hmac_md5(key.as_slice(), self.payload.as_slice())),
            Err(text) => {
                let mut message = String::from_str("bad access key hex: ");
                proof {
                    reveal_strlit("bad access key hex: ");
                }
                let ghost prefix = message@;
                message.append(text.as_str());
                assert(message@.subrange(0, 20) =~= prefix);
                Err(Error::Nex { result_code: -1, message })
            },
        }
    }

    /// HMAC-MD5 of the payload under `password_key`.
    pub fn calculate_password_signature(&self, password_key: &[u8]) -> (r: [u8; 16])
        ensures
            r@ == hmac_md5_spec(password_key@, self.payload@),
    {
        hmac_md5(password_key, self.payload.as_slice())
    }

    /// Succeeds when the stored access key signature is the one computed from
    /// the key; fails as `calculate_access_key_signature` does, or with
    /// "Access key signature does not match".
    pub fn validate_access_key_signature(&self, access_key_hex: &str) -> (r: Result<()>)
        ensures
            match access_key_signature_of(access_key_hex.spec_bytes(), self.payload@) {
                Some(sig) => if sig == self.access_key_signature@ {
                    r is Ok
                } else {
                    r matches Err(e) && is_nex_error(e, -1, "Access key signature does not match"@)
                },
                None => r matches Err(Error::Nex { result_code, message }) && result_code == -1
                    && message@.subrange(0, 20) == "bad access key hex: "@,
            },
    {
        let calc = self.calculate_access_key_signature(access_key_hex)?;
        if !sig_eq(&calc, &self.access_key_signature) {
            return Err(Error::new(-1, "Access key signature does not match"));
        }
        Ok(())
    }

    /// Succeeds when the stored password signature is the one computed from
    /// `password_key`, else fails with "Password signature does not match".
    pub fn validate_password_signature(&self, password_key: &[u8]) -> (r: Result<()>)
        ensures
            if hmac_md5_spec(password_key@, self.payload@) == self.password_signature@ {
                r is Ok
            } else {
                r matches Err(e) && is_nex_error(e, -1, "Password signature does not match"@)
            },
    {
        let calc = self.calculate_password_signature(password_key);
        if !sig_eq(&calc, &self.password_signature) {
            return Err(Error::new(-1, "Password signature does not match"));
        }
        Ok(())
    }
}

} // verus!
