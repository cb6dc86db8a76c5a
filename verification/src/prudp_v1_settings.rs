use vstd::prelude::*;
use vstd::string::StringSliceAdditionalSpecFns;
use crate::byte_stream::{le32, push_slice, push_u32_le};
use crate::hpp_packet::{hmac_md5, hmac_md5_spec};
use crate::kerberos::{md5_digest, md5_spec};
use crate::sum::{byte_sum, sum_bytes_u32};
use crate::types::address::SocketAddress;

verus! {

/// Settings of PRUDP v1 signatures.
#[derive(Debug, Clone)]
pub struct PRUDPV1Settings {
    /// When set, CONNECT packets are signed without their connection signature.
    pub legacy_connection_signature: bool,
    /// HMAC-MD5 key of the default connection signature.
    pub connection_signature_key: Vec<u8>,
    /// Access key of the default packet signature.
    pub access_key: String,
}

/// The default connection signature for `addr`: HMAC-MD5 under `key` of the
/// IPv4 octets followed by the big-endian port; sixteen zero bytes for IPv6.
pub open spec fn connection_signature_of(key: Seq<u8>, addr: SocketAddress) -> Seq<u8> {
    match addr {
        SocketAddress::V4 { octets, port } => hmac_md5_spec(
            key,
            octets@ + seq![(port / 256) as u8, (port % 256) as u8],
        ),
        SocketAddress::V6 => Seq::new(16, |k: int| 0u8),
    }
}

/// The message that the default packet signature authenticates: the header
/// without its first four bytes (all of it when shorter), the session key, the
/// byte sum of the access key (little-endian, wrapping at 2^32), the connection
/// signature when included, the options and the payload.
pub open spec fn signed_message(
    access_key: Seq<u8>,
    header: Seq<u8>,
    options: Seq<u8>,
    payload: Seq<u8>,
    session_key: Seq<u8>,
    connection_signature: Option<Seq<u8>>,
    include_conn_sig: bool,
) -> Seq<u8> {
    let h = if header.len() >= 4 {
        header.skip(4)
    } else {
        header
    };
    let cs = if include_conn_sig {
        match connection_signature {
            Some(c) => c,
            None => Seq::empty(),
        }
    } else {
        Seq::empty()
    };
    h + session_key + le32((byte_sum(access_key) % 4294967296) as u32) + cs + options + payload
}

/// The default packet signature: HMAC-MD5 of `signed_message`, keyed with the
/// MD5 of the access key.
pub open spec fn packet_signature_of(
    access_key: Seq<u8>,
    header: Seq<u8>,
    options: Seq<u8>,
    payload: Seq<u8>,
    session_key: Seq<u8>,
    connection_signature: Option<Seq<u8>>,
    include_conn_sig: bool,
) -> Seq<u8> {
    hmac_md5_spec(
        md5_spec(access_key),
        signed_message(
            access_key,
            header,
            options,
            payload,
            session_key,
            connection_signature,
            include_conn_sig,
        ),
    )
}

impl Default for PRUDPV1Settings {
    /// Modern connection signatures, a key of sixteen zero bytes, no access key.
    fn default() -> (r: Self)
        ensures
            !r.legacy_connection_signature,
            r.connection_signature_key@ == Seq::new(16, |k: int| 0u8),
            r.access_key@ == Seq::<char>::empty(),
    {
        let mut key: Vec<u8> = Vec::new();
        let mut k: usize = 0;
        while k < 16
            invariant
                k <= 16,
                key@ == Seq::new(k as nat, |m: int| 0u8),
            decreases 16 - k,
        {
            key.push(0);
            k = k + 1;
            assert(key@ =~= Seq::new(k as nat, |m: int| 0u8));
        }
        PRUDPV1Settings {
            legacy_connection_signature: false,
            connection_signature_key: key,
            access_key: String::new(),
        }
    }
}

impl PRUDPV1Settings {
    /// HMAC-MD5 of the IPv4 octets and big-endian port of `addr` under the
    /// connection signature key; zero for an IPv6 address.
    pub fn default_connection_signature(&self, addr: SocketAddress) -> (sig: [u8; 16])
        ensures
            sig@ == connection_signature_of(self.connection_signature_key@, addr),
    {
        match addr {
            SocketAddress::V4 { octets, port } => {
                let mut data: Vec<u8> = Vec::new();
                push_slice(&mut data, octets.as_slice());
                data.push((port / 256) as u8);
                data.push((port % 256) as u8);
                assert(data@ =~= octets@ + seq![(port / 256) as u8, (port % 256) as u8]);
                hmac_md5(self.connection_signature_key.as_slice(), data.as_slice())
            },
            SocketAddress::V6 => {
                let z = [0u8; 16];
                assert(z@ =~= Seq::new(16, |k: int| 0u8));
                z
            },
        }
    }

    /// The default packet signature of a packet made of `header`, `options` and
    /// `payload`, as `packet_signature_of` describes.
    pub fn default_signature(
        &self,
        header: &[u8],
        options: &[u8],
        payload: &[u8],
        session_key: &[u8],
        connection_signature: Option<&[u8]>,
        include_conn_sig: bool,
    ) -> (sig: [u8; 16])
        ensures
            sig@ == packet_signature_of(
                vstd::utf8::encode_utf8(self.access_key@),
                header@,
                options@,
                payload@,
                session_key@,
                match connection_signature {
                    Some(c) => Some(c@),
                    None => None,
                },
                include_conn_sig,
            ),
    {
        let access_key_bytes = self.access_key.as_str().as_bytes();
        let key_md5 = md5_digest(access_key_bytes);
        let sum = sum_bytes_u32(access_key_bytes);
        let mut msg: Vec<u8> = Vec::new();
        if header.len() >= 4 {
            let tail = crate::prudp::packet::copy_range(header, 4, header.len());
            push_slice(&mut msg, tail.as_slice());
            assert(tail@ =~= header@.skip(4));
        } else {
            push_slice(&mut msg, header);
        }
        push_slice(&mut msg, session_key);
        push_u32_le(&mut msg, sum);
        if include_conn_sig {
            if let Some(cs) = connection_signature {
                push_slice(&mut msg, cs);
            }
        }
        push_slice(&mut msg, options);
        push_slice(&mut msg, payload);
        let ghost cso = match connection_signature {
            Some(c) => Some(c@),
            None => None,
        };
        assert(msg@ =~= signed_message(
            access_key_bytes@,
            header@,
            options@,
            payload@,
            session_key@,
            cso,
            include_conn_sig,
        ));
        hmac_md5(key_md5.as_slice(), msg.as_slice())
    }
}

/// The packet signature authenticates, under the MD5 of the access key, a
/// message laid out as: the header from its fifth byte on, then the session
/// key bytes, then the byte sum of the access key as four little-endian bytes
/// (wrapping at 2^32), then the connection signature when it is included, the
/// options and the payload.
pub proof fn lemma_signature_layout(
    access_key: Seq<u8>,
    header: Seq<u8>,
    options: Seq<u8>,
    payload: Seq<u8>,
    session_key: Seq<u8>,
    connection_signature: Option<Seq<u8>>,
    include_conn_sig: bool,
)
    requires
        header.len() >= 4,
    ensures
        ({
            let msg = signed_message(
                access_key,
                header,
                options,
                payload,
                session_key,
                connection_signature,
                include_conn_sig,
            );
            let h = (header.len() - 4) as int;
            let k = session_key.len() as int;
            let s = byte_sum(access_key) % 4294967296;
            let cs = if include_conn_sig && connection_signature is Some {
                connection_signature->0
            } else {
                Seq::empty()
            };
            &&& packet_signature_of(
                access_key,
                header,
                options,
                payload,
                session_key,
                connection_signature,
                include_conn_sig,
            ) == hmac_md5_spec(md5_spec(access_key), msg)
            &&& msg.len() == h + k + 4 + cs.len() + options.len() + payload.len()
            &&& msg.subrange(0, h) == header.skip(4)
            &&& msg.subrange(h, h + k) == session_key
            &&& msg[h + k] == s % 256
            &&& msg[h + k + 1] == (s / 256) % 256
            &&& msg[h + k + 2] == (s / 65536) % 256
            &&& msg[h + k + 3] == s / 16777216
            &&& msg.skip(h + k + 4) == cs + options + payload
        }),
{
    let msg = signed_message(
        access_key,
        header,
        options,
        payload,
        session_key,
        connection_signature,
        include_conn_sig,
    );
    let h = (header.len() - 4) as int;
    let k = session_key.len() as int;
    let cs = if include_conn_sig && connection_signature is Some {
        connection_signature->0
    } else {
        Seq::empty()
    };
    let four = le32((byte_sum(access_key) % 4294967296) as u32);
    assert(msg =~= header.skip(4) + session_key + four + cs + options + payload);
    assert(msg.subrange(0, h) =~= header.skip(4));
    assert(msg.subrange(h, h + k) =~= session_key);
    assert(msg.skip(h + k + 4) =~= cs + options + payload);
}

/// The signed message depends on the session key: two session keys of the
/// same length that differ give different messages for the same packet.
pub proof fn lemma_signed_message_depends_on_session_key(
    access_key: Seq<u8>,
    header: Seq<u8>,
    options: Seq<u8>,
    payload: Seq<u8>,
    key1: Seq<u8>,
    key2: Seq<u8>,
    connection_signature: Option<Seq<u8>>,
    include_conn_sig: bool,
)
    requires
        header.len() >= 4,
        key1.len() == key2.len(),
        key1 != key2,
    ensures
        signed_message(access_key, header, options, payload, key1, connection_signature, include_conn_sig)
            != signed_message(access_key, header, options, payload, key2, connection_signature, include_conn_sig),
{
    lemma_signature_layout(access_key, header, options, payload, key1, connection_signature, include_conn_sig);
    lemma_signature_layout(access_key, header, options, payload, key2, connection_signature, include_conn_sig);
}

} // verus!
