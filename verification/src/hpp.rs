pub mod packet;
pub mod rmc;

use vstd::prelude::*;
use vstd::string::StringSliceAdditionalSpecFns;
use crate::error::{Error, Result};
use crate::hpp_packet::{access_key_signature_of, hmac_md5_spec, HPPPacket};
use crate::kerberos::{derive_kerberos_key, kerberos_rounds, md5_iterate};
use crate::rmc_message::{rmc_encoding, RMCMessage};
use crate::types::pid::PID;

verus! {

/// The password signature of `payload` for user `pid`: HMAC-MD5 under the
/// user's Kerberos key.
pub open spec fn password_signature_of(pid: u32, password: Seq<u8>, payload: Seq<u8>) -> Seq<u8> {
    hmac_md5_spec(md5_iterate(password, kerberos_rounds(pid)), payload)
}

/// An HPP packet from `pid` carrying `msg`, with its access key signature and
/// its password signature (under the Kerberos key derived from `password`).
/// Fails, as `HPPPacket::calculate_access_key_signature` does, when the access
/// key text is not hexadecimal.
pub fn build_hpp_with_signatures(
    pid: PID,
    password: &str,
    access_key_hex: &str,
    msg: RMCMessage,
) -> (r: Result<HPPPacket>)
    ensures
        ({
            let payload = rmc_encoding(msg.protocol_id, msg.method_id, msg.call_id, msg.body@);
            match access_key_signature_of(access_key_hex.spec_bytes(), payload) {
                Some(sig) => r matches Ok(p) && p.sender_pid == pid.0 && p.payload@ == payload
                    && p.message == Some(msg) && p.access_key_signature@ == sig
                    && p.password_signature@ == password_signature_of(
                    pid.0,
                    password.spec_bytes(),
                    payload,
                ),
                None => r matches Err(Error::Nex { result_code, message }) && result_code == -1
                    && message@.subrange(0, 20) == "bad access key hex: "@,
            }
        }),
{
    let mut pkt = HPPPacket::from_rmc(pid.0, msg);
    pkt.access_key_signature = pkt.calculate_access_key_signature(access_key_hex)?;
    let key = derive_kerberos_key(pid, password.as_bytes());
    pkt.password_signature = pkt.calculate_password_signature(key.as_slice());
    Ok(pkt)
}

/// A packet whose signatures are those computed from the access key and from
/// the password key passes both validations: the access key check succeeds
/// exactly when the stored signature equals the computed one, and so does the
/// password check.
pub proof fn lemma_signed_packet_validates(p: HPPPacket, access_key_hex: Seq<u8>, password_key: Seq<u8>)
    requires
        access_key_signature_of(access_key_hex, p.payload@) == Some(p.access_key_signature@),
        p.password_signature@ == hmac_md5_spec(password_key, p.payload@),
    ensures
        access_key_signature_of(access_key_hex, p.payload@) matches Some(sig) && sig
            == p.access_key_signature@,
        hmac_md5_spec(password_key, p.payload@) == p.password_signature@,
{
}

} // verus!
