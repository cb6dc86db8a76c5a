use hmac::{Hmac, Mac};
use md5::{Digest, Md5};
use nex::account::Account;
use nex::algorithm::EncryptionAlgorithm;
use nex::auth::encryption::xor_encrypt;
use nex::auth::kerberos::{make_dummy_ticket, validate_ticket};
use nex::auth::rc4::Rc4;
use nex::byte_stream::{ByteStreamIn, ByteStreamOut};
use nex::compression::algorithm::Algorithm;
use nex::compression::lzo::Lzo;
use nex::compression::zlib::Zlib;
use nex::constants::signature_method::SignatureMethod;
use nex::counter::Counter;
use nex::crypto::kerberos::{Kerberos, Ticket};
use nex::crypto::stub::CryptoStub;
use nex::dummy::DummyEncryption;
use nex::error::Error;
use nex::hpp::build_hpp_with_signatures;
use nex::hpp::packet::HppPacket;
use nex::hpp::rmc::RmcMessage;
use nex::hpp_packet::HPPPacket;
use nex::prudp::connection::ConnectionState;
use nex::prudp::crypto::PrudpCrypto;
use nex::prudp::fragmentation::fragment_into_packets;
use nex::prudp::packet::{Flags, PRUDPHeader, PRUDPPacket};
use nex::prudp::packet_dispatch_queue::PacketDispatchQueue;
use nex::prudp::sliding::{RecvState, SlidingWindow};
use nex::prudp_connection::{decode_datagram, PRUDPConnectionState};
use nex::prudp_v1_settings::PRUDPV1Settings;
use nex::rmc_message::RMCMessage;
use nex::rtt::RTT;
use nex::rv::SessionTable;
use nex::services::auth::AuthService;
use nex::sum::sum_bytes_u32;
use nex::time::{Duration, Instant};
use nex::types::address::SocketAddress;
use nex::types::pid::PID;

fn nex_error(e: Error) -> (i32, String) {
    match e {
        Error::Nex { result_code, message } => (result_code, message),
        _ => panic!("not a NEX error"),
    }
}

fn other_error(e: Error) -> String {
    match e {
        Error::Other(m) => m,
        _ => panic!("not an Other error"),
    }
}

fn header(seq: u16, flags: u8, payload_len: Option<usize>) -> PRUDPHeader {
    PRUDPHeader { version: 1, packet_type: 2, flags, session_id: 1, sequence_id: seq, ack_id: 0, payload_len }
}

fn packet(seq: u16, flags: u8, payload: Vec<u8>) -> PRUDPPacket {
    PRUDPPacket {
        header: header(seq, flags, None),
        payload,
        fragment_id: None,
        fragment_index: None,
        fragment_count: None,
    }
}

// ---- trusted wrappers, checked against the outside crates ----

#[test]
fn kerberos_key_is_md5_of_pid_and_password() {
    let key = nex::prudp::crypto::derive_key_stub(1, b"pw");
    let expect = Md5::digest([1u8, 0, 0, 0, b'p', b'w']);
    assert_eq!(key, expect.to_vec());
    assert_ne!(key, b"pw".to_vec());
}

#[test]
fn md5_iterated_derivation_is_stable() {
    let k = nex::auth::kerberos::derive_kerberos_key(0, b"pass");
    let mut expect = b"pass".to_vec();
    for _ in 0..65000 {
        expect = Md5::digest(&expect).to_vec();
    }
    assert_eq!(k, expect);
    assert_eq!(nex::kerberos::derive_kerberos_key(PID(1024), b"pass"), k);
}

#[test]
fn password_signature_is_hmac_md5() {
    let pkt = HPPPacket::from_rmc(7, RMCMessage { protocol_id: 1, method_id: 2, call_id: 3, body: vec![4] });
    let sig = pkt.calculate_password_signature(b"Jefe");
    let mut mac = Hmac::<Md5>::new_from_slice(b"Jefe").unwrap();
    mac.update(&pkt.payload);
    assert_eq!(sig.to_vec(), mac.finalize().into_bytes().to_vec());
}

#[test]
fn access_key_signature_decodes_hex_key() {
    let pkt = HPPPacket::from_rmc(7, RMCMessage { protocol_id: 1, method_id: 2, call_id: 3, body: vec![] });
    let sig = pkt.calculate_access_key_signature("0102").unwrap();
    let mut mac = Hmac::<Md5>::new_from_slice(&[1u8, 2u8]).unwrap();
    mac.update(&pkt.payload);
    assert_eq!(sig.to_vec(), mac.finalize().into_bytes().to_vec());
}

#[test]
fn access_key_signature_rejects_bad_hex() {
    let pkt = HPPPacket::from_rmc(7, RMCMessage { protocol_id: 1, method_id: 2, call_id: 3, body: vec![] });
    let (code, msg) = nex_error(pkt.calculate_access_key_signature("zz").unwrap_err());
    assert_eq!(code, -1);
    assert!(msg.starts_with("bad access key hex: "));
}

#[test]
fn string_reads_reject_bad_utf8() {
    let mut s = ByteStreamIn::from_bytes(vec![2, 0, 0xff, 0xfe]);
    let (code, msg) = nex_error(s.get_string_u16().unwrap_err());
    assert_eq!((code, msg.as_str()), (-1, "invalid utf8"));
    assert_eq!(s.remaining(), 0);
    let mut t = ByteStreamIn::from_bytes(vec![2, 0, b'h', b'i']);
    assert_eq!(t.get_string_u16().unwrap(), "hi");
}

#[test]
fn zlib_roundtrip_and_bad_input() {
    let z = Zlib;
    let data = b"aaaaaaaaaaaaaaaaaaaaaaaaaaaaaaaaaaaaaaaaaaaaaaaaaaaa".to_vec();
    let packed = z.compress(&data).unwrap();
    assert_ne!(packed, data);
    assert_eq!(z.decompress(&packed).unwrap(), data);
    assert!(matches!(z.decompress(&[1, 2, 3]), Err(Error::Io(_))));
}

#[test]
fn lzo_always_fails() {
    let (code, msg) = nex_error(Lzo.compress(&[1]).unwrap_err());
    assert_eq!((code, msg.as_str()), (-1, "LZO compression not implemented"));
    let (code, msg) = nex_error(Lzo.decompress(&[1]).unwrap_err());
    assert_eq!((code, msg.as_str()), (-1, "LZO decompression not implemented"));
}

#[test]
fn issued_tickets_carry_the_user() {
    let t = Kerberos::issue_ticket(77);
    assert_eq!(t.user_id, 77);
}

#[test]
fn clock_moves_forward_from_the_epoch() {
    let a = Instant::now();
    assert!(a.nanos > 0);
    let d = Instant { nanos: 5 }.duration_since(Instant { nanos: 9 });
    assert_eq!(d.nanos, 0);
    assert_eq!(Instant { nanos: 9 }.duration_since(Instant { nanos: 5 }).nanos, 4);
}

// ---- ciphers ----

#[test]
fn rc4_known_vector() {
    let rc = Rc4::new(b"Key");
    let out = rc.process_vec(b"Plaintext".to_vec());
    assert_eq!(out, vec![0xBB, 0xF3, 0x16, 0xE8, 0xD9, 0x40, 0xAF, 0x0A, 0xD3]);
}

#[test]
fn xor_twice_restores() {
    let mut d = vec![1u8, 2, 3];
    xor_encrypt(&mut d, 0x0f);
    assert_eq!(d, vec![0x0e, 0x0d, 0x0c]);
    xor_encrypt(&mut d, 0x0f);
    assert_eq!(d, vec![1, 2, 3]);
}

#[test]
fn prudp_crypto_keystream_repeats() {
    let mut c = PrudpCrypto::new(&[1, 2]);
    let mut d = [0u8, 0, 0];
    c.transform(&mut d);
    assert_eq!(d, [1, 2, 1]);
    assert_eq!(c.pos, 3);
    let mut e = [0u8];
    c.transform(&mut e);
    assert_eq!(e, [2]);
}

#[test]
fn ticket_encrypt_decrypt() {
    let mut key = [0u8; 16];
    for (i, k) in key.iter_mut().enumerate() {
        *k = i as u8;
    }
    let t = Ticket { session_key: key, user_id: 1 };
    let data = vec![0u8; 18];
    let c = Kerberos::encrypt(&t, &data);
    assert_eq!(c[3], 3);
    assert_eq!(c[17], 1);
    assert_eq!(Kerberos::decrypt(&t, &c), data);
}

#[test]
fn stub_and_dummy_pass_data_through() {
    let s = CryptoStub::new();
    assert_eq!(s.aes_encrypt(&[9], &[1, 2]).unwrap(), vec![1, 2]);
    assert_eq!(s.aes_decrypt(&[9], &[3]).unwrap(), vec![3]);
    assert!(s.hmac(&[1], &[2]).unwrap().is_empty());
    let d = DummyEncryption;
    assert_eq!(d.encrypt(&[5, 6]).unwrap(), vec![5, 6]);
    assert_eq!(d.decrypt(&[7]).unwrap(), vec![7]);
}

#[test]
fn tickets_validate() {
    assert!(validate_ticket(&[]).unwrap());
    assert!(validate_ticket(&make_dummy_ticket(&[])).unwrap());
    assert!(!validate_ticket(b"KR").unwrap());
}

// ---- small types ----

#[test]
fn signature_methods_by_number() {
    for v in 0u8..10 {
        assert_eq!(SignatureMethod::from_u8(v).unwrap().as_u8(), v);
    }
    assert_eq!(SignatureMethod::from_u8(6), Some(SignatureMethod::UseKey));
    assert!(SignatureMethod::from_u8(10).is_none());
}

#[test]
fn account_fields() {
    let a = Account::new(PID(3), "user", "pw", true);
    assert_eq!(a.pid.value(), 3);
    assert_eq!(a.username, "user");
    assert_eq!(a.password, "pw");
    assert!(a.requires_token_auth);
}

#[test]
fn auth_service_replies() {
    let s = AuthService::new();
    assert_eq!(s.handle(1, b"u\0p").unwrap(), vec![1, 2, 3, 4]);
    assert!(s.handle(2, &[]).unwrap().is_empty());
}

#[test]
fn counter_and_rtt() {
    let c = Counter::new(5);
    assert_eq!(c.inc(), 6);
    assert_eq!(c.dec(), 5);
    c.set(u64::MAX);
    assert_eq!(c.inc(), 0);
    assert_eq!(c.get(), 0);
    let r = RTT::new();
    assert_eq!(r.estimate().as_millis(), 200);
    r.sample_rtt(50);
    assert_eq!(r.estimate().nanos, 50_000_000);
}

#[test]
fn durations() {
    assert_eq!(Duration::from_secs(2).nanos, 2_000_000_000);
    assert_eq!(Duration::from_millis(u64::MAX).as_millis(), u64::MAX as u128);
}

#[test]
fn byte_sum_wraps() {
    assert_eq!(sum_bytes_u32(&[]), 0);
    assert_eq!(sum_bytes_u32(&[255; 3]), 765);
}

#[test]
fn session_table() {
    let mut t: SessionTable<&str> = SessionTable::new();
    let a = t.create_session("a");
    let b = t.create_session("b");
    assert_eq!((a, b), (1, 2));
    assert_eq!(t.get_session(1), Some(&"a"));
    t.remove_session(1);
    assert!(t.get_session(1).is_none());
    assert_eq!(t.get_session(2), Some(&"b"));
}

// ---- wire formats ----

#[test]
fn byte_stream_roundtrip_and_underflow() {
    let mut o = ByteStreamOut::new();
    o.put_u8(1);
    o.put_u16_le(0x0203);
    o.put_u32_le(0x04050607);
    o.put_string_u16("ok");
    let b = o.into_bytes();
    assert_eq!(b, vec![1, 3, 2, 7, 6, 5, 4, 2, 0, b'o', b'k']);
    let mut i = ByteStreamIn::from_bytes(b);
    assert_eq!(i.get_u8().unwrap(), 1);
    assert_eq!(i.get_u16_le().unwrap(), 0x0203);
    assert_eq!(i.get_u32_le().unwrap(), 0x04050607);
    assert_eq!(i.get_string_u16().unwrap(), "ok");
    let (code, msg) = nex_error(i.get_u8().unwrap_err());
    assert_eq!((code, msg.as_str()), (-1, "underflow"));
}

#[test]
fn prudp_packet_roundtrip() {
    let p = PRUDPPacket {
        header: header(9, Flags::RELIABLE | Flags::HAS_SIZE, Some(3)),
        payload: vec![7, 8, 9],
        fragment_id: Some(4),
        fragment_index: Some(1),
        fragment_count: Some(2),
    };
    let b = p.to_bytes().unwrap();
    assert_eq!(&b[..10], &[1, 2, 0, 0x0a, 1, 0, 9, 0, 0, 0]);
    let q = PRUDPPacket::from_bytes(&b).unwrap();
    assert_eq!(q.header.sequence_id, 9);
    assert_eq!(q.header.payload_len, Some(3));
    assert_eq!(q.payload, vec![7, 8, 9]);
    assert_eq!((q.fragment_id, q.fragment_index, q.fragment_count), (Some(4), Some(1), Some(2)));
}

#[test]
fn prudp_packet_errors() {
    assert_eq!(other_error(PRUDPPacket::from_bytes(&[0; 9]).unwrap_err()), "packet too small");
    let mut sized = vec![0u8; 10];
    sized[3] = Flags::HAS_SIZE;
    assert_eq!(other_error(PRUDPPacket::from_bytes(&sized).unwrap_err()), "missing size");
    let mut frag = vec![0u8; 11];
    frag[10] = 0xF0;
    assert_eq!(other_error(PRUDPPacket::from_bytes(&frag).unwrap_err()), "incomplete fragment header");
    let mut short = vec![0u8; 14];
    short[3] = Flags::HAS_SIZE;
    short[10] = 5;
    assert_eq!(other_error(PRUDPPacket::from_bytes(&short).unwrap_err()), "payload truncated");
}

#[test]
fn hpp_frames() {
    let f = HppPacket::encode(&[1, 2, 3]);
    assert_eq!(f, vec![3, 0, 1, 2, 3]);
    let p = HppPacket::parse(f).unwrap();
    assert_eq!((p.length, p.payload), (3, vec![1, 2, 3]));
    assert_eq!(other_error(HppPacket::parse(vec![1]).unwrap_err()), "hpp packet too short");
    assert_eq!(other_error(HppPacket::parse(vec![5, 0, 1]).unwrap_err()), "hpp payload truncated");
    let call = RmcMessage::from_hpp_frame(vec![6, 0, 9, 0, 0, 0, 0xaa, 0xbb]).unwrap();
    assert_eq!((call.method_id, call.body), (9, vec![0xaa, 0xbb]));
    assert_eq!(other_error(RmcMessage::from_hpp_frame(vec![2, 0, 1, 2]).unwrap_err()), "rmc too short");
}

#[test]
fn rmc_message_errors() {
    let (code, msg) = nex_error(RMCMessage::from_bytes(nex::byte_stream_in::ByteStreamIn::from_bytes(vec![0; 15])).unwrap_err());
    assert_eq!((code, msg.as_str()), (-1, "rmc underflow"));
    let mut b = vec![0u8; 16];
    b[12] = 1;
    let (code, msg) = nex_error(RMCMessage::from_bytes(nex::byte_stream_in::ByteStreamIn::from_bytes(b)).unwrap_err());
    assert_eq!((code, msg.as_str()), (-1, "rmc body underflow"));
}

#[test]
fn signed_hpp_packets_validate() {
    let msg = RMCMessage { protocol_id: 1, method_id: 2, call_id: 3, body: b"abc".to_vec() };
    let mut p = build_hpp_with_signatures(PID(5), "pw", "00ff", msg).unwrap();
    assert!(p.validate_access_key_signature("00ff").is_ok());
    let key = nex::kerberos::derive_kerberos_key(PID(5), b"pw");
    assert!(p.validate_password_signature(&key).is_ok());
    p.password_signature[0] ^= 1;
    let (code, m) = nex_error(p.validate_password_signature(&key).unwrap_err());
    assert_eq!((code, m.as_str()), (-1, "Password signature does not match"));
    let (code, m) = nex_error(p.validate_access_key_signature("01ff").unwrap_err());
    assert_eq!((code, m.as_str()), (-1, "Access key signature does not match"));
}

#[test]
fn fragments_without_mtu_are_whole() {
    let ps = fragment_into_packets(&[1, 2, 3], 0, &header(0, Flags::RELIABLE, None)).unwrap();
    assert_eq!(ps.len(), 1);
    assert_eq!(ps[0].payload, vec![1, 2, 3]);
    assert_eq!(ps[0].fragment_count, Some(1));
}

#[test]
fn v1_decode_errors() {
    let (code, m) = nex_error(decode_datagram(&[0xEA]).unwrap_err());
    assert_eq!((code, m.as_str()), (-1, "not enough bytes for magic"));
    let (code, m) = nex_error(decode_datagram(&[0xEA, 0xD1, 0, 0]).unwrap_err());
    assert_eq!((code, m.as_str()), (-1, "invalid PRUDPv1 magic"));
}

// ---- ordering and windows ----

#[test]
fn dispatch_queue_hands_out_in_order() {
    let mut q = PacketDispatchQueue::new(0);
    q.queue_packet(packet(1, 0, vec![1]));
    assert!(q.get_next_to_dispatch().is_none());
    q.queue_packet(packet(0, 0, vec![0]));
    q.queue_packet(packet(0, 0, vec![9]));
    q.queue_packet(packet(3, 0, vec![3]));
    let p = q.get_next_to_dispatch().unwrap();
    assert_eq!(p.payload, vec![0]);
    q.dispatched(&p);
    assert_eq!(q.next_expected_sequence_id, 2);
    q.dispatched(&packet(7, 0, vec![]));
    assert_eq!(q.next_expected_sequence_id, 2);
    q.purge_older_than(3);
    assert!(q.get_next_to_dispatch().is_none());
}

#[test]
fn receive_state_nak_and_drain() {
    let mut r = RecvState::new(1);
    assert!(r.offer(0, vec![0]).is_none());
    assert!(r.offer(1, vec![1]).is_none());
    assert_eq!(r.recv_base, 2);
    assert_eq!(r.offer(3, vec![3]), Some((2, 0b10)));
    assert_eq!(r.offer(4, vec![4]), Some((2, 0b110)));
    assert!(r.offer(2, vec![2]).is_none());
    assert_eq!(r.recv_base, 5);
    assert!(r.recv_buffer.is_empty());
    assert_eq!(r.seen.len(), 4);
}

#[test]
fn send_window_bookkeeping() {
    let mut w = SlidingWindow::new(2);
    assert_eq!(w.next_sequence(), 1);
    assert!(!w.can_send());
    assert!(w.allocate_sequence().is_none());
    w.queue_sent(1, vec![1]);
    w.queue_sent(0, vec![0]);
    assert_eq!(w.get_payload(1), Some(vec![1]));
    w.mark_sent(1);
    w.mark_acked(0);
    assert_eq!(w.send_base, 1);
    assert!(w.get_payload(0).is_none());
    assert!(w.get_payload(1).is_some());
    w.mark_acked_single(1);
    assert_eq!(w.send_base, 2);
    assert!(w.can_send());
    assert_eq!(w.current_retry_timeout().nanos, 500_000_000);
}

#[test]
fn resends_are_due_after_the_timeout() {
    let mut w = SlidingWindow::new(8);
    w.queue_sent(1, vec![1]);
    w.queue_sent(2, vec![2]);
    let later = Instant { nanos: Instant::now().nanos + 1_000_000_000 };
    let mut due = w.retransmit_due(later);
    due.sort();
    assert_eq!(due, vec![1, 2]);
    assert_eq!(w.sent_buffer[&1].attempts, 2);
    assert_eq!(w.sent_buffer[&1].sent_at, later);
    assert!(w.retransmit_due(later).is_empty());
    w.sent_buffer.get_mut(&2).unwrap().attempts = 5;
    let much_later = Instant { nanos: later.nanos + 1_000_000_000 };
    assert_eq!(w.retransmit_due(much_later), vec![1]);
}

// ---- connections ----

#[test]
fn connection_sends_and_acks() {
    let mut c = ConnectionState::new();
    assert!(c.next_outgoing().is_none());
    c.queue_send(vec![5, 6]);
    let o = c.next_outgoing().unwrap();
    assert_eq!(o.seq, 1);
    assert_eq!(o.payload, vec![5, 6]);
    let expect = PRUDPPacket {
        header: PRUDPHeader {
            version: 1,
            packet_type: 2,
            flags: Flags::RELIABLE,
            session_id: 0,
            sequence_id: 1,
            ack_id: 0,
            payload_len: Some(2),
        },
        payload: vec![5, 6],
        fragment_id: Some(0),
        fragment_index: Some(0),
        fragment_count: Some(1),
    };
    assert_eq!(o.bytes, expect.to_bytes().unwrap());
    let now = Instant::now();
    c.record_sent(o.seq, o.bytes.clone(), now);
    assert_eq!(c.retransmit_payload(1), Some(o.bytes.clone()));
    let later = Instant { nanos: now.nanos + 600_000_000 };
    assert_eq!(c.due_for_retransmit(later), vec![1]);
    assert!(c.due_for_retransmit(now).is_empty());
    c.record_retransmit(1, later);
    assert_eq!(c.pending[&1].attempts, 2);
    assert_eq!(c.handle_incoming_packet(packet(1, 0, vec![42])), Some(vec![42]));
    assert!(c.handle_incoming_packet(packet(1, Flags::ACK, vec![])).is_none());
    assert!(c.retransmit_payload(1).is_none());
    assert_eq!(c.window.send_base, 2);
    c.queue_send(vec![7]);
    c.requeue(vec![6]);
    assert_eq!(c.next_outgoing().unwrap().payload, vec![6]);
}

#[test]
fn v1_connection_data_packets_decode() {
    let mut settings = PRUDPV1Settings::default();
    settings.connection_signature_key = vec![1; 16];
    let remote = SocketAddress::V4 { octets: [10, 0, 0, 1], port: 60000 };
    let mut c = PRUDPConnectionState::new(remote, settings, vec![2; 16]);
    let now = Instant::now();
    let (seq, bytes) = c.prepare_data(vec![1, 2, 3], now);
    assert_eq!(seq, 1);
    let p = decode_datagram(&bytes).unwrap();
    assert_eq!(p.base.sequence_id, 1);
    assert_eq!(p.base.packet_type, 2);
    assert_eq!(p.base.session_id, 1);
    assert_eq!(p.base.payload, vec![1, 2, 3]);
    c.finish_send(seq, now);
    assert_eq!(c.window.in_flight[&1].retries, 1);
    assert_eq!(c.window.in_flight[&1].data, vec![1, 2, 3]);
    c.finish_send(9, now);
    assert_eq!(c.window.in_flight.len(), 1);
    assert_eq!(c.prepare_data(vec![], now).0, 2);
}

#[test]
fn error_texts() {
    assert_eq!(Error::new(-1, "underflow").to_string(), "underflow (code: -1)");
    assert_eq!(Error::new(2147483647, "x").to_string(), "x (code: 2147483647)");
    assert_eq!(Error::new(i32::MIN, "m").to_string(), "m (code: -2147483648)");
    assert_eq!(Error::Io("broken pipe".to_string()).to_string(), "IO error: broken pipe");
    assert_eq!(Error::Timeout.to_string(), "Timeout");
    assert_eq!(Error::Other("bad".to_string()).to_string(), "bad");
}

#[test]
fn derived_keys_have_sixteen_bytes() {
    assert_eq!(nex::prudp::crypto::derive_key_stub(42, b"secret").len(), 16);
    assert_eq!(nex::kerberos::derive_kerberos_key(PID(7), b"").len(), 16);
}

#[test]
fn empty_key_transforms_empty_data() {
    let mut c = PrudpCrypto::new(&[]);
    let mut d: [u8; 0] = [];
    c.transform(&mut d);
    assert_eq!(c.pos, 0);
}
