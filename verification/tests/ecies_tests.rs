use bytes::BytesMut;
use devp2p::ecies::algorithm::{padding_from, ECIES};
use devp2p::ecies::proto::{
    ECIESCodec, ECIESState, ECIESStream, EgressECIESValue, IngressECIESValue,
};
use devp2p::envelope::seal;
use devp2p::errors::{CodecError, CryptoError, ECIESError, HandshakeError};
use devp2p::keys::{PublicKey, SecretKey};
use devp2p::rlp::{encode_ack, encode_auth};
use devp2p::util::pk2id;

fn key(seed: u8) -> SecretKey {
    let mut bytes = [seed; 32];
    bytes[0] = 1;
    SecretKey::parse(&bytes).unwrap()
}

fn id_of(sk: &SecretKey) -> [u8; 64] {
    pk2id(&PublicKey::from_secret_key(sk))
}

fn engines() -> (ECIES, ECIES, SecretKey, SecretKey) {
    let client_key = key(0x11);
    let server_key = key(0x22);
    let client = ECIES::new_client(client_key.clone(), id_of(&server_key)).unwrap();
    let server = ECIES::new_server(server_key.clone()).unwrap();
    (client, server, client_key, server_key)
}

fn established() -> (ECIES, ECIES) {
    let (mut client, mut server, _, _) = engines();
    let auth = client.create_auth();
    server.parse_auth(&auth).unwrap();
    let ack = server.create_ack();
    client.parse_ack(&ack).unwrap();
    (client, server)
}

fn codecs() -> (ECIESCodec, ECIESCodec, SecretKey, SecretKey) {
    let client_key = key(0x33);
    let server_key = key(0x44);
    let client = ECIESCodec::new_client(client_key.clone(), id_of(&server_key)).unwrap();
    let server = ECIESCodec::new_server(server_key.clone()).unwrap();
    (client, server, client_key, server_key)
}

fn established_codecs() -> (ECIESCodec, ECIESCodec) {
    let (mut client, mut server, _, _) = codecs();
    let mut wire = BytesMut::new();
    client.encode(EgressECIESValue::Auth, &mut wire).unwrap();
    server.decode(&mut wire).unwrap();
    server.encode(EgressECIESValue::Ack, &mut wire).unwrap();
    client.decode(&mut wire).unwrap();
    (client, server)
}

#[test]
fn communicate() {
    let (mut client, mut server, client_key, server_key) = engines();

    let auth = client.create_auth();
    server.parse_auth(&auth).unwrap();
    assert_eq!(server.remote_id(), id_of(&client_key));

    let ack = server.create_ack();
    client.parse_ack(&ack).unwrap();
    assert_eq!(client.remote_id(), id_of(&server_key));
    assert_eq!(client.remote_id(), server.local_id());
    assert_eq!(server.remote_id(), client.local_id());

    let payload = [1u8, 2, 3];
    let header = client.create_header(payload.len());
    assert_eq!(header.len(), ECIES::header_len());
    assert_eq!(server.parse_header(&header), Ok(3));
    let body = client.create_body(&payload);
    assert_eq!(body.len(), server.body_len());
    assert_eq!(server.parse_body(&body), Ok(vec![1u8, 2, 3]));

    let reply = [0u8, 1, 2, 3, 4];
    let header = server.create_header(reply.len());
    assert_eq!(client.parse_header(&header), Ok(5));
    let body = server.create_body(&reply);
    assert_eq!(client.parse_body(&body), Ok(reply.to_vec()));
}

#[test]
fn auth_tells_the_recipient_who_calls() {
    let (mut client, mut server, client_key, _) = engines();
    assert!(!server.knows_remote());
    let auth = client.create_auth();
    assert!(client.is_auth_sent());
    assert_eq!(server.parse_auth(&auth), Ok(()));
    assert!(server.is_auth_received());
    assert!(server.knows_remote());
    assert_eq!(server.remote_id(), id_of(&client_key));
}

#[test]
fn auth_with_given_draws_is_reproducible() {
    let (mut a, _, _, _) = engines();
    let (mut b, mut server, _, _) = engines();
    let first = a.create_auth_with(key(5), [6u8; 32], key(7), [8u8; 16], 150);
    let second = b.create_auth_with(key(5), [6u8; 32], key(7), [8u8; 16], 150);
    assert_eq!(first, second);
    assert_eq!(first.len(), 2 + 113 + 169 + 150);
    assert_eq!(first[0] as usize * 256 + first[1] as usize, first.len() - 2);
    assert_eq!(first[2], 4);
    assert_eq!(first[2..67].to_vec(), PublicKey::from_secret_key(&key(7)).serialize().to_vec());
    assert_eq!(first[67..83].to_vec(), vec![8u8; 16]);
    let other = engines().0.create_auth_with(key(5), [9u8; 32], key(7), [8u8; 16], 150);
    assert_ne!(first, other);
    assert_eq!(server.parse_auth(&first), Ok(()));
}

#[test]
fn ack_with_given_draws_is_reproducible() {
    let make = || {
        let (mut client, mut server, _, _) = engines();
        let auth = client.create_auth_with(key(5), [6u8; 32], key(7), [8u8; 16], 100);
        server.parse_auth(&auth).unwrap();
        let ack = server.create_ack_with(key(9), [10u8; 32], key(11), [12u8; 16], 300);
        (client, server, ack)
    };
    let (mut client, mut server, ack) = make();
    let (_, _, again) = make();
    assert_eq!(ack, again);
    assert_eq!(ack.len(), 2 + 113 + 102 + 300);
    assert_eq!(ack[0] as usize * 256 + ack[1] as usize, ack.len() - 2);
    assert!(server.is_established());
    assert_eq!(client.parse_ack(&ack), Ok(()));
    assert!(client.is_established());
    let header = server.create_header(1);
    let body = server.create_body(&[42]);
    assert_eq!(client.parse_header(&header), Ok(1));
    assert_eq!(client.parse_body(&body), Ok(vec![42u8]));
}

#[test]
fn handshake_messages_keep_to_the_padding_range() {
    let (mut client, mut server, _, _) = engines();
    let auth = client.create_auth();
    assert!(auth.len() >= 2 + 113 + 169 + 100 && auth.len() <= 2 + 113 + 169 + 300);
    server.parse_auth(&auth).unwrap();
    let ack = server.create_ack();
    assert!(ack.len() >= 2 + 113 + 102 + 100 && ack.len() <= 2 + 113 + 102 + 300);
}

#[test]
fn padding_is_drawn_between_the_bounds() {
    assert_eq!(padding_from(0), 100);
    assert_eq!(padding_from(200), 300);
    assert_eq!(padding_from(201), 100);
    assert_eq!(padding_from(u32::MAX), 100 + (u32::MAX % 201) as usize);
}

#[test]
fn fresh_draws_give_fresh_messages() {
    let (mut a, _, _, _) = engines();
    let (mut b, _, _, _) = engines();
    assert_ne!(a.create_auth(), b.create_auth());
}

#[test]
fn frames_of_many_lengths_come_back() {
    let (mut client, mut server) = established();
    for len in [0usize, 1, 15, 16, 17, 31, 32, 33, 255, 256, 1000] {
        let payload: Vec<u8> = (0..len).map(|i| (i * 7 + len) as u8).collect();
        let header = client.create_header(len);
        let body = client.create_body(&payload);
        assert_eq!(header.len(), 32);
        assert_eq!(body.len(), (len + 15) / 16 * 16 + 16);
        assert_eq!(server.parse_header(&header), Ok(len));
        assert!(server.awaits_body());
        assert_eq!(server.body_len(), body.len());
        assert_eq!(server.parse_body(&body), Ok(payload));
        assert!(!server.awaits_body());
    }
}

#[test]
fn frames_are_not_sent_in_the_clear() {
    let (mut client, _) = established();
    let payload = [0x55u8; 32];
    let header = client.create_header(payload.len());
    let body = client.create_body(&payload);
    assert_ne!(header[..3].to_vec(), vec![0u8, 0, 32]);
    assert_ne!(body[..32].to_vec(), payload.to_vec());
}

#[test]
fn the_same_payload_gives_a_new_frame_each_time() {
    let (mut client, mut server) = established();
    let first = (client.create_header(3), client.create_body(&[1, 2, 3]));
    let second = (client.create_header(3), client.create_body(&[1, 2, 3]));
    assert_ne!(first, second);
    assert_eq!(server.parse_header(&first.0), Ok(3));
    assert_eq!(server.parse_body(&first.1), Ok(vec![1u8, 2, 3]));
    assert_eq!(server.parse_header(&second.0), Ok(3));
    assert_eq!(server.parse_body(&second.1), Ok(vec![1u8, 2, 3]));
}

#[test]
fn a_frame_read_out_of_turn_is_turned_down() {
    let (mut client, mut server) = established();
    let _skipped = (client.create_header(3), client.create_body(&[1, 2, 3]));
    let header = client.create_header(3);
    assert_eq!(server.parse_header(&header), Err(CryptoError::MacMismatch));
}

#[test]
fn a_flipped_bit_in_the_auth_envelope_is_detected() {
    let (mut client, _, _, _) = engines();
    let auth = client.create_auth_with(key(5), [6u8; 32], key(7), [8u8; 16], 100);
    let mut at = 0;
    while at < auth.len() {
        let mut tampered = auth.clone();
        tampered[at] ^= 1 << (at % 8);
        let mut server = engines().1;
        assert_eq!(server.parse_auth(&tampered), Err(HandshakeError::InvalidAuth));
        assert!(server.is_start());
        at += 13;
    }
    let mut last = auth.clone();
    let end = last.len() - 1;
    last[end] ^= 0x80;
    assert_eq!(engines().1.parse_auth(&last), Err(HandshakeError::InvalidAuth));
}

#[test]
fn a_flipped_bit_in_the_ack_envelope_is_detected() {
    let make = || {
        let (mut client, mut server, _, _) = engines();
        let auth = client.create_auth_with(key(5), [6u8; 32], key(7), [8u8; 16], 100);
        server.parse_auth(&auth).unwrap();
        let ack = server.create_ack_with(key(9), [10u8; 32], key(11), [12u8; 16], 100);
        (client, ack)
    };
    let (_, ack) = make();
    let mut at = 0;
    while at < ack.len() {
        let mut tampered = ack.clone();
        tampered[at] ^= 1 << (at % 8);
        let (mut client, _) = make();
        assert_eq!(client.parse_ack(&tampered), Err(HandshakeError::InvalidAck));
        assert!(client.is_auth_sent());
        at += 17;
    }
}

#[test]
fn a_flipped_bit_in_a_frame_header_is_detected() {
    for at in 0..32 {
        let (mut client, mut server) = established();
        let mut header = client.create_header(3);
        header[at] ^= 1 << (at % 8);
        assert_eq!(server.parse_header(&header), Err(CryptoError::MacMismatch));
    }
}

#[test]
fn a_flipped_bit_in_a_frame_body_is_detected() {
    for at in 0..48 {
        let (mut client, mut server) = established();
        let header = client.create_header(20);
        let mut body = client.create_body(&[9u8; 20]);
        assert_eq!(body.len(), 48);
        body[at] ^= 1 << (at % 8);
        assert_eq!(server.parse_header(&header), Ok(20));
        assert_eq!(server.parse_body(&body), Err(CryptoError::MacMismatch));
    }
}

#[test]
fn an_auth_for_another_recipient_is_turned_down() {
    let (mut client, _, _, _) = engines();
    let auth = client.create_auth();
    let mut other = ECIES::new_server(key(0x77)).unwrap();
    assert_eq!(other.parse_auth(&auth), Err(HandshakeError::InvalidAuth));
}

#[test]
fn garbage_is_no_handshake_message() {
    let (mut client, mut server, _, _) = engines();
    assert_eq!(server.parse_auth(&[]), Err(HandshakeError::InvalidAuth));
    assert_eq!(server.parse_auth(&[0u8; 114]), Err(HandshakeError::InvalidAuth));
    assert_eq!(server.parse_auth(&[0u8; 400]), Err(HandshakeError::InvalidAuth));
    client.create_auth();
    assert_eq!(client.parse_ack(&[0u8; 400]), Err(HandshakeError::InvalidAck));
    assert_eq!(client.parse_ack(&[4u8; 115]), Err(HandshakeError::InvalidAck));
}

#[test]
fn an_older_version_is_a_mismatch() {
    let (_, mut server, client_key, server_key) = engines();
    let mut plain = encode_auth(&[1u8; 65], &id_of(&client_key), &[2u8; 32]);
    assert_eq!(plain[168], 4);
    plain[168] = 3;
    let envelope = seal(&PublicKey::from_secret_key(&server_key), &key(7), &[8u8; 16], &plain);
    assert_eq!(server.parse_auth(&envelope), Err(HandshakeError::VersionMismatch));
}

#[test]
fn a_signature_that_recovers_nothing_is_invalid() {
    let (_, mut server, client_key, server_key) = engines();
    let plain = encode_auth(&[0u8; 65], &id_of(&client_key), &[2u8; 32]);
    let envelope = seal(&PublicKey::from_secret_key(&server_key), &key(7), &[8u8; 16], &plain);
    assert_eq!(server.parse_auth(&envelope), Err(HandshakeError::InvalidAuth));
}

#[test]
fn new_client_wants_a_curve_point() {
    assert!(matches!(
        ECIES::new_client(key(1), [3u8; 64]),
        Err(ECIESError::Crypto(CryptoError::InvalidPoint))
    ));
    assert!(matches!(
        ECIESCodec::new_client(key(1), [3u8; 64]),
        Err(ECIESError::Crypto(CryptoError::InvalidPoint))
    ));
}

#[test]
fn one_byte_is_not_enough_for_an_auth() {
    let (_, mut server, _, _) = codecs();
    let mut buf = BytesMut::from(&[1u8][..]);
    assert_eq!(server.decode(&mut buf), Ok(None));
    assert_eq!(buf.len(), 1);
    assert_eq!(server.state(), ECIESState::Auth);
}

#[test]
fn a_partial_envelope_waits_for_the_rest() {
    let (mut client, mut server, client_key, _) = codecs();
    let mut wire = BytesMut::new();
    client.encode(EgressECIESValue::Auth, &mut wire).unwrap();
    let all = wire.to_vec();
    let mut buf = BytesMut::new();
    assert_eq!(server.decode(&mut buf), Ok(None));
    buf.extend_from_slice(&all[..all.len() - 1]);
    assert_eq!(server.decode(&mut buf), Ok(None));
    assert_eq!(buf.len(), all.len() - 1);
    assert_eq!(server.state(), ECIESState::Auth);
    buf.extend_from_slice(&all[all.len() - 1..]);
    buf.extend_from_slice(&[0xAA, 0xBB]);
    assert_eq!(
        server.decode(&mut buf),
        Ok(Some(IngressECIESValue::AuthReceive(id_of(&client_key))))
    );
    assert_eq!(buf.to_vec(), vec![0xAAu8, 0xBB]);
    assert_eq!(server.state(), ECIESState::Header);
}

#[test]
fn codecs_shake_hands_and_pass_a_message() {
    let (mut client, mut server, client_key, server_key) = codecs();
    assert_eq!(client.state(), ECIESState::Auth);
    assert_eq!(server.state(), ECIESState::Auth);
    assert_eq!(client.remote_id(), Some(id_of(&server_key)));
    assert_eq!(server.remote_id(), None);

    let mut to_server = BytesMut::new();
    let mut to_client = BytesMut::new();
    assert_eq!(client.encode(EgressECIESValue::Auth, &mut to_server), Ok(()));
    assert_eq!(client.state(), ECIESState::Ack);
    assert_eq!(
        server.decode(&mut to_server),
        Ok(Some(IngressECIESValue::AuthReceive(id_of(&client_key))))
    );
    assert_eq!(server.state(), ECIESState::Header);
    assert_eq!(server.remote_id(), Some(id_of(&client_key)));
    assert!(to_server.is_empty());

    assert_eq!(server.encode(EgressECIESValue::Ack, &mut to_client), Ok(()));
    assert_eq!(server.state(), ECIESState::Header);
    assert_eq!(client.decode(&mut to_client), Ok(Some(IngressECIESValue::Ack)));
    assert_eq!(client.state(), ECIESState::Header);
    assert!(to_client.is_empty());

    assert_eq!(client.encode(EgressECIESValue::Message(vec![1, 2, 3]), &mut to_server), Ok(()));
    assert_eq!(client.state(), ECIESState::Header);
    assert_eq!(to_server.len(), 32 + 16 + 16);
    assert_eq!(server.decode(&mut to_server), Ok(None));
    assert_eq!(server.state(), ECIESState::Body);
    assert_eq!(to_server.len(), 32);
    assert_eq!(
        server.decode(&mut to_server),
        Ok(Some(IngressECIESValue::Message(vec![1, 2, 3])))
    );
    assert_eq!(server.state(), ECIESState::Header);
    assert!(to_server.is_empty());
    assert_eq!(server.decode(&mut to_server), Ok(None));
}

#[test]
fn frames_arriving_in_pieces_are_put_together() {
    let (mut client, mut server) = established_codecs();
    let mut wire = BytesMut::new();
    client.encode(EgressECIESValue::Message(vec![7u8; 40]), &mut wire).unwrap();
    client.encode(EgressECIESValue::Message(vec![]), &mut wire).unwrap();
    let all = wire.to_vec();
    assert_eq!(all.len(), 32 + 48 + 16 + 32 + 16);
    let mut buf = BytesMut::new();
    let mut got = Vec::new();
    for byte in all {
        buf.extend_from_slice(&[byte]);
        loop {
            let before = (server.state(), buf.len());
            match server.decode(&mut buf).unwrap() {
                Some(unit) => got.push(unit),
                None => {
                    if (server.state(), buf.len()) == before {
                        break;
                    }
                }
            }
        }
    }
    assert_eq!(
        got,
        vec![IngressECIESValue::Message(vec![7u8; 40]), IngressECIESValue::Message(vec![])]
    );
    assert!(buf.is_empty());
}

#[test]
fn a_body_sized_chunk_is_no_message_while_a_header_is_awaited() {
    let (mut client, mut server) = established_codecs();
    let mut wire = BytesMut::new();
    client.encode(EgressECIESValue::Message(vec![1, 2, 3]), &mut wire).unwrap();
    let body_only = wire.split_off(32);
    let mut short = BytesMut::from(&body_only[..16]);
    assert_eq!(server.decode(&mut short), Ok(None));
    assert_eq!(short.len(), 16);
    let mut chunk = BytesMut::from(&body_only[..]);
    assert_eq!(server.decode(&mut chunk), Err(ECIESError::Crypto(CryptoError::MacMismatch)));
    assert_eq!(server.state(), ECIESState::Header);
}

#[test]
fn a_tampered_frame_ends_the_read_side_with_an_error() {
    let (mut client, mut server) = established_codecs();
    let mut wire = BytesMut::new();
    client.encode(EgressECIESValue::Message(vec![1, 2, 3]), &mut wire).unwrap();
    wire[40] ^= 0x10;
    assert_eq!(server.decode(&mut wire), Ok(None));
    assert_eq!(server.decode(&mut wire), Err(ECIESError::Crypto(CryptoError::MacMismatch)));
    assert_eq!(server.state(), ECIESState::Body);
}

#[test]
fn a_tampered_auth_is_an_error_of_the_codec() {
    let (mut client, mut server, _, _) = codecs();
    let mut wire = BytesMut::new();
    client.encode(EgressECIESValue::Auth, &mut wire).unwrap();
    wire[100] ^= 1;
    assert_eq!(
        server.decode(&mut wire),
        Err(ECIESError::Handshake(HandshakeError::InvalidAuth))
    );
    assert_eq!(server.state(), ECIESState::Auth);
    assert!(wire.is_empty());
}

#[test]
fn units_out_of_turn_are_not_sent() {
    let unexpected = Err(ECIESError::Handshake(HandshakeError::UnexpectedMessage));
    let (mut client, mut server, _, _) = codecs();
    let mut wire = BytesMut::new();
    assert_eq!(server.encode(EgressECIESValue::Auth, &mut wire), unexpected);
    assert_eq!(server.encode(EgressECIESValue::Ack, &mut wire), unexpected);
    assert_eq!(server.encode(EgressECIESValue::Message(vec![1]), &mut wire), unexpected);
    assert_eq!(client.encode(EgressECIESValue::Ack, &mut wire), unexpected);
    assert_eq!(client.encode(EgressECIESValue::Message(vec![1]), &mut wire), unexpected);
    assert!(wire.is_empty());
    assert_eq!(client.encode(EgressECIESValue::Auth, &mut wire), Ok(()));
    let sent = wire.len();
    assert_eq!(client.encode(EgressECIESValue::Auth, &mut wire), unexpected);
    assert_eq!(wire.len(), sent);
    assert_eq!(client.state(), ECIESState::Ack);
}

#[test]
fn an_initiator_takes_no_auth() {
    let (mut first, _, _, _) = codecs();
    let (mut second, _, _, _) = codecs();
    let mut wire = BytesMut::new();
    first.encode(EgressECIESValue::Auth, &mut wire).unwrap();
    assert_eq!(
        second.decode(&mut wire),
        Err(ECIESError::Handshake(HandshakeError::UnexpectedMessage))
    );
    assert_eq!(second.state(), ECIESState::Auth);
}

#[test]
fn frames_before_the_ack_went_out_are_unexpected() {
    let (mut client, mut server, _, _) = codecs();
    let mut wire = BytesMut::new();
    client.encode(EgressECIESValue::Auth, &mut wire).unwrap();
    wire.extend_from_slice(&[0u8; 32]);
    assert!(matches!(server.decode(&mut wire), Ok(Some(IngressECIESValue::AuthReceive(_)))));
    assert_eq!(
        server.decode(&mut wire),
        Err(ECIESError::Handshake(HandshakeError::UnexpectedMessage))
    );
}

#[test]
fn a_message_too_long_for_a_frame_is_malformed() {
    let (mut client, mut server) = established_codecs();
    let mut wire = BytesMut::new();
    assert_eq!(
        client.encode(EgressECIESValue::Message(vec![0u8; 0x100_0000]), &mut wire),
        Err(ECIESError::Codec(CodecError::MalformedLength))
    );
    assert!(wire.is_empty());
    assert_eq!(client.encode(EgressECIESValue::Message(vec![5u8; 0xFF_FFFF]), &mut wire), Ok(()));
    assert_eq!(wire.len(), 32 + 0x100_0000 + 16);
    assert_eq!(server.decode(&mut wire), Ok(None));
    assert_eq!(
        server.decode(&mut wire),
        Ok(Some(IngressECIESValue::Message(vec![5u8; 0xFF_FFFF])))
    );
}

#[test]
fn connect_wants_an_ack() {
    let remote = [9u8; 64];
    let stream = ECIESStream::connect(Some(IngressECIESValue::Ack), remote).unwrap();
    assert_eq!(stream.remote_id(), remote);
    let unexpected = Err(ECIESError::Handshake(HandshakeError::UnexpectedMessage));
    assert_eq!(
        ECIESStream::connect(Some(IngressECIESValue::Message(vec![1, 2, 3])), remote),
        unexpected
    );
    assert_eq!(
        ECIESStream::connect(Some(IngressECIESValue::AuthReceive(remote)), remote),
        unexpected
    );
    assert_eq!(ECIESStream::connect(None, remote), unexpected);
}

#[test]
fn incoming_wants_an_auth() {
    let remote = [9u8; 64];
    let stream = ECIESStream::incoming(Some(IngressECIESValue::AuthReceive(remote))).unwrap();
    assert_eq!(stream.remote_id(), remote);
    let unexpected = Err(ECIESError::Handshake(HandshakeError::UnexpectedMessage));
    assert_eq!(ECIESStream::incoming(Some(IngressECIESValue::Ack)), unexpected);
    assert_eq!(ECIESStream::incoming(Some(IngressECIESValue::Message(vec![]))), unexpected);
    assert_eq!(ECIESStream::incoming(None), unexpected);
}

#[test]
fn a_session_passes_messages_only() {
    let stream = ECIESStream::connect(Some(IngressECIESValue::Ack), [9u8; 64]).unwrap();
    assert_eq!(stream.poll_next(IngressECIESValue::Message(vec![1, 2, 3])), Ok(vec![1u8, 2, 3]));
    let unexpected = Err(ECIESError::Handshake(HandshakeError::UnexpectedMessage));
    assert_eq!(stream.poll_next(IngressECIESValue::Ack), unexpected);
    assert_eq!(stream.poll_next(IngressECIESValue::AuthReceive([1u8; 64])), unexpected);
    assert_eq!(stream.start_send(vec![4, 5]), EgressECIESValue::Message(vec![4, 5]));
}

#[test]
fn an_initiator_that_gets_a_message_first_fails() {
    let (mut client, _) = established_codecs();
    let (mut fresh, _, _, server_key) = codecs();
    let mut wire = BytesMut::new();
    fresh.encode(EgressECIESValue::Auth, &mut wire).unwrap();
    wire.clear();
    client.encode(EgressECIESValue::Message(vec![1, 2, 3]), &mut wire).unwrap();
    let first = fresh.decode(&mut wire);
    assert!(!matches!(first, Ok(Some(IngressECIESValue::Message(_)))));
    assert_eq!(
        ECIESStream::connect(Some(IngressECIESValue::Message(vec![1, 2, 3])), id_of(&server_key)),
        Err(ECIESError::Handshake(HandshakeError::UnexpectedMessage))
    );
}

#[test]
fn an_older_version_in_the_ack_is_a_mismatch() {
    let (mut client, _, client_key, _) = engines();
    client.create_auth();
    let ephemeral_id = id_of(&key(9));
    let mut plain = encode_ack(&ephemeral_id, &[2u8; 32]);
    assert_eq!(plain[101], 4);
    plain[101] = 3;
    let envelope = seal(&PublicKey::from_secret_key(&client_key), &key(7), &[8u8; 16], &plain);
    assert_eq!(client.parse_ack(&envelope), Err(HandshakeError::VersionMismatch));
    assert!(client.is_auth_sent());
}

#[test]
fn an_ack_with_a_key_off_the_curve_is_invalid() {
    let (mut client, _, client_key, _) = engines();
    client.create_auth();
    let plain = encode_ack(&[5u8; 64], &[2u8; 32]);
    let envelope = seal(&PublicKey::from_secret_key(&client_key), &key(7), &[8u8; 16], &plain);
    assert_eq!(client.parse_ack(&envelope), Err(HandshakeError::InvalidAck));
}

#[test]
fn a_later_version_is_accepted() {
    let (mut client, _, client_key, _) = engines();
    client.create_auth();
    let mut plain = encode_ack(&id_of(&key(9)), &[2u8; 32]);
    plain[101] = 5;
    let envelope = seal(&PublicKey::from_secret_key(&client_key), &key(7), &[8u8; 16], &plain);
    assert_eq!(client.parse_ack(&envelope), Ok(()));
    assert!(client.is_established());
}

#[test]
fn a_length_prefix_too_small_for_an_envelope_is_malformed() {
    let malformed = Err(ECIESError::Codec(CodecError::MalformedLength));
    let (mut client, mut server, _, _) = codecs();
    let mut buf = BytesMut::from(&[0u8, 5, 1, 2, 3, 4, 5, 0xAA][..]);
    assert_eq!(server.decode(&mut buf), malformed);
    assert_eq!(buf.to_vec(), vec![0xAAu8]);
    assert_eq!(server.state(), ECIESState::Auth);
    let mut empty_unit = BytesMut::from(&[0u8, 0][..]);
    assert_eq!(codecs().1.decode(&mut empty_unit), malformed);
    let mut almost = BytesMut::from(&[0u8; 114][..]);
    almost[1] = 112;
    assert_eq!(codecs().1.decode(&mut almost), malformed);
    let mut just_enough = BytesMut::from(&[0u8; 115][..]);
    just_enough[1] = 113;
    assert_eq!(
        codecs().1.decode(&mut just_enough),
        Err(ECIESError::Handshake(HandshakeError::InvalidAuth))
    );
    let mut wire = BytesMut::new();
    client.encode(EgressECIESValue::Auth, &mut wire).unwrap();
    let mut short_ack = BytesMut::from(&[0u8, 3, 9, 9, 9][..]);
    assert_eq!(client.decode(&mut short_ack), malformed);
    assert_eq!(client.state(), ECIESState::Ack);
}
