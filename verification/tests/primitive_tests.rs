use devp2p::cipher::{aes128_ctr, aes256_ctr};
use devp2p::envelope::{open, seal};
use devp2p::errors::CryptoError;
use devp2p::kdf::kdf;
use devp2p::keys::{ecdh, recover, sign, PublicKey, SecretKey};
use devp2p::secret::Key32;
use devp2p::mac::MAC;
use devp2p::octets::{
    array_from, bytes_eq, round_up_16, slice_to_vec, u16_from_be, u16_to_be, u32_to_be, xor_array,
};
use devp2p::rlp::{
    decode_ack, decode_auth, encode_ack, encode_auth, fixed_field, item_header, push_bytes,
    version_field, wrap_list, AckBody, AuthBody, ItemHeader,
};
use devp2p::util::{keccak256, sha256};

fn unhex(s: &str) -> Vec<u8> {
    let b = s.as_bytes();
    let mut out = Vec::new();
    let mut i = 0;
    while i + 1 < b.len() {
        let hi = (b[i] as char).to_digit(16).unwrap() as u8;
        let lo = (b[i + 1] as char).to_digit(16).unwrap() as u8;
        out.push(hi * 16 + lo);
        i += 2;
    }
    out
}

fn arr<const N: usize>(s: &str) -> [u8; N] {
    let v = unhex(s);
    let mut a = [0u8; N];
    a.copy_from_slice(&v);
    a
}

fn secret(seed: u8) -> SecretKey {
    let mut bytes = [seed; 32];
    bytes[0] = 1;
    SecretKey::parse(&bytes).unwrap()
}

#[test]
fn aes128_ctr_known_answer() {
    let key = arr::<16>("2b7e151628aed2a6abf7158809cf4f3c");
    let iv = arr::<16>("f0f1f2f3f4f5f6f7f8f9fafbfcfdfeff");
    let plain = unhex("6bc1bee22e409f96e93d7e117393172aae2d8a571e03ac9c9eb76fac45af8e51");
    let cipher = unhex("874d6191b620e3261bef6864990db6ce9806f66b7970fdff8617187bb9fffdff");
    assert_eq!(aes128_ctr(&key, &iv, &plain), cipher);
    assert_eq!(aes128_ctr(&key, &iv, &cipher), plain);
}

#[test]
fn aes256_ctr_known_answer_and_position() {
    let key = arr::<32>("603deb1015ca71be2b73aef0857d77811f352c073b6108d72d9810a30914dff4");
    let iv = arr::<16>("f0f1f2f3f4f5f6f7f8f9fafbfcfdfeff");
    let plain = unhex("6bc1bee22e409f96e93d7e117393172aae2d8a571e03ac9c9eb76fac45af8e51");
    let cipher = unhex("601ec313775789a5b7a7f504bbf3d228f443e3ca4d62b59aca84e990cacaf5c5");
    assert_eq!(aes256_ctr(&key, &iv, 0, &plain), cipher);
    assert_eq!(aes256_ctr(&key, &iv, 16, &plain[16..]), cipher[16..].to_vec());
    assert_eq!(aes256_ctr(&key, &iv, 5, &plain[5..21]), cipher[5..21].to_vec());
    assert_eq!(aes256_ctr(&key, &iv, 0, &[]), Vec::<u8>::new());
}

#[test]
fn kdf_is_the_hash_of_counter_and_secret() {
    let secret = [0x42u8; 32];
    let mut first = vec![0u8, 0, 0, 1];
    first.extend_from_slice(&secret);
    let mut second = vec![0u8, 0, 0, 2];
    second.extend_from_slice(&secret);
    assert_eq!(kdf(&secret, &[], 32), sha256(&first).to_vec());
    let mut expected = sha256(&first).to_vec();
    expected.extend_from_slice(&sha256(&second)[..8]);
    assert_eq!(kdf(&secret, &[], 40), expected);
    assert_eq!(kdf(&secret, &[], 0), Vec::<u8>::new());
    assert_eq!(kdf(&secret, &[], 5), sha256(&first)[..5].to_vec());
}

#[test]
fn kdf_takes_in_the_other_party_information() {
    let secret = [0x42u8; 32];
    let mut input = vec![0u8, 0, 0, 1];
    input.extend_from_slice(&secret);
    input.extend_from_slice(b"info");
    assert_eq!(kdf(&secret, b"info", 32), sha256(&input).to_vec());
    assert_ne!(kdf(&secret, b"info", 32), kdf(&secret, &[], 32));
}

#[test]
fn mac_digest_is_half_the_hash_of_all_it_took_in() {
    let mut mac = MAC::new([3u8; 32]);
    assert_eq!(mac.digest().to_vec(), keccak256(&[])[..16].to_vec());
    mac.update(b"ab");
    mac.update(b"c");
    assert_eq!(mac.digest().to_vec(), keccak256(b"abc")[..16].to_vec());
    assert_eq!(mac.digest().to_vec(), keccak256(b"abc")[..16].to_vec());
}

#[test]
fn mac_header_and_body_updates_depend_on_the_secret() {
    let run = |secret: [u8; 32]| {
        let mut mac = MAC::new(secret);
        mac.update(b"seed");
        mac.update_header(&[7u8; 16]);
        let after_header = mac.digest();
        mac.update_body(&[9u8; 32]);
        (after_header, mac.digest())
    };
    let a = run([1u8; 32]);
    assert_eq!(a, run([1u8; 32]));
    let b = run([2u8; 32]);
    assert_ne!(a.0, b.0);
    assert_ne!(a.1, b.1);
    assert_ne!(a.0, a.1);
}

#[test]
fn envelope_opens_for_its_recipient_only() {
    let recipient = secret(0x21);
    let other = secret(0x22);
    let plain = b"attack at dawn".to_vec();
    let sealed = seal(&PublicKey::from_secret_key(&recipient), &secret(0x23), &[5u8; 16], &plain);
    assert_eq!(sealed.len(), 2 + 113 + plain.len());
    assert_eq!(sealed[0] as usize * 256 + sealed[1] as usize, 113 + plain.len());
    assert_ne!(sealed[83..83 + plain.len()].to_vec(), plain);
    assert_eq!(open(&recipient, &sealed), Ok(plain));
    assert_eq!(open(&other, &sealed), Err(CryptoError::MacMismatch));
}

#[test]
fn envelope_of_nothing_opens_to_nothing() {
    let recipient = secret(0x21);
    let sealed = seal(&PublicKey::from_secret_key(&recipient), &secret(0x23), &[5u8; 16], &[]);
    assert_eq!(sealed.len(), 115);
    assert_eq!(open(&recipient, &sealed), Ok(vec![]));
}

#[test]
fn envelope_errors() {
    let recipient = secret(0x21);
    let sealed = seal(&PublicKey::from_secret_key(&recipient), &secret(0x23), &[5u8; 16], b"x");
    assert_eq!(open(&recipient, &sealed[..114]), Err(CryptoError::InvalidKeyLength));
    assert_eq!(open(&recipient, &[]), Err(CryptoError::InvalidKeyLength));
    let mut bad_point = sealed.clone();
    bad_point[10] ^= 1;
    assert_eq!(open(&recipient, &bad_point), Err(CryptoError::InvalidPoint));
    let mut bad_tag = sealed.clone();
    let end = bad_tag.len() - 1;
    bad_tag[end] ^= 1;
    assert_eq!(open(&recipient, &bad_tag), Err(CryptoError::MacMismatch));
    let mut bad_prefix = sealed.clone();
    bad_prefix[1] ^= 1;
    assert_eq!(open(&recipient, &bad_prefix), Err(CryptoError::MacMismatch));
}

#[test]
fn auth_body_layout_and_round_trip() {
    let sig = [0x11u8; 65];
    let id = [0x22u8; 64];
    let nonce = [0x33u8; 32];
    let mut body = encode_auth(&sig, &id, &nonce);
    assert_eq!(body.len(), 169);
    assert_eq!(body[..4].to_vec(), vec![0xf8u8, 0xa7, 0xb8, 0x41]);
    assert_eq!(body[69..71].to_vec(), vec![0xb8u8, 0x40]);
    assert_eq!(body[135], 0xa0);
    assert_eq!(body[168], 4);
    let expected = AuthBody { sig, id, nonce, version: 4 };
    assert_eq!(decode_auth(&body), Some(expected));
    body.extend_from_slice(&[0u8; 120]);
    assert_eq!(decode_auth(&body), Some(expected));
    assert_eq!(decode_auth(&body[..168]), None);
    assert_eq!(decode_auth(&[]), None);
}

#[test]
fn ack_body_layout_and_round_trip() {
    let id = [0x22u8; 64];
    let nonce = [0x33u8; 32];
    let mut body = encode_ack(&id, &nonce);
    assert_eq!(body.len(), 102);
    assert_eq!(body[..4].to_vec(), vec![0xf8u8, 0x64, 0xb8, 0x40]);
    assert_eq!(body[68], 0xa0);
    assert_eq!(body[101], 4);
    let expected = AckBody { ephemeral_id: id, nonce, version: 4 };
    assert_eq!(decode_ack(&body), Some(expected));
    body.extend_from_slice(&[0u8; 300]);
    assert_eq!(decode_ack(&body), Some(expected));
    assert_eq!(decode_ack(&body[..101]), None);
}

#[test]
fn handshake_bodies_may_carry_more_items() {
    let id = [0x22u8; 64];
    let nonce = [0x33u8; 32];
    let mut body = vec![0xf8u8, 0x67, 0xb8, 0x40];
    body.extend_from_slice(&id);
    body.push(0xa0);
    body.extend_from_slice(&nonce);
    body.push(0x05);
    body.extend_from_slice(&[0x82, 0xAA, 0xBB]);
    assert_eq!(decode_ack(&body), Some(AckBody { ephemeral_id: id, nonce, version: 5 }));
}

#[test]
fn handshake_bodies_with_wrong_fields_are_turned_down() {
    let id = [0x22u8; 64];
    let nonce = [0x33u8; 32];
    let good = encode_ack(&id, &nonce);
    let mut not_a_list = good.clone();
    not_a_list[0] = 0xb8;
    assert_eq!(decode_ack(&not_a_list), None);
    let mut short_id = good.clone();
    short_id[3] = 0x3f;
    assert_eq!(decode_ack(&short_id), None);
    let mut list_too_long = good.clone();
    list_too_long[1] = 0x65;
    assert_eq!(decode_ack(&list_too_long), None);
    let mut version_is_a_list = good.clone();
    version_is_a_list[101] = 0xc0;
    assert_eq!(decode_ack(&version_is_a_list), None);
    let mut version_zero = good.clone();
    version_zero[101] = 0x80;
    assert_eq!(decode_ack(&version_zero), Some(AckBody { ephemeral_id: id, nonce, version: 0 }));
}

#[test]
fn item_headers() {
    assert_eq!(item_header(&[0x05], 0, 1), Some(ItemHeader { is_list: false, start: 0, len: 1 }));
    assert_eq!(item_header(&[0x80], 0, 1), Some(ItemHeader { is_list: false, start: 1, len: 0 }));
    assert_eq!(
        item_header(&[0x82, 1, 2], 0, 3),
        Some(ItemHeader { is_list: false, start: 1, len: 2 })
    );
    assert_eq!(item_header(&[0x82, 1, 2], 0, 2), None);
    assert_eq!(
        item_header(&[0xc1, 0x80], 0, 2),
        Some(ItemHeader { is_list: true, start: 1, len: 1 })
    );
    let mut long = vec![0xb9u8, 0x01, 0x00];
    long.extend_from_slice(&[0u8; 256]);
    assert_eq!(
        item_header(&long, 0, long.len()),
        Some(ItemHeader { is_list: false, start: 3, len: 256 })
    );
    assert_eq!(item_header(&long, 0, 258), None);
    assert_eq!(item_header(&[0xba, 0, 0, 1, 0], 0, 5), None);
    assert_eq!(item_header(&[0x05], 1, 1), None);
    assert_eq!(fixed_field(&[0x82, 1, 2], 0, 3, 2), Some(1));
    assert_eq!(fixed_field(&[0x82, 1, 2], 0, 3, 3), None);
    assert_eq!(version_field(&[0x04], 0, 1), Some(4));
    assert_eq!(version_field(&[0x81, 0x90], 0, 2), Some(0x90));
    assert_eq!(version_field(&[0x82, 1, 2], 0, 3), None);
}

#[test]
fn octet_helpers() {
    assert_eq!(xor_array(&[0xF0u8, 0x0F], &[0xFFu8, 0xFF]), [0x0Fu8, 0xF0]);
    assert_eq!(array_from::<3>(&[1u8, 2, 3, 4, 5], 1), [2u8, 3, 4]);
    assert_eq!(slice_to_vec(&[1u8, 2, 3, 4, 5], 1, 3), vec![2u8, 3]);
    assert!(bytes_eq(&[1, 2, 3], &[1, 2, 3]));
    assert!(!bytes_eq(&[1, 2, 3], &[1, 2, 4]));
    assert!(!bytes_eq(&[1, 2, 3], &[1, 2]));
    assert!(bytes_eq(&[], &[]));
    assert_eq!(u16_to_be(0x1234), [0x12u8, 0x34]);
    assert_eq!(u32_to_be(0x0102_0304), [1u8, 2, 3, 4]);
    assert_eq!(u16_from_be(0x12, 0x34), 0x1234);
    assert_eq!(round_up_16(0), 0);
    assert_eq!(round_up_16(1), 16);
    assert_eq!(round_up_16(16), 16);
    assert_eq!(round_up_16(17), 32);
}

#[test]
fn two_key_holders_share_one_secret() {
    let a = secret(0x31);
    let b = secret(0x32);
    let c = secret(0x33);
    let ab = *ecdh(&a, &PublicKey::from_secret_key(&b)).as_bytes();
    let ba = *ecdh(&b, &PublicKey::from_secret_key(&a)).as_bytes();
    assert_eq!(ab, ba);
    assert_ne!(ab, *ecdh(&a, &PublicKey::from_secret_key(&c)).as_bytes());
    assert_ne!(ab.to_vec(), PublicKey::from_secret_key(&b).serialize()[1..33].to_vec());
}

#[test]
fn shared_secret_with_the_generator_is_the_own_public_x() {
    let one = SecretKey::parse(&{
        let mut s = [0u8; 32];
        s[31] = 1;
        s
    })
    .unwrap();
    let a = secret(0x31);
    let generator = PublicKey::from_secret_key(&one);
    assert_eq!(
        ecdh(&a, &generator).as_bytes().to_vec(),
        PublicKey::from_secret_key(&a).serialize()[1..33].to_vec()
    );
}

#[test]
fn a_signature_gives_the_signer_back() {
    let signer = secret(0x41);
    let msg = [0x5Au8; 32];
    let sig = sign(&msg, &signer);
    assert_eq!(sig, sign(&msg, &signer));
    assert!(sig[64] < 4);
    assert_eq!(recover(&msg, &sig), Some(PublicKey::from_secret_key(&signer)));
    let other = recover(&[0x5Bu8; 32], &sig);
    assert_ne!(other, Some(PublicKey::from_secret_key(&signer)));
    let mut bad_id = sig;
    bad_id[64] = 4;
    assert_eq!(recover(&msg, &bad_id), None);
    assert_eq!(recover(&msg, &[0u8; 65]), None);
    assert_eq!(recover(&msg, &[0xFFu8; 65]), None);
}

#[test]
fn key_material_is_held_and_copied_whole() {
    let key = Key32::new([7u8; 32]);
    assert_eq!(key.as_bytes(), &[7u8; 32]);
    let copy = key.clone();
    drop(key);
    assert_eq!(copy.as_bytes(), &[7u8; 32]);
}

#[test]
fn session_secrets_of_a_published_handshake() {
    let ephemeral_a =
        SecretKey::parse(&arr("869d6ecf5211f1cc60418a13b9d870b22959d0c16f02bec714c960dd2298a32d"))
            .unwrap();
    let ephemeral_b =
        SecretKey::parse(&arr("e238eb8e04fee6511ab04c6dd3c89ce097b11f25d584863ac2b6d5b35b1847e4"))
            .unwrap();
    let nonce_a = unhex("7e968bba13b6c50e2c4cd7f241cc0d64d1ac25c7f5952df231ac6a2bda8ee5d6");
    let nonce_b = unhex("559aead08264d5795d3909718cdd05abd49572e84fe55590eef31a88a08fdffd");
    let shared = *ecdh(&ephemeral_b, &PublicKey::from_secret_key(&ephemeral_a)).as_bytes();
    assert_eq!(shared, *ecdh(&ephemeral_a, &PublicKey::from_secret_key(&ephemeral_b)).as_bytes());
    let pair = |a: &[u8], b: &[u8]| {
        let mut joined = a.to_vec();
        joined.extend_from_slice(b);
        keccak256(&joined)
    };
    let nonces = pair(&nonce_b, &nonce_a);
    let master = pair(&shared, &nonces);
    let aes_secret = pair(&shared, &master);
    let mac_secret = pair(&shared, &aes_secret);
    assert_eq!(
        aes_secret.to_vec(),
        unhex("80e8632c05fed6fc2a13b0f8d31a3cf645366239170ea067065aba8e28bac487")
    );
    assert_eq!(
        mac_secret.to_vec(),
        unhex("2ea74ec5dae199227dff1af715362700e989d889d7a493cb0639691efb8e5f98")
    );
}

#[test]
fn byte_strings_and_lists_get_their_prefixes() {
    let mut out = vec![0xEEu8];
    push_bytes(&mut out, &[0x7f]);
    push_bytes(&mut out, &[0x80]);
    push_bytes(&mut out, &[]);
    push_bytes(&mut out, &[1, 2, 3]);
    assert_eq!(out, vec![0xEEu8, 0x7f, 0x81, 0x80, 0x80, 0x83, 1, 2, 3]);
    let mut long = Vec::new();
    push_bytes(&mut long, &[9u8; 56]);
    assert_eq!(long[..2].to_vec(), vec![0xb8u8, 56]);
    assert_eq!(long.len(), 58);
    let mut short = Vec::new();
    push_bytes(&mut short, &[9u8; 55]);
    assert_eq!(short[0], 0x80 + 55);
    assert_eq!(short.len(), 56);
    assert_eq!(wrap_list(&[]), vec![0xc0u8]);
    assert_eq!(wrap_list(&[1, 2]), vec![0xc2u8, 1, 2]);
    assert_eq!(wrap_list(&[7u8; 55])[0], 0xf7);
    assert_eq!(wrap_list(&[7u8; 56])[..2].to_vec(), vec![0xf8u8, 56]);
    assert_eq!(wrap_list(&[7u8; 255])[..2].to_vec(), vec![0xf8u8, 255]);
}
