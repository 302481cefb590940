use devp2p::ecies::algorithm::ECIES;
use devp2p::errors::HandshakeError;
use devp2p::keys::{PublicKey, SecretKey};
use devp2p::mac::MAC;
use devp2p::util::pk2id;

fn bytes_of(s: &str) -> Vec<u8> {
    let b: Vec<u8> = s.bytes().filter(|c| !c.is_ascii_whitespace()).collect();
    let mut out = Vec::new();
    let mut i = 0;
    while i + 1 < b.len() {
        let hi = (b[i] as char).to_digit(16).unwrap() as u8;
        let lo = (b[i + 1] as char).to_digit(16).unwrap() as u8;
        out.push(hi * 16 + lo);
        i += 2;
    }
    out
}

fn secret_of(s: &str) -> SecretKey {
    SecretKey::parse_slice(&bytes_of(s)).unwrap()
}

fn nonce_of(s: &str) -> [u8; 32] {
    let mut a = [0u8; 32];
    a.copy_from_slice(&bytes_of(s));
    a
}

const STATIC_A: &str = "49a7b37aa6f6645917e7b807e9d1c00d4fa71f18343b0d4122a4d2df64dd6fee";
const STATIC_B: &str = "b71c71a67e1177ad4e901695e1b4b9ee17ae16c6668d313eac2f96dbcda3f291";
const EPHEMERAL_A: &str = "869d6ecf5211f1cc60418a13b9d870b22959d0c16f02bec714c960dd2298a32d";
const NONCE_A: &str = "7e968bba13b6c50e2c4cd7f241cc0d64d1ac25c7f5952df231ac6a2bda8ee5d6";
const NONCE_B: &str = "559aead08264d5795d3909718cdd05abd49572e84fe55590eef31a88a08fdffd";

const AUTH: &str = "
01b304ab7578555167be8154d5cc456f567d5ba302662433674222360f08d5f1534499d3678b513b
0fca474f3a514b18e75683032eb63fccb16c156dc6eb2c0b1593f0d84ac74f6e475f1b8d56116b84
9634a8c458705bf83a626ea0384d4d7341aae591fae42ce6bd5c850bfe0b999a694a49bbbaf3ef6c
da61110601d3b4c02ab6c30437257a6e0117792631a4b47c1d52fc0f8f89caadeb7d02770bf999cc
147d2df3b62e1ffb2c9d8c125a3984865356266bca11ce7d3a688663a51d82defaa8aad69da39ab6
d5470e81ec5f2a7a47fb865ff7cca21516f9299a07b1bc63ba56c7a1a892112841ca44b6e0034dee
70c9adabc15d76a54f443593fafdc3b27af8059703f88928e199cb122362a4b35f62386da7caad09
c001edaeb5f8a06d2b26fb6cb93c52a9fca51853b68193916982358fe1e5369e249875bb8d0d0ec3
6f917bc5e1eafd5896d46bd61ff23f1a863a8a8dcd54c7b109b771c8e61ec9c8908c733c0263440e
2aa067241aaa433f0bb053c7b31a838504b148f570c0ad62837129e547678c5190341e4f1693956c
3bf7678318e2d5b5340c9e488eefea198576344afbdf66db5f51204a6961a63ce072c8926c
";

const ACK: &str = "
01ea0451958701280a56482929d3b0757da8f7fbe5286784beead59d95089c217c9b917788989470
b0e330cc6e4fb383c0340ed85fab836ec9fb8a49672712aeabbdfd1e837c1ff4cace34311cd7f4de
05d59279e3524ab26ef753a0095637ac88f2b499b9914b5f64e143eae548a1066e14cd2f4bd7f814
c4652f11b254f8a2d0191e2f5546fae6055694aed14d906df79ad3b407d94692694e259191cde171
ad542fc588fa2b7333313d82a9f887332f1dfc36cea03f831cb9a23fea05b33deb999e85489e645f
6aab1872475d488d7bd6c7c120caf28dbfc5d6833888155ed69d34dbdc39c1f299be1057810f34fb
e754d021bfca14dc989753d61c413d261934e1a9c67ee060a25eefb54e81a4d14baff922180c395d
3f998d70f46f6b58306f969627ae364497e73fc27f6d17ae45a413d322cb8814276be6ddd13b885b
201b943213656cde498fa0e9ddc8e0b8f8a53824fbd82254f3e2c17e8eaea009c38b4aa0a3f306e8
797db43c25d68e86f262e564086f59a2fc60511c42abfb3057c247a8a8fe4fb3ccbadde17514b7ac
8000cdb6a912778426260c47f38919a91f25f4b5ffb455d6aaaf150f7e5529c100ce62d6d92826a7
1778d809bdf60232ae21ce8a437eca8223f45ac37f6487452ce626f549b3b5fdee26afd2072e4bc7
5833c2464c805246155289f4
";

#[test]
fn a_published_auth_message_is_read() {
    let auth = bytes_of(AUTH);
    assert_eq!(auth.len(), 2 + 0x01b3);
    let mut recipient = ECIES::new_server(secret_of(STATIC_B)).unwrap();
    assert_eq!(recipient.parse_auth(&auth), Ok(()));
    assert_eq!(
        recipient.remote_id(),
        pk2id(&PublicKey::from_secret_key(&secret_of(STATIC_A)))
    );
}

#[test]
fn a_published_ack_message_is_read() {
    let ack = bytes_of(ACK);
    assert_eq!(ack.len(), 2 + 0x01ea);
    let recipient_id = pk2id(&PublicKey::from_secret_key(&secret_of(STATIC_B)));
    let mut initiator = ECIES::new_client(secret_of(STATIC_A), recipient_id).unwrap();
    initiator.create_auth_with(
        secret_of(EPHEMERAL_A),
        nonce_of(NONCE_A),
        secret_of(STATIC_B),
        [0u8; 16],
        100,
    );
    assert_eq!(initiator.parse_ack(&ack), Ok(()));
    assert!(initiator.is_established());
}

#[test]
fn a_published_ack_is_not_for_another_key() {
    let ack = bytes_of(ACK);
    let recipient_id = pk2id(&PublicKey::from_secret_key(&secret_of(STATIC_B)));
    let mut initiator = ECIES::new_client(secret_of(STATIC_B), recipient_id).unwrap();
    initiator.create_auth_with(
        secret_of(EPHEMERAL_A),
        nonce_of(NONCE_A),
        secret_of(STATIC_B),
        [0u8; 16],
        100,
    );
    assert_eq!(initiator.parse_ack(&ack), Err(HandshakeError::InvalidAck));
}

#[test]
fn the_ingress_authenticator_of_a_published_handshake() {
    let mac_secret = nonce_of("2ea74ec5dae199227dff1af715362700e989d889d7a493cb0639691efb8e5f98");
    let nonce_b = nonce_of(NONCE_B);
    let mut seed = [0u8; 32];
    for i in 0..32 {
        seed[i] = mac_secret[i] ^ nonce_b[i];
    }
    let mut mac = MAC::new(mac_secret);
    mac.update(&seed);
    mac.update(&bytes_of(AUTH));
    mac.update(b"foo");
    assert_eq!(
        mac.digest().to_vec(),
        bytes_of("0c7ec6340062cc46f5e9f1e3cf86f8c8c403c5a0964f5df0ebd34a75ddc86db5")[..16].to_vec()
    );
}
