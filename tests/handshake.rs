use fakio::client::ClientHandshake;
use fakio::config::{ClientConfig, Digest, SockAddr, User, UserTable};
use fakio::crypto::{Cipher, Crypto, KeyPair};
use fakio::error::{ErrorKind, ProtoError};
use fakio::server::{handshake_timeout_secs, Request};
use fakio::socks5::{Host, ReqAddr};
use fakio::util::RandomBytes;

fn users() -> UserTable {
    let mut t = UserTable::new();
    for (name, pw) in [("alice", "alice-password"), ("bob", "bob-password")] {
        t.insert(Digest::new(name), User { name: name.to_string(), password: Digest::new(pw) });
    }
    t
}

fn client(name: &str, pw: &str, cipher: Cipher, addr: ReqAddr) -> ClientHandshake {
    let config = ClientConfig {
        username: Digest::new(name),
        password: Digest::new(pw),
        cipher,
        server: SockAddr::V4(vec![127, 0, 0, 1], 9000),
        listen: SockAddr::V4(vec![127, 0, 0, 1], 1080),
    };
    ClientHandshake::new(&config, addr).unwrap()
}

/// Server side up to the reply; returns the request state and the reply bytes.
fn serve(msg: &[u8], remote_ok: bool) -> Result<(Request, Option<ReqAddr>, Vec<u8>), ProtoError> {
    let mut req = Request::none();
    let need = req.parse_header(&msg[..50], &users())?;
    assert_eq!(need, msg.len() - 50);
    let mut data = msg[50..].to_vec();
    let dest = req.parse_data(&mut data)?;
    let reply = req.response(remote_ok && dest.is_some())?;
    Ok((req, dest, reply))
}

fn read_reply(c: &mut ClientHandshake, reply: &[u8]) -> Result<KeyPair, ProtoError> {
    let mut header = reply[..18].to_vec();
    let n = c.response_header(&mut header)?;
    assert_eq!(n, reply.len() - 18);
    let mut body = reply[18..].to_vec();
    c.response(&mut body)
}

#[test]
fn ipv4_aes128_handshake() {
    let addr = ReqAddr::new(&[1, 127, 0, 0, 1, 0x1f, 0x90]);
    let mut c = client("alice", "alice-password", Cipher::AES128GCM, addr);
    let msg = c.request().unwrap();
    assert_eq!(&msg[18..50], Digest::new("alice").as_bytes());
    let (req, dest, reply) = serve(&msg, true).unwrap();
    assert_eq!(req.cipher, Some(Cipher::AES128GCM));
    assert_eq!(dest.unwrap().get(), Ok((Host::Ipv4(vec![127, 0, 0, 1]), 8080)));
    let keys = read_reply(&mut c, &reply).unwrap();
    assert_eq!(keys.len(), 32);
    assert_eq!(keys.as_bytes(), req.key_pair.unwrap().as_bytes());
}

#[test]
fn domain_chacha_handshake() {
    let addr = ReqAddr::from_host(&Host::Domain("example".to_string()), 80);
    let mut c = client("bob", "bob-password", Cipher::CHACHA20POLY1305, addr);
    let msg = c.request().unwrap();
    let (req, dest, reply) = serve(&msg, true).unwrap();
    assert_eq!(req.cipher, Some(Cipher::CHACHA20POLY1305));
    assert_eq!(dest.unwrap().get(), Ok((Host::Domain("example".to_string()), 80)));
    let keys = read_reply(&mut c, &reply).unwrap();
    assert_eq!(keys.len(), 64);
}

#[test]
fn unknown_user_is_refused() {
    let addr = ReqAddr::new(&[1, 127, 0, 0, 1, 0, 80]);
    let mut c = client("mallory", "whatever", Cipher::AES128GCM, addr);
    let msg = c.request().unwrap();
    let mut req = Request::none();
    assert_eq!(req.parse_header(&msg[..50], &users()), Err(ProtoError::UnknownUser));
}

#[test]
fn wrong_password_fails_to_open() {
    let addr = ReqAddr::new(&[1, 127, 0, 0, 1, 0, 80]);
    let mut c = client("alice", "not-the-password", Cipher::AES128GCM, addr);
    let msg = c.request().unwrap();
    let mut req = Request::none();
    assert_eq!(
        req.parse_header(&msg[..50], &users()),
        Err(ProtoError::Crypto(fakio::crypto::Error::Open))
    );
}

#[test]
fn unknown_cipher_gets_cipher_error() {
    let pw = Digest::new("alice-password");
    let mut hs = Crypto::new(Cipher::AES256GCM, pw.as_bytes(), pw.as_bytes()).unwrap();
    let mut plain = vec![0u8, 3, 99];
    plain.extend_from_slice(&[1, 127, 0, 0, 1, 0, 80]);
    let len = 32 + plain.len() + 16;
    let mut msg = vec![(len >> 8) as u8, len as u8];
    msg.resize(18, 0);
    hs.encrypt(&mut msg, 2).unwrap();
    msg.extend_from_slice(Digest::new("alice").as_bytes());
    let mut body = plain.clone();
    body.resize(plain.len() + 16, 0);
    hs.encrypt(&mut body, plain.len()).unwrap();
    msg.extend_from_slice(&body);

    let (req, dest, reply) = serve(&msg, true).unwrap();
    assert!(dest.is_none());
    assert_eq!(req.cipher, None);
    assert!(req.key_pair.is_none());
    let mut c = client("alice", "alice-password", Cipher::AES128GCM, ReqAddr::new(&[1, 0, 0, 0, 0, 0, 0]));
    assert!(matches!(read_reply(&mut c, &reply), Err(ProtoError::CipherRejected)));
}

#[test]
fn refused_destination_gets_remote_failed() {
    let addr = ReqAddr::new(&[1, 127, 0, 0, 1, 0, 1]);
    let mut c = client("alice", "alice-password", Cipher::AES256GCM, addr);
    let msg = c.request().unwrap();
    let (_, dest, reply) = serve(&msg, false).unwrap();
    assert_eq!(dest.unwrap().get(), Ok((Host::Ipv4(vec![127, 0, 0, 1]), 1)));
    assert!(matches!(read_reply(&mut c, &reply), Err(ProtoError::RemoteFailed)));
}

#[test]
fn padding_lengths_zero_and_max() {
    for pad_len in [0usize, 255] {
        let mut pad = vec![pad_len as u8];
        pad.extend(std::iter::repeat(0x5a).take(pad_len));
        let padding = RandomBytes::from_bytes(&pad);
        assert_eq!(padding.get().len(), pad_len + 1);
        let addr = ReqAddr::new(&[1, 10, 0, 0, 1, 0, 22]);
        let mut c = client("alice", "alice-password", Cipher::AES128GCM, addr);
        let msg = c.request_with(&padding).unwrap();
        assert_eq!(msg.len(), 18 + 32 + (pad_len + 1) + 2 + 7 + 16);
        let mut req = Request::none();
        let need = req.parse_header(&msg[..50], &users()).unwrap();
        let mut data = msg[50..50 + need].to_vec();
        let dest = req.parse_data(&mut data).unwrap();
        assert!(dest.is_some());
        let keys = KeyPair::from(&[9u8; 32]);
        let reply = req.response_with(&padding, Some(keys), true).unwrap();
        assert_eq!(reply.len(), 18 + pad_len + 1 + 1 + 32 + 16);
        let got = read_reply(&mut c, &reply).unwrap();
        assert_eq!(got.as_bytes(), &[9u8; 32][..]);
    }
}

#[test]
fn key_generation_failure_gets_internal_error() {
    let addr = ReqAddr::new(&[1, 10, 0, 0, 1, 0, 22]);
    let mut c = client("alice", "alice-password", Cipher::AES128GCM, addr);
    let msg = c.request().unwrap();
    let mut req = Request::none();
    req.parse_header(&msg[..50], &users()).unwrap();
    let mut data = msg[50..].to_vec();
    req.parse_data(&mut data).unwrap();
    let reply = req.response_with(&RandomBytes::from_bytes(&[0]), None, true).unwrap();
    assert!(matches!(read_reply(&mut c, &reply), Err(ProtoError::ServerInternal)));
}

#[test]
fn test_random_bytes() {
    match RandomBytes::new() {
        Ok(r) => {
            let bytes = r.get();
            let size = bytes[0] as usize;
            assert_eq!(size + 1, bytes.len());
        }
        Err(e) => assert_eq!(e.kind(), ErrorKind::Other),
    }
}

#[test]
fn server_handshake_deadline() {
    assert_eq!(handshake_timeout_secs(0), 10);
    assert_eq!(handshake_timeout_secs(29), 39);
    assert_eq!(handshake_timeout_secs(30), 10);
    assert_eq!(handshake_timeout_secs(255), 25);
    for b in 0..=255u8 {
        assert!((10..40).contains(&handshake_timeout_secs(b)));
    }
}

#[test]
fn user_table_lookup() {
    let t = users();
    assert_eq!(t.len(), 2);
    assert_eq!(t.get(Digest::new("bob").as_bytes()).unwrap().name, "bob");
    assert!(t.get(Digest::new("carol").as_bytes()).is_none());
}

#[test]
fn cipher_error_reply_carries_no_keys() {
    let addr = ReqAddr::new(&[1, 10, 0, 0, 1, 0, 22]);
    let mut c = client("alice", "alice-password", Cipher::AES128GCM, addr);
    let msg = c.request_with(&RandomBytes::from_bytes(&[2, 7, 7])).unwrap();
    let mut req = Request::none();
    req.parse_header(&msg[..50], &users()).unwrap();
    let mut data = msg[50..].to_vec();
    req.parse_data(&mut data).unwrap();
    req.cipher = None;
    let reply = req.response_with(&RandomBytes::from_bytes(&[0]), Some(KeyPair::from(&[1u8; 32])), true).unwrap();
    assert_eq!(reply.len(), 18 + 1 + 1 + 16);
    assert!(matches!(read_reply(&mut c, &reply), Err(ProtoError::CipherRejected)));
}

#[test]
fn failed_parse_leaves_request_state() {
    let mut req = Request::none();
    let header = [0u8; 50];
    assert_eq!(req.parse_header(&header, &users()), Err(ProtoError::UnknownUser));
    assert!(req.user.is_none() && req.crypto.is_none());
}
