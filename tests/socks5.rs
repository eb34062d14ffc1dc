use fakio::config::SockAddr;
use fakio::error::ProtoError;
use fakio::socks5::{reply_code, DialOutcome, Host, Reply, ReqAddr, Socks5, Socks5Output, Socks5State};

fn drive(s: &mut Socks5, input: &[u8]) -> Result<Socks5Output, ProtoError> {
    assert_eq!(s.need(), input.len());
    s.feed(input)
}

fn greet(s: &mut Socks5) {
    assert!(matches!(drive(s, &[5]), Ok(Socks5Output::Read)));
    assert!(matches!(drive(s, &[1]), Ok(Socks5Output::Read)));
    match drive(s, &[0]) {
        Ok(Socks5Output::Send(b)) => assert_eq!(b, vec![5, 0]),
        _ => panic!("expected the method reply"),
    }
}

#[test]
fn ipv4_connect() {
    let mut s = Socks5::new();
    greet(&mut s);
    assert!(matches!(drive(&mut s, &[5]), Ok(Socks5Output::Read)));
    assert!(matches!(drive(&mut s, &[1, 0, 1, 0x7f]), Ok(Socks5Output::Read)));
    let addr = match drive(&mut s, &[0, 0, 1, 0x1f, 0x90]) {
        Ok(Socks5Output::Connect(a)) => a,
        _ => panic!("expected a destination"),
    };
    assert_eq!(addr.get_bytes(), &[1, 0x7f, 0, 0, 1, 0x1f, 0x90]);
    assert_eq!(addr.get(), Ok((Host::Ipv4(vec![127, 0, 0, 1]), 8080)));
    assert_eq!(s.state, Socks5State::DialRemoteProxy);
    let reply = Reply::new(&SockAddr::V4(vec![127, 0, 0, 1], 1080));
    assert_eq!(s.reply(DialOutcome::Connected, &reply), vec![5, 0, 0, 1, 127, 0, 0, 1, 0x04, 0x38]);
    assert_eq!(s.state, Socks5State::Done);
}

#[test]
fn domain_connect() {
    let mut s = Socks5::new();
    greet(&mut s);
    drive(&mut s, &[5]).unwrap();
    drive(&mut s, &[1, 0, 3, 7]).unwrap();
    let mut body = b"example".to_vec();
    body.extend_from_slice(&[0x00, 0x50]);
    let addr = match drive(&mut s, &body) {
        Ok(Socks5Output::Connect(a)) => a,
        _ => panic!("expected a destination"),
    };
    assert_eq!(addr.get(), Ok((Host::Domain("example".to_string()), 80)));
}

#[test]
fn no_auth_method_is_fatal() {
    let mut s = Socks5::new();
    drive(&mut s, &[5]).unwrap();
    drive(&mut s, &[2]).unwrap();
    assert!(matches!(drive(&mut s, &[1, 2]), Err(ProtoError::NoAuthMethod)));
    let mut s = Socks5::new();
    drive(&mut s, &[5]).unwrap();
    drive(&mut s, &[0]).unwrap();
    assert!(matches!(drive(&mut s, &[]), Err(ProtoError::NoAuthMethod)));
}

#[test]
fn wrong_version_command_and_atyp() {
    let mut s = Socks5::new();
    assert!(matches!(drive(&mut s, &[4]), Err(ProtoError::SocksVersion(4))));
    let mut s = Socks5::new();
    greet(&mut s);
    assert!(matches!(drive(&mut s, &[6]), Err(ProtoError::SocksVersion(6))));
    drive(&mut s, &[5]).unwrap();
    assert!(matches!(drive(&mut s, &[2, 0, 1, 0]), Err(ProtoError::UnsupportedCommand(2))));
    assert!(matches!(drive(&mut s, &[1, 0, 9, 0]), Err(ProtoError::UnknownAtyp(9))));
}

#[test]
fn reply_codes_and_ipv6_template() {
    assert_eq!(reply_code(DialOutcome::Connected), 0);
    assert_eq!(reply_code(DialOutcome::Refused), 5);
    assert_eq!(reply_code(DialOutcome::Failed), 1);
    let mut ip = vec![0u8; 16];
    ip[15] = 1;
    let reply = Reply::new(&SockAddr::V6(ip.clone(), 443));
    assert_eq!(reply.len(), 22);
    let mut out = [0xaau8; 24];
    assert_eq!(reply.get(5, &mut out), 22);
    let mut expected = vec![5u8, 5, 0, 4];
    expected.extend_from_slice(&ip);
    expected.extend_from_slice(&[0x01, 0xbb]);
    assert_eq!(&out[..22], &expected[..]);
    assert_eq!(&out[22..], &[0xaa, 0xaa]);
}

#[test]
fn addresses_round_trip_for_all_families() {
    let hosts = [
        (Host::Ipv4(vec![10, 0, 0, 7]), 22u16),
        (Host::Ipv6((1..=16).collect()), 65535),
        (Host::Domain("example.org".to_string()), 443),
        (Host::Domain(String::new()), 0),
        (Host::Domain("ü.example".to_string()), 8443),
    ];
    for (host, port) in hosts {
        let a = ReqAddr::from_host(&host, port);
        assert_eq!(a.get(), Ok((host, port)));
    }
    let a = ReqAddr::from_host(&Host::Domain("example".to_string()), 80);
    let mut expected = vec![3u8, 7];
    expected.extend_from_slice(b"example");
    expected.extend_from_slice(&[0, 80]);
    assert_eq!(a.get_bytes(), &expected[..]);
}

#[test]
fn malformed_addresses() {
    assert_eq!(ReqAddr::new(&[3, 2, 0xff, 0xfe, 0, 80]).get(), Err(ProtoError::InvalidDomain));
    assert_eq!(ReqAddr::new(&[1, 1, 2, 3]).get(), Err(ProtoError::BadAddress));
    assert_eq!(ReqAddr::new(&[7, 1, 2, 3]).get(), Err(ProtoError::UnknownAtyp(7)));
}
