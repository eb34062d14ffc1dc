//! The SOCKS5 server side ([RFC 1928](https://tools.ietf.org/rfc/rfc1928.txt))
//! as the local endpoint speaks it: "no authentication" only, CONNECT only.

use vstd::prelude::*;

use crate::buffer::copy_into;
use crate::config::SockAddr;
use crate::error::ProtoError;
use crate::v3::{be16, be16_bytes};

verus! {

pub const VERSION: u8 = 0x05;

pub const AUTH_METHOD_NONE: u8 = 0x00;

pub const CMD_TCP_CONNECT: u8 = 0x01;

pub const ADDR_TYPE_IPV4: u8 = 0x01;

pub const ADDR_TYPE_DOMAIN_NAME: u8 = 0x03;

pub const ADDR_TYPE_IPV6: u8 = 0x04;

pub const REPLY_SUCCEEDED: u8 = 0x00;

pub const REPLY_GENERAL_FAILURE: u8 = 0x01;

pub const REPLY_CONNECTION_REFUSED: u8 = 0x05;

/// Longest request tail: VER, CMD, RSV, ATYP, domain length, 255 bytes of
/// domain, port.
pub const MAX_REQ_LEN: usize = 262;

/// A destination as the protocol encodes it; a domain name is kept as bytes.
pub enum AddrSpec {
    Ipv4(Seq<u8>),
    Ipv6(Seq<u8>),
    Domain(Seq<u8>),
}

impl AddrSpec {
    /// Addresses that have an encoding.
    pub open spec fn wf(self) -> bool {
        match self {
            AddrSpec::Ipv4(ip) => ip.len() == 4,
            AddrSpec::Ipv6(ip) => ip.len() == 16,
            AddrSpec::Domain(d) => d.len() <= 255,
        }
    }
}

/// `ATYP || DST.ADDR || DST.PORT` of a destination.
pub open spec fn spec_encode_addr(a: AddrSpec, port: u16) -> Seq<u8> {
    match a {
        AddrSpec::Ipv4(ip) => seq![ADDR_TYPE_IPV4] + ip + be16(port as nat),
        AddrSpec::Ipv6(ip) => seq![ADDR_TYPE_IPV6] + ip + be16(port as nat),
        AddrSpec::Domain(d) => seq![ADDR_TYPE_DOMAIN_NAME, d.len() as u8] + d + be16(port as nat),
    }
}

pub open spec fn spec_port(hi: u8, lo: u8) -> u16 {
    (hi as int * 256 + lo as int) as u16
}

/// The destination an exact `ATYP || DST.ADDR || DST.PORT` encoding stands for.
pub open spec fn spec_parse_addr(b: Seq<u8>) -> Option<(AddrSpec, u16)> {
    let n = b.len();
    if n == 7 && b[0] == ADDR_TYPE_IPV4 {
        Some((AddrSpec::Ipv4(b.subrange(1, 5)), spec_port(b[5], b[6])))
    } else if n == 19 && b[0] == ADDR_TYPE_IPV6 {
        Some((AddrSpec::Ipv6(b.subrange(1, 17)), spec_port(b[17], b[18])))
    } else if n >= 2 && b[0] == ADDR_TYPE_DOMAIN_NAME && n == b[1] + 4 {
        Some((AddrSpec::Domain(b.subrange(2, n - 2)), spec_port(b[n - 2], b[n - 1])))
    } else {
        None
    }
}

/// Every destination survives encoding and parsing unchanged, for all three
/// address families.
pub proof fn lemma_addr_round_trip(a: AddrSpec, port: u16)
    requires
        a.wf(),
    ensures
        spec_parse_addr(spec_encode_addr(a, port)) == Some((a, port)),
{
    let e = spec_encode_addr(a, port);
    assert(spec_port((port as nat / 256) as u8, (port as nat % 256) as u8) == port);
    match a {
        AddrSpec::Ipv4(ip) => {
            assert(e.subrange(1, 5) =~= ip);
        },
        AddrSpec::Ipv6(ip) => {
            assert(e.subrange(1, 17) =~= ip);
        },
        AddrSpec::Domain(d) => {
            assert(e.subrange(2, e.len() - 2) =~= d);
        },
    }
}

/// A destination host, ready to be dialled or printed.
#[derive(Clone, Debug, PartialEq, Eq)]
pub enum Host {
    Ipv4(Vec<u8>),
    Ipv6(Vec<u8>),
    Domain(String),
}

impl View for Host {
    type V = AddrSpec;

    open spec fn view(&self) -> AddrSpec {
        match self {
            Host::Ipv4(ip) => AddrSpec::Ipv4(ip@),
            Host::Ipv6(ip) => AddrSpec::Ipv6(ip@),
            Host::Domain(s) => AddrSpec::Domain(vstd::utf8::encode_utf8(s@)),
        }
    }
}

/// What `ReqAddr::get` gives for an encoding.
pub open spec fn spec_get(b: Seq<u8>) -> Result<(AddrSpec, u16), ProtoError> {
    match spec_parse_addr(b) {
        None => if b.len() > 0 && b[0] != ADDR_TYPE_IPV4 && b[0] != ADDR_TYPE_IPV6 && b[0]
            != ADDR_TYPE_DOMAIN_NAME {
            Err(ProtoError::UnknownAtyp(b[0]))
        } else {
            Err(ProtoError::BadAddress)
        },
        Some((AddrSpec::Domain(d), p)) => if vstd::utf8::valid_utf8(d) {
            Ok((AddrSpec::Domain(d), p))
        } else {
            Err(ProtoError::InvalidDomain)
        },
        Some(x) => Ok(x),
    }
}

/// Relies on String::from_utf8: a string exactly when the bytes are valid UTF-8.
#[verifier::external_body]
fn string_from_utf8(b: Vec<u8>) -> (r: Option<String>)
    ensures
        r is Some <==> vstd::utf8::valid_utf8(b@),
        r matches Some(s) ==> s@ == vstd::utf8::decode_utf8(b@),
{
    String::from_utf8(b).ok()
}

/// The destination of a request, as `ATYP || DST.ADDR || DST.PORT`.
#[derive(Clone, Debug)]
pub struct ReqAddr {
    bytes: Vec<u8>,
}

impl View for ReqAddr {
    type V = Seq<u8>;

    closed spec fn view(&self) -> Seq<u8> {
        self.bytes@
    }
}

impl ReqAddr {
    pub fn new(bytes: &[u8]) -> (r: ReqAddr)
        requires
            bytes@.len() < MAX_REQ_LEN,
        ensures
            r@ == bytes@,
    {
        ReqAddr { bytes: vstd::slice::slice_to_vec(bytes) }
    }

    /// The encoding of a destination.
    pub fn from_host(host: &Host, port: u16) -> (r: ReqAddr)
        requires
            host@.wf(),
        ensures
            r@ == spec_encode_addr(host@, port),
    {
        let mut bytes: Vec<u8> = Vec::new();
        match host {
            Host::Ipv4(ip) => {
                bytes.push(ADDR_TYPE_IPV4);
                bytes.extend_from_slice(ip.as_slice());
            },
            Host::Ipv6(ip) => {
                bytes.push(ADDR_TYPE_IPV6);
                bytes.extend_from_slice(ip.as_slice());
            },
            Host::Domain(d) => {
                let b = d.as_str().as_bytes();
                bytes.push(ADDR_TYPE_DOMAIN_NAME);
                bytes.push(b.len() as u8);
                bytes.extend_from_slice(b);
            },
        }
        let p = be16_bytes(port);
        bytes.extend_from_slice(p.as_slice());
        assert(bytes@ =~= spec_encode_addr(host@, port));
        ReqAddr { bytes }
    }

    /// A copy of the destination.
    pub fn clone_addr(&self) -> (r: ReqAddr)
        ensures
            r@ == self@,
    {
        ReqAddr { bytes: self.bytes.clone() }
    }

    pub fn get_bytes(&self) -> (r: &[u8])
        ensures
            r@ == self@,
    {
        self.bytes.as_slice()
    }

    /// The destination host and port; fails on an unknown address type, a
    /// length that does not fit the type, or a domain that is not UTF-8.
    pub fn get(&self) -> (r: Result<(Host, u16), ProtoError>)
        ensures
            match spec_get(self@) {
                Ok((a, p)) => r matches Ok((h, q)) && h@ == a && q == p,
                Err(e) => r == Err::<(Host, u16), ProtoError>(e),
            },
            r matches Ok((Host::Domain(s), _)) ==> spec_parse_addr(self@) matches Some(
                (AddrSpec::Domain(d), _),
            ) && s@ == vstd::utf8::decode_utf8(d),
    {
        let b = self.bytes.as_slice();
        let n = b.len();
        if n == 7 && b[0] == ADDR_TYPE_IPV4 {
            let ip = vstd::slice::slice_to_vec(vstd::slice::slice_subrange(b, 1, 5));
            Ok((Host::Ipv4(ip), (b[5] as u16) * 256 + b[6] as u16))
        } else if n == 19 && b[0] == ADDR_TYPE_IPV6 {
            let ip = vstd::slice::slice_to_vec(vstd::slice::slice_subrange(b, 1, 17));
            Ok((Host::Ipv6(ip), (b[17] as u16) * 256 + b[18] as u16))
        } else if n >= 2 && b[0] == ADDR_TYPE_DOMAIN_NAME && n == b[1] as usize + 4 {
            let d = vstd::slice::slice_to_vec(vstd::slice::slice_subrange(b, 2, n - 2));
            let ghost dv = d@;
            let port = (b[n - 2] as u16) * 256 + b[n - 1] as u16;
            match string_from_utf8(d) {
                Some(s) => {
                    proof {
                        vstd::utf8::decode_utf8_encode_utf8(dv);
                    }
                    Ok((Host::Domain(s), port))
                },
                None => Err(ProtoError::InvalidDomain),
            }
        } else if n > 0 && b[0] != ADDR_TYPE_IPV4 && b[0] != ADDR_TYPE_IPV6 && b[0]
            != ADDR_TYPE_DOMAIN_NAME {
            Err(ProtoError::UnknownAtyp(b[0]))
        } else {
            Err(ProtoError::BadAddress)
        }
    }
}

/// `VER REP RSV ATYP BND.ADDR BND.PORT` for a bound address, with `REP` zero.
pub open spec fn spec_reply_template(addr: SockAddr) -> Seq<u8> {
    match addr {
        SockAddr::V4(ip, port) => seq![VERSION, 0u8, 0u8, ADDR_TYPE_IPV4] + ip@ + be16(port as nat),
        SockAddr::V6(ip, port) => seq![VERSION, 0u8, 0u8, ADDR_TYPE_IPV6] + ip@ + be16(port as nat),
    }
}

/// The reply the local endpoint sends once it has tried to reach the remote
/// endpoint; it names the local listening address whatever the outcome.
pub struct Reply {
    buffer: Vec<u8>,
}

impl View for Reply {
    type V = Seq<u8>;

    closed spec fn view(&self) -> Seq<u8> {
        self.buffer@
    }
}

impl Reply {
    pub fn new(addr: &SockAddr) -> (r: Reply)
        requires
            addr.wf(),
        ensures
            r@ == spec_reply_template(*addr),
    {
        let mut buf: Vec<u8> = Vec::new();
        buf.push(VERSION);
        buf.push(0);
        buf.push(0);
        let port = match addr {
            SockAddr::V4(ip, port) => {
                buf.push(ADDR_TYPE_IPV4);
                buf.extend_from_slice(ip.as_slice());
                *port
            },
            SockAddr::V6(ip, port) => {
                buf.push(ADDR_TYPE_IPV6);
                buf.extend_from_slice(ip.as_slice());
                *port
            },
        };
        let p = be16_bytes(port);
        buf.extend_from_slice(p.as_slice());
        assert(buf@ =~= spec_reply_template(*addr));
        Reply { buffer: buf }
    }

    pub fn len(&self) -> (r: usize)
        ensures
            r == self@.len(),
    {
        self.buffer.len()
    }

    /// Writes the reply with code `rtype` at the start of `out`; returns its length.
    pub fn get(&self, rtype: u8, out: &mut [u8]) -> (r: usize)
        requires
            old(out)@.len() >= self@.len(),
            self@.len() >= 2,
        ensures
            r == self@.len(),
            final(out)@ == self@.update(1, rtype) + old(out)@.skip(r as int),
    {
        copy_into(out, 0, self.buffer.as_slice());
        out[1] = rtype;
        assert(out@ =~= self@.update(1, rtype) + old(out)@.skip(self@.len() as int));
        self.buffer.len()
    }
}

/// How dialling the remote endpoint went.
#[derive(Clone, Copy, Debug, PartialEq, Eq, Structural)]
pub enum DialOutcome {
    Connected,
    Refused,
    Failed,
}

pub open spec fn spec_reply_code(outcome: DialOutcome) -> u8 {
    match outcome {
        DialOutcome::Connected => REPLY_SUCCEEDED,
        DialOutcome::Refused => REPLY_CONNECTION_REFUSED,
        DialOutcome::Failed => REPLY_GENERAL_FAILURE,
    }
}

/// The reply code for a dial outcome.
pub fn reply_code(outcome: DialOutcome) -> (r: u8)
    ensures
        r == spec_reply_code(outcome),
{
    match outcome {
        DialOutcome::Connected => REPLY_SUCCEEDED,
        DialOutcome::Refused => REPLY_CONNECTION_REFUSED,
        DialOutcome::Failed => REPLY_GENERAL_FAILURE,
    }
}

/// Where the server side of a SOCKS5 negotiation stands.
#[derive(Clone, Copy, Debug, PartialEq, Eq, Structural)]
pub enum Socks5State {
    /// Expecting the greeting's version byte.
    AuthVersion,
    /// Expecting the number of offered methods.
    AuthNMethod,
    /// Expecting that many method bytes.
    AuthMethods(u8),
    /// Expecting the request's version byte.
    ReqVersion,
    /// Expecting `CMD RSV ATYP` and the first address byte.
    ReqHeader,
    /// Expecting the rest of the address and the port, after the address type
    /// and the first address byte.
    ReqAddrBody(u8, u8),
    /// The request is complete; the remote endpoint is to be dialled.
    DialRemoteProxy,
    /// The reply has been produced.
    Done,
}

/// Bytes the state waits for.
pub open spec fn spec_need(s: Socks5State) -> nat {
    match s {
        Socks5State::AuthVersion => 1,
        Socks5State::AuthNMethod => 1,
        Socks5State::AuthMethods(n) => n as nat,
        Socks5State::ReqVersion => 1,
        Socks5State::ReqHeader => 4,
        Socks5State::ReqAddrBody(atyp, first) => if atyp == ADDR_TYPE_IPV4 {
            5
        } else if atyp == ADDR_TYPE_IPV6 {
            17
        } else {
            first as nat + 2
        },
        Socks5State::DialRemoteProxy => 0,
        Socks5State::Done => 0,
    }
}

/// What a step asks the driver to do next.
pub enum Socks5OutSpec {
    /// Read the next `need` bytes.
    Read,
    /// Send these bytes, then read.
    Send(Seq<u8>),
    /// Dial the remote endpoint for this destination.
    Connect(Seq<u8>),
}

/// One step of the negotiation: the state and what the driver does next, or
/// the failure that ends it.
pub open spec fn spec_step(s: Socks5State, input: Seq<u8>) -> Result<(Socks5State, Socks5OutSpec), ProtoError> {
    match s {
        Socks5State::AuthVersion => if input[0] != VERSION {
            Err(ProtoError::SocksVersion(input[0]))
        } else {
            Ok((Socks5State::AuthNMethod, Socks5OutSpec::Read))
        },
        Socks5State::AuthNMethod => Ok((Socks5State::AuthMethods(input[0]), Socks5OutSpec::Read)),
        Socks5State::AuthMethods(_) => if input.contains(AUTH_METHOD_NONE) {
            Ok((Socks5State::ReqVersion, Socks5OutSpec::Send(seq![VERSION, AUTH_METHOD_NONE])))
        } else {
            Err(ProtoError::NoAuthMethod)
        },
        Socks5State::ReqVersion => if input[0] != VERSION {
            Err(ProtoError::SocksVersion(input[0]))
        } else {
            Ok((Socks5State::ReqHeader, Socks5OutSpec::Read))
        },
        Socks5State::ReqHeader => if input[0] != CMD_TCP_CONNECT {
            Err(ProtoError::UnsupportedCommand(input[0]))
        } else if input[2] != ADDR_TYPE_IPV4 && input[2] != ADDR_TYPE_IPV6 && input[2]
            != ADDR_TYPE_DOMAIN_NAME {
            Err(ProtoError::UnknownAtyp(input[2]))
        } else {
            Ok((Socks5State::ReqAddrBody(input[2], input[3]), Socks5OutSpec::Read))
        },
        Socks5State::ReqAddrBody(atyp, first) => {
            let addr = seq![atyp, first] + input;
            match spec_get(addr) {
                Ok(_) => Ok((Socks5State::DialRemoteProxy, Socks5OutSpec::Connect(addr))),
                Err(e) => Err(e),
            }
        },
        _ => Ok((s, Socks5OutSpec::Read)),
    }
}

/// What the driver does next, as `feed` returns it.
pub enum Socks5Output {
    Read,
    Send(Vec<u8>),
    Connect(ReqAddr),
}

impl View for Socks5Output {
    type V = Socks5OutSpec;

    open spec fn view(&self) -> Socks5OutSpec {
        match self {
            Socks5Output::Read => Socks5OutSpec::Read,
            Socks5Output::Send(b) => Socks5OutSpec::Send(b@),
            Socks5Output::Connect(a) => Socks5OutSpec::Connect(a@),
        }
    }
}

/// The server side of a SOCKS5 negotiation, driven by the bytes the client
/// sends: the driver reads `need()` bytes, hands them to `feed`, and does what
/// comes back.
pub struct Socks5 {
    pub state: Socks5State,
}

impl Socks5 {
    pub fn new() -> (r: Socks5)
        ensures
            r.state == Socks5State::AuthVersion,
    {
        Socks5 { state: Socks5State::AuthVersion }
    }

    /// How many bytes to read before the next `feed`.
    pub fn need(&self) -> (r: usize)
        ensures
            r == spec_need(self.state),
    {
        match self.state {
            Socks5State::AuthVersion => 1,
            Socks5State::AuthNMethod => 1,
            Socks5State::AuthMethods(n) => n as usize,
            Socks5State::ReqVersion => 1,
            Socks5State::ReqHeader => 4,
            Socks5State::ReqAddrBody(atyp, first) => if atyp == ADDR_TYPE_IPV4 {
                5
            } else if atyp == ADDR_TYPE_IPV6 {
                17
            } else {
                first as usize + 2
            },
            Socks5State::DialRemoteProxy => 0,
            Socks5State::Done => 0,
        }
    }

    /// Takes the `need()` bytes the client sent and moves on; a failure ends
    /// the negotiation and leaves the state as it was.
    pub fn feed(&mut self, input: &[u8]) -> (r: Result<Socks5Output, ProtoError>)
        requires
            input@.len() == spec_need(old(self).state),
            old(self).state != Socks5State::DialRemoteProxy,
            old(self).state != Socks5State::Done,
        ensures
            match spec_step(old(self).state, input@) {
                Ok((s, out)) => final(self).state == s && (r matches Ok(o) && o@ == out),
                Err(e) => final(self).state == old(self).state && r == Err::<Socks5Output, ProtoError>(e),
            },
    {
        match self.state {
            Socks5State::AuthVersion => {
                if input[0] != VERSION {
                    return Err(ProtoError::SocksVersion(input[0]));
                }
                self.state = Socks5State::AuthNMethod;
                Ok(Socks5Output::Read)
            },
            Socks5State::AuthNMethod => {
                self.state = Socks5State::AuthMethods(input[0]);
                Ok(Socks5Output::Read)
            },
            Socks5State::AuthMethods(_) => {
                let mut i: usize = 0;
                let mut found = false;
                while i < input.len()
                    invariant
                        i <= input@.len(),
                        found <==> exists|j: int| 0 <= j < i && input@[j] == AUTH_METHOD_NONE,
                    decreases input@.len() - i,
                {
                    if input[i] == AUTH_METHOD_NONE {
                        found = true;
                    }
                    i = i + 1;
                }
                if !found {
                    return Err(ProtoError::NoAuthMethod);
                }
                self.state = Socks5State::ReqVersion;
                let out = vec![VERSION, AUTH_METHOD_NONE];
                assert(out@ =~= seq![VERSION, AUTH_METHOD_NONE]);
                Ok(Socks5Output::Send(out))
            },
            Socks5State::ReqVersion => {
                if input[0] != VERSION {
                    return Err(ProtoError::SocksVersion(input[0]));
                }
                self.state = Socks5State::ReqHeader;
                Ok(Socks5Output::Read)
            },
            Socks5State::ReqHeader => {
                if input[0] != CMD_TCP_CONNECT {
                    return Err(ProtoError::UnsupportedCommand(input[0]));
                }
                let atyp = input[2];
                if atyp != ADDR_TYPE_IPV4 && atyp != ADDR_TYPE_IPV6 && atyp != ADDR_TYPE_DOMAIN_NAME {
                    return Err(ProtoError::UnknownAtyp(atyp));
                }
                self.state = Socks5State::ReqAddrBody(atyp, input[3]);
                Ok(Socks5Output::Read)
            },
            Socks5State::ReqAddrBody(atyp, first) => {
                let mut bytes: Vec<u8> = Vec::new();
                bytes.push(atyp);
                bytes.push(first);
                bytes.extend_from_slice(input);
                assert(bytes@ =~= seq![atyp, first] + input@);
                let addr = ReqAddr::new(bytes.as_slice());
                match addr.get() {
                    Ok(_) => {
                        self.state = Socks5State::DialRemoteProxy;
                        Ok(Socks5Output::Connect(addr))
                    },
                    Err(e) => Err(e),
                }
            },
            _ => Ok(Socks5Output::Read),
        }
    }

    /// The reply for the dial outcome; the negotiation is then done.
    pub fn reply(&mut self, outcome: DialOutcome, reply: &Reply) -> (r: Vec<u8>)
        requires
            old(self).state == Socks5State::DialRemoteProxy,
            reply@.len() >= 2,
        ensures
            final(self).state == Socks5State::Done,
            r@ == reply@.update(1, spec_reply_code(outcome)),
    {
        let mut out = vec![0u8; reply.len()];
        let n = reply.get(reply_code(outcome), out.as_mut_slice());
        assert(out@ =~= reply@.update(1, spec_reply_code(outcome)));
        self.state = Socks5State::Done;
        out
    }
}

} // verus!
