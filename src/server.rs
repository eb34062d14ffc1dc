//! The remote endpoint's side of the v3 handshake: identify the user by the
//! digest sent in the clear, open the request with that user's password
//! digest, and seal a reply that carries fresh data keys.

use vstd::prelude::*;

use crate::config::{User, UserTable};
use crate::crypto::{self, zero_nonce, nonce_after, nonce_succ, opens_to, Cipher, Crypto, KeyPair};
use crate::error::ProtoError;
use crate::socks5::{self, spec_get, ReqAddr};
use crate::transfer::{is_record, open_record_header, seal_record};
use crate::util::{is_padding, RandomBytes};
use crate::v3::{self, be16_value};

verus! {

/// What the plaintext of a request's sealed blob says: the cipher number and
/// the destination encoding, or why it is refused.
pub open spec fn spec_parse_request(p: Seq<u8>) -> Result<(u8, Seq<u8>), ProtoError> {
    if p.len() < 1 || p.len() < p[0] as int + 1 + 4 {
        Err(ProtoError::RequestLenMismatch)
    } else {
        let pl = p[0] as int + 1;
        let atyp = p[pl + 2];
        if p[pl] != v3::VERSION {
            Err(ProtoError::VersionMismatch(p[pl]))
        } else if atyp != socks5::ADDR_TYPE_IPV4 && atyp != socks5::ADDR_TYPE_IPV6 && atyp
            != socks5::ADDR_TYPE_DOMAIN_NAME {
            Err(ProtoError::UnknownAtyp(atyp))
        } else {
            let addr_len = if atyp == socks5::ADDR_TYPE_IPV4 {
                7
            } else if atyp == socks5::ADDR_TYPE_IPV6 {
                19
            } else {
                p[pl + 3] as int + 4
            };
            if p.len() != pl + 2 + addr_len {
                Err(ProtoError::RequestLenMismatch)
            } else {
                let addr = p.subrange(pl + 2, p.len() as int);
                match spec_get(addr) {
                    Err(e) => Err(e),
                    Ok(_) => Ok((p[pl + 1], addr)),
                }
            }
        }
    }
}

/// The reply code: the cipher is checked first, then key generation, then
/// the connection to the destination.
pub open spec fn spec_resp_code(cipher_ok: bool, keys_ok: bool, remote_ok: bool) -> u8 {
    if !cipher_ok {
        v3::SERVER_RESP_CIPHER_ERROR
    } else if !keys_ok {
        v3::SERVER_RESP_ERROR
    } else if !remote_ok {
        v3::SERVER_RESP_REMOTE_FAILED
    } else {
        v3::SERVER_RESP_SUCCEED
    }
}

/// The plaintext of a reply: padding, the code, and the keys only on success.
pub open spec fn reply_plain(padding: Seq<u8>, resp: u8, keys: Seq<u8>) -> Seq<u8> {
    padding + seq![resp] + if resp == v3::SERVER_RESP_SUCCEED {
        keys
    } else {
        Seq::empty()
    }
}

/// Seconds a handshake may take on the server for a random byte `b`:
/// `10 + b % 30`, in `[10, 40)`.
pub fn handshake_timeout_secs(b: u8) -> (r: u64)
    ensures
        r == 10 + (b % 30),
        10 <= r < 40,
{
    10 + (b % 30) as u64
}

/// `keys` are data keys for the request's cipher, derived from the user's
/// password digest and some 32-byte salt.
pub open spec fn spec_fresh_keys(req: Request, keys: Seq<u8>) -> bool {
    &&& req.cipher matches Some(c)
    &&& req.user matches Some(u)
    &&& keys.len() == 2 * c.spec_key_len()
    &&& exists|salt: Seq<u8>|
        salt.len() == 32 && keys == #[trigger] crypto::hkdf_sha256_okm(salt, u.password@, crypto::INFO_KEY@).take(
            2 * c.spec_key_len() as int,
        )
}

/// What the server has learnt of one request so far.
pub struct Request {
    pub user: Option<User>,
    pub crypto: Option<Crypto>,
    pub cipher: Option<Cipher>,
    pub addr: Option<ReqAddr>,
    pub key_pair: Option<KeyPair>,
}

impl Request {
    /// The handshake keys are set and well formed.
    pub open spec fn keyed(&self) -> bool {
        &&& self.crypto matches Some(c)
        &&& c.wf()
        &&& c@.cipher == Cipher::AES256GCM
    }

    pub fn none() -> (r: Request)
        ensures
            r.user is None,
            r.crypto is None,
            r.cipher is None,
            r.addr is None,
            r.key_pair is None,
    {
        Request { user: None, crypto: None, cipher: None, addr: None, key_pair: None }
    }

    /// Reads `LEN || LEN TAG || USER`: looks the user up, keys the handshake
    /// with the user's password digest and opens `LEN`. Returns how many bytes
    /// of sealed request follow.
    pub fn parse_header(&mut self, header: &[u8], users: &UserTable) -> (r: Result<usize, ProtoError>)
        requires
            header@.len() == v3::HEADER_LEN + v3::DEFAULT_DIGEST_LEN,
            users.wf(),
        ensures
            !users@.contains_key(header@.subrange(18, 50)) ==> r == Err::<usize, ProtoError>(
                ProtoError::UnknownUser,
            ),
            r is Err ==> *final(self) == *old(self),
            r is Ok ==> final(self).cipher == old(self).cipher && final(self).addr == old(self).addr
                && final(self).key_pair == old(self).key_pair && (final(self).user matches Some(u)
                && u.spec_entry() == users@[header@.subrange(18, 50)]),
            users@.contains_key(header@.subrange(18, 50)) ==> {
                let key = users@[header@.subrange(18, 50)].1;
                &&& forall|p: Seq<u8>|
                    #[trigger] opens_to(Cipher::AES256GCM, key, zero_nonce(), header@.take(18), p)
                        ==> if be16_value(p) > v3::MAX_SEALED_LEN {
                        r == Err::<usize, ProtoError>(ProtoError::RecordTooLarge(be16_value(p) as usize))
                    } else if be16_value(p) <= v3::DEFAULT_DIGEST_LEN + v3::TAG_LEN {
                        r == Err::<usize, ProtoError>(ProtoError::RequestTooShort)
                    } else {
                        r == Ok::<usize, ProtoError>((be16_value(p) - v3::DEFAULT_DIGEST_LEN) as usize)
                    }
                &&& (forall|p: Seq<u8>|
                    !opens_to(Cipher::AES256GCM, key, zero_nonce(), header@.take(18), p))
                    ==> r == Err::<usize, ProtoError>(ProtoError::Crypto(crypto::Error::Open))
                &&& r is Ok ==> final(self).keyed() && final(self).user is Some && (final(self).crypto matches Some(c)
                    && c@.open_key == key && c@.seal_key == key && c@.open_nonce == nonce_succ(zero_nonce())
                    && c@.seal_nonce == zero_nonce())
            },
    {
        let id = vstd::slice::slice_subrange(header, 18, 50);
        let user = match users.get(id) {
            Some(u) => u,
            None => return Err(ProtoError::UnknownUser),
        };
        assert(id@ == header@.subrange(18, 50));
        assert(user.password@ == users@[id@].1);
        let pw = user.password.as_bytes();
        let mut crypto = match Crypto::new(Cipher::AES256GCM, pw, pw) {
            Ok(c) => c,
            Err(e) => return Err(ProtoError::Crypto(e)),
        };
        let mut head = vstd::slice::slice_to_vec(vstd::slice::slice_subrange(header, 0, 18));
        assert(head@ =~= header@.take(18));
        assert(crypto@.open_nonce =~= zero_nonce());
        assert(crypto@.seal_nonce =~= zero_nonce());
        let len = match open_record_header(&mut crypto, head.as_mut_slice()) {
            Ok(n) => n,
            Err(e) => return Err(e),
        };
        if len <= v3::DEFAULT_DIGEST_LEN + 16 {
            return Err(ProtoError::RequestTooShort);
        }
        self.user = Some(user.clone_user());
        self.crypto = Some(crypto);
        Ok(len - v3::DEFAULT_DIGEST_LEN)
    }

    /// Opens and reads the sealed request: records the destination, and the
    /// cipher if it is known. Returns the destination to dial when the cipher
    /// is known, `None` when it is not (the reply then says so).
    pub fn parse_data(&mut self, data: &mut [u8]) -> (r: Result<Option<ReqAddr>, ProtoError>)
        requires
            old(self).keyed(),
            old(data)@.len() <= v3::MAX_AEAD_INPUT + v3::TAG_LEN,
        ensures
            final(self).keyed(),
            final(self).user == old(self).user,
            final(self).key_pair == old(self).key_pair,
            r is Err ==> final(self).cipher == old(self).cipher && final(self).addr == old(self).addr,
            old(self).crypto matches Some(c0) ==> (final(self).crypto matches Some(c1) && c1@.seal_key
                == c0@.seal_key && c1@.seal_nonce == c0@.seal_nonce && c1@.open_key == c0@.open_key),
            old(self).crypto matches Some(c0) ==> {
                &&& forall|p: Seq<u8>|
                    #[trigger] opens_to(Cipher::AES256GCM, c0@.open_key, c0@.open_nonce, old(data)@, p)
                        ==> match spec_parse_request(p) {
                        Err(e) => r == Err::<Option<ReqAddr>, ProtoError>(e),
                        Ok((no, addr)) => (final(self).addr matches Some(a) && a@ == addr) && match Cipher::spec_from_no(no) {
                            Some(c) => final(self).cipher == Some(c) && (r matches Ok(Some(b)) && b@ == addr),
                            None => final(self).cipher is None && (r matches Ok(None)),
                        },
                    }
                &&& (forall|p: Seq<u8>|
                    !opens_to(Cipher::AES256GCM, c0@.open_key, c0@.open_nonce, old(data)@, p))
                    ==> r == Err::<Option<ReqAddr>, ProtoError>(ProtoError::Crypto(crypto::Error::Open))
            },
    {
        let mut crypto = match self.crypto.take() {
            Some(c) => c,
            None => return Err(ProtoError::Crypto(crypto::Error::Open)),
        };
        let ghost c0 = crypto@;
        let ghost d0 = data@;
        let res = crypto.decrypt(data);
        self.crypto = Some(crypto);
        let len = match res {
            Ok(n) => n,
            Err(_) => return Err(ProtoError::Crypto(crypto::Error::Open)),
        };
        let ghost p = data@.take(len as int);
        assert(opens_to(Cipher::AES256GCM, c0.open_key, c0.open_nonce, d0, p));
        if len < 1 {
            return Err(ProtoError::RequestLenMismatch);
        }
        let padding_len = data[0] as usize + 1;
        if len < padding_len + 4 {
            return Err(ProtoError::RequestLenMismatch);
        }
        if data[padding_len] != v3::VERSION {
            return Err(ProtoError::VersionMismatch(data[padding_len]));
        }
        let cipher_no = data[padding_len + 1];
        let atyp = data[padding_len + 2];
        let addr_start = padding_len + 2;
        let addr_len: usize = if atyp == socks5::ADDR_TYPE_IPV4 {
            7
        } else if atyp == socks5::ADDR_TYPE_IPV6 {
            19
        } else if atyp == socks5::ADDR_TYPE_DOMAIN_NAME {
            data[padding_len + 3] as usize + 4
        } else {
            return Err(ProtoError::UnknownAtyp(atyp));
        };
        if len != addr_start + addr_len {
            return Err(ProtoError::RequestLenMismatch);
        }
        let bytes = vstd::slice::slice_subrange(data, addr_start, len);
        assert(bytes@ =~= p.subrange(addr_start as int, p.len() as int));
        let addr = ReqAddr::new(bytes);
        match addr.get() {
            Ok(_) => {},
            Err(e) => return Err(e),
        }
        match Cipher::from_no(cipher_no) {
            Ok(c) => {
                self.cipher = Some(c);
                self.addr = Some(addr.clone_addr());
                Ok(Some(addr))
            },
            Err(_) => {
                self.cipher = None;
                self.addr = Some(addr);
                Ok(None)
            },
        }
    }

    /// The sealed reply for this request, with the given padding and data
    /// keys (`None` when generating them failed) and whether the destination
    /// was reached. The keys are kept for the data phase.
    pub fn response_with(&mut self, padding: &RandomBytes, keys: Option<KeyPair>, remote_connected: bool) -> (r: Result<Vec<u8>, ProtoError>)
        requires
            old(self).keyed(),
            is_padding(padding@),
            keys matches Some(k) ==> k@.len() <= 64,
        ensures
            final(self).keyed(),
            final(self).cipher == old(self).cipher,
            final(self).user == old(self).user,
            final(self).key_pair == keys,
            old(self).crypto matches Some(c0) ==> (r matches Ok(msg) ==> final(self).crypto matches Some(c1) && c1@.seal_nonce
                == nonce_after(c0@.seal_nonce, 2) && c1@.open_nonce == c0@.open_nonce && is_record(
                Cipher::AES256GCM,
                c0@.seal_key,
                c0@.seal_nonce,
                reply_plain(
                    padding@,
                    spec_resp_code(old(self).cipher is Some, keys is Some, remote_connected),
                    match keys {
                        Some(k) => k@,
                        None => Seq::empty(),
                    },
                ),
                msg@,
            )),
            r is Ok,
    {
        let mut crypto = match self.crypto.take() {
            Some(c) => c,
            None => return Err(ProtoError::Crypto(crypto::Error::Seal)),
        };
        let resp = if self.cipher.is_none() {
            v3::SERVER_RESP_CIPHER_ERROR
        } else if keys.is_none() {
            v3::SERVER_RESP_ERROR
        } else if !remote_connected {
            v3::SERVER_RESP_REMOTE_FAILED
        } else {
            v3::SERVER_RESP_SUCCEED
        };
        let mut plain: Vec<u8> = Vec::new();
        plain.extend_from_slice(padding.get());
        plain.push(resp);
        let ghost kv = match &keys {
            Some(k) => k@,
            None => Seq::<u8>::empty(),
        };
        if resp == v3::SERVER_RESP_SUCCEED {
            match &keys {
                Some(k) => plain.extend_from_slice(k.as_bytes()),
                None => {},
            }
        }
        assert(plain@ =~= reply_plain(padding@, resp, kv));
        let res = seal_record(&mut crypto, plain.as_slice());
        self.crypto = Some(crypto);
        self.key_pair = keys;
        res
    }

    /// The sealed reply, with fresh padding and, when the cipher is known,
    /// freshly generated data keys.
    pub fn response(&mut self, remote_connected: bool) -> (r: Result<Vec<u8>, ProtoError>)
        requires
            old(self).keyed(),
            old(self).user is Some,
        ensures
            final(self).keyed(),
            final(self).cipher == old(self).cipher,
            final(self).user == old(self).user,
            r matches Err(e) ==> e == ProtoError::Random,
            old(self).crypto matches Some(c0) ==> (r matches Ok(msg) ==> exists|pad: Seq<u8>, keys_ok: bool, keys: Seq<u8>|
                is_padding(pad) && #[trigger] is_record(
                    Cipher::AES256GCM,
                    c0@.seal_key,
                    c0@.seal_nonce,
                    reply_plain(pad, spec_resp_code(old(self).cipher is Some, keys_ok, remote_connected), keys),
                    msg@,
                ) && (keys_ok ==> spec_fresh_keys(*old(self), keys) && (final(self).key_pair matches Some(k) && k@ == keys))
                && (!keys_ok ==> final(self).key_pair is None)),
    {
        let padding = match RandomBytes::new() {
            Ok(p) => p,
            Err(e) => return Err(e),
        };
        let keys = match (self.cipher, &self.user) {
            (Some(c), Some(u)) => match KeyPair::generate(u.password.as_bytes(), c) {
                Ok(k) => Some(k),
                Err(_) => None,
            },
            _ => None,
        };
        self.response_with(&padding, keys, remote_connected)
    }
}

} // verus!
