//! The local endpoint's side of the v3 handshake.
//!
//! Request: `LEN || LEN TAG || USER || sealed(PADDING || VER || CTYP || ATYP ||
//! DST.ADDR || DST.PORT)`, where `USER` travels in the clear and `LEN` counts
//! `USER` and the sealed blob. Reply: a record whose plaintext is
//! `PADDING || RESP || EKEY || DKEY`.

use vstd::prelude::*;

use crate::buffer::copy_into;
use crate::config::{ClientConfig, Digest};
use crate::crypto::{self, opens_to, nonce_after, nonce_succ, Cipher, Crypto, KeyPair};
use crate::error::ProtoError;
use crate::socks5::{ReqAddr, MAX_REQ_LEN};
use crate::transfer::open_record_header;
use crate::util::{is_padding, RandomBytes};
use crate::v3::{self, be16, be16_value};

verus! {

/// Seconds the local endpoint allows a handshake (SOCKS5 and v3 together).
pub const HANDSHAKE_TIMEOUT: u64 = 10;

/// The plaintext of a request's sealed blob.
pub open spec fn request_plain(padding: Seq<u8>, cipher: Cipher, addr: Seq<u8>) -> Seq<u8> {
    padding + seq![v3::VERSION, cipher.spec_no()] + addr
}

/// `msg` is the request made with handshake key `key` at nonce `nonce`.
pub open spec fn is_request(key: Seq<u8>, nonce: Seq<u8>, user: Seq<u8>, plain: Seq<u8>, msg: Seq<u8>) -> bool {
    &&& msg.len() == v3::HEADER_LEN + v3::DEFAULT_DIGEST_LEN + plain.len() + v3::TAG_LEN
    &&& opens_to(
        Cipher::AES256GCM,
        key,
        nonce,
        msg.take(v3::HEADER_LEN as int),
        be16((v3::DEFAULT_DIGEST_LEN + plain.len() + v3::TAG_LEN) as nat),
    )
    &&& msg.subrange(v3::HEADER_LEN as int, (v3::HEADER_LEN + v3::DEFAULT_DIGEST_LEN) as int) == user
    &&& opens_to(
        Cipher::AES256GCM,
        key,
        nonce_succ(nonce),
        msg.skip((v3::HEADER_LEN + v3::DEFAULT_DIGEST_LEN) as int),
        plain,
    )
}

/// What a reply's plaintext says: the two data keys, or why there are none.
pub open spec fn spec_parse_response(p: Seq<u8>, cipher: Cipher) -> Result<Seq<u8>, ProtoError> {
    if p.len() < 1 || p.len() < p[0] as nat + 2 {
        Err(ProtoError::ResponseTooShort)
    } else {
        let pl = p[0] as int + 1;
        let resp = p[pl];
        if resp == v3::SERVER_RESP_CIPHER_ERROR {
            Err(ProtoError::CipherRejected)
        } else if resp == v3::SERVER_RESP_ERROR {
            Err(ProtoError::ServerInternal)
        } else if resp == v3::SERVER_RESP_REMOTE_FAILED {
            Err(ProtoError::RemoteFailed)
        } else if resp != v3::SERVER_RESP_SUCCEED {
            Err(ProtoError::UnknownResponse(resp))
        } else if p.len() - pl - 1 != 2 * cipher.spec_key_len() {
            Err(ProtoError::KeyLenMismatch)
        } else {
            Ok(p.skip(pl as int + 1))
        }
    }
}

/// The client's state through the handshake: the data cipher it asks for,
/// the user id, the destination, and the handshake keys (AES-256-GCM keyed by
/// the password digest in both directions).
pub struct ClientHandshake {
    pub cipher: Cipher,
    pub username: Digest,
    pub req_addr: ReqAddr,
    pub crypto: Crypto,
}

impl ClientHandshake {
    pub open spec fn wf(&self) -> bool {
        &&& self.crypto.wf()
        &&& self.crypto@.cipher == Cipher::AES256GCM
        &&& self.username@.len() == v3::DEFAULT_DIGEST_LEN
        &&& self.req_addr@.len() < MAX_REQ_LEN
    }

    /// Fails unless both digests have 32 bytes.
    pub fn new(config: &ClientConfig, req_addr: ReqAddr) -> (r: Result<ClientHandshake, ProtoError>)
        requires
            req_addr@.len() < MAX_REQ_LEN,
        ensures
            r is Ok <==> config.password@.len() == 32 && config.username@.len() == 32,
            r matches Ok(h) ==> {
                &&& h.wf()
                &&& h.cipher == config.cipher
                &&& h.username@ == config.username@
                &&& h.req_addr@ == req_addr@
                &&& h.crypto@.open_key == config.password@
                &&& h.crypto@.seal_key == config.password@
                &&& h.crypto@.open_nonce == Seq::new(12, |i: int| 0u8)
                &&& h.crypto@.seal_nonce == Seq::new(12, |i: int| 0u8)
            },
            r matches Err(e) ==> e == ProtoError::Crypto(crypto::Error::KeyLenNotMatch(32)),
    {
        let pw = config.password.as_bytes();
        let crypto = match Crypto::new(Cipher::AES256GCM, pw, pw) {
            Ok(c) => c,
            Err(e) => return Err(ProtoError::Crypto(e)),
        };
        if config.username.as_bytes().len() != v3::DEFAULT_DIGEST_LEN {
            return Err(ProtoError::Crypto(crypto::Error::KeyLenNotMatch(32)));
        }
        Ok(ClientHandshake { cipher: config.cipher, username: config.username.clone_digest(), req_addr, crypto })
    }

    /// The request, with fresh random padding.
    pub fn request(&mut self) -> (r: Result<Vec<u8>, ProtoError>)
        requires
            old(self).wf(),
        ensures
            final(self).wf(),
            final(self).cipher == old(self).cipher,
            r matches Ok(msg) ==> exists|padding: Seq<u8>|
                is_padding(padding) && #[trigger] is_request(
                    old(self).crypto@.seal_key,
                    old(self).crypto@.seal_nonce,
                    old(self).username@,
                    request_plain(padding, old(self).cipher, old(self).req_addr@),
                    msg@,
                ),
    {
        let padding = match RandomBytes::new() {
            Ok(p) => p,
            Err(e) => return Err(e),
        };
        self.request_with(&padding)
    }

    /// The request with the given padding; the sealing nonce moves on by two.
    pub fn request_with(&mut self, padding: &RandomBytes) -> (r: Result<Vec<u8>, ProtoError>)
        requires
            old(self).wf(),
            is_padding(padding@),
        ensures
            final(self).wf(),
            final(self).cipher == old(self).cipher,
            final(self).username == old(self).username,
            final(self).req_addr@ == old(self).req_addr@,
            final(self).crypto@.open_nonce == old(self).crypto@.open_nonce,
            final(self).crypto@.open_key == old(self).crypto@.open_key,
            r matches Ok(msg) ==> {
                &&& is_request(
                    old(self).crypto@.seal_key,
                    old(self).crypto@.seal_nonce,
                    old(self).username@,
                    request_plain(padding@, old(self).cipher, old(self).req_addr@),
                    msg@,
                )
                &&& final(self).crypto@.seal_nonce == nonce_after(old(self).crypto@.seal_nonce, 2)
            },
            r is Ok,
    {
        let ghost c0 = self.crypto@;
        let mut plain: Vec<u8> = Vec::new();
        plain.extend_from_slice(padding.get());
        plain.push(v3::VERSION);
        plain.push(self.cipher.to_no());
        plain.extend_from_slice(self.req_addr.get_bytes());
        assert(plain@ =~= request_plain(padding@, self.cipher, self.req_addr@));
        let n = plain.len();
        let len = v3::DEFAULT_DIGEST_LEN + n + 16;
        let mut header = vec![0u8; 18];
        header[0] = (len / 256) as u8;
        header[1] = (len % 256) as u8;
        assert(header@.take(2) =~= be16(len as nat));
        match self.crypto.encrypt(header.as_mut_slice(), 2) {
            Ok(_) => {},
            Err(_) => return Err(ProtoError::Crypto(crypto::Error::Seal)),
        }
        assert(header@ =~= crypto::aead_sealed(c0.cipher, c0.seal_key, c0.seal_nonce, be16(len as nat)));
        let ghost c1 = self.crypto@;
        let mut body = vec![0u8; n + 16];
        copy_into(body.as_mut_slice(), 0, plain.as_slice());
        assert(body@.take(n as int) =~= plain@);
        match self.crypto.encrypt(body.as_mut_slice(), n) {
            Ok(_) => {},
            Err(_) => return Err(ProtoError::Crypto(crypto::Error::Seal)),
        }
        assert(body@ =~= crypto::aead_sealed(c1.cipher, c1.seal_key, c1.seal_nonce, plain@));
        let ghost hv = header@;
        let ghost bv = body@;
        let mut msg = header;
        msg.extend_from_slice(self.username.as_bytes());
        msg.append(&mut body);
        assert(msg@.take(18) =~= hv);
        assert(msg@.subrange(18, 50) =~= self.username@);
        assert(msg@.skip(50) =~= bv);
        assert(nonce_after(c0.seal_nonce, 2) == nonce_succ(nonce_after(c0.seal_nonce, 1)));
        assert(nonce_after(c0.seal_nonce, 1) == nonce_succ(nonce_after(c0.seal_nonce, 0)));
        Ok(msg)
    }

    /// Opens the reply's 18-byte sealed length prefix; returns the length of
    /// the sealed reply body, which must hold at least a padding length byte,
    /// a reply code and a tag.
    pub fn response_header(&mut self, header: &mut [u8]) -> (r: Result<usize, ProtoError>)
        requires
            old(self).wf(),
            old(header)@.len() == v3::HEADER_LEN,
        ensures
            final(self).wf(),
            final(self).cipher == old(self).cipher,
            final(self).crypto@.open_key == old(self).crypto@.open_key,
            forall|p: Seq<u8>|
                #[trigger] opens_to(Cipher::AES256GCM, old(self).crypto@.open_key, old(self).crypto@.open_nonce, old(header)@, p)
                    ==> final(self).crypto@.open_nonce == nonce_succ(old(self).crypto@.open_nonce) && if be16_value(p)
                    > v3::MAX_SEALED_LEN {
                    r == Err::<usize, ProtoError>(ProtoError::RecordTooLarge(be16_value(p) as usize))
                } else if be16_value(p) < 2 + v3::TAG_LEN {
                    r == Err::<usize, ProtoError>(ProtoError::ResponseTooShort)
                } else {
                    r == Ok::<usize, ProtoError>(be16_value(p) as usize)
                },
            (forall|p: Seq<u8>|
                !opens_to(Cipher::AES256GCM, old(self).crypto@.open_key, old(self).crypto@.open_nonce, old(header)@, p))
                ==> r == Err::<usize, ProtoError>(ProtoError::Crypto(crypto::Error::Open)),
    {
        let len = match open_record_header(&mut self.crypto, header) {
            Ok(n) => n,
            Err(e) => return Err(e),
        };
        if len < 2 + 16 {
            return Err(ProtoError::ResponseTooShort);
        }
        Ok(len)
    }

    /// Opens the sealed reply body and reads it: the data keys `EKEY || DKEY`
    /// on success, else the reason the server gave.
    pub fn response(&mut self, data: &mut [u8]) -> (r: Result<KeyPair, ProtoError>)
        requires
            old(self).wf(),
            old(data)@.len() <= v3::MAX_AEAD_INPUT + v3::TAG_LEN,
        ensures
            final(self).wf(),
            final(self).cipher == old(self).cipher,
            forall|p: Seq<u8>|
                #[trigger] opens_to(Cipher::AES256GCM, old(self).crypto@.open_key, old(self).crypto@.open_nonce, old(data)@, p)
                    ==> match spec_parse_response(p, old(self).cipher) {
                    Ok(keys) => r matches Ok(kp) && kp@ == keys,
                    Err(e) => r == Err::<KeyPair, ProtoError>(e),
                },
            (forall|p: Seq<u8>|
                !opens_to(Cipher::AES256GCM, old(self).crypto@.open_key, old(self).crypto@.open_nonce, old(data)@, p))
                ==> r == Err::<KeyPair, ProtoError>(ProtoError::Crypto(crypto::Error::Open)),
    {
        let ghost c0 = self.crypto@;
        let ghost d0 = data@;
        let len = match self.crypto.decrypt(data) {
            Ok(n) => n,
            Err(_) => return Err(ProtoError::Crypto(crypto::Error::Open)),
        };
        let ghost p = data@.take(len as int);
        assert(opens_to(Cipher::AES256GCM, c0.open_key, c0.open_nonce, d0, p));
        if len < 1 {
            return Err(ProtoError::ResponseTooShort);
        }
        let padding_len = data[0] as usize + 1;
        if len < padding_len + 1 {
            return Err(ProtoError::ResponseTooShort);
        }
        let resp = data[padding_len];
        if resp == v3::SERVER_RESP_CIPHER_ERROR {
            return Err(ProtoError::CipherRejected);
        } else if resp == v3::SERVER_RESP_ERROR {
            return Err(ProtoError::ServerInternal);
        } else if resp == v3::SERVER_RESP_REMOTE_FAILED {
            return Err(ProtoError::RemoteFailed);
        } else if resp != v3::SERVER_RESP_SUCCEED {
            return Err(ProtoError::UnknownResponse(resp));
        }
        let key_len = len - padding_len - 1;
        if key_len != 2 * self.cipher.key_len() {
            return Err(ProtoError::KeyLenMismatch);
        }
        let keys = vstd::slice::slice_subrange(data, padding_len + 1, len);
        assert(keys@ =~= p.skip(padding_len + 1));
        Ok(KeyPair::from(keys))
    }
}

} // verus!
