//! The v3 record layer: `LEN || LEN TAG || DATA || TAG`, where the two-byte
//! big-endian `LEN` (the length of `DATA || TAG`) is sealed on its own and
//! `DATA` is sealed after it, so each record uses two nonces.

use vstd::prelude::*;

use crate::crypto::{lemma_nonce_after_zero, le_value, nonce_after, nonce_succ, opens_to, pow256, Crypto};
use crate::buffer::copy_into;
use crate::error::{ErrorKind, ProtoError};
use crate::crypto;
use crate::v3::{self, be16, be16_value};

verus! {

/// `rec` is the record of `plain` sealed with `cipher` under `key`, starting
/// at nonce `nonce`.
pub open spec fn is_record(cipher: crypto::Cipher, key: Seq<u8>, nonce: Seq<u8>, plain: Seq<u8>, rec: Seq<u8>) -> bool {
    &&& rec.len() == v3::HEADER_LEN + plain.len() + v3::TAG_LEN
    &&& opens_to(cipher, key, nonce, rec.take(v3::HEADER_LEN as int), be16((plain.len() + v3::TAG_LEN) as nat))
    &&& opens_to(cipher, key, nonce_succ(nonce), rec.skip(v3::HEADER_LEN as int), plain)
}

/// Seals `plain` as one record; the sealing nonce moves on by two.
pub fn seal_record(crypto: &mut Crypto, plain: &[u8]) -> (r: Result<Vec<u8>, ProtoError>)
    requires
        old(crypto).wf(),
        plain@.len() <= v3::MAX_PAYLOAD_LEN,
    ensures
        final(crypto).wf(),
        final(crypto)@.cipher == old(crypto)@.cipher,
        final(crypto)@.open_key == old(crypto)@.open_key,
        final(crypto)@.seal_key == old(crypto)@.seal_key,
        final(crypto)@.open_nonce == old(crypto)@.open_nonce,
        r matches Ok(rec) ==> {
            &&& is_record(old(crypto)@.cipher, old(crypto)@.seal_key, old(crypto)@.seal_nonce, plain@, rec@)
            &&& final(crypto)@.seal_nonce == nonce_after(old(crypto)@.seal_nonce, 2)
        },
        r is Ok,
{
    let ghost c0 = crypto@;
    let n = plain.len();
    let data_len = n + 16;
    let mut header = vec![0u8; 18];
    header[0] = (data_len / 256) as u8;
    header[1] = (data_len % 256) as u8;
    let ghost h0 = header@;
    assert(h0.take(2) =~= be16(data_len as nat));
    match crypto.encrypt(header.as_mut_slice(), 2) {
        Ok(_) => {},
        Err(_) => return Err(ProtoError::Crypto(crypto::Error::Seal)),
    }
    assert(header@ =~= crypto::aead_sealed(c0.cipher, c0.seal_key, c0.seal_nonce, be16(data_len as nat)));
    let ghost c1 = crypto@;
    let mut body = vec![0u8; data_len];
    copy_into(body.as_mut_slice(), 0, plain);
    assert(body@.take(n as int) =~= plain@);
    match crypto.encrypt(body.as_mut_slice(), n) {
        Ok(_) => {},
        Err(_) => return Err(ProtoError::Crypto(crypto::Error::Seal)),
    }
    assert(body@ =~= crypto::aead_sealed(c1.cipher, c1.seal_key, c1.seal_nonce, plain@));
    let ghost hv = header@;
    let ghost bv = body@;
    header.append(&mut body);
    assert(header@.take(18) =~= hv);
    assert(header@.skip(18) =~= bv);
    assert(nonce_after(c0.seal_nonce, 2) == nonce_succ(nonce_after(c0.seal_nonce, 1)));
    assert(nonce_after(c0.seal_nonce, 1) == nonce_succ(nonce_after(c0.seal_nonce, 0)));
    Ok(header)
}

/// Opens a record's 18-byte sealed length prefix in place and returns the
/// announced length of `DATA || TAG`; a length above `MAX_SEALED_LEN` is
/// refused.
pub fn open_record_header(crypto: &mut Crypto, header: &mut [u8]) -> (r: Result<usize, ProtoError>)
    requires
        old(crypto).wf(),
        old(header)@.len() == v3::HEADER_LEN,
    ensures
        final(crypto).wf(),
        final(crypto)@.cipher == old(crypto)@.cipher,
        final(crypto)@.open_key == old(crypto)@.open_key,
        final(crypto)@.seal_key == old(crypto)@.seal_key,
        final(crypto)@.seal_nonce == old(crypto)@.seal_nonce,
        forall|p: Seq<u8>|
            #[trigger] opens_to(old(crypto)@.cipher, old(crypto)@.open_key, old(crypto)@.open_nonce, old(header)@, p)
                ==> p.len() == 2 && final(crypto)@.open_nonce == nonce_succ(old(crypto)@.open_nonce) && if be16_value(p)
                <= v3::MAX_SEALED_LEN {
                r == Ok::<usize, ProtoError>(be16_value(p) as usize)
            } else {
                r == Err::<usize, ProtoError>(ProtoError::RecordTooLarge(be16_value(p) as usize))
            },
        (forall|p: Seq<u8>|
            !opens_to(old(crypto)@.cipher, old(crypto)@.open_key, old(crypto)@.open_nonce, old(header)@, p))
            <==> r == Err::<usize, ProtoError>(ProtoError::Crypto(crypto::Error::Open)),
{
    let ghost c0 = crypto@;
    let ghost h0 = header@;
    match crypto.decrypt(header) {
        Ok(m) => {
            let ghost h1 = header@;
            let len = (header[0] as usize) * 256 + header[1] as usize;
            assert(len == h1[0] as nat * 256 + h1[1] as nat);
            proof {
                assert forall|p: Seq<u8>| #[trigger] opens_to(c0.cipher, c0.open_key, c0.open_nonce, h0, p) implies p.len()
                    == 2 && be16_value(p) == len by {
                    assert(p.len() == m);
                    assert(h1.take(2) == p);
                    assert(p[0] == h1[0] && p[1] == h1[1]);
                }
            }
            if len > v3::MAX_SEALED_LEN {
                Err(ProtoError::RecordTooLarge(len))
            } else {
                Ok(len)
            }
        },
        Err(_) => Err(ProtoError::Crypto(crypto::Error::Open)),
    }
}

/// Opens a whole record held in memory: its length prefix, then its payload,
/// which must be exactly as long as announced. The opening nonce moves on by
/// two.
pub fn open_record(crypto: &mut Crypto, record: &[u8]) -> (r: Result<Vec<u8>, ProtoError>)
    requires
        old(crypto).wf(),
    ensures
        final(crypto).wf(),
        final(crypto)@.cipher == old(crypto)@.cipher,
        final(crypto)@.open_key == old(crypto)@.open_key,
        final(crypto)@.seal_key == old(crypto)@.seal_key,
        final(crypto)@.seal_nonce == old(crypto)@.seal_nonce,
        forall|p: Seq<u8>|
            #[trigger] is_record(old(crypto)@.cipher, old(crypto)@.open_key, old(crypto)@.open_nonce, p, record@)
                && p.len() <= v3::MAX_PAYLOAD_LEN ==> (r matches Ok(q) && q@ == p) && final(crypto)@.open_nonce
                == nonce_after(old(crypto)@.open_nonce, 2),
        r matches Ok(q) ==> is_record(old(crypto)@.cipher, old(crypto)@.open_key, old(crypto)@.open_nonce, q@, record@),
{
    let ghost c0 = crypto@;
    if record.len() < v3::HEADER_LEN {
        return Err(ProtoError::RecordLenMismatch);
    }
    let mut header = vstd::slice::slice_to_vec(vstd::slice::slice_subrange(record, 0, 18));
    let ghost h0 = header@;
    assert(h0 =~= record@.take(18));
    let len = match open_record_header(crypto, header.as_mut_slice()) {
        Ok(n) => n,
        Err(e) => return Err(e),
    };
    let ghost c1 = crypto@;
    if len != record.len() - v3::HEADER_LEN {
        return Err(ProtoError::RecordLenMismatch);
    }
    let mut body = vstd::slice::slice_to_vec(vstd::slice::slice_subrange(record, 18, record.len()));
    let ghost b0 = body@;
    assert(b0 =~= record@.skip(18));
    let n = match crypto.decrypt(body.as_mut_slice()) {
        Ok(n) => n,
        Err(_) => return Err(ProtoError::Crypto(crypto::Error::Open)),
    };
    let plain = vstd::slice::slice_to_vec(vstd::slice::slice_subrange(body.as_slice(), 0, n));
    proof {
        let q = plain@;
        assert(q =~= body@.take(n as int));
        assert(opens_to(c1.cipher, c1.open_key, c1.open_nonce, b0, q));
        assert forall|p: Seq<u8>|
            #[trigger] is_record(c0.cipher, c0.open_key, c0.open_nonce, p, record@) && p.len()
                <= v3::MAX_PAYLOAD_LEN implies q == p && crypto@.open_nonce == nonce_after(c0.open_nonce, 2) by {
            v3::lemma_be16((p.len() + v3::TAG_LEN) as nat);
            assert(opens_to(c0.cipher, c0.open_key, c0.open_nonce, h0, be16((p.len() + v3::TAG_LEN) as nat)));
            assert(opens_to(c1.cipher, c1.open_key, c1.open_nonce, b0, p));
            assert(nonce_after(c0.open_nonce, 2) == nonce_succ(nonce_after(c0.open_nonce, 1)));
            assert(nonce_after(c0.open_nonce, 1) == nonce_succ(nonce_after(c0.open_nonce, 0)));
        }
        // the header opened to `len`, so it is the seal of `be16(len)`
        let hp = choose|hp: Seq<u8>| opens_to(c0.cipher, c0.open_key, c0.open_nonce, h0, hp);
        assert(opens_to(c0.cipher, c0.open_key, c0.open_nonce, h0, hp));
        assert(hp.len() == 2 && be16_value(hp) == len);
        assert(hp =~= be16((q.len() + v3::TAG_LEN) as nat));
    }
    Ok(plain)
}

/// A record sealed from a payload of `L <= MAX_PAYLOAD_LEN` bytes is
/// `2 + 16 + L + 16` bytes long; its first 18 bytes open, under the same key
/// and nonce, to the length `L + 16` (within what a header may announce) and
/// the rest opens, at the next nonce, to the payload. So `open_record`, given
/// what `seal_record` produced under the same key and nonce, returns the
/// payload.
pub proof fn lemma_record_round_trip(
    cipher: crypto::Cipher,
    key: Seq<u8>,
    nonce: Seq<u8>,
    plain: Seq<u8>,
    rec: Seq<u8>,
)
    requires
        is_record(cipher, key, nonce, plain, rec),
        plain.len() <= v3::MAX_PAYLOAD_LEN,
    ensures
        rec.len() == 2 + 16 + plain.len() + 16,
        opens_to(cipher, key, nonce, rec.take(18), be16((plain.len() + v3::TAG_LEN) as nat)),
        be16_value(be16((plain.len() + v3::TAG_LEN) as nat)) == plain.len() + v3::TAG_LEN,
        plain.len() + v3::TAG_LEN <= v3::MAX_SEALED_LEN,
        opens_to(cipher, key, nonce_succ(nonce), rec.skip(18), plain),
{
    v3::lemma_be16((plain.len() + v3::TAG_LEN) as nat);
}

/// The nonce a side holds after `k` records from `start`.
pub open spec fn nonce_after_records(start: Seq<u8>, k: nat) -> Seq<u8>
    decreases k,
{
    if k == 0 {
        start
    } else {
        nonce_after(nonce_after_records(start, (k - 1) as nat), 2)
    }
}

pub proof fn lemma_nonce_after_add(s: Seq<u8>, a: nat, b: nat)
    ensures
        nonce_after(nonce_after(s, a), b) == nonce_after(s, a + b),
    decreases b,
{
    if b > 0 {
        lemma_nonce_after_add(s, a, (b - 1) as nat);
    }
}

/// Over a stream of `k` records from fresh (all-zero) nonces, the sealing and
/// the opening side each move their nonce on twice per record (the length
/// prefix and the payload): both end at the counter value `2k`, so they stay
/// equal.
pub proof fn lemma_stream_nonces(k: nat)
    ensures
        nonce_after_records(Seq::new(12, |i: int| 0u8), k) == nonce_after(Seq::new(12, |i: int| 0u8), 2 * k),
        nonce_after_records(Seq::new(12, |i: int| 0u8), k).len() == 12,
        le_value(nonce_after_records(Seq::new(12, |i: int| 0u8), k)) == (2 * k) % pow256(12),
    decreases k,
{
    let z = Seq::new(12, |i: int| 0u8);
    if k > 0 {
        lemma_stream_nonces((k - 1) as nat);
        lemma_nonce_after_add(z, 2 * (k - 1) as nat, 2);
    }
    lemma_nonce_after_zero(12, 2 * k);
}

/// What the decrypting pipeline reads next.
#[derive(Clone, Copy, Debug, PartialEq, Eq, Structural)]
pub enum ReadPhase {
    /// A record's 18-byte sealed length prefix.
    Header,
    /// A sealed payload of this many bytes.
    Body(usize),
}

/// The decisions of the decrypting pipeline: it reads `need()` bytes, hands
/// them to `feed`, and writes out any plaintext that comes back.
pub struct RecordReader {
    pub crypto: Crypto,
    pub phase: ReadPhase,
}

impl RecordReader {
    pub open spec fn wf(&self) -> bool {
        &&& self.crypto.wf()
        &&& self.phase matches ReadPhase::Body(n) ==> n <= v3::MAX_SEALED_LEN
    }

    /// A reader whose opening key is `key`, before its first record.
    pub fn new(cipher: crypto::Cipher, key: &[u8]) -> (r: Result<RecordReader, ProtoError>)
        ensures
            r is Ok <==> key@.len() == cipher.spec_key_len(),
            r matches Ok(rd) ==> rd.wf() && rd.phase == ReadPhase::Header && rd.crypto@.cipher == cipher
                && rd.crypto@.open_key == key@ && rd.crypto@.open_nonce == crypto::zero_nonce(),
            r matches Err(e) ==> e == ProtoError::Crypto(crypto::Error::KeyLenNotMatch(cipher.spec_key_len() as usize)),
    {
        match Crypto::new(cipher, key, key) {
            Ok(c) => {
                assert(c@.open_nonce =~= crypto::zero_nonce());
                Ok(RecordReader { crypto: c, phase: ReadPhase::Header })
            },
            Err(e) => Err(ProtoError::Crypto(e)),
        }
    }

    /// How many bytes the next `feed` takes.
    pub fn need(&self) -> (r: usize)
        ensures
            r == match self.phase {
                ReadPhase::Header => v3::HEADER_LEN,
                ReadPhase::Body(n) => n,
            },
    {
        match self.phase {
            ReadPhase::Header => v3::HEADER_LEN,
            ReadPhase::Body(n) => n,
        }
    }

    /// The sealed stream ended after `got` bytes of the current unit: a clean
    /// end only when nothing of a new record has arrived.
    pub fn at_eof(&self, got: usize) -> (r: Result<(), ErrorKind>)
        ensures
            r is Ok <==> self.phase == ReadPhase::Header && got == 0,
            r matches Err(k) ==> k == ErrorKind::UnexpectedEof,
    {
        if self.phase == ReadPhase::Header && got == 0 {
            Ok(())
        } else {
            Err(ErrorKind::UnexpectedEof)
        }
    }

    /// Takes a whole header or payload. A header gives no plaintext and sets
    /// up the payload read; a payload is opened in place and its plaintext
    /// length returned.
    pub fn feed(&mut self, unit: &mut [u8]) -> (r: Result<Option<usize>, ProtoError>)
        requires
            old(self).wf(),
            old(unit)@.len() == match old(self).phase {
                ReadPhase::Header => v3::HEADER_LEN,
                ReadPhase::Body(n) => n,
            },
        ensures
            final(self).wf(),
            final(self).crypto@.open_key == old(self).crypto@.open_key,
            final(self).crypto@.cipher == old(self).crypto@.cipher,
            old(self).phase == ReadPhase::Header ==> forall|p: Seq<u8>|
                #[trigger] opens_to(old(self).crypto@.cipher, old(self).crypto@.open_key, old(self).crypto@.open_nonce, old(unit)@, p)
                    ==> if be16_value(p) <= v3::MAX_SEALED_LEN {
                    r == Ok::<Option<usize>, ProtoError>(None) && final(self).phase == ReadPhase::Body(be16_value(p) as usize)
                } else {
                    r == Err::<Option<usize>, ProtoError>(ProtoError::RecordTooLarge(be16_value(p) as usize))
                },
            old(self).phase is Body ==> forall|p: Seq<u8>|
                #[trigger] opens_to(old(self).crypto@.cipher, old(self).crypto@.open_key, old(self).crypto@.open_nonce, old(unit)@, p)
                    ==> r == Ok::<Option<usize>, ProtoError>(Some(p.len() as usize)) && final(unit)@.take(p.len() as int) == p
                    && final(self).phase == ReadPhase::Header,
            (forall|p: Seq<u8>|
                !opens_to(old(self).crypto@.cipher, old(self).crypto@.open_key, old(self).crypto@.open_nonce, old(unit)@, p))
                ==> r == Err::<Option<usize>, ProtoError>(ProtoError::Crypto(crypto::Error::Open)),
            r is Ok ==> final(self).crypto@.open_nonce == nonce_succ(old(self).crypto@.open_nonce),
    {
        match self.phase {
            ReadPhase::Header => {
                let n = match open_record_header(&mut self.crypto, unit) {
                    Ok(n) => n,
                    Err(e) => return Err(e),
                };
                self.phase = ReadPhase::Body(n);
                Ok(None)
            },
            ReadPhase::Body(_) => {
                let n = match self.crypto.decrypt(unit) {
                    Ok(n) => n,
                    Err(_) => return Err(ProtoError::Crypto(crypto::Error::Open)),
                };
                self.phase = ReadPhase::Header;
                Ok(Some(n))
            },
        }
    }
}

/// Byte counts of one connection's two pipelines.
#[derive(Clone, Copy, Debug)]
pub struct Stat {
    enc_read: usize,
    enc_write: usize,
    dec_read: usize,
    dec_write: usize,
}

impl View for Stat {
    type V = (usize, usize, usize, usize);

    /// `(enc_read, enc_write, dec_read, dec_write)`.
    closed spec fn view(&self) -> (usize, usize, usize, usize) {
        (self.enc_read, self.enc_write, self.dec_read, self.dec_write)
    }
}

impl Stat {
    /// Counts from the encrypting pipeline `(read, written)` and the
    /// decrypting one.
    pub fn new(enc: (usize, usize), dec: (usize, usize)) -> (r: Stat)
        ensures
            r@ == (enc.0, enc.1, dec.0, dec.1),
    {
        Stat { enc_read: enc.0, enc_write: enc.1, dec_read: dec.0, dec_write: dec.1 }
    }

    /// Plaintext bytes the encrypting pipeline read.
    pub fn enc_read(&self) -> (r: usize)
        ensures
            r == self@.0,
    {
        self.enc_read
    }

    /// Sealed bytes the encrypting pipeline wrote.
    pub fn enc_write(&self) -> (r: usize)
        ensures
            r == self@.1,
    {
        self.enc_write
    }

    /// Sealed bytes the decrypting pipeline read.
    pub fn dec_read(&self) -> (r: usize)
        ensures
            r == self@.2,
    {
        self.dec_read
    }

    /// Plaintext bytes the decrypting pipeline wrote.
    pub fn dec_write(&self) -> (r: usize)
        ensures
            r == self@.3,
    {
        self.dec_write
    }
}

} // verus!
