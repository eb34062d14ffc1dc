use ring::aead;
use vstd::prelude::*;

use crate::buffer::copy_into;
use crate::util::random_bytes;
use crate::v3;

verus! {

/// Failures of the cryptographic layer.
#[derive(Clone, Copy, Debug, PartialEq, Eq, Structural)]
pub enum Error {
    CipherNotSupport,
    GenKey,
    KeyLenNotMatch(usize),
    SealBufferTooSmall(usize),
    Open,
    Seal,
}

/// The AEAD algorithms a connection may use for its data phase.
#[derive(Clone, Copy, Debug, PartialEq, Eq, Structural)]
pub enum Cipher {
    AES128GCM,
    AES256GCM,
    CHACHA20POLY1305,
}

impl Cipher {
    pub open spec fn spec_key_len(self) -> nat {
        match self {
            Cipher::AES128GCM => 16,
            Cipher::AES256GCM => 32,
            Cipher::CHACHA20POLY1305 => 32,
        }
    }

    /// The wire number of a cipher.
    pub open spec fn spec_no(self) -> u8 {
        match self {
            Cipher::AES128GCM => 1,
            Cipher::AES256GCM => 2,
            Cipher::CHACHA20POLY1305 => 3,
        }
    }

    /// The cipher with a given wire number, if any.
    pub open spec fn spec_from_no(no: u8) -> Option<Cipher> {
        if no == 1 {
            Some(Cipher::AES128GCM)
        } else if no == 2 {
            Some(Cipher::AES256GCM)
        } else if no == 3 {
            Some(Cipher::CHACHA20POLY1305)
        } else {
            None
        }
    }

    /// The cipher named by an already lower-cased name, if any.
    pub open spec fn spec_from_name(name: Seq<char>) -> Result<Cipher, Error> {
        if name == "aes-128-gcm"@ {
            Ok(Cipher::AES128GCM)
        } else if name == "aes-256-gcm"@ {
            Ok(Cipher::AES256GCM)
        } else if name == "chacha20-poly1305"@ {
            Ok(Cipher::CHACHA20POLY1305)
        } else {
            Err(Error::CipherNotSupport)
        }
    }

    /// Looks a cipher up by its name, in any letter case.
    pub fn new(name: &str) -> (r: Result<Cipher, Error>)
        ensures
            r == Cipher::spec_from_name(lower_of(name@)),
    {
        let lower = to_lowercase(name);
        Cipher::from_lower_name(lower.as_str())
    }

    /// Looks a cipher up by its lower-case name.
    pub fn from_lower_name(name: &str) -> (r: Result<Cipher, Error>)
        ensures
            r == Cipher::spec_from_name(name@),
    {
        let name = name.to_owned();
        if name == "aes-128-gcm".to_owned() {
            Ok(Cipher::AES128GCM)
        } else if name == "aes-256-gcm".to_owned() {
            Ok(Cipher::AES256GCM)
        } else if name == "chacha20-poly1305".to_owned() {
            Ok(Cipher::CHACHA20POLY1305)
        } else {
            Err(Error::CipherNotSupport)
        }
    }

    pub fn from_no(no: u8) -> (r: Result<Cipher, Error>)
        ensures
            match Cipher::spec_from_no(no) {
                Some(c) => r == Ok::<Cipher, Error>(c),
                None => r == Err::<Cipher, Error>(Error::CipherNotSupport),
            },
    {
        match no {
            1 => Ok(Cipher::AES128GCM),
            2 => Ok(Cipher::AES256GCM),
            3 => Ok(Cipher::CHACHA20POLY1305),
            _ => Err(Error::CipherNotSupport),
        }
    }

    pub fn to_no(&self) -> (r: u8)
        ensures
            r == self.spec_no(),
    {
        match *self {
            Cipher::AES128GCM => 1,
            Cipher::AES256GCM => 2,
            Cipher::CHACHA20POLY1305 => 3,
        }
    }

    pub fn key_len(&self) -> (r: usize)
        ensures
            r == self.spec_key_len(),
    {
        match *self {
            Cipher::AES128GCM => 16,
            Cipher::AES256GCM => 32,
            Cipher::CHACHA20POLY1305 => 32,
        }
    }

    pub fn tag_len(&self) -> (r: usize)
        ensures
            r == crate::v3::TAG_LEN,
    {
        16
    }

    pub fn nonce_len(&self) -> (r: usize)
        ensures
            r == crate::v3::NONCE_LEN,
    {
        12
    }
}

impl Default for Cipher {
    fn default() -> (r: Cipher)
        ensures
            r == Cipher::AES128GCM,
    {
        Cipher::AES128GCM
    }
}

/// What `str::to_lowercase` makes of a string.
pub uninterp spec fn lower_of(s: Seq<char>) -> Seq<char>;

/// Relies on str::to_lowercase: the result depends on the characters alone.
#[verifier::external_body]
fn to_lowercase(s: &str) -> (r: String)
    ensures
        r@ == lower_of(s@),
{
    s.to_lowercase()
}

/// What sealing `plain` with `cipher` under `key` and `nonce` and no
/// associated data gives: the ciphertext followed by the tag.
pub uninterp spec fn aead_sealed(cipher: Cipher, key: Seq<u8>, nonce: Seq<u8>, plain: Seq<u8>) -> Seq<u8>;

/// `sealed` is what sealing `plain` gives under this key and nonce.
pub open spec fn opens_to(cipher: Cipher, key: Seq<u8>, nonce: Seq<u8>, sealed: Seq<u8>, plain: Seq<u8>) -> bool {
    aead_sealed(cipher, key, nonce, plain) == sealed
}

/// Relies on ring::aead::LessSafeKey::seal_in_place_append_tag (with
/// UnboundKey::new and Nonce::try_assume_unique_for_key): the ciphertext of
/// `plain` followed by a 16-byte tag. UnboundKey::new fails only on a key of
/// the wrong length, the nonce only on a wrong length, and sealing only on
/// inputs of many GiB, so a well-formed call succeeds.
#[verifier::external_body]
fn aead_seal(cipher: Cipher, key: &[u8], nonce: &[u8], plain: &[u8]) -> (r: Option<Vec<u8>>)
    ensures
        r matches Some(c) ==> c@ == aead_sealed(cipher, key@, nonce@, plain@) && c@.len() == plain@.len() + 16,
        key@.len() == cipher.spec_key_len() && nonce@.len() == v3::NONCE_LEN && plain@.len()
            <= v3::MAX_AEAD_INPUT ==> r is Some,
{
    let alg = match cipher {
        Cipher::AES128GCM => &aead::AES_128_GCM,
        Cipher::AES256GCM => &aead::AES_256_GCM,
        Cipher::CHACHA20POLY1305 => &aead::CHACHA20_POLY1305,
    };
    let key = aead::LessSafeKey::new(aead::UnboundKey::new(alg, key).ok()?);
    let nonce = aead::Nonce::try_assume_unique_for_key(nonce).ok()?;
    let mut out = plain.to_vec();
    key.seal_in_place_append_tag(nonce, aead::Aad::empty(), &mut out).ok()?;
    Some(out)
}

/// Relies on ring::aead::LessSafeKey::open_in_place (with UnboundKey::new and
/// Nonce::try_assume_unique_for_key): it decrypts and accepts exactly when the
/// tag of the ciphertext matches, that is when the input is the seal of the
/// plaintext it returns; a key of the right length is always accepted.
#[verifier::external_body]
fn aead_open(cipher: Cipher, key: &[u8], nonce: &[u8], sealed: &[u8]) -> (r: Option<Vec<u8>>)
    requires
        key@.len() == cipher.spec_key_len(),
        nonce@.len() == v3::NONCE_LEN,
        sealed@.len() <= v3::MAX_AEAD_INPUT + v3::TAG_LEN,
    ensures
        r matches Some(p) ==> opens_to(cipher, key@, nonce@, sealed@, p@) && p@.len() + 16 == sealed@.len(),
        r matches Some(q) ==> forall|p: Seq<u8>| #[trigger] opens_to(cipher, key@, nonce@, sealed@, p) ==> q@ == p,
        r is None ==> forall|p: Seq<u8>| !#[trigger] opens_to(cipher, key@, nonce@, sealed@, p),
{
    let alg = match cipher {
        Cipher::AES128GCM => &aead::AES_128_GCM,
        Cipher::AES256GCM => &aead::AES_256_GCM,
        Cipher::CHACHA20POLY1305 => &aead::CHACHA20_POLY1305,
    };
    let key = aead::LessSafeKey::new(aead::UnboundKey::new(alg, key).ok()?);
    let nonce = aead::Nonce::try_assume_unique_for_key(nonce).ok()?;
    let mut buf = sealed.to_vec();
    let plain = key.open_in_place(nonce, aead::Aad::empty(), &mut buf).ok()?;
    Some(plain.to_vec())
}

/// The first 64 bytes of HKDF-SHA256 output keyed by `salt` and `secret`
/// with context `info`.
pub uninterp spec fn hkdf_sha256_okm(salt: Seq<u8>, secret: Seq<u8>, info: Seq<u8>) -> Seq<u8>;

/// Relies on ring::hkdf::Salt::extract, Prk::expand and Okm::fill with
/// HKDF_SHA256; the output length is taken from HMAC_SHA512's 64-byte digest.
/// HKDF output of a shorter length is a prefix of this one. `expand` fails
/// only above 255 * 32 bytes and `fill` only on a length mismatch, so this
/// succeeds.
#[verifier::external_body]
fn hkdf_sha256_64(salt: &[u8], secret: &[u8], info: &[u8]) -> (r: Option<Vec<u8>>)
    ensures
        r is Some,
        r matches Some(v) ==> v@ == hkdf_sha256_okm(salt@, secret@, info@) && v@.len() == 64,
{
    let prk = ring::hkdf::Salt::new(ring::hkdf::HKDF_SHA256, salt).extract(secret);
    let info = [info];
    let okm = prk.expand(&info, ring::hmac::HMAC_SHA512).ok()?;
    let mut out = vec![0u8; 64];
    okm.fill(&mut out).ok()?;
    Some(out)
}

/// Context string of the transfer key derivation ("hello kelsi").
pub const INFO_KEY: [u8; 11] = [104, 101, 108, 108, 111, 32, 107, 101, 108, 115, 105];

/// The two data-phase keys a server hands out, `EKEY || DKEY`.
pub struct KeyPair {
    value: Vec<u8>,
}

impl View for KeyPair {
    type V = Seq<u8>;

    closed spec fn view(&self) -> Seq<u8> {
        self.value@
    }
}

impl KeyPair {
    /// Derives `2 * key_len` bytes of fresh key material from `secret` and a
    /// random 32-byte salt; fails only when the salt cannot be drawn.
    pub fn generate(secret: &[u8], cipher: Cipher) -> (r: Result<KeyPair, Error>)
        ensures
            match r {
                Ok(kp) => kp@.len() == 2 * cipher.spec_key_len() && exists|salt: Seq<u8>|
                    salt.len() == 32 && kp@ == #[trigger] hkdf_sha256_okm(salt, secret@, INFO_KEY@).take(
                        2 * cipher.spec_key_len() as int,
                    ),
                Err(e) => e == Error::GenKey,
            },
    {
        match random_bytes(32) {
            Some(salt) => Ok(KeyPair::derive(salt.as_slice(), secret, cipher)),
            None => Err(Error::GenKey),
        }
    }

    /// The key pair for a given salt: the first `2 * key_len` bytes of
    /// HKDF-SHA256 over `secret` with context `INFO_KEY`.
    pub fn derive(salt: &[u8], secret: &[u8], cipher: Cipher) -> (r: KeyPair)
        requires
            salt@.len() == 32,
        ensures
            r@ == hkdf_sha256_okm(salt@, secret@, INFO_KEY@).take(2 * cipher.spec_key_len() as int),
            r@.len() == 2 * cipher.spec_key_len(),
    {
        let len = cipher.key_len() * 2;
        let okm = match hkdf_sha256_64(salt, secret, INFO_KEY.as_slice()) {
            Some(v) => v,
            None => Vec::new(),
        };
        let value = vstd::slice::slice_to_vec(vstd::slice::slice_subrange(okm.as_slice(), 0, len));
        assert(value@ =~= hkdf_sha256_okm(salt@, secret@, INFO_KEY@).take(len as int));
        KeyPair { value }
    }

    pub fn from(slice: &[u8]) -> (r: KeyPair)
        ensures
            r@ == slice@,
    {
        KeyPair { value: vstd::slice::slice_to_vec(slice) }
    }

    pub fn len(&self) -> (r: usize)
        ensures
            r == self@.len(),
    {
        self.value.len()
    }

    /// The key bytes, `EKEY || DKEY`.
    pub fn as_bytes(&self) -> (r: &[u8])
        ensures
            r@ == self@,
    {
        self.value.as_slice()
    }

    /// The two halves, `(EKEY, DKEY)`.
    pub fn split(&self) -> (r: (&[u8], &[u8]))
        ensures
            r.0@ == self@.take(self@.len() as int / 2),
            r.1@ == self@.skip(self@.len() as int / 2),
    {
        let len = self.value.len() / 2;
        let all = self.value.as_slice();
        (vstd::slice::slice_subrange(all, 0, len), vstd::slice::slice_subrange(all, len, all.len()))
    }
}

/// What a crypto context is: its cipher, both keys and both nonces.
pub struct CryptoState {
    pub cipher: Cipher,
    pub open_key: Seq<u8>,
    pub seal_key: Seq<u8>,
    pub open_nonce: Seq<u8>,
    pub seal_nonce: Seq<u8>,
}

impl CryptoState {
    pub open spec fn wf(self) -> bool {
        &&& self.open_key.len() == self.cipher.spec_key_len()
        &&& self.seal_key.len() == self.cipher.spec_key_len()
        &&& self.open_nonce.len() == v3::NONCE_LEN
        &&& self.seal_nonce.len() == v3::NONCE_LEN
    }
}

/// Per-direction AEAD state of one connection: an opening key and a sealing
/// key, each with its own nonce counter that every use moves on by one.
pub struct Crypto {
    cipher: Cipher,
    open_key: Vec<u8>,
    open_nonce: Vec<u8>,
    seal_key: Vec<u8>,
    seal_nonce: Vec<u8>,
}

impl View for Crypto {
    type V = CryptoState;

    closed spec fn view(&self) -> CryptoState {
        CryptoState {
            cipher: self.cipher,
            open_key: self.open_key@,
            seal_key: self.seal_key@,
            open_nonce: self.open_nonce@,
            seal_nonce: self.seal_nonce@,
        }
    }
}

impl Crypto {
    pub open spec fn wf(&self) -> bool {
        self@.wf()
    }

    /// A context with both nonces at zero; fails unless both keys have the
    /// cipher's key length.
    pub fn new(cipher: Cipher, open_key: &[u8], seal_key: &[u8]) -> (r: Result<Crypto, Error>)
        ensures
            open_key@.len() == cipher.spec_key_len() && seal_key@.len() == cipher.spec_key_len()
                <==> r is Ok,
            r matches Ok(c) ==> {
                &&& c.wf()
                &&& c@.cipher == cipher
                &&& c@.open_key == open_key@
                &&& c@.seal_key == seal_key@
                &&& c@.open_nonce == Seq::new(12, |i: int| 0u8)
                &&& c@.seal_nonce == Seq::new(12, |i: int| 0u8)
            },
            r matches Err(e) ==> e == Error::KeyLenNotMatch(cipher.spec_key_len() as usize),
    {
        let key_len = cipher.key_len();
        if open_key.len() != key_len {
            return Err(Error::KeyLenNotMatch(key_len));
        }
        if seal_key.len() != key_len {
            return Err(Error::KeyLenNotMatch(key_len));
        }
        let open_nonce = vec![0u8; 12];
        let seal_nonce = vec![0u8; 12];
        assert(open_nonce@ =~= Seq::new(12, |i: int| 0u8));
        assert(seal_nonce@ =~= Seq::new(12, |i: int| 0u8));
        Ok(
            Crypto {
                cipher,
                open_key: vstd::slice::slice_to_vec(open_key),
                open_nonce,
                seal_key: vstd::slice::slice_to_vec(seal_key),
                seal_nonce,
            },
        )
    }

    pub fn cipher(&self) -> (r: Cipher)
        ensures
            r == self@.cipher,
    {
        self.cipher
    }

    pub fn tag_len(&self) -> (r: usize)
        ensures
            r == v3::TAG_LEN,
    {
        16
    }

    /// The nonce the next `decrypt` uses.
    pub fn open_nonce(&self) -> (r: &[u8])
        ensures
            r@ == self@.open_nonce,
    {
        self.open_nonce.as_slice()
    }

    /// The nonce the next `encrypt` uses.
    pub fn seal_nonce(&self) -> (r: &[u8])
        ensures
            r@ == self@.seal_nonce,
    {
        self.seal_nonce.as_slice()
    }

    /// Seals `inout[..in_len]` in place: the ciphertext and its tag take
    /// `inout[..in_len + 16]`. Uses the sealing nonce, then moves it on.
    pub fn encrypt(&mut self, inout: &mut [u8], in_len: usize) -> (r: Result<usize, Error>)
        requires
            old(self).wf(),
            in_len + v3::TAG_LEN <= usize::MAX,
        ensures
            final(self).wf(),
            final(self)@.cipher == old(self)@.cipher,
            final(self)@.open_key == old(self)@.open_key,
            final(self)@.seal_key == old(self)@.seal_key,
            final(self)@.open_nonce == old(self)@.open_nonce,
            old(inout)@.len() < in_len + v3::TAG_LEN ==> r == Err::<usize, Error>(
                Error::SealBufferTooSmall((in_len + v3::TAG_LEN) as usize),
            ),
            final(inout)@.len() == old(inout)@.len(),
            r is Err ==> final(inout)@ == old(inout)@ && final(self)@ == old(self)@,
            old(inout)@.len() >= in_len + v3::TAG_LEN ==> (r matches Err(e) ==> e == Error::Seal),
            old(inout)@.len() >= in_len + v3::TAG_LEN && in_len <= v3::MAX_AEAD_INPUT ==> r is Ok,
            r matches Ok(n) ==> {
                &&& n == in_len + v3::TAG_LEN
                &&& final(inout)@ == aead_sealed(
                    old(self)@.cipher,
                    old(self)@.seal_key,
                    old(self)@.seal_nonce,
                    old(inout)@.take(in_len as int),
                ) + old(inout)@.skip(n as int)
                &&& final(self)@.seal_nonce == nonce_succ(old(self)@.seal_nonce)
            },
    {
        let out_len = in_len + 16;
        if inout.len() < out_len {
            return Err(Error::SealBufferTooSmall(out_len));
        }
        let sealed = aead_seal(
            self.cipher,
            self.seal_key.as_slice(),
            self.seal_nonce.as_slice(),
            vstd::slice::slice_subrange(inout, 0, in_len),
        );
        match sealed {
            None => Err(Error::Seal),
            Some(c) => {
                copy_into(inout, 0, c.as_slice());
                incr_nonce(self.seal_nonce.as_mut_slice());
                Ok(out_len)
            },
        }
    }

    /// Opens `inout` in place: on success the plaintext takes
    /// `inout[..inout.len() - 16]`. Uses the opening nonce, then moves it on;
    /// a failure changes nothing.
    pub fn decrypt(&mut self, inout: &mut [u8]) -> (r: Result<usize, Error>)
        requires
            old(self).wf(),
            old(inout)@.len() <= v3::MAX_AEAD_INPUT + v3::TAG_LEN,
        ensures
            final(self).wf(),
            final(self)@.cipher == old(self)@.cipher,
            final(self)@.open_key == old(self)@.open_key,
            final(self)@.seal_key == old(self)@.seal_key,
            final(self)@.seal_nonce == old(self)@.seal_nonce,
            final(inout)@.len() == old(inout)@.len(),
            r matches Ok(n) ==> {
                &&& n + v3::TAG_LEN == old(inout)@.len()
                &&& opens_to(
                    old(self)@.cipher,
                    old(self)@.open_key,
                    old(self)@.open_nonce,
                    old(inout)@,
                    final(inout)@.take(n as int),
                )
                &&& final(inout)@.skip(n as int) == old(inout)@.skip(n as int)
                &&& final(self)@.open_nonce == nonce_succ(old(self)@.open_nonce)
            },
            r matches Err(e) ==> {
                &&& e == Error::Open
                &&& final(inout)@ == old(inout)@
                &&& final(self)@ == old(self)@
                &&& forall|p: Seq<u8>|
                    !opens_to(
                        old(self)@.cipher,
                        old(self)@.open_key,
                        old(self)@.open_nonce,
                        old(inout)@,
                        p,
                    )
            },
            forall|p: Seq<u8>|
                #[trigger] opens_to(old(self)@.cipher, old(self)@.open_key, old(self)@.open_nonce, old(inout)@, p)
                    ==> p.len() + v3::TAG_LEN == old(inout)@.len() && r == Ok::<usize, Error>(p.len() as usize)
                    && final(inout)@.take(p.len() as int) == p,
    {
        let opened = aead_open(self.cipher, self.open_key.as_slice(), self.open_nonce.as_slice(), inout);
        match opened {
            None => Err(Error::Open),
            Some(p) => {
                let ghost orig = inout@;
                let n = p.len();
                copy_into(inout, 0, p.as_slice());
                incr_nonce(self.open_nonce.as_mut_slice());
                assert(inout@.take(n as int) =~= p@);
                assert(inout@.skip(n as int) =~= orig.skip(n as int));
                Ok(n)
            },
        }
    }
}

/// Value of a byte string read as a little-endian number.
pub open spec fn le_value(s: Seq<u8>) -> nat
    decreases s.len(),
{
    if s.len() == 0 {
        0
    } else {
        s[0] as nat + 256 * le_value(s.drop_first())
    }
}

/// Number of distinct values of an `n`-byte counter.
pub open spec fn pow256(n: nat) -> nat
    decreases n,
{
    if n == 0 {
        1
    } else {
        256 * pow256((n - 1) as nat)
    }
}

/// The nonce every context starts from.
pub open spec fn zero_nonce() -> Seq<u8> {
    Seq::new(12, |i: int| 0u8)
}

/// A counter one step on: the low byte is increased and a carry runs upward,
/// wrapping to all zeros after the largest value.
pub open spec fn nonce_succ(s: Seq<u8>) -> Seq<u8>
    decreases s.len(),
{
    if s.len() == 0 {
        s
    } else if s[0] == 255 {
        seq![0u8] + nonce_succ(s.drop_first())
    } else {
        s.update(0, (s[0] + 1) as u8)
    }
}

/// A counter `k` steps on from `s`.
pub open spec fn nonce_after(s: Seq<u8>, k: nat) -> Seq<u8>
    decreases k,
{
    if k == 0 {
        s
    } else {
        nonce_succ(nonce_after(s, (k - 1) as nat))
    }
}

pub proof fn lemma_le_value_bound(s: Seq<u8>)
    ensures
        le_value(s) < pow256(s.len()),
    decreases s.len(),
{
    if s.len() > 0 {
        lemma_le_value_bound(s.drop_first());
        assert(le_value(s) == s[0] as nat + 256 * le_value(s.drop_first()));
        assert(pow256(s.len()) == 256 * pow256(s.drop_first().len()));
        assert(s[0] as nat + 256 * le_value(s.drop_first()) < 256 * pow256(s.drop_first().len()))
            by (nonlinear_arith)
            requires
                s[0] < 256,
                le_value(s.drop_first()) < pow256(s.drop_first().len()),
        ;
    }
}

pub proof fn lemma_nonce_succ(s: Seq<u8>)
    ensures
        nonce_succ(s).len() == s.len(),
        le_value(nonce_succ(s)) == (le_value(s) + 1) % pow256(s.len()),
    decreases s.len(),
{
    if s.len() == 0 {
    } else {
        let t = s.drop_first();
        let p = pow256(t.len());
        lemma_le_value_bound(t);
        assert(pow256(s.len()) == 256 * p);
        if s[0] == 255 {
            lemma_nonce_succ(t);
            let r = nonce_succ(s);
            assert(r == seq![0u8] + nonce_succ(t));
            assert(r.drop_first() =~= nonce_succ(t));
            assert(le_value(r) == 256 * ((le_value(t) + 1) % p));
            assert(le_value(s) + 1 == 256 * (le_value(t) + 1));
            let x = le_value(t) + 1;
            assert((256 * x) % (256 * p) == 256 * (x % p)) by (nonlinear_arith)
                requires
                    p > 0,
            {
                let q = x / p;
                let m = x % p;
                assert(x == q * p + m);
                assert(256 * x == q * (256 * p) + 256 * m);
                assert(0 <= 256 * m < 256 * p);
                vstd::arithmetic::div_mod::lemma_fundamental_div_mod_converse(
                    (256 * x) as int,
                    (256 * p) as int,
                    q as int,
                    (256 * m) as int,
                );
            }
        } else {
            let r = nonce_succ(s);
            assert(r.drop_first() =~= t);
            assert(le_value(s) + 1 < 256 * p) by (nonlinear_arith)
                requires
                    s[0] < 255,
                    le_value(t) < p,
                    le_value(s) == s[0] as nat + 256 * le_value(t),
            ;
            vstd::arithmetic::div_mod::lemma_small_mod((le_value(s) + 1) as nat, 256 * p);
        }
    }
}

/// Incrementing an `n`-byte counter `k` times from all zeros gives the
/// little-endian encoding of `k` (modulo `256^n`).
pub proof fn lemma_nonce_after_zero(n: nat, k: nat)
    ensures
        nonce_after(Seq::new(n, |i: int| 0u8), k).len() == n,
        le_value(nonce_after(Seq::new(n, |i: int| 0u8), k)) == k % pow256(n),
    decreases k,
{
    let z = Seq::new(n, |i: int| 0u8);
    if k == 0 {
        lemma_le_value_zero(n);
        lemma_pow256_pos(n);
        vstd::arithmetic::div_mod::lemma_small_mod(0, pow256(n));
    } else {
        lemma_nonce_after_zero(n, (k - 1) as nat);
        let prev = nonce_after(z, (k - 1) as nat);
        lemma_nonce_succ(prev);
        lemma_pow256_pos(n);
        vstd::arithmetic::div_mod::lemma_add_mod_noop(((k - 1) as nat) as int, 1, pow256(n) as int);
        vstd::arithmetic::div_mod::lemma_mod_twice(1, pow256(n) as int);
        assert(le_value(nonce_after(z, k)) == ((k - 1) as nat % pow256(n) + 1) % pow256(n));
        if pow256(n) == 1 {
            assert(1int % 1 == 0);
        } else {
            vstd::arithmetic::div_mod::lemma_small_mod(1, pow256(n));
        }
    }
}

pub proof fn lemma_pow256_pos(n: nat)
    ensures
        pow256(n) >= 1,
    decreases n,
{
    if n > 0 {
        lemma_pow256_pos((n - 1) as nat);
    }
}

pub proof fn lemma_le_value_zero(n: nat)
    ensures
        le_value(Seq::new(n, |i: int| 0u8)) == 0,
    decreases n,
{
    if n > 0 {
        let z = Seq::new(n, |i: int| 0u8);
        lemma_le_value_zero((n - 1) as nat);
        assert(z.drop_first() =~= Seq::new((n - 1) as nat, |i: int| 0u8));
    }
}

/// Advances a little-endian counter by one, wrapping after its largest value.
pub fn incr_nonce(nonce: &mut [u8])
    ensures
        final(nonce)@ == nonce_succ(old(nonce)@),
        final(nonce)@.len() == old(nonce)@.len(),
        le_value(final(nonce)@) == (le_value(old(nonce)@) + 1) % pow256(old(nonce)@.len()),
{
    let ghost orig = nonce@;
    proof {
        lemma_nonce_succ(orig);
    }
    let n = nonce.len();
    let mut i: usize = 0;
    let mut carry = true;
    assert(orig.skip(0) =~= orig);
    assert(nonce@.take(0) + nonce_succ(orig) =~= nonce_succ(orig));
    while i < n && carry
        invariant
            n == orig.len(),
            nonce@.len() == n,
            i <= n,
            carry ==> nonce_succ(orig) == nonce@.take(i as int) + nonce_succ(orig.skip(i as int)),
            carry ==> nonce@.skip(i as int) == orig.skip(i as int),
            !carry ==> nonce@ == nonce_succ(orig),
        decreases n - i,
    {
        let ghost before = nonce@;
        let ghost rest = orig.skip(i as int);
        assert(rest.drop_first() =~= orig.skip(i + 1));
        assert(rest[0] == nonce[i as int]);
        if nonce[i] == 255 {
            nonce[i] = 0;
            assert(nonce@.take(i + 1) =~= before.take(i as int) + seq![0u8]);
            assert(nonce@.skip(i + 1) =~= orig.skip(i + 1));
            assert(nonce_succ(rest) == seq![0u8] + nonce_succ(orig.skip(i + 1)));
            assert(nonce_succ(orig) =~= nonce@.take(i + 1) + nonce_succ(orig.skip(i + 1)));
        } else {
            nonce[i] = nonce[i] + 1;
            carry = false;
            assert(nonce_succ(rest) == rest.update(0, (rest[0] + 1) as u8));
            assert(nonce@ =~= before.take(i as int) + rest.update(0, (rest[0] + 1) as u8));
        }
        i = i + 1;
    }
    proof {
        if carry {
            assert(orig.skip(n as int) =~= Seq::<u8>::empty());
            assert(nonce@.take(n as int) =~= nonce@);
            assert(nonce_succ(orig) =~= nonce@);
        }
    }
}

} // verus!
