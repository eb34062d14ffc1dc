use ring::rand::SecureRandom;
use vstd::prelude::*;

use crate::error::ProtoError;

verus! {

/// Relies on ring::rand::SystemRandom::fill: `n` bytes from the operating
/// system's generator, or a failure.
#[verifier::external_body]
pub(crate) fn random_bytes(n: usize) -> (r: Option<Vec<u8>>)
    ensures
        r matches Some(v) ==> v@.len() == n,
{
    let mut out = vec![0u8; n];
    ring::rand::SystemRandom::new().fill(&mut out).ok()?;
    Some(out)
}

/// Random padding: a length byte `len` followed by `len` bytes.
pub open spec fn is_padding(b: Seq<u8>) -> bool {
    b.len() >= 1 && b.len() == b[0] + 1
}

/// Random padding, `len || bytes[len]`, at most `1 + MAX_PADDING_LEN` bytes.
pub struct RandomBytes {
    bytes: Vec<u8>,
}

impl View for RandomBytes {
    type V = Seq<u8>;

    closed spec fn view(&self) -> Seq<u8> {
        self.bytes@
    }
}

impl RandomBytes {
    pub closed spec fn wf(&self) -> bool {
        is_padding(self@)
    }

    /// Fresh padding: a random length in `[0, 255]`, then that many random bytes.
    pub fn new() -> (r: Result<RandomBytes, ProtoError>)
        ensures
            r matches Ok(p) ==> p.wf() && is_padding(p@),
            r matches Err(e) ==> e == ProtoError::Random,
    {
        let len = match random_bytes(1) {
            Some(b) => b[0],
            None => return Err(ProtoError::Random),
        };
        let body = match random_bytes(len as usize) {
            Some(b) => b,
            None => return Err(ProtoError::Random),
        };
        RandomBytes::from_parts(len, body.as_slice())
    }

    fn from_parts(len: u8, body: &[u8]) -> (r: Result<RandomBytes, ProtoError>)
        requires
            body@.len() == len,
        ensures
            r matches Ok(p) && p.wf() && p@ == seq![len] + body@,
    {
        let mut bytes: Vec<u8> = Vec::new();
        bytes.push(len);
        bytes.extend_from_slice(body);
        assert(bytes@ =~= seq![len] + body@);
        Ok(RandomBytes { bytes })
    }

    /// Padding given by its bytes, `len || bytes[len]`.
    pub fn from_bytes(bytes: &[u8]) -> (r: RandomBytes)
        requires
            is_padding(bytes@),
        ensures
            r.wf(),
            r@ == bytes@,
    {
        RandomBytes { bytes: vstd::slice::slice_to_vec(bytes) }
    }

    /// The padding as it goes on the wire, length byte first.
    pub fn get(&self) -> (r: &[u8])
        ensures
            r@ == self@,
    {
        self.bytes.as_slice()
    }
}

} // verus!
