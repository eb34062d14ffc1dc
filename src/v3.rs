use vstd::prelude::*;

verus! {

/// Protocol version byte of a handshake request.
pub const VERSION: u8 = 0x03;

/// Size of the per-connection staging buffer; no record on the wire exceeds it.
pub const MAX_BUFFER_SIZE: usize = 32768;

/// Length of the plaintext length prefix of a record.
pub const DATA_LEN_LEN: usize = 2;

/// Largest number of random padding bytes after the padding length byte.
pub const MAX_PADDING_LEN: usize = 255;

/// Length of a user or password digest (SHA-256).
pub const DEFAULT_DIGEST_LEN: usize = 32;

/// Tag length of every AEAD used here.
pub const TAG_LEN: usize = 16;

/// Nonce length of every AEAD used here.
pub const NONCE_LEN: usize = 12;

/// Sealed length prefix: two bytes of length and one tag.
pub const HEADER_LEN: usize = 18;

/// Largest payload of one record: the buffer less the sealed prefix and the tag.
pub const MAX_PAYLOAD_LEN: usize = 32734;

/// Largest plaintext handed to one AEAD operation (4 GiB less one byte),
/// far below the limits of the ciphers used.
pub const MAX_AEAD_INPUT: usize = 4294967295;

/// Largest sealed payload length a record header may announce.
pub const MAX_SEALED_LEN: usize = 32766;

/// Two-byte big-endian encoding of a number below 65536.
pub open spec fn be16(v: nat) -> Seq<u8> {
    seq![(v / 256) as u8, (v % 256) as u8]
}

/// The number a two-byte big-endian encoding stands for.
pub open spec fn be16_value(s: Seq<u8>) -> nat {
    s[0] as nat * 256 + s[1] as nat
}

pub proof fn lemma_be16(v: nat)
    requires
        v < 65536,
    ensures
        be16(v).len() == 2,
        be16_value(be16(v)) == v,
{
}

/// Big-endian bytes of `v`.
pub fn be16_bytes(v: u16) -> (r: [u8; 2])
    ensures
        r@ == be16(v as nat),
{
    let r = [(v / 256) as u8, (v % 256) as u8];
    assert(r@ =~= be16(v as nat));
    r
}

pub const SERVER_RESP_SUCCEED: u8 = 0x00;

pub const SERVER_RESP_CIPHER_ERROR: u8 = 0x01;

pub const SERVER_RESP_ERROR: u8 = 0x02;

pub const SERVER_RESP_REMOTE_FAILED: u8 = 0x03;

} // verus!
