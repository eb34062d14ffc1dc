use fakio::crypto::{Cipher, Crypto, Error};
use fakio::error::ProtoError;
use fakio::error::ErrorKind;
use fakio::transfer::{open_record, open_record_header, seal_record, ReadPhase, RecordReader, Stat};
use fakio::v3::{HEADER_LEN, MAX_BUFFER_SIZE, MAX_PAYLOAD_LEN};

fn pair(cipher: Cipher) -> (Crypto, Crypto) {
    let k = vec![0x42u8; cipher.key_len()];
    (Crypto::new(cipher, &k, &k).unwrap(), Crypto::new(cipher, &k, &k).unwrap())
}

fn pattern(len: usize) -> Vec<u8> {
    (0..len).map(|i| (i * 31 + 7) as u8).collect()
}

fn open(rx: &mut Crypto, rec: &[u8]) -> Result<Vec<u8>, ProtoError> {
    let mut header = rec[..HEADER_LEN].to_vec();
    let len = open_record_header(rx, &mut header)?;
    assert_eq!(len, rec.len() - HEADER_LEN);
    let mut body = rec[HEADER_LEN..].to_vec();
    let n = rx.decrypt(&mut body).map_err(ProtoError::Crypto)?;
    Ok(body[..n].to_vec())
}

#[test]
fn record_round_trip_and_length() {
    for cipher in [Cipher::AES128GCM, Cipher::AES256GCM, Cipher::CHACHA20POLY1305] {
        let (mut tx, mut rx) = pair(cipher);
        for len in [0usize, 1, 100, 4096, MAX_PAYLOAD_LEN] {
            let plain = pattern(len);
            let rec = seal_record(&mut tx, &plain).unwrap();
            assert_eq!(rec.len(), 2 + 16 + len + 16);
            assert_eq!(open(&mut rx, &rec).unwrap(), plain);
        }
    }
}

#[test]
fn largest_record_fills_the_buffer() {
    let (mut tx, _) = pair(Cipher::AES128GCM);
    let rec = seal_record(&mut tx, &pattern(MAX_PAYLOAD_LEN)).unwrap();
    assert_eq!(rec.len(), MAX_BUFFER_SIZE);
}

#[test]
fn nonces_advance_two_per_record() {
    let (mut tx, mut rx) = pair(Cipher::CHACHA20POLY1305);
    let n = 300usize;
    for i in 0..n {
        let rec = seal_record(&mut tx, &pattern(i % 50)).unwrap();
        open(&mut rx, &rec).unwrap();
    }
    let mut expected = [0u8; 12];
    expected[0] = ((2 * n) % 256) as u8;
    expected[1] = ((2 * n) / 256) as u8;
    assert_eq!(rx.open_nonce(), &expected[..]);
    assert_eq!(tx.seal_nonce(), rx.open_nonce());
}

#[test]
fn flipped_last_byte_fails_to_open() {
    let (mut tx, mut rx) = pair(Cipher::AES256GCM);
    let mut rec = seal_record(&mut tx, b"hello").unwrap();
    let last = rec.len() - 1;
    rec[last] ^= 0x80;
    assert_eq!(open(&mut rx, &rec), Err(ProtoError::Crypto(Error::Open)));
}

#[test]
fn flipped_header_byte_fails_to_open() {
    let (mut tx, mut rx) = pair(Cipher::AES128GCM);
    let mut rec = seal_record(&mut tx, b"hello").unwrap();
    rec[0] ^= 0x01;
    let mut header = rec[..HEADER_LEN].to_vec();
    assert_eq!(open_record_header(&mut rx, &mut header), Err(ProtoError::Crypto(Error::Open)));
}

#[test]
fn oversized_length_is_refused() {
    let (mut tx, mut rx) = pair(Cipher::AES128GCM);
    let mut header = [0x80u8, 0x00, 0, 0, 0, 0, 0, 0, 0, 0, 0, 0, 0, 0, 0, 0, 0, 0];
    tx.encrypt(&mut header, 2).unwrap();
    assert_eq!(open_record_header(&mut rx, &mut header), Err(ProtoError::RecordTooLarge(32768)));
}

#[test]
fn stat_keeps_counts() {
    let s = Stat::new((10, 44), (80, 46));
    assert_eq!((s.enc_read(), s.enc_write(), s.dec_read(), s.dec_write()), (10, 44, 80, 46));
}

#[test]
fn whole_record_opens_to_its_payload() {
    let (mut tx, mut rx) = pair(Cipher::AES256GCM);
    for len in [0usize, 5, MAX_PAYLOAD_LEN] {
        let plain = pattern(len);
        let rec = seal_record(&mut tx, &plain).unwrap();
        assert_eq!(open_record(&mut rx, &rec), Ok(plain));
    }
    assert_eq!(tx.seal_nonce(), rx.open_nonce());
}

#[test]
fn truncated_record_is_refused() {
    let (mut tx, mut rx) = pair(Cipher::AES128GCM);
    let rec = seal_record(&mut tx, b"hello world").unwrap();
    assert_eq!(open_record(&mut rx, &rec[..rec.len() - 1]), Err(ProtoError::RecordLenMismatch));
    let (_, mut rx2) = pair(Cipher::AES128GCM);
    assert_eq!(open_record(&mut rx2, &rec[..10]), Err(ProtoError::RecordLenMismatch));
}

#[test]
fn ten_mebibytes_each_way() {
    let total = 10 * 1024 * 1024;
    let a = vec![0x11u8; 32];
    let b = vec![0x22u8; 32];
    // client seals with b and opens with a; server the other way round
    let mut client = Crypto::new(Cipher::CHACHA20POLY1305, &a, &b).unwrap();
    let mut server = Crypto::new(Cipher::CHACHA20POLY1305, &b, &a).unwrap();
    let up = pattern(total);
    let down: Vec<u8> = up.iter().rev().cloned().collect();
    let (mut got_up, mut got_down) = (Vec::new(), Vec::new());
    let (mut sealed_up, mut sealed_down) = (0usize, 0usize);
    for (u, d) in up.chunks(MAX_PAYLOAD_LEN).zip(down.chunks(MAX_PAYLOAD_LEN)) {
        let ru = seal_record(&mut client, u).unwrap();
        let rd = seal_record(&mut server, d).unwrap();
        sealed_up += ru.len();
        sealed_down += rd.len();
        got_up.extend_from_slice(&open_record(&mut server, &ru).unwrap());
        got_down.extend_from_slice(&open_record(&mut client, &rd).unwrap());
    }
    assert_eq!(got_up, up);
    assert_eq!(got_down, down);
    let records = (total + MAX_PAYLOAD_LEN - 1) / MAX_PAYLOAD_LEN;
    assert_eq!(sealed_up, total + records * 34);
    assert_eq!(sealed_down, sealed_up);
}

#[test]
fn record_reader_reads_header_then_body() {
    let key = vec![0x33u8; 16];
    let mut tx = Crypto::new(Cipher::AES128GCM, &key, &key).unwrap();
    let mut rd = RecordReader::new(Cipher::AES128GCM, &key).unwrap();
    for plain in [&b""[..], &b"abc"[..], &pattern(1000)[..]] {
        let rec = seal_record(&mut tx, plain).unwrap();
        assert_eq!(rd.need(), 18);
        assert_eq!(rd.at_eof(0), Ok(()));
        let mut header = rec[..18].to_vec();
        assert_eq!(rd.feed(&mut header), Ok(None));
        assert_eq!(rd.phase, ReadPhase::Body(plain.len() + 16));
        assert_eq!(rd.need(), plain.len() + 16);
        assert_eq!(rd.at_eof(0), Err(ErrorKind::UnexpectedEof));
        let mut body = rec[18..].to_vec();
        assert_eq!(rd.feed(&mut body), Ok(Some(plain.len())));
        assert_eq!(&body[..plain.len()], plain);
    }
    assert_eq!(rd.at_eof(7), Err(ErrorKind::UnexpectedEof));
    assert!(RecordReader::new(Cipher::AES256GCM, &key).is_err());
}
