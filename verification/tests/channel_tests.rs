use sgx_ra::error::ChannelError;
use sgx_ra::secure_channel::{EncryptedReader, EncryptedWriter};

const KEY: [u8; 16] = [7u8; 16];

/// Hand one full wire record to a reader: parse the header, then open
/// nonce and body.
fn feed(reader: &mut EncryptedReader, frame: &[u8]) -> Result<(), ChannelError> {
    let header: [u8; 4] = [frame[0], frame[1], frame[2], frame[3]];
    let body_len = reader.check_header(&header)?;
    let nonce = &frame[4..16];
    let body = frame[16..].to_vec();
    assert_eq!(body.len(), body_len);
    reader.accept_record(nonce, body.as_slice())
}

fn read_all(reader: &mut EncryptedReader) -> Vec<u8> {
    let n = reader.available();
    reader.read(n)
}

#[test]
fn two_messages_arrive_in_order() {
    let mut w = EncryptedWriter::new(&KEY);
    let mut r = EncryptedReader::new(&KEY);

    assert!(w.write(b"Hello").unwrap().is_empty());
    let f1 = w.flush().unwrap().unwrap();
    assert!(w.write(b"World").unwrap().is_empty());
    let f2 = w.flush().unwrap().unwrap();

    feed(&mut r, &f1).unwrap();
    assert_eq!(read_all(&mut r), b"Hello".to_vec());
    feed(&mut r, &f2).unwrap();
    assert_eq!(read_all(&mut r), b"World".to_vec());
}

#[test]
fn capacity_splits_writes_into_records() {
    // capacity 40 leaves 4 payload bytes per record
    let mut w = EncryptedWriter::with_capacity(40, &KEY);
    let mut r = EncryptedReader::with_capacity(40, &KEY);
    let data: Vec<u8> = (0u8..11).collect();
    let records = w.write(data.as_slice()).unwrap();
    assert_eq!(records.len(), 2);
    let tail = w.flush().unwrap().unwrap();

    let mut out = Vec::new();
    for rec in &records {
        feed(&mut r, rec).unwrap();
        out.extend_from_slice(&read_all(&mut r));
    }
    feed(&mut r, &tail).unwrap();
    out.extend_from_slice(&read_all(&mut r));
    assert_eq!(out, data);
}

#[test]
fn partial_reads_preserve_order() {
    let mut w = EncryptedWriter::new(&KEY);
    let mut r = EncryptedReader::new(&KEY);
    w.write(b"abcdefgh").unwrap();
    let f = w.flush().unwrap().unwrap();
    feed(&mut r, &f).unwrap();
    assert_eq!(r.read(3), b"abc".to_vec());
    assert_eq!(r.read(2), b"de".to_vec());
    assert_eq!(r.read(100), b"fgh".to_vec());
    assert_eq!(r.read(5), Vec::<u8>::new());
}

#[test]
fn flipped_ciphertext_byte_is_integrity_error() {
    let mut w = EncryptedWriter::new(&KEY);
    let mut r = EncryptedReader::new(&KEY);
    w.write(b"sensitive").unwrap();
    let mut f = w.flush().unwrap().unwrap();
    f[20] ^= 0x01;
    assert_eq!(feed(&mut r, &f), Err(ChannelError::Integrity));
}

#[test]
fn flipped_tag_byte_is_integrity_error() {
    let mut w = EncryptedWriter::new(&KEY);
    let mut r = EncryptedReader::new(&KEY);
    w.write(b"sensitive").unwrap();
    let mut f = w.flush().unwrap().unwrap();
    let last = f.len() - 1;
    f[last] ^= 0x80;
    assert_eq!(feed(&mut r, &f), Err(ChannelError::Integrity));
}

#[test]
fn wrong_key_is_integrity_error() {
    let mut w = EncryptedWriter::new(&KEY);
    let other_key = [8u8; 16];
    let mut r = EncryptedReader::new(&other_key);
    w.write(b"hello").unwrap();
    let f = w.flush().unwrap().unwrap();
    assert_eq!(feed(&mut r, &f), Err(ChannelError::Integrity));
}

/// Re-injecting an already consumed record fails on the sequence check.
#[test]
fn replayed_record_is_rejected() {
    let mut w = EncryptedWriter::new(&KEY);
    let mut r = EncryptedReader::new(&KEY);
    let mut frames = Vec::new();
    for msg in [&b"one"[..], b"two", b"three"] {
        w.write(msg).unwrap();
        frames.push(w.flush().unwrap().unwrap());
    }
    feed(&mut r, &frames[0]).unwrap();
    read_all(&mut r);
    feed(&mut r, &frames[1]).unwrap();
    read_all(&mut r);
    feed(&mut r, &frames[2]).unwrap();
    read_all(&mut r);
    // capture of record 1 re-injected after record 3 was consumed
    assert_eq!(feed(&mut r, &frames[0]), Err(ChannelError::Integrity));
}

/// Removing a record mid-stream makes the next one fail.
#[test]
fn dropped_record_is_detected() {
    let mut w = EncryptedWriter::new(&KEY);
    let mut r = EncryptedReader::new(&KEY);
    w.write(b"first").unwrap();
    let _skipped = w.flush().unwrap().unwrap();
    w.write(b"second").unwrap();
    let f2 = w.flush().unwrap().unwrap();
    assert_eq!(feed(&mut r, &f2), Err(ChannelError::Integrity));
}

/// A header declaring more than the capacity fails before any body
/// byte is read.
#[test]
fn oversize_header_is_invalid_input() {
    let r = EncryptedReader::with_capacity(1000, &KEY);
    let declared: u32 = 1001;
    let header = declared.to_be_bytes();
    assert_eq!(r.check_header(&header), Err(ChannelError::InvalidInput));
    let ok_header = 1000u32.to_be_bytes();
    assert_eq!(r.check_header(&ok_header), Ok(988));
}

#[test]
fn undersize_header_is_invalid_input() {
    let r = EncryptedReader::new(&KEY);
    let header = 11u32.to_be_bytes();
    assert_eq!(r.check_header(&header), Err(ChannelError::InvalidInput));
}

#[test]
fn flush_of_empty_buffer_emits_nothing() {
    let mut w = EncryptedWriter::new(&KEY);
    assert!(w.flush().unwrap().is_none());
}

#[test]
fn nonces_differ_between_records() {
    let mut w = EncryptedWriter::new(&KEY);
    w.write(b"same").unwrap();
    let f1 = w.flush().unwrap().unwrap();
    w.write(b"same").unwrap();
    let f2 = w.flush().unwrap().unwrap();
    assert_ne!(f1[4..16], f2[4..16]);
}

/// A flush after a flush emits nothing: the buffer is empty.
#[test]
fn flush_is_idempotent() {
    let mut w = EncryptedWriter::new(&KEY);
    w.write(b"data").unwrap();
    assert!(w.flush().unwrap().is_some());
    assert!(w.flush().unwrap().is_none());
    assert!(w.flush().unwrap().is_none());
}
