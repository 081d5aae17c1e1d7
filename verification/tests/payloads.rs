use nfs3_records::{parse_nfs3_reply_read, parse_nfs3_request_write, DecodeError};

fn push_u32(b: &mut Vec<u8>, v: u32) {
    b.extend_from_slice(&v.to_be_bytes());
}

fn push_u64(b: &mut Vec<u8>, v: u64) {
    b.extend_from_slice(&v.to_be_bytes());
}

fn push_handle(b: &mut Vec<u8>, body: &[u8]) {
    push_u32(b, body.len() as u32);
    b.extend_from_slice(body);
}

fn write_preamble(count: u32, stable: u32, file_len: u32) -> Vec<u8> {
    let mut buf = Vec::new();
    push_handle(&mut buf, &[0xAA; 4]);
    push_u64(&mut buf, 65536); // offset
    push_u32(&mut buf, count);
    push_u32(&mut buf, stable);
    push_u32(&mut buf, file_len);
    buf
}

fn read_reply_preamble(count: u32, eof: u32, data_len: u32) -> Vec<u8> {
    let mut buf = Vec::new();
    push_u32(&mut buf, 0); // status
    push_u32(&mut buf, 1); // attributes follow
    buf.extend_from_slice(&[0x11; 84]); // attribute blob
    push_u32(&mut buf, count);
    push_u32(&mut buf, eof);
    push_u32(&mut buf, data_len);
    buf
}

#[test]
fn write_complete_exact_buffer() {
    let mut buf = write_preamble(5, 0, 5);
    buf.extend_from_slice(b"abcde");
    buf.extend_from_slice(&[0, 0, 0]); // filler for a 5-byte payload
    let (rec, rest) = parse_nfs3_request_write(&buf, true).unwrap();
    assert_eq!(rec.offset, 65536);
    assert_eq!(rec.count, 5);
    assert_eq!(rec.stable, 0);
    assert_eq!(rec.file_len, 5);
    assert_eq!(rec.file_data, b"abcde");
    assert!(rest.is_empty());
}

#[test]
fn write_complete_trailing_bytes_survive() {
    let mut buf = write_preamble(4, 1, 4);
    buf.extend_from_slice(b"wxyz"); // no filler needed
    buf.extend_from_slice(&[0xF0, 0xF1]);
    let (rec, rest) = parse_nfs3_request_write(&buf, true).unwrap();
    assert_eq!(rec.file_data, b"wxyz");
    assert_eq!(rest, &[0xF0, 0xF1]);
}

#[test]
fn write_complete_short_payload_rejected() {
    let mut buf = write_preamble(8, 0, 8);
    buf.extend_from_slice(b"abc"); // fewer than the declared 8 bytes
    assert_eq!(
        parse_nfs3_request_write(&buf, true),
        Err(DecodeError::Malformed)
    );
}

#[test]
fn write_partial_truncated_payload() {
    let mut buf = write_preamble(10, 0, 10);
    buf.extend_from_slice(b"abcd"); // fewer than the declared 10 bytes
    let (rec, rest) = parse_nfs3_request_write(&buf, false).unwrap();
    assert_eq!(rec.file_len, 10);
    assert_eq!(rec.file_data, b"abcd");
    assert!(rest.is_empty());
}

#[test]
fn write_partial_sufficient_missing_filler() {
    let mut buf = write_preamble(5, 2, 5);
    buf.extend_from_slice(b"abcde");
    buf.push(0); // only one of three filler bytes arrived
    let (rec, rest) = parse_nfs3_request_write(&buf, false).unwrap();
    assert_eq!(rec.file_data, b"abcde");
    assert!(rest.is_empty());
}

#[test]
fn write_partial_sufficient_full_filler() {
    let mut buf = write_preamble(5, 0, 5);
    buf.extend_from_slice(b"abcde");
    buf.extend_from_slice(&[0, 0, 0]);
    buf.extend_from_slice(&[0x10, 0x20]);
    let (rec, rest) = parse_nfs3_request_write(&buf, false).unwrap();
    assert_eq!(rec.file_data, b"abcde");
    assert_eq!(rest, &[0x10, 0x20]);
}

#[test]
fn write_stable_out_of_range() {
    let buf = write_preamble(4, 3, 4);
    assert_eq!(
        parse_nfs3_request_write(&buf, true),
        Err(DecodeError::ConstraintViolation)
    );
}

#[test]
fn write_declared_length_over_count() {
    let buf = write_preamble(4, 0, 5);
    assert_eq!(
        parse_nfs3_request_write(&buf, true),
        Err(DecodeError::ConstraintViolation)
    );
}

#[test]
fn write_preamble_cut_short() {
    let mut buf = Vec::new();
    push_handle(&mut buf, &[0xAA; 4]);
    push_u64(&mut buf, 65536);
    push_u32(&mut buf, 4);
    buf.extend_from_slice(&[0, 0]); // stability field cut short
    assert_eq!(
        parse_nfs3_request_write(&buf, true),
        Err(DecodeError::Incomplete)
    );
}

#[test]
fn read_reply_complete_with_filler() {
    let mut buf = read_reply_preamble(10, 1, 10);
    buf.extend_from_slice(b"0123456789");
    buf.extend_from_slice(&[0, 0]); // filler for a 10-byte payload
    let (rec, rest) = parse_nfs3_reply_read(&buf, true).unwrap();
    assert_eq!(rec.status, 0);
    assert_eq!(rec.attr_follows, 1);
    assert_eq!(rec.attr_blob.len(), 84);
    assert_eq!(rec.count, 10);
    assert!(rec.eof);
    assert_eq!(rec.data_len, 10);
    assert_eq!(rec.data, b"0123456789");
    assert!(rest.is_empty());
}

#[test]
fn read_reply_truncated_fragment() {
    let mut buf = read_reply_preamble(10, 0, 10);
    buf.extend_from_slice(b"012"); // fewer than the declared 10 bytes
    let (rec, rest) = parse_nfs3_reply_read(&buf, false).unwrap();
    assert!(!rec.eof);
    assert_eq!(rec.data, b"012");
    assert!(rest.is_empty());
}

#[test]
fn read_reply_eof_flag_out_of_range() {
    let buf = read_reply_preamble(4, 2, 4);
    assert_eq!(
        parse_nfs3_reply_read(&buf, true),
        Err(DecodeError::ConstraintViolation)
    );
}

#[test]
fn read_reply_data_len_over_count() {
    let buf = read_reply_preamble(4, 1, 6);
    assert_eq!(
        parse_nfs3_reply_read(&buf, true),
        Err(DecodeError::ConstraintViolation)
    );
}

#[test]
fn read_reply_preamble_cut_short() {
    let mut buf = Vec::new();
    push_u32(&mut buf, 0);
    push_u32(&mut buf, 1);
    buf.extend_from_slice(&[0x11; 40]); // attribute blob cut short
    assert_eq!(
        parse_nfs3_reply_read(&buf, true),
        Err(DecodeError::Incomplete)
    );
}

#[test]
fn write_huge_declared_length_truncated() {
    let mut buf = write_preamble(u32::MAX, 0, u32::MAX);
    buf.extend_from_slice(&[1, 2, 3]);
    let (rec, rest) = parse_nfs3_request_write(&buf, false).unwrap();
    assert_eq!(rec.file_len, u32::MAX);
    assert_eq!(rec.file_data, &[1, 2, 3]);
    assert!(rest.is_empty());
}
