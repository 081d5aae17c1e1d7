use nfs3_records::{
    parse_nfs3_handle, parse_nfs3_request_access, parse_nfs3_request_commit,
    parse_nfs3_request_create, parse_nfs3_request_getattr, parse_nfs3_request_lookup,
    parse_nfs3_request_mkdir, parse_nfs3_request_read, parse_nfs3_request_readdirplus,
    parse_nfs3_request_remove, parse_nfs3_request_rename, parse_nfs3_request_rmdir,
    parse_nfs3_response_create, parse_nfs3_response_lookup, parse_nfs3_response_readdirplus,
    parse_nfs3_response_readdirplus_entries, parse_nfs3_response_readdirplus_entry_cond,
    DecodeError,
};

fn push_u32(b: &mut Vec<u8>, v: u32) {
    b.extend_from_slice(&v.to_be_bytes());
}

fn push_u64(b: &mut Vec<u8>, v: u64) {
    b.extend_from_slice(&v.to_be_bytes());
}

fn push_handle(b: &mut Vec<u8>, body: &[u8]) {
    push_u32(b, body.len() as u32);
    b.extend_from_slice(body);
}

fn push_padded_name(b: &mut Vec<u8>, name: &[u8]) {
    push_u32(b, name.len() as u32);
    b.extend_from_slice(name);
    let fill = (4 - name.len() % 4) % 4;
    b.extend_from_slice(&vec![0u8; fill]);
}

fn push_entry(b: &mut Vec<u8>, name: &[u8], child: Option<&[u8]>) {
    push_u64(b, 0x1111); // file id, discarded
    push_padded_name(b, name);
    push_u64(b, 0x2222); // cookie, discarded
    push_u32(b, 0); // no attributes
    match child {
        None => push_u32(b, 0),
        Some(h) => {
            push_u32(b, 1);
            push_handle(b, h);
        }
    }
}

#[test]
fn handle_scenario() {
    let buf = vec![0, 0, 0, 4, 0x01, 0x02, 0x03, 0x04];
    let (h, rest) = parse_nfs3_handle(&buf).unwrap();
    assert_eq!(h.len, 4);
    assert_eq!(h.value, &[1u8, 2, 3, 4]);
    assert!(rest.is_empty());
}

#[test]
fn handle_round_trip() {
    let body = [9u8, 8, 7, 6, 5];
    let mut buf = Vec::new();
    push_handle(&mut buf, &body);
    let (h, rest) = parse_nfs3_handle(&buf).unwrap();
    assert_eq!(h.len, 5);
    assert_eq!(h.value, &body);
    assert!(rest.is_empty());
}

#[test]
fn handle_declared_length_over_reads() {
    let buf = vec![0, 0, 0, 5, 1, 2, 3];
    assert_eq!(parse_nfs3_handle(&buf), Err(DecodeError::Malformed));
}

#[test]
fn handle_short_length_field() {
    let buf = vec![0, 0];
    assert_eq!(parse_nfs3_handle(&buf), Err(DecodeError::Incomplete));
}

#[test]
fn getattr_leaves_remainder() {
    let mut buf = Vec::new();
    push_handle(&mut buf, &[1, 2, 3, 4]);
    buf.extend_from_slice(&[0xAA, 0xBB]);
    let (rec, rest) = parse_nfs3_request_getattr(&buf).unwrap();
    assert_eq!(rec.handle.value, &[1u8, 2, 3, 4]);
    assert_eq!(rest, &[0xAA, 0xBB]);
}

#[test]
fn access_reads_mask() {
    let mut buf = Vec::new();
    push_handle(&mut buf, &[7; 8]);
    push_u32(&mut buf, 0x3F);
    let (rec, rest) = parse_nfs3_request_access(&buf).unwrap();
    assert_eq!(rec.check_access, 0x3F);
    assert!(rest.is_empty());
}

#[test]
fn commit_discards_offset_and_count() {
    let mut buf = Vec::new();
    push_handle(&mut buf, &[3, 3]);
    push_u64(&mut buf, 4096);
    push_u32(&mut buf, 512);
    buf.push(0xEE);
    let (rec, rest) = parse_nfs3_request_commit(&buf).unwrap();
    assert_eq!(rec.handle.value, &[3u8, 3]);
    assert_eq!(rest, &[0xEE]);
}

#[test]
fn read_request_keeps_offset() {
    let mut buf = Vec::new();
    push_handle(&mut buf, &[1]);
    push_u64(&mut buf, 0x0102030405060708);
    push_u32(&mut buf, 4096);
    let (rec, rest) = parse_nfs3_request_read(&buf).unwrap();
    assert_eq!(rec.offset, 0x0102030405060708);
    assert!(rest.is_empty());
}

#[test]
fn lookup_request_copies_name() {
    let mut buf = Vec::new();
    push_handle(&mut buf, &[4; 4]);
    push_u32(&mut buf, 5);
    buf.extend_from_slice(b"hello");
    buf.extend_from_slice(&[0, 0, 0]); // filler, swallowed with the rest
    let (rec, rest) = parse_nfs3_request_lookup(&buf).unwrap();
    assert_eq!(rec.name_vec, b"hello".to_vec());
    assert!(rest.is_empty());
}

#[test]
fn remove_keeps_declared_length() {
    let mut buf = Vec::new();
    push_handle(&mut buf, &[2; 4]);
    push_u32(&mut buf, 2);
    buf.extend_from_slice(b"ab");
    buf.extend_from_slice(&[0, 0]); // filler, swallowed with the rest
    let (rec, rest) = parse_nfs3_request_remove(&buf).unwrap();
    assert_eq!(rec.name_len, 2);
    assert_eq!(rec.name_vec, b"ab".to_vec());
    assert!(rest.is_empty());
}

#[test]
fn rmdir_consumes_name_and_filler_only() {
    let mut buf = Vec::new();
    push_handle(&mut buf, &[1, 2]);
    push_u32(&mut buf, 1);
    buf.push(b'x');
    buf.extend_from_slice(&[0, 0, 0]); // 3 filler bytes for a 1-byte name
    buf.extend_from_slice(&[0xCC, 0xDD]);
    let (rec, rest) = parse_nfs3_request_rmdir(&buf).unwrap();
    assert_eq!(rec.name_vec, b"x".to_vec());
    assert_eq!(rest, &[0xCC, 0xDD]);
}

#[test]
fn rmdir_missing_filler() {
    let mut buf = Vec::new();
    push_handle(&mut buf, &[1, 2]);
    push_u32(&mut buf, 1);
    buf.push(b'x');
    buf.extend_from_slice(&[0, 0]); // one filler byte short
    assert_eq!(parse_nfs3_request_rmdir(&buf), Err(DecodeError::Incomplete));
}

#[test]
fn mkdir_discards_trailing_attributes() {
    let mut buf = Vec::new();
    push_handle(&mut buf, &[9]);
    push_padded_name(&mut buf, b"dir");
    buf.extend_from_slice(&[1, 2, 3, 4, 5]); // attributes blob, discarded
    let (rec, rest) = parse_nfs3_request_mkdir(&buf).unwrap();
    assert_eq!(rec.name_vec, b"dir".to_vec());
    assert!(rest.is_empty());
}

#[test]
fn rename_reads_both_pairs() {
    let mut buf = Vec::new();
    push_handle(&mut buf, &[1; 4]);
    push_padded_name(&mut buf, b"old");
    push_handle(&mut buf, &[2; 4]);
    push_u32(&mut buf, 7);
    buf.extend_from_slice(b"newname");
    buf.push(0); // destination filler, swallowed with the rest
    let (rec, rest) = parse_nfs3_request_rename(&buf).unwrap();
    assert_eq!(rec.from_handle.value, &[1u8; 4]);
    assert_eq!(rec.from_name_vec, b"old".to_vec());
    assert_eq!(rec.to_handle.value, &[2u8; 4]);
    assert_eq!(rec.to_name_vec, b"newname".to_vec());
    assert!(rest.is_empty());
}

#[test]
fn create_keeps_mode_and_verifier() {
    let mut buf = Vec::new();
    push_handle(&mut buf, &[8; 4]);
    push_padded_name(&mut buf, b"file1");
    push_u32(&mut buf, 2); // create mode
    buf.extend_from_slice(&[0xDE, 0xAD, 0xBE, 0xEF]);
    let (rec, rest) = parse_nfs3_request_create(&buf).unwrap();
    assert_eq!(rec.name_len, 5);
    assert_eq!(rec.name_vec, b"file1".to_vec());
    assert_eq!(rec.create_mode, 2);
    assert_eq!(rec.verifier, &[0xDE, 0xAD, 0xBE, 0xEF]);
    assert!(rest.is_empty());
}

#[test]
fn create_reply_flag_zero_handle_absent() {
    let mut buf = Vec::new();
    push_u32(&mut buf, 0); // status
    push_u32(&mut buf, 0); // no handle follows
    buf.extend_from_slice(&[0x55, 0x66]); // untouched
    let (rec, rest) = parse_nfs3_response_create(&buf).unwrap();
    assert_eq!(rec.status, 0);
    assert!(rec.handle.is_none());
    assert_eq!(rest, &[0x55, 0x66]);
}

#[test]
fn create_reply_flag_one_handle_present() {
    let mut buf = Vec::new();
    push_u32(&mut buf, 0);
    push_u32(&mut buf, 1);
    push_handle(&mut buf, &[0xAB, 0xCD]);
    let (rec, rest) = parse_nfs3_response_create(&buf).unwrap();
    let h = rec.handle.unwrap();
    assert_eq!(h.value, &[0xAB, 0xCD]);
    assert!(rest.is_empty());
}

#[test]
fn create_reply_flag_two_rejected() {
    let mut buf = Vec::new();
    push_u32(&mut buf, 0);
    push_u32(&mut buf, 2);
    push_handle(&mut buf, &[0xAB, 0xCD]);
    assert_eq!(
        parse_nfs3_response_create(&buf),
        Err(DecodeError::ConstraintViolation)
    );
}

#[test]
fn lookup_reply_mandatory_handle() {
    let mut buf = Vec::new();
    push_u32(&mut buf, 5); // status, opaque
    push_handle(&mut buf, &[1, 2, 3]);
    let (rec, rest) = parse_nfs3_response_lookup(&buf).unwrap();
    assert_eq!(rec.status, 5);
    assert_eq!(rec.handle.value, &[1u8, 2, 3]);
    assert!(rest.is_empty());
}

#[test]
fn readdirplus_request_fields() {
    let mut buf = Vec::new();
    push_handle(&mut buf, &[6; 4]);
    push_u32(&mut buf, 77); // cookie
    buf.extend_from_slice(&[1, 2, 3, 4, 5, 6, 7, 8]); // verifier
    push_u32(&mut buf, 1024); // dircount
    push_u32(&mut buf, 4096); // maxcount
    buf.push(0xFF);
    let (rec, rest) = parse_nfs3_request_readdirplus(&buf).unwrap();
    assert_eq!(rec.cookie, 77);
    assert_eq!(rec.verifier, &[1, 2, 3, 4, 5, 6, 7, 8]);
    assert_eq!(rec.dircount, 1024);
    assert_eq!(rec.maxcount, 4096);
    assert_eq!(rest, &[0xFF]);
}

#[test]
fn readdirplus_reply_with_attributes() {
    let mut buf = Vec::new();
    push_u32(&mut buf, 0); // status
    push_u32(&mut buf, 1); // directory attributes follow
    buf.extend_from_slice(&[0u8; 84]); // attributes, discarded
    buf.extend_from_slice(&[9u8; 8]); // verifier, discarded
    buf.extend_from_slice(&[0xAB, 0xAC]); // entry bytes
    let (rec, rest) = parse_nfs3_response_readdirplus(&buf).unwrap();
    assert_eq!(rec.status, 0);
    assert_eq!(rec.data, &[0xAB, 0xAC]);
    assert!(rest.is_empty());
}

#[test]
fn readdirplus_reply_without_attributes() {
    let mut buf = Vec::new();
    push_u32(&mut buf, 0);
    push_u32(&mut buf, 0); // no attributes
    buf.extend_from_slice(&[9u8; 8]); // verifier
    buf.extend_from_slice(&[0x01]);
    let (rec, _) = parse_nfs3_response_readdirplus(&buf).unwrap();
    assert_eq!(rec.data, &[0x01]);
}

#[test]
fn entries_two_then_sentinel() {
    let mut buf = Vec::new();
    push_u32(&mut buf, 1);
    push_entry(&mut buf, b"first", Some(&[0x11, 0x22]));
    push_u32(&mut buf, 1);
    push_entry(&mut buf, b"second", None);
    push_u32(&mut buf, 0); // sentinel
    buf.extend_from_slice(&[0x77, 0x88]); // untouched
    let (entries, rest) = parse_nfs3_response_readdirplus_entries(&buf);
    assert_eq!(entries.len(), 2);
    assert_eq!(entries[0].name_vec, b"first".to_vec());
    assert_eq!(entries[0].handle.as_ref().unwrap().value, &[0x11, 0x22]);
    assert_eq!(entries[1].name_vec, b"second".to_vec());
    assert!(entries[1].handle.is_none());
    assert_eq!(rest, &[0x77, 0x88]);
}

#[test]
fn entries_stop_where_a_slot_fails() {
    let mut buf = Vec::new();
    push_u32(&mut buf, 1);
    push_entry(&mut buf, b"ok", None);
    let keep = buf.len();
    push_u32(&mut buf, 1);
    buf.extend_from_slice(&[0, 0]); // truncated entry
    let (entries, rest) = parse_nfs3_response_readdirplus_entries(&buf);
    assert_eq!(entries.len(), 1);
    assert_eq!(rest, &buf[keep..]);
}

#[test]
fn entries_bad_flag_stops_at_slot_start() {
    let mut buf = Vec::new();
    push_u32(&mut buf, 7); // flag outside {0,1}
    buf.push(0x42);
    let (entries, rest) = parse_nfs3_response_readdirplus_entries(&buf);
    assert!(entries.is_empty());
    assert_eq!(rest, &buf[..]);
}

#[test]
fn entry_slot_sentinel_alone() {
    let mut buf = Vec::new();
    push_u32(&mut buf, 0);
    buf.push(0x99);
    let (slot, rest) = parse_nfs3_response_readdirplus_entry_cond(&buf).unwrap();
    assert!(slot.entry.is_none());
    assert_eq!(rest, &[0x99]);
}

#[test]
fn entry_with_attributes_blob() {
    let mut buf = Vec::new();
    push_u64(&mut buf, 1);
    push_padded_name(&mut buf, b"node");
    push_u64(&mut buf, 2);
    push_u32(&mut buf, 1); // attributes follow
    buf.extend_from_slice(&[0u8; 84]);
    push_u32(&mut buf, 1); // handle follows
    push_handle(&mut buf, &[5, 5, 5]);
    push_u32(&mut buf, 0); // next slot: sentinel
    let mut outer = Vec::new();
    push_u32(&mut outer, 1);
    outer.extend_from_slice(&buf);
    let (entries, rest) = parse_nfs3_response_readdirplus_entries(&outer);
    assert_eq!(entries.len(), 1);
    assert_eq!(entries[0].name_vec, b"node".to_vec());
    assert_eq!(entries[0].handle.as_ref().unwrap().value, &[5, 5, 5]);
    assert!(rest.is_empty());
}

#[test]
fn rmdir_empty_name_no_filler() {
    let mut buf = Vec::new();
    push_handle(&mut buf, &[1]);
    push_u32(&mut buf, 0); // empty name, no filler required
    buf.push(0x5A);
    let (rec, rest) = parse_nfs3_request_rmdir(&buf).unwrap();
    assert!(rec.name_vec.is_empty());
    assert_eq!(rest, &[0x5A]);
}

#[test]
fn entries_empty_input() {
    let (entries, rest) = parse_nfs3_response_readdirplus_entries(&[]);
    assert!(entries.is_empty());
    assert!(rest.is_empty());
}
