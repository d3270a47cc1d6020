use lookit::EventHeader;
use lookit::Searcher;

/// Builds one wire record: a 16-byte little-endian header followed by the
/// name field.
fn record(watch_id: i32, mask: u32, cookie: u32, name_len: u32, name: &[u8]) -> Vec<u8> {
    let mut v = Vec::new();
    v.extend_from_slice(&watch_id.to_le_bytes());
    v.extend_from_slice(&mask.to_le_bytes());
    v.extend_from_slice(&cookie.to_le_bytes());
    v.extend_from_slice(&name_len.to_le_bytes());
    v.extend_from_slice(name);
    v
}

fn watching_input_searcher() -> Searcher {
    let mut s = Searcher::with_input();
    s.finish_scan();
    s
}

#[test]
fn parse_header_exact_fields() {
    let bytes = record(1, 0x100, 7, 2, b"ab");
    let h: EventHeader = lookit::parse_header(&bytes);
    assert_eq!(h.watch_id, 1);
    assert_eq!(h.mask, 0x100);
    assert_eq!(h.cookie, 7);
    assert_eq!(h.name_len, 2);
}

#[test]
fn parse_header_negative_watch_id() {
    let bytes = record(-1, 0, 0, 0, b"");
    let h = lookit::parse_header(&bytes);
    assert_eq!(h.watch_id, -1);
    let bytes = record(i32::MIN, 0xffff_ffff, 0xffff_ffff, 0xffff_ffff, b"");
    let h = lookit::parse_header(&bytes);
    assert_eq!(h.watch_id, i32::MIN);
    assert_eq!(h.mask, 0xffff_ffff);
    assert_eq!(h.cookie, 0xffff_ffff);
    assert_eq!(h.name_len, 0xffff_ffff);
}

#[test]
fn two_records_one_match_drained_in_one_pass() {
    // One kernel read delivers two back-to-back records; the first does not
    // match, the second does.  One decode attempt yields exactly one device
    // and leaves the buffer empty.
    let mut s = watching_input_searcher();
    let mut chunk = record(1, 0x100, 0, 6, b"mouse0");
    chunk.extend_from_slice(&record(1, 0x100, 0, 6, b"event7"));
    s.push_bytes(&chunk);
    let found = s.find();
    assert_eq!(found.expect("one device").path(), "/dev/input/event7");
    assert_eq!(s.buffer.len(), 0);
    assert!(s.find().is_none());
}

#[test]
fn match_first_leaves_second_record_buffered() {
    // When the matching record comes first, the attempt stops right after it;
    // the next attempt consumes the non-matching rest.
    let mut s = watching_input_searcher();
    let mut chunk = record(1, 0x100, 0, 6, b"event3");
    chunk.extend_from_slice(&record(1, 0x100, 0, 6, b"mouse0"));
    s.push_bytes(&chunk);
    let found = s.find();
    assert_eq!(found.expect("one device").path(), "/dev/input/event3");
    assert_eq!(s.buffer.len(), 22);
    assert!(s.find().is_none());
    assert_eq!(s.buffer.len(), 0);
}

#[test]
fn short_header_consumes_nothing() {
    let mut s = watching_input_searcher();
    s.push_bytes(&[1, 0, 0, 0, 0, 1, 0, 0, 0, 0]);
    assert!(s.find().is_none());
    assert_eq!(s.buffer, vec![1, 0, 0, 0, 0, 1, 0, 0, 0, 0]);
}

#[test]
fn overlong_name_length_consumes_nothing() {
    // The header claims 50 name bytes but only 30 arrived: the attempt must
    // report nothing and leave every byte in place rather than read past the
    // end of the buffer.
    let mut s = watching_input_searcher();
    let mut name = b"event42".to_vec();
    name.resize(30, 0);
    let chunk = record(1, 0x100, 0, 50, &name);
    s.push_bytes(&chunk);
    assert!(s.find().is_none());
    assert_eq!(s.buffer, chunk);
}

#[test]
fn carried_tail_completes_on_next_read() {
    // The rest of the split record arrives with the next read; appended to
    // the carried-over tail it decodes as one whole record.
    let mut s = watching_input_searcher();
    let mut name = b"event42".to_vec();
    name.resize(50, 0);
    let whole = record(1, 0x100, 0, 50, &name);
    s.push_bytes(&whole[..46]);
    assert!(s.find().is_none());
    s.push_bytes(&whole[46..]);
    let found = s.find();
    assert_eq!(found.expect("one device").path(), "/dev/input/event42");
    assert_eq!(s.buffer.len(), 0);
}

#[test]
fn consumption_is_whole_records_only() {
    // Three complete non-matching records and eight bytes of a fourth: one
    // attempt consumes exactly the three complete ones.
    let mut s = watching_input_searcher();
    let mut chunk = record(1, 4, 0, 6, b"mouse0");
    chunk.extend_from_slice(&record(1, 4, 0, 3, b"js0"));
    chunk.extend_from_slice(&record(1, 4, 0, 0, b""));
    let partial = [9u8, 0, 0, 0, 4, 0, 0, 0];
    chunk.extend_from_slice(&partial);
    s.push_bytes(&chunk);
    assert!(s.find().is_none());
    assert_eq!(s.buffer, partial.to_vec());
}

#[test]
fn null_padding_is_trimmed() {
    let mut s = watching_input_searcher();
    s.push_bytes(&record(1, 0x100, 0, 16, b"event3\0\0\0\0\0\0\0\0\0\0"));
    let found = s.find();
    assert_eq!(found.expect("one device").path(), "/dev/input/event3");
}

#[test]
fn invalid_encoding_gets_placeholder() {
    // A name with bytes that are no valid UTF-8: the prefix still matches
    // and the undecodable bytes become replacement characters.
    let mut s = watching_input_searcher();
    s.push_bytes(&record(1, 0x100, 0, 7, b"event\xff\xfe"));
    let found = s.find();
    assert_eq!(
        found.expect("one device").path(),
        "/dev/input/event\u{fffd}\u{fffd}"
    );
}

#[test]
fn zero_name_length_is_consumed_without_match() {
    let mut s = watching_input_searcher();
    s.push_bytes(&record(1, 0x400, 0, 0, b""));
    assert!(s.find().is_none());
    assert_eq!(s.buffer.len(), 0);
}

#[test]
fn empty_buffer_reports_nothing() {
    let mut s = watching_input_searcher();
    assert!(s.find().is_none());
    assert_eq!(s.buffer.len(), 0);
}
