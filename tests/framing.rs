use pertaasr::framing::{ReadOutcome, ResponseReader};

const OK: &[u8] = b"HTTP/1.1 200 OK\r\nContent-Length: 12\r\n\r\nHello world!";

#[test]
fn whole_response_in_one_read() {
    let mut r = ResponseReader::new(4096);
    assert_eq!(r.on_bytes(OK), ReadOutcome::Complete);
    assert_eq!(r.pending(), 0);
}

#[test]
fn response_split_over_reads() {
    let mut r = ResponseReader::new(4096);
    assert_eq!(r.on_bytes(&OK[..10]), ReadOutcome::NeedMore);
    assert_eq!(r.pending(), 10);
    assert_eq!(r.on_bytes(&OK[10..45]), ReadOutcome::NeedMore);
    assert_eq!(r.on_bytes(&OK[45..]), ReadOutcome::Complete);
    assert_eq!(r.pending(), 0);
}

#[test]
fn bytes_after_a_response_are_kept() {
    let mut r = ResponseReader::new(4096);
    let mut two = OK.to_vec();
    two.extend_from_slice(&OK[..20]);
    assert_eq!(r.on_bytes(&two), ReadOutcome::Complete);
    assert_eq!(r.pending(), 20);
    assert_eq!(r.on_bytes(&OK[20..]), ReadOutcome::Complete);
    assert_eq!(r.pending(), 0);
}

#[test]
fn chunked_response() {
    let mut r = ResponseReader::new(4096);
    let head = b"HTTP/1.1 200 OK\r\nTransfer-Encoding: chunked\r\n\r\n5\r\nhello\r\n";
    assert_eq!(r.on_bytes(head), ReadOutcome::NeedMore);
    assert_eq!(r.on_bytes(b"0\r\n\r\n"), ReadOutcome::Complete);
    assert_eq!(r.pending(), 0);
}

#[test]
fn no_content_has_no_body() {
    let mut r = ResponseReader::new(4096);
    assert_eq!(r.on_bytes(b"HTTP/1.1 204 No Content\r\n\r\n"), ReadOutcome::Complete);
    assert_eq!(r.pending(), 0);
}

#[test]
fn empty_read_means_closed() {
    let mut r = ResponseReader::new(4096);
    assert_eq!(r.on_bytes(&OK[..5]), ReadOutcome::NeedMore);
    assert_eq!(r.on_bytes(b""), ReadOutcome::Closed);
    assert_eq!(r.pending(), 5);
}

#[test]
fn garbage_is_malformed() {
    let mut r = ResponseReader::new(4096);
    assert_eq!(r.on_bytes(b"NOT HTTP AT ALL\r\n\r\n"), ReadOutcome::Malformed);
    assert!(ReadOutcome::Malformed.is_final());
    assert!(!ReadOutcome::NeedMore.is_final());
}

#[test]
fn oversized_response_is_refused() {
    let mut r = ResponseReader::new(16);
    assert_eq!(r.on_bytes(&OK[..10]), ReadOutcome::NeedMore);
    assert_eq!(r.on_bytes(&OK[10..20]), ReadOutcome::TooLarge);
    assert_eq!(r.pending(), 10);
}
