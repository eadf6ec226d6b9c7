use firmware_core::ota::extract_payload;
use firmware_core::ota::get_boundary;
use firmware_core::ota::mark_app_valid;
use firmware_core::ota::OtaValidationAction;
use firmware_core::ota::SessionState;
use firmware_core::ota::UpdateFault;
use firmware_core::ota::UpdateSession;

const BOUNDARY: &[u8] = b"X-FRAME-7";

/// A multipart body around `payload`: a header block ending in the blank
/// line, then the payload, then the closing boundary line.
fn wrap(payload: &[u8]) -> (Vec<u8>, usize, usize) {
    let mut header = Vec::new();
    header.extend_from_slice(b"--");
    header.extend_from_slice(BOUNDARY);
    header.extend_from_slice(b"\r\nContent-Disposition: form-data; name=\"update\"\r\n\r\n");
    let mut trailer = Vec::new();
    trailer.extend_from_slice(b"\r\n--");
    trailer.extend_from_slice(BOUNDARY);
    trailer.extend_from_slice(b"--\r\n");
    let mut body = header.clone();
    body.extend_from_slice(payload);
    body.extend_from_slice(&trailer);
    (body, header.len(), trailer.len())
}

#[test]
fn boundary_is_the_token_after_the_equals_sign() {
    let header = b"multipart/form-data; boundary=X-FRAME-7";
    assert_eq!(get_boundary(header).unwrap(), BOUNDARY.to_vec());
}

#[test]
fn boundary_needs_exactly_one_equals_sign() {
    assert!(get_boundary(b"multipart/form-data").is_none());
    assert!(get_boundary(b"a=b; c=d").is_none());
    assert_eq!(get_boundary(b"=").unwrap(), Vec::<u8>::new());
}

#[test]
fn header_chunk_is_stripped_to_its_body() {
    let (body, header_len, trailer_len) = wrap(b"PAYLOAD-BYTES");
    let out = extract_payload(&body, BOUNDARY);
    assert_eq!(out, b"PAYLOAD-BYTES");
    assert_eq!(out.len(), body.len() - header_len - trailer_len);
}

#[test]
fn chunk_without_boundary_passes_through_whole() {
    let chunk = b"raw firmware bytes\r\nwith a line break";
    assert_eq!(extract_payload(chunk, BOUNDARY), chunk.as_slice());
    let plain = b"no line break at all";
    assert_eq!(extract_payload(plain, BOUNDARY), plain.as_slice());
}

#[test]
fn overlapping_markers_yield_empty_payload() {
    // The closing marker lies before the header separator: nothing of the
    // chunk survives.
    let chunk = b"x\r\n--B\r\n\r\n";
    assert_eq!(extract_payload(chunk, b"B"), b"");
}

#[test]
fn session_rejects_missing_or_zero_length() {
    assert_eq!(
        UpdateSession::new(None, Some(BOUNDARY.to_vec())).unwrap_err(),
        UpdateFault::MissingLength
    );
    assert_eq!(
        UpdateSession::new(Some(0), Some(BOUNDARY.to_vec())).unwrap_err(),
        UpdateFault::MissingLength
    );
}

#[test]
fn session_rejects_missing_boundary() {
    assert_eq!(
        UpdateSession::new(Some(100), None).unwrap_err(),
        UpdateFault::MissingBoundary
    );
}

#[test]
fn three_chunk_body_reassembles_exactly() {
    // A 10 000-byte multipart body delivered in chunks of 4096, 4096 and
    // 1808 bytes, each framing marker wholly inside one chunk.
    let (_, header_len, trailer_len) = wrap(b"");
    let payload = make_payload(10_000 - header_len - trailer_len);
    let (body, _, _) = wrap(&payload);
    assert_eq!(body.len(), 10_000);
    let mut session =
        UpdateSession::new(Some(body.len() as u64), Some(BOUNDARY.to_vec())).unwrap();
    let mut flashed: Vec<u8> = Vec::new();
    for chunk in [&body[..4096], &body[4096..8192], &body[8192..]] {
        assert!(chunk.len() == 4096 || chunk.len() == 1808);
        let part = session.accept_chunk(chunk);
        flashed.extend_from_slice(&part);
        session.note_write_ok(part.len() as u64);
    }
    assert_eq!(session.bytes_received(), 10_000);
    assert_eq!(flashed.len(), 10_000 - header_len - trailer_len);
    assert_eq!(flashed, make_payload(10_000 - header_len - trailer_len));
    session.finish();
    session.note_commit_ok();
    assert_eq!(session.state(), SessionState::Committed);
}

/// Payload bytes that contain no line break, so no framing marker can
/// appear inside the payload.
fn make_payload(n: usize) -> Vec<u8> {
    (0..n).map(|i| 0x20 + (i % 0x5f) as u8).collect()
}

#[test]
fn write_failure_aborts_at_the_failing_offset() {
    let (body, header_len, _) = wrap(&make_payload(5000));
    let mut session =
        UpdateSession::new(Some(body.len() as u64), Some(BOUNDARY.to_vec())).unwrap();
    let first = session.accept_chunk(&body[..4096]);
    session.note_write_ok(first.len() as u64);
    let k = session.bytes_written();
    assert_eq!(k as usize, 4096 - header_len);
    let _second = session.accept_chunk(&body[4096..]);
    let fault = session.note_write_err();
    assert_eq!(session.state(), SessionState::Aborted);
    assert_eq!(session.bytes_written(), k);
    assert!(matches!(
        fault,
        UpdateFault::WriteFailed { bytes_written, .. } if bytes_written == k
    ));
}

#[test]
fn commit_failure_aborts_and_reports() {
    let mut session = UpdateSession::new(Some(10), Some(BOUNDARY.to_vec())).unwrap();
    let part = session.accept_chunk(b"0123456789");
    session.note_write_ok(part.len() as u64);
    session.finish();
    assert_eq!(session.state(), SessionState::Finalizing);
    let fault = session.note_commit_err();
    assert_eq!(fault, UpdateFault::CommitFailed);
    assert_eq!(session.state(), SessionState::Aborted);
}

#[test]
fn validation_action_follows_the_self_check() {
    assert_eq!(mark_app_valid(true), OtaValidationAction::MarkValid);
    assert_eq!(mark_app_valid(false), OtaValidationAction::MarkInvalidAndReboot);
}
