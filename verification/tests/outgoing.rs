use minidumper::error::{Error, ErrorKind, IoError};
use minidumper::outgoing::{advance_send_offsets, announce_process, send_frame, Payload};
use minidumper::wire::{Header, CRASH};

#[test]
fn advances_across_header_and_payload_boundary() {
    let (mut header, mut payload) = (0, 0);
    advance_send_offsets(10, 8, &mut header, &mut payload);
    assert_eq!((header, payload), (8, 2));
}

#[test]
fn advances_only_the_header_while_still_filling_it() {
    let (mut header, mut payload) = (3, 0);
    advance_send_offsets(2, 8, &mut header, &mut payload);
    assert_eq!((header, payload), (5, 0));
}

#[test]
fn advances_from_mid_header_into_payload() {
    let (mut header, mut payload) = (6, 0);
    advance_send_offsets(5, 8, &mut header, &mut payload);
    assert_eq!((header, payload), (8, 3));
}

#[test]
fn advances_only_the_payload_once_header_is_full() {
    let (mut header, mut payload) = (8, 4);
    advance_send_offsets(6, 8, &mut header, &mut payload);
    assert_eq!((header, payload), (8, 10));
}

#[test]
fn short_writes_deliver_the_frame_once() {
    for step in 1..20 {
        let mut frame = send_frame(5, Payload::Borrowed(b"payload")).unwrap();
        let mut wire = Vec::new();
        loop {
            let (header, payload) = frame.buffers();
            let mut unsent = header.to_vec();
            unsent.extend_from_slice(payload);
            unsent.truncate(step);
            wire.extend_from_slice(&unsent);
            if frame.advance(Ok(unsent.len())).unwrap() {
                break;
            }
        }
        assert_eq!(wire.len(), 15);
        assert_eq!(
            Header::from_bytes(&wire[..8]).unwrap(),
            Header { kind: 5, size: 7 }
        );
        assert_eq!(&wire[8..], b"payload");
    }
}

#[test]
fn a_signal_is_not_a_framing_failure() {
    let mut frame = send_frame(2, Payload::Owned(Vec::new())).unwrap();
    let interrupted = IoError {
        kind: ErrorKind::Interrupted,
        code: Some(4),
        message: String::from("interrupted"),
    };
    assert_eq!(frame.advance(Err(interrupted)).unwrap(), false);
    assert_eq!(frame.buffers().0.len(), 8);
    assert_eq!(frame.advance(Ok(8)).unwrap(), true);
}

#[test]
fn a_write_that_takes_nothing_fails() {
    let mut frame = send_frame(2, Payload::Owned(Vec::new())).unwrap();
    assert!(matches!(
        frame.advance(Ok(0)),
        Err(Error::Io(err)) if err.kind == ErrorKind::WriteZero
            && err.code.is_none()
            && err.message == "IPC socket write made no progress"
    ));
}

#[test]
fn a_failed_write_is_reported_as_it_is() {
    let mut frame = send_frame(2, Payload::Owned(Vec::new())).unwrap();
    let broken = IoError {
        kind: ErrorKind::Other,
        code: Some(32),
        message: String::from("broken pipe"),
    };
    assert!(matches!(
        frame.advance(Err(broken)),
        Err(Error::Io(err)) if err.code == Some(32) && err.message == "broken pipe"
    ));
}

#[test]
fn an_announcement_carries_the_process_id() {
    let frame = announce_process(0x0102_0304).unwrap();
    let (header, payload) = frame.buffers();
    assert_eq!(
        Header::from_bytes(header).unwrap(),
        Header { kind: CRASH, size: 4 }
    );
    assert_eq!(payload, &0x0102_0304u32.to_ne_bytes());
}
