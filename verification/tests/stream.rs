//! A byte-stream peer may split a frame anywhere, so the decoder has to survive being fed one byte at
//! a time and keep its progress in between.

use minidumper::error::Error;
use minidumper::response::ResponseFrame;
use minidumper::stream::ResponseRecvState;
use minidumper::wire::{
    encode_acked_user_response, Header, MessageAck, ACKED_USER_RESPONSE, CRASH_ACK, HEADER_SIZE,
    PONG,
};

fn ack_frame(request_id: u64, status: MessageAck) -> Vec<u8> {
    let payload = encode_acked_user_response(request_id, status);
    let header = Header {
        kind: ACKED_USER_RESPONSE,
        size: payload.len() as u32,
    };

    let mut frame = Vec::with_capacity(HEADER_SIZE + payload.len());
    frame.extend_from_slice(&header.as_bytes());
    frame.extend_from_slice(&payload);
    frame
}

/// Feeds `bytes` through the decoder `chunk` bytes at a time, returning every frame it completed.
fn feed(
    state: &mut ResponseRecvState,
    bytes: &[u8],
    chunk: usize,
) -> Result<Vec<ResponseFrame>, Error> {
    let mut offset = 0;
    let mut frames = Vec::new();

    while offset < bytes.len() {
        let take = chunk
            .min(bytes.len() - offset)
            .min(state.remaining_mut().len());
        state.remaining_mut()[..take].copy_from_slice(&bytes[offset..offset + take]);
        offset += take;

        if let Some(frame) = state.advance(take)? {
            frames.push(frame);
        }
    }

    Ok(frames)
}

#[test]
fn decodes_a_frame_delivered_one_byte_at_a_time() {
    let mut state = ResponseRecvState::new();

    assert_eq!(
        feed(&mut state, &ack_frame(17, MessageAck::Accepted), 1).unwrap(),
        vec![ResponseFrame::Ack {
            request_id: 17,
            status: MessageAck::Accepted,
        }]
    );
}

#[test]
fn keeps_partial_progress_so_a_timed_out_wait_can_resume() {
    let frame = ack_frame(18, MessageAck::Rejected);
    let mut state = ResponseRecvState::new();

    // A wait that times out here leaves three header bytes buffered.
    assert!(feed(&mut state, &frame[..3], 1).unwrap().is_empty());
    assert!(state.has_partial_frame());

    assert_eq!(
        feed(&mut state, &frame[3..], 1).unwrap(),
        vec![ResponseFrame::Ack {
            request_id: 18,
            status: MessageAck::Rejected,
        }]
    );
}

#[test]
fn rejects_a_response_whose_size_does_not_match_its_kind() {
    let header = Header {
        kind: ACKED_USER_RESPONSE,
        size: 1,
    };
    let mut state = ResponseRecvState::new();

    assert!(feed(&mut state, &header.as_bytes(), 1).is_err());
}

#[test]
fn rejects_an_unknown_response_kind() {
    let header = Header { kind: 99, size: 0 };
    let mut state = ResponseRecvState::new();

    assert!(feed(&mut state, &header.as_bytes(), 1).is_err());
}

#[test]
fn frames_behind_each_other_come_out_in_order_however_they_are_split() {
    let mut bytes = Header { kind: PONG, size: 0 }.as_bytes().to_vec();
    bytes.extend_from_slice(&ack_frame(1, MessageAck::Unsupported));
    bytes.extend_from_slice(&Header { kind: CRASH_ACK, size: 0 }.as_bytes());
    for chunk in 1..40 {
        let mut state = ResponseRecvState::new();
        assert_eq!(
            feed(&mut state, &bytes, chunk).unwrap(),
            vec![
                ResponseFrame::Pong,
                ResponseFrame::Ack {
                    request_id: 1,
                    status: MessageAck::Unsupported,
                },
                ResponseFrame::CrashAck,
            ]
        );
        assert!(!state.has_partial_frame());
        assert_eq!(state.missing(), HEADER_SIZE);
    }
}

#[test]
fn filling_counts_only_once_it_is_taken_in() {
    let frame = ack_frame(5, MessageAck::Accepted);
    let mut state = ResponseRecvState::new();
    state.fill(&frame[..8]);
    assert!(!state.has_partial_frame());
    assert_eq!(state.advance(8).unwrap(), None);
    assert!(state.has_partial_frame());
    assert_eq!(state.missing(), 9);
    state.fill(&frame[8..]);
    assert_eq!(
        state.advance(9).unwrap(),
        Some(ResponseFrame::Ack {
            request_id: 5,
            status: MessageAck::Accepted,
        })
    );
}

#[test]
fn a_refused_header_leaves_no_room() {
    let header = Header { kind: 99, size: 0 };
    let mut state = ResponseRecvState::new();
    state.fill(&header.as_bytes());
    assert!(matches!(
        state.advance(8),
        Err(Error::ProtocolError("received an unknown response kind"))
    ));
    assert!(state.has_partial_frame());
    assert_eq!(state.missing(), 0);
    assert!(state.remaining_mut().is_empty());
}

#[test]
fn a_refused_payload_leaves_a_fresh_state() {
    let mut frame = ack_frame(6, MessageAck::Accepted);
    frame[16] = 3;
    let mut state = ResponseRecvState::new();
    assert!(matches!(
        feed(&mut state, &frame, 17),
        Err(Error::ProtocolError("acknowledged user response has an unknown status"))
    ));
    assert!(!state.has_partial_frame());
    assert_eq!(state.remaining_mut(), &[0; 8]);
}

#[test]
fn a_header_of_a_verdict_makes_room_for_it() {
    let frame = ack_frame(u64::MAX, MessageAck::Accepted);
    let mut state = ResponseRecvState::new();
    assert!(feed(&mut state, &frame[..8], 8).unwrap().is_empty());
    assert_eq!(state.remaining_mut(), &[0; 9]);
    assert!(feed(&mut state, &frame[8..10], 2).unwrap().is_empty());
    assert_eq!(state.missing(), 7);
    assert_eq!(feed(&mut state, &frame[10..], 7).unwrap().len(), 1);
    assert_eq!(state.remaining_mut(), &[0; 8]);
}
