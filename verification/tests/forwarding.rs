use bytes::{Bytes, BytesMut};

use pg_kinetic_proxy::auth::{BackendAuthSession, BackendCredentials};
use pg_kinetic_proxy::engine::io_runtime::{
    drain_backend_response_bytes, forward_step, forwarded_status, nothing_to_forward,
    parse_frontend_cycle_frames, take_frontend_cycle_bytes, take_startup_packet_bytes,
    try_enter_client_capacity, BackendBytesDrainEvent, BackendResponseDrain, ForwardStep,
    FrontendCycleRead, FrontendCycleShape, ResponseDrainEvent, StartupEncryptionRequest,
    StartupPacketRead,
};
use pg_kinetic_proxy::io_runtime;
use pg_kinetic_proxy::replies::{
    authentication_md5_password, authentication_ok, authentication_sasl_continue,
    authentication_sasl_final, authentication_sasl_scram_sha_256, build_error_response,
};
use pg_kinetic_proxy::wire::{tagged_message, ReadyStatus};

fn messages(list: &[(u8, &[u8])]) -> BytesMut {
    let mut bytes = BytesMut::new();
    for (tag, payload) in list {
        bytes.extend_from_slice(&tagged_message(*tag, payload));
    }
    bytes
}

fn shape(list: &[(u8, &[u8])]) -> FrontendCycleShape {
    FrontendCycleShape::from_wire_bytes(&messages(list)).expect("valid").expect("frames")
}

#[test]
fn shapes_count_what_is_answered() {
    let queries = shape(&[(b'Q', b"a\0"), (b'Q', b"b\0")]);
    assert_eq!(queries.expected_ready_count(), 2);
    assert!(!queries.needs_sync());
    let synced = shape(&[(b'P', b""), (b'B', b""), (b'S', b"")]);
    assert_eq!(synced.expected_ready_count(), 1);
    assert_eq!(synced.expected_completion_count(), 0);
    assert!(synced.needs_sync());
    let flushed = shape(&[(b'P', b""), (b'D', b""), (b'H', b"")]);
    assert!(!flushed.expects_ready());
    assert_eq!(flushed.expected_completion_count(), 2);
    let mixed = shape(&[(b'Q', b"a\0"), (b'P', b""), (b'S', b"")]);
    assert_eq!(mixed.expected_ready_count(), 2);
    assert!(shape(&[(b'H', b"")]).expects_no_response());
    assert!(FrontendCycleShape::from_wire_bytes(b"Q").expect("valid").is_none());
}

#[test]
fn cycles_are_taken_whole() {
    let mut buffer = messages(&[(b'Q', b"a\0"), (b'Q', b"b\0"), (b'P', b"")]);
    match take_frontend_cycle_bytes(&mut buffer, 1_024).expect("valid") {
        FrontendCycleRead::Complete { bytes, shape } => {
            assert_eq!(bytes, messages(&[(b'Q', b"a\0"), (b'Q', b"b\0")]));
            assert_eq!(shape.expected_ready_count(), 2);
            assert_eq!(parse_frontend_cycle_frames(bytes).expect("valid").len(), 2);
        }
        _ => panic!("no cycle"),
    }
    assert!(matches!(
        take_frontend_cycle_bytes(&mut buffer, 1_024),
        Ok(FrontendCycleRead::NeedMoreBytes)
    ));
    buffer.extend_from_slice(&messages(&[(b'H', b""), (b'X', b"")]));
    assert!(matches!(
        take_frontend_cycle_bytes(&mut buffer, 1_024),
        Ok(FrontendCycleRead::Complete { .. })
    ));
    assert!(matches!(
        take_frontend_cycle_bytes(&mut buffer, 1_024),
        Ok(FrontendCycleRead::Terminate { .. })
    ));
    assert!(buffer.is_empty());
    let mut long = messages(&[(b'Q', b"abc\0")]);
    assert!(matches!(
        take_frontend_cycle_bytes(&mut long, 4),
        Ok(FrontendCycleRead::BufferLimitExceeded)
    ));
    let mut wrong = BytesMut::from(&b"Q\0\0\0\x01"[..]);
    assert_eq!(take_frontend_cycle_bytes(&mut wrong, 64).unwrap_err().length, 1);
}

#[test]
fn answers_pass_but_for_injected_parses() {
    let answer = messages(&[(b'1', b""), (b'1', b""), (b'C', b"x\0"), (b'Z', b"I")]);
    let mut drain = BackendResponseDrain::new(1, 1);
    let mut frames: Vec<([u8; 5], Bytes)> = vec![];
    let event = drain.drain(&mut answer.clone(), &mut frames).expect("valid");
    assert!(matches!(
        event,
        ResponseDrainEvent::Frames { ready: Some(ReadyStatus::Idle), response_started: true }
    ));
    let tags: Vec<u8> = frames.iter().map(|(header, _)| header[0]).collect();
    assert_eq!(tags, b"1CZ");
    assert_eq!(frames[1].0, *b"C\0\0\0\x06");
    assert_eq!(drain.injected_parse_completes(), 0);

    let mut plain = BackendResponseDrain::new(1, 0);
    let mut buffer = answer.clone();
    match drain_backend_response_bytes(&mut buffer, &mut plain, 1_024).expect("valid") {
        BackendBytesDrainEvent::Bytes { bytes, ready } => {
            assert_eq!(bytes, answer);
            assert_eq!(ready, Some(ReadyStatus::Idle));
        }
        _ => panic!("no bytes"),
    }
}

#[test]
fn answers_may_come_in_parts() {
    let answer = messages(&[(b'T', b"row"), (b'D', b"1"), (b'C', b"x\0"), (b'Z', b"T")]);
    for cut in 0..=answer.len() {
        let mut drain = BackendResponseDrain::new(1, 0);
        let mut buffer = BytesMut::new();
        let mut out = BytesMut::new();
        let mut last = None;
        for part in [&answer[..cut], &answer[cut..]] {
            buffer.extend_from_slice(part);
            match drain_backend_response_bytes(&mut buffer, &mut drain, 1_024).expect("valid") {
                BackendBytesDrainEvent::Bytes { bytes, ready } => {
                    out.extend_from_slice(&bytes);
                    last = ready;
                }
                BackendBytesDrainEvent::NeedMoreBytes => {}
                BackendBytesDrainEvent::BufferLimitExceeded => panic!("too long"),
            }
        }
        assert_eq!(out, answer);
        assert!(cut == answer.len() || last == Some(ReadyStatus::Transaction));
    }
}

#[test]
fn flushed_cycles_end_with_their_replies_or_an_error() {
    let shape = shape(&[(b'P', b""), (b'D', b""), (b'H', b"")]);
    let mut drain = BackendResponseDrain::for_cycle(shape, 0);
    assert!(!nothing_to_forward(&drain));
    let step = forward_step(5, &mut messages(&[(b'1', b"")]), &mut drain, 64, "closed");
    assert!(matches!(step, Ok(ForwardStep::Forward { .. })));
    let step = forward_step(5, &mut messages(&[(b't', b""), (b'n', b"")]), &mut drain, 64, "closed");
    assert!(matches!(step, Ok(ForwardStep::Flushed { .. })));

    let mut drain = BackendResponseDrain::for_cycle(shape, 0);
    let step = forward_step(5, &mut messages(&[(b'E', b"x")]), &mut drain, 64, "closed");
    assert!(matches!(step, Ok(ForwardStep::Flushed { .. })));
    assert!(drain.progress().saw_error);
    assert!(BackendResponseDrain::resume(shape, drain.progress()).flush_cycle_complete());

    let mut drain = BackendResponseDrain::for_cycle(shape, 0);
    let step = forward_step(0, &mut BytesMut::new(), &mut drain, 64, "closed");
    assert_eq!(step.err().as_deref(), Some("closed"));
    let step = forward_step(9, &mut messages(&[(b'D', &[0; 99])]), &mut drain, 64, "closed");
    assert_eq!(
        step.err().as_deref(),
        Some("backend response exceeded configured buffer limit")
    );
    let step = forward_step(1, &mut BytesMut::from(&b"D"[..]), &mut drain, 64, "closed");
    assert!(matches!(step, Ok(ForwardStep::Read)));
    assert_eq!(forwarded_status(Some(ReadyStatus::Idle)), Ok(ReadyStatus::Idle));
    assert!(forwarded_status(None).is_err());
}

#[test]
fn the_plain_runtime_reads_cycles_up_to_a_sync() {
    let mut buffer = messages(&[(b'P', b""), (b'H', b"")]);
    assert!(matches!(
        io_runtime::take_frontend_cycle_bytes(&mut buffer, 64),
        Ok(io_runtime::FrontendCycleRead::NeedMoreBytes)
    ));
    buffer.extend_from_slice(&messages(&[(b'S', b"")]));
    match io_runtime::take_frontend_cycle_bytes(&mut buffer, 64).expect("valid") {
        io_runtime::FrontendCycleRead::Complete { shape, .. } => {
            assert_eq!(shape.expected_ready_count(), 1);
            assert!(shape.needs_sync());
        }
        _ => panic!("no cycle"),
    }
    let mut drain = io_runtime::BackendResponseDrain::new(1, 1);
    let mut frames: Vec<([u8; 5], Bytes)> = vec![];
    let mut answer = messages(&[(b'1', b""), (b'Z', b"I")]);
    assert!(drain.drain_with_limit(&mut answer, &mut frames, 64).is_ok());
    assert_eq!(frames.len(), 1);
    assert_eq!(drain.ready_count(), 1);
}

#[test]
fn openings_are_told_apart() {
    let mut ssl = BytesMut::from(&[0, 0, 0, 8, 4, 210, 22, 47][..]);
    assert!(matches!(
        take_startup_packet_bytes(&mut ssl, 64),
        Ok(StartupPacketRead::EncryptionRequest(StartupEncryptionRequest::Ssl))
    ));
    let cancel = [0, 0, 0, 16, 4, 210, 22, 46, 0, 0, 0, 7, 0, 0, 0, 9];
    match take_startup_packet_bytes(&mut BytesMut::from(&cancel[..]), 64).ok() {
        Some(StartupPacketRead::Cancel { process_id, secret_key, .. }) => {
            assert_eq!((process_id, secret_key), (7, 9));
        }
        _ => panic!("no cancel request"),
    }
    assert!(matches!(
        take_startup_packet_bytes(&mut BytesMut::from(&cancel[..9]), 64),
        Ok(StartupPacketRead::NeedMoreBytes)
    ));
    assert!(matches!(
        take_startup_packet_bytes(&mut BytesMut::from(&cancel[..]), 8),
        Ok(StartupPacketRead::BufferLimitExceeded)
    ));
    assert!(take_startup_packet_bytes(&mut BytesMut::from(&[0u8, 0, 0, 7][..]), 64).is_err());
}

#[test]
fn places_are_taken_up_to_a_limit() {
    let mut active: usize = 0;
    let first = try_enter_client_capacity(&mut active, 1).expect("place");
    assert!(try_enter_client_capacity(&mut active, 1).is_none());
    first.release(&mut active);
    assert_eq!(active, 0);
    assert!(try_enter_client_capacity(&mut active, 1).is_some());
}

#[test]
fn places_taken_are_guards_held() {
    let limit: usize = 3;
    let mut active: usize = 0;
    let mut held = vec![];
    for enter in [true, true, false, true, true, true, false, false, false, true] {
        if enter {
            let before = held.len();
            match try_enter_client_capacity(&mut active, limit) {
                Some(guard) => held.push(guard),
                None => assert_eq!(before, limit),
            }
        } else if let Some(guard) = held.pop() {
            guard.release(&mut active);
        }
        assert_eq!(active, held.len());
        assert!(active <= limit);
    }
}

#[test]
fn a_drain_can_be_made_step_by_step() {
    let answer = messages(&[(b'1', b""), (b'C', b"x\0"), (b'Z', b"I")]);
    let mut whole = BackendResponseDrain::new(1, 1);
    let mut expected: Vec<([u8; 5], Bytes)> = vec![];
    let event = whole.drain(&mut answer.clone(), &mut expected).expect("valid");
    let mut steps = BackendResponseDrain::new(1, 1);
    let mut frames: Vec<([u8; 5], Bytes)> = vec![];
    let mut buffer = answer.clone();
    let mut ready = None;
    while let Some(taken) = steps.pull(&mut buffer).expect("valid") {
        if let Some(frame) = taken {
            ready = steps.accept(frame, &mut frames).or(ready);
        }
    }
    assert_eq!(frames, expected);
    assert_eq!(steps.event(ready, frames.len()), event);
    let plain = io_runtime::BackendResponseDrain::new(1, 0);
    assert_eq!(plain.event(None, 0), ResponseDrainEvent::NeedMoreBytes);
}

#[test]
fn requests_for_authentication_are_read_by_a_login() {
    assert_eq!(&authentication_ok()[..], b"R\0\0\0\x08\0\0\0\0");
    assert_eq!(&authentication_md5_password([1, 2, 3, 4])[..], b"R\0\0\0\x0c\0\0\0\x05\x01\x02\x03\x04");
    assert_eq!(
        &authentication_sasl_scram_sha_256()[..],
        b"R\0\0\0\x17\0\0\0\x0aSCRAM-SHA-256\0\0"
    );
    assert_eq!(&authentication_sasl_continue(b"r=x")[..], b"R\0\0\0\x0b\0\0\0\x0br=x");
    assert_eq!(&authentication_sasl_final(b"v=x")[..], b"R\0\0\0\x0b\0\0\0\x0cv=x");
    assert_eq!(
        &build_error_response("28P01", "no")[..],
        b"E\0\0\0\x17SERROR\0C28P01\0Mno\0\0"
    );
    let credentials = BackendCredentials::new("u".to_string(), "p".to_string());
    let mut session = BackendAuthSession::with_nonce(credentials, "nonce".to_string());
    let reply = session.respond(&authentication_sasl_scram_sha_256()[5..], false);
    let reply = reply.expect("mechanism").expect("first message");
    assert!(reply.starts_with(b"p"));
    assert!(matches!(session.respond(&authentication_ok()[5..], false), Ok(None)));
}
