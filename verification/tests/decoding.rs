use mesos::errors::CodecError;
use mesos::messages::{AgentID, Event, ExecutorID, FrameworkID, Offer, OfferID, TaskID, TaskStatus};
use mesos::recordio::{encode_frame, encode_frames, RecordIOCodec};
use mesos::wire_event::{decode_event, encode_event};

fn fid(s: &str) -> FrameworkID {
    FrameworkID { value: s.as_bytes().to_vec() }
}

fn sample_events() -> Vec<Event> {
    vec![
        Event::Subscribed { framework_id: fid("F1"), heartbeat_interval_seconds: Some(15) },
        Event::Offers {
            offers: vec![
                Offer {
                    id: OfferID { value: b"O1".to_vec() },
                    agent_id: AgentID { value: b"A1".to_vec() },
                },
                Offer {
                    id: OfferID { value: b"O2".to_vec() },
                    agent_id: AgentID { value: b"A2".to_vec() },
                },
            ],
        },
        Event::Rescind { offer_id: OfferID { value: b"O1".to_vec() } },
        Event::Update {
            status: TaskStatus {
                task_id: TaskID { value: b"T7".to_vec() },
                state: 3,
                agent_id: AgentID { value: b"A1".to_vec() },
                uuid: vec![9, 9, 9],
            },
        },
        Event::Message {
            agent_id: AgentID { value: b"A1".to_vec() },
            executor_id: ExecutorID { value: b"E1".to_vec() },
            data: vec![1, 2, 3],
        },
        Event::Failure { agent_id: None, executor_id: None, exit_status: Some(137) },
        Event::Error { message: b"bad".to_vec() },
        Event::Heartbeat,
        Event::Unknown,
    ]
}

#[test]
fn subscribed_payload_is_twelve_exact_bytes() {
    let e = Event::Subscribed { framework_id: fid("F1"), heartbeat_interval_seconds: None };
    let payload = encode_event(&e);
    assert_eq!(payload, vec![1, 2, 0, 0, 0, 0, 0, 0, 0, b'F', b'1', 0]);
    assert_eq!(payload.len(), 12);
}

#[test]
fn end_to_end_example_frame() {
    // "12\n<12-byte Subscribed payload>\n": one Subscribed event, then a
    // bare newline that is a no-op skip frame.
    let e = Event::Subscribed { framework_id: fid("F1"), heartbeat_interval_seconds: None };
    let payload = encode_event(&e);
    let mut stream = b"12\n".to_vec();
    stream.extend_from_slice(&payload);
    stream.push(b'\n');

    let mut codec = RecordIOCodec::new();
    let (events, err) = codec.write(&stream);
    assert!(err.is_none());
    assert_eq!(events, vec![e]);
}

#[test]
fn encode_frame_matches_hand_built_frame() {
    let e = Event::Subscribed { framework_id: fid("F1"), heartbeat_interval_seconds: None };
    let frame = encode_frame(&e);
    let mut expected = b"12\n".to_vec();
    expected.extend_from_slice(&encode_event(&e));
    assert_eq!(frame, expected);
}

#[test]
fn round_trip_all_event_kinds() {
    let events = sample_events();
    let stream = encode_frames(&events);
    let mut codec = RecordIOCodec::new();
    let (decoded, err) = codec.write(&stream);
    assert!(err.is_none());
    assert_eq!(decoded, events);
}

#[test]
fn chunking_does_not_change_the_decoded_events() {
    let events = sample_events();
    let stream = encode_frames(&events);

    let mut whole = RecordIOCodec::new();
    let (all_at_once, err_whole) = whole.write(&stream);
    assert!(err_whole.is_none());

    let mut chunked = RecordIOCodec::new();
    let mut one_at_a_time: Vec<Event> = Vec::new();
    for b in stream.iter() {
        let (mut evs, err) = chunked.write(&[*b]);
        assert!(err.is_none());
        one_at_a_time.append(&mut evs);
    }
    assert_eq!(one_at_a_time, all_at_once);
    assert_eq!(one_at_a_time, events);
}

#[test]
fn framing_failure_on_non_digit_in_length() {
    let mut codec = RecordIOCodec::new();
    let (events, err) = codec.write(b"1x\n");
    assert!(events.is_empty());
    assert_eq!(err, Some(CodecError::Framing));
}

#[test]
fn empty_frame_is_a_skip() {
    let mut codec = RecordIOCodec::new();
    let (events, err) = codec.write(b"\n");
    assert!(events.is_empty());
    assert!(err.is_none());
    // the decoder is still healthy: a real frame after the skip decodes
    let e = Event::Heartbeat;
    let (events2, err2) = codec.write(&encode_frame(&e));
    assert!(err2.is_none());
    assert_eq!(events2, vec![Event::Heartbeat]);
}

#[test]
fn zero_length_frame_fails_to_decode() {
    let mut codec = RecordIOCodec::new();
    let (events, err) = codec.write(b"0\n");
    assert!(events.is_empty());
    assert_eq!(err, Some(CodecError::Decode));
}

#[test]
fn oversized_length_field_is_a_framing_failure() {
    let mut codec = RecordIOCodec::new();
    let (events, err) = codec.write(b"99999999999999999999\n");
    assert!(events.is_empty());
    assert_eq!(err, Some(CodecError::Framing));
}

#[test]
fn schema_invalid_payload_is_a_decode_failure() {
    // a well-framed one-byte payload with the subscribed tag but no fields
    let mut codec = RecordIOCodec::new();
    let (events, err) = codec.write(b"1\n\x01");
    assert!(events.is_empty());
    assert_eq!(err, Some(CodecError::Decode));
}

#[test]
fn unknown_tag_decodes_as_unknown_event() {
    let mut codec = RecordIOCodec::new();
    let (events, err) = codec.write(b"3\n\x2a\x00\x01");
    assert!(err.is_none());
    assert_eq!(events, vec![Event::Unknown]);
}

#[test]
fn events_split_across_writes_arrive_in_order() {
    let events = sample_events();
    let stream = encode_frames(&events);
    let mid = stream.len() / 2;
    let mut codec = RecordIOCodec::new();
    let (mut first, err1) = codec.write(&stream[..mid]);
    assert!(err1.is_none());
    let (mut second, err2) = codec.write(&stream[mid..]);
    assert!(err2.is_none());
    first.append(&mut second);
    assert_eq!(first, events);
}

#[test]
fn decode_event_rejects_trailing_bytes_on_known_tags() {
    let e = Event::Heartbeat;
    let mut payload = encode_event(&e);
    payload.push(0);
    assert!(decode_event(&payload).is_none());
}
