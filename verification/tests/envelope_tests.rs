use routing_core::envelope::{ReplyEnvelope, RequestEnvelope};

#[test]
fn request_round_trip() {
    let env = RequestEnvelope { id: 42, path: b"v0/project/p1/enroller".to_vec(), body: vec![9, 8, 7] };
    let bytes = env.encode();
    let back = RequestEnvelope::decode(&bytes).expect("an encoded frame decodes");
    assert_eq!(back.id, 42);
    assert_eq!(back.path, b"v0/project/p1/enroller".to_vec());
    assert_eq!(back.body, vec![9, 8, 7]);
}

#[test]
fn request_exact_frame_bytes() {
    let env = RequestEnvelope { id: 1, path: vec![0x61], body: vec![] };
    let bytes = env.encode();
    assert_eq!(
        bytes,
        vec![
            1, 0, 0, 0, 0, 0, 0, 0, // id, little endian
            1, 0, 0, 0, // path length
            0x61, // path
            0, 0, 0, 0, // body length
        ]
    );
}

#[test]
fn reply_round_trip_success_and_failure() {
    let ok = ReplyEnvelope { id: 7, success: true, status: 0, body: b"pong".to_vec() };
    let back = ReplyEnvelope::decode(&ok.encode()).expect("an encoded frame decodes");
    assert_eq!(back.id, 7);
    assert!(back.success);
    assert_eq!(back.status, 0);
    assert_eq!(back.body, b"pong".to_vec());

    let failed = ReplyEnvelope { id: 8, success: false, status: 404, body: b"missing".to_vec() };
    let back = ReplyEnvelope::decode(&failed.encode()).expect("an encoded frame decodes");
    assert_eq!(back.id, 8);
    assert!(!back.success);
    assert_eq!(back.status, 404);
    assert_eq!(back.body, b"missing".to_vec());
}

#[test]
fn malformed_frames_are_refused() {
    // too short
    assert!(RequestEnvelope::decode(&vec![0; 15]).is_none());
    assert!(ReplyEnvelope::decode(&vec![0; 16]).is_none());
    // a trailing byte after a full frame
    let env = RequestEnvelope { id: 1, path: vec![0x61], body: vec![] };
    let mut bytes = env.encode();
    bytes.push(0);
    assert!(RequestEnvelope::decode(&bytes).is_none());
    // a body length pointing past the end
    let env = ReplyEnvelope { id: 1, success: true, status: 0, body: vec![1, 2, 3] };
    let mut bytes = env.encode();
    bytes.pop();
    assert!(ReplyEnvelope::decode(&bytes).is_none());
    // a flag byte that is neither 0 nor 1
    let env = ReplyEnvelope { id: 1, success: true, status: 0, body: vec![] };
    let mut bytes = env.encode();
    bytes[8] = 2;
    assert!(ReplyEnvelope::decode(&bytes).is_none());
}
