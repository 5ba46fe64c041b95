use shred_listener::capture::CAPTURE_LIMIT;
use shred_listener::capture::CaptureBuffer;
use shred_listener::codec::encode_capture;

#[test]
fn capture_halts_exactly_at_the_limit() {
    let mut b = CaptureBuffer::new();
    for _ in 0..(CAPTURE_LIMIT - 1) {
        b.append(vec![1u8]);
        // not halted yet: checked only at the edges to keep the test fast
    }
    assert!(!b.should_halt());
    assert_eq!(b.len(), CAPTURE_LIMIT - 1);
    b.append(vec![1u8]);
    assert!(b.should_halt());
    assert_eq!(b.len(), CAPTURE_LIMIT);
}

#[test]
fn encoding_is_exact_json() {
    let mut b = CaptureBuffer::new();
    b.append(vec![]);
    b.append(vec![1u8, 2, 255]);
    b.append(vec![0u8]);
    assert_eq!(&b.encode()[..], b"[[],[1,2,255],[0]]");

    let empty = CaptureBuffer::new();
    assert_eq!(&empty.encode()[..], b"[]");
}

#[test]
fn encoding_matches_reference_serializer() {
    let packets: Vec<Vec<u8>> = vec![vec![], vec![0], vec![7, 0, 200, 255], vec![42; 30]];
    let ours = encode_capture(&packets);
    let reference = serde_json::to_string(&packets).unwrap();
    assert_eq!(ours, reference.into_bytes());
}

#[test]
fn preseeded_full_buffer_parses_back_exactly() {
    let mut b = CaptureBuffer::new();
    for i in 0..CAPTURE_LIMIT {
        b.append(vec![(i % 256) as u8]);
    }
    assert!(b.should_halt());
    let bytes = b.encode();
    let parsed: Vec<Vec<u8>> = serde_json::from_slice(&bytes).unwrap();
    assert_eq!(parsed.len(), CAPTURE_LIMIT);
    for (i, p) in parsed.iter().enumerate() {
        assert_eq!(p.len(), 1);
        assert_eq!(p[0], (i % 256) as u8);
    }
}
