use screen::framing::{encode_frame, FrameReader};

#[test]
fn frame_carries_length_then_payload() {
    assert_eq!(encode_frame(&[7, 8, 9]).unwrap(), vec![0, 0, 0, 3, 7, 8, 9]);
    assert_eq!(encode_frame(&[]).unwrap(), vec![0, 0, 0, 0]);
    let long = vec![1u8; 0x0102];
    let f = encode_frame(&long).unwrap();
    assert_eq!(&f[..4], &[0, 0, 1, 2]);
    assert_eq!(f.len(), 4 + 0x0102);
}

#[test]
fn frames_come_out_as_they_went_in() {
    let mut bytes = encode_frame(&[1, 2]).unwrap();
    bytes.extend(encode_frame(&[]).unwrap());
    bytes.extend(encode_frame(&[3, 4, 5]).unwrap());
    let mut r = FrameReader::new();
    r.push(&bytes);
    assert_eq!(r.next_frame(), Some(vec![1, 2]));
    assert_eq!(r.next_frame(), Some(vec![]));
    assert_eq!(r.next_frame(), Some(vec![3, 4, 5]));
    assert_eq!(r.next_frame(), None);
}

#[test]
fn partial_frame_waits_for_the_rest() {
    let bytes = encode_frame(&[10, 20, 30]).unwrap();
    let mut r = FrameReader::new();
    r.push(&bytes[..2]);
    assert_eq!(r.next_frame(), None);
    r.push(&bytes[2..5]);
    assert_eq!(r.next_frame(), None);
    r.push(&bytes[5..]);
    assert_eq!(r.next_frame(), Some(vec![10, 20, 30]));
    assert_eq!(r.next_frame(), None);
}

#[test]
fn undecodable_payload_does_not_lose_the_next_frame() {
    let mut bytes = encode_frame(&[0xff, 0xff, 0xff]).unwrap();
    bytes.extend(encode_frame(&[42]).unwrap());
    let mut r = FrameReader::new();
    r.push(&bytes);
    assert_eq!(r.next_frame(), Some(vec![0xff, 0xff, 0xff]));
    assert_eq!(r.next_frame(), Some(vec![42]));
}
