use messageipc::frame::{encode_frame, read_messages, FrameReader};

#[test]
fn frame_bytes_exact() {
    let frame = encode_frame(&vec![1u8, 2, 3]).unwrap();
    assert_eq!(frame, vec![3u8, 0, 0, 0, 1, 2, 3]);
}

#[test]
fn frame_bytes_empty_message() {
    let frame = encode_frame(&vec![]).unwrap();
    assert_eq!(frame, vec![0u8, 0, 0, 0]);
}

#[test]
fn frame_bytes_long_length() {
    let msg: Vec<u8> = vec![7u8; 300];
    let frame = encode_frame(&msg).unwrap();
    assert_eq!(frame[0], 44); // 300 = 1 * 256 + 44, little endian
    assert_eq!(frame[1], 1);
    assert_eq!(frame[2], 0);
    assert_eq!(frame[3], 0);
    assert_eq!(&frame[4..], &msg[..]);
}

#[test]
fn round_trip_single() {
    let msg = vec![1u8, 2, 3];
    let wire = encode_frame(&msg).unwrap();
    let back = read_messages(&wire);
    assert_eq!(back, vec![msg]);
}

#[test]
fn round_trip_zero_length() {
    let wire = encode_frame(&vec![]).unwrap();
    let back = read_messages(&wire);
    assert_eq!(back, vec![Vec::<u8>::new()]);
}

#[test]
fn order_preserved_increasing_lengths() {
    // one message per length 0..999, each filled with its index value
    let msgs: Vec<Vec<u8>> = (0..1000usize).map(|i| vec![i as u8; i]).collect();
    let mut wire: Vec<u8> = Vec::new();
    for m in &msgs {
        wire.extend_from_slice(&encode_frame(m).unwrap());
    }
    let back = read_messages(&wire);
    assert_eq!(back.len(), 1000);
    for (i, m) in back.iter().enumerate() {
        assert_eq!(m.len(), i);
        assert!(m.iter().all(|&b| b == i as u8));
    }
    assert_eq!(back, msgs);
}

#[test]
fn trailing_partial_frame_yields_nothing() {
    let mut wire = encode_frame(&vec![9u8, 9]).unwrap();
    // a second frame whose payload never arrives
    wire.extend_from_slice(&[5, 0, 0, 0, 1, 2]);
    let back = read_messages(&wire);
    assert_eq!(back, vec![vec![9u8, 9]]);
}

#[test]
fn short_prefix_yields_nothing() {
    let back = read_messages(&vec![3u8, 0]);
    assert!(back.is_empty());
}

#[test]
fn huge_length_prefix_yields_nothing() {
    // a corrupt peer announcing four billion bytes it never sends
    let back = read_messages(&vec![255u8, 255, 255, 255, 1, 2, 3]);
    assert!(back.is_empty());
}

#[test]
fn reader_steps_through_one_frame() {
    let mut reader = FrameReader::new();
    assert_eq!(reader.bytes_needed(), 4);
    assert!(reader.feed(vec![2, 0, 0, 0]).is_none());
    assert_eq!(reader.bytes_needed(), 2);
    assert_eq!(reader.feed(vec![7, 8]), Some(vec![7u8, 8]));
    assert_eq!(reader.bytes_needed(), 4);
}

#[test]
fn reader_passes_zero_length_payload() {
    let mut reader = FrameReader::new();
    assert!(reader.feed(vec![0, 0, 0, 0]).is_none());
    assert_eq!(reader.bytes_needed(), 0);
    assert_eq!(reader.feed(vec![]), Some(Vec::<u8>::new()));
}
