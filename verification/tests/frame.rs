use neuro_bridge::{frame, length_prefix, payload_length, read_frame, ByteStream, WireError};

#[test]
fn frame_prepends_big_endian_length() {
    assert_eq!(frame(&[]), Ok(vec![0, 0, 0, 0]));
    assert_eq!(frame(&[7, 8, 9]), Ok(vec![0, 0, 0, 3, 7, 8, 9]));
    let framed = frame(&vec![0xab; 0x0001_0203]).unwrap();
    assert_eq!(&framed[..4], &[0x00, 0x01, 0x02, 0x03]);
    assert_eq!(framed.len(), 4 + 0x0001_0203);
}

#[test]
fn prefix_is_read_most_significant_byte_first() {
    assert_eq!(payload_length(&[0, 0, 0, 0]), 0);
    assert_eq!(payload_length(&[0, 0, 1, 2]), 258);
    assert_eq!(payload_length(&[0x12, 0x34, 0x56, 0x78]), 0x1234_5678);
    assert_eq!(payload_length(&[0xff, 0xff, 0xff, 0xff]), u32::MAX);
}

#[test]
fn frame_then_read_frame_gives_the_payload() {
    for payload in [vec![], vec![0u8], vec![1, 2, 3, 4, 5], vec![0xff; 300]] {
        let mut stream = ByteStream::new(frame(&payload).unwrap());
        assert_eq!(read_frame(&mut stream), Ok(payload));
        assert_eq!(stream.remaining(), 0);
    }
}

#[test]
fn frames_are_read_one_after_another() {
    let mut bytes = frame(&[1, 2]).unwrap();
    bytes.extend(frame(&[]).unwrap());
    bytes.extend(frame(&[3]).unwrap());
    let mut stream = ByteStream::new(bytes);
    assert_eq!(read_frame(&mut stream), Ok(vec![1, 2]));
    assert_eq!(stream.remaining(), 9);
    assert_eq!(read_frame(&mut stream), Ok(vec![]));
    assert_eq!(read_frame(&mut stream), Ok(vec![3]));
    assert_eq!(read_frame(&mut stream), Err(WireError::ConnectionClosed));
}

#[test]
fn stream_that_ends_within_the_prefix_is_closed() {
    for have in 0..4 {
        let mut stream = ByteStream::new(vec![0; have]);
        assert_eq!(read_frame(&mut stream), Err(WireError::ConnectionClosed));
        assert_eq!(stream.remaining(), 0);
    }
}

#[test]
fn stream_that_ends_within_the_payload_is_truncated() {
    let whole = frame(&[1, 2, 3, 4, 5]).unwrap();
    for cut in 4..whole.len() {
        let mut stream = ByteStream::new(whole[..cut].to_vec());
        assert_eq!(read_frame(&mut stream), Err(WireError::TruncatedPayload));
        assert_eq!(stream.remaining(), 0);
    }
}

#[test]
fn declared_length_far_beyond_the_stream_is_truncated() {
    let mut stream = ByteStream::new(vec![0xff, 0xff, 0xff, 0xff, 1, 2, 3]);
    assert_eq!(read_frame(&mut stream), Err(WireError::TruncatedPayload));
}

#[test]
fn read_exact_takes_bytes_in_order() {
    let mut stream = ByteStream::new(vec![1, 2, 3, 4, 5]);
    assert_eq!(stream.remaining(), 5);
    assert_eq!(stream.read_exact(2), Some(vec![1, 2]));
    assert_eq!(stream.read_exact(0), Some(vec![]));
    assert_eq!(stream.remaining(), 3);
    assert_eq!(stream.read_exact(4), None);
    assert_eq!(stream.remaining(), 0);
    assert_eq!(stream.read_exact(0), Some(vec![]));
}

#[test]
fn length_prefix_is_big_endian() {
    assert_eq!(length_prefix(0), Ok([0, 0, 0, 0]));
    assert_eq!(length_prefix(258), Ok([0, 0, 1, 2]));
    assert_eq!(length_prefix(0x1234_5678), Ok([0x12, 0x34, 0x56, 0x78]));
    assert_eq!(length_prefix(u32::MAX as usize), Ok([0xff, 0xff, 0xff, 0xff]));
}

#[test]
fn length_beyond_32_bits_has_no_prefix() {
    assert_eq!(length_prefix(u32::MAX as usize + 1), Err(WireError::PayloadTooLarge));
    assert_eq!(length_prefix(usize::MAX), Err(WireError::PayloadTooLarge));
}

#[test]
fn prefix_and_length_are_inverse() {
    for length in [0u32, 1, 255, 256, 65_535, 65_536, 0x00ff_ffff, 0x0100_0000, u32::MAX] {
        let prefix = length_prefix(length as usize).unwrap();
        assert_eq!(payload_length(&prefix), length);
    }
}
