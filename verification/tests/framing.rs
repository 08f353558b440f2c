use alyson::network::framing::{
    decode_frame, encode_frame, frame_header, parse_frame_header, HEADER_LEN, MAX_PAYLOAD_SIZE,
};
use alyson::WireError;

#[test]
fn header_is_big_endian_length() {
    assert_eq!(frame_header(0), [0, 0, 0, 0]);
    assert_eq!(frame_header(5), [0, 0, 0, 5]);
    assert_eq!(frame_header(0x0102_0304), [1, 2, 3, 4]);
    assert_eq!(frame_header(MAX_PAYLOAD_SIZE), [0, 0xa0, 0, 0]);
}

#[test]
fn header_keeps_the_low_32_bits_of_a_huge_length() {
    if usize::BITS > 32 {
        let len = (1usize << 32) + 7;
        assert_eq!(frame_header(len), [0, 0, 0, 7]);
    }
}

#[test]
fn parse_header_accepts_up_to_the_cap() {
    assert_eq!(parse_frame_header([0, 0, 0, 0]), Ok(0));
    assert_eq!(parse_frame_header([0, 0, 1, 0]), Ok(256));
    assert_eq!(parse_frame_header([0, 0xa0, 0, 0]), Ok(MAX_PAYLOAD_SIZE));
}

#[test]
fn parse_header_refuses_above_the_cap() {
    assert_eq!(parse_frame_header([0, 0xa0, 0, 1]), Err(WireError::PayloadTooLarge));
    assert_eq!(parse_frame_header([0xff, 0xff, 0xff, 0xff]), Err(WireError::PayloadTooLarge));
}

#[test]
fn encode_puts_header_then_payload() {
    assert_eq!(encode_frame(b"hi"), vec![0, 0, 0, 2, b'h', b'i']);
    assert_eq!(encode_frame(b""), vec![0, 0, 0, 0]);
    assert_eq!(HEADER_LEN, 4);
}

#[test]
fn decode_waits_for_a_whole_frame() {
    assert_eq!(decode_frame(&[]), Ok(None));
    assert_eq!(decode_frame(&[0, 0, 0]), Ok(None));
    assert_eq!(decode_frame(&[0, 0, 0, 3, 1, 2]), Ok(None));
}

#[test]
fn decode_refuses_an_oversized_header_before_the_body() {
    assert_eq!(decode_frame(&[0, 0xa0, 0, 1]), Err(WireError::PayloadTooLarge));
}

#[test]
fn frame_roundtrip_with_trailing_bytes() {
    let payload: Vec<u8> = (0..300u32).map(|i| (i % 251) as u8).collect();
    let mut stream = encode_frame(&payload);
    stream.extend_from_slice(&[9, 9, 9]);
    let (p, used) = decode_frame(&stream).unwrap().unwrap();
    assert_eq!(p, payload);
    assert_eq!(used, 4 + payload.len());
}

#[test]
fn frames_in_order() {
    let mut stream = encode_frame(b"first");
    stream.extend(encode_frame(b"second"));
    let (p1, n1) = decode_frame(&stream).unwrap().unwrap();
    assert_eq!(p1, b"first".to_vec());
    let (p2, n2) = decode_frame(&stream[n1..]).unwrap().unwrap();
    assert_eq!(p2, b"second".to_vec());
    assert_eq!(n1 + n2, stream.len());
}

#[test]
fn empty_frame_roundtrip() {
    let stream = encode_frame(&[]);
    assert_eq!(decode_frame(&stream), Ok(Some((vec![], 4))));
}

#[test]
fn many_frames_come_back_in_order_with_the_rest() {
    let payloads: Vec<Vec<u8>> = vec![b"a".to_vec(), vec![], b"third one".to_vec(), vec![7; 1000]];
    let mut stream = Vec::new();
    for p in &payloads {
        stream.extend(encode_frame(p));
    }
    stream.extend_from_slice(&[0, 0]);
    let mut at = 0;
    let mut got = Vec::new();
    for _ in 0..payloads.len() {
        let (p, n) = decode_frame(&stream[at..]).unwrap().unwrap();
        got.push(p);
        at += n;
    }
    assert_eq!(got, payloads);
    assert_eq!(&stream[at..], &[0, 0]);
    assert_eq!(decode_frame(&stream[at..]), Ok(None));
}
