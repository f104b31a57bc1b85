use gossip::codec::{content_id, decode, encode, CodecError, Envelope, PeerId};

fn sample(signature: Option<Vec<u8>>) -> Envelope {
    Envelope::new(b"chat".to_vec(), PeerId::new(vec![1, 2, 3]), b"hello".to_vec(), signature)
}

#[test]
fn round_trip_unsigned() {
    let e = sample(None);
    let bytes = encode(&e);
    let back = decode(&bytes).unwrap();
    assert_eq!(back.content_id, e.content_id);
    assert_eq!(back.topic, e.topic);
    assert_eq!(back.sender.bytes, e.sender.bytes);
    assert_eq!(back.payload, e.payload);
    assert_eq!(back.signature, None);
}

#[test]
fn round_trip_signed() {
    let e = sample(Some(vec![9, 8, 7, 6]));
    let back = decode(&encode(&e)).unwrap();
    assert_eq!(back.signature, Some(vec![9, 8, 7, 6]));
    assert_eq!(back.payload, b"hello".to_vec());
}

#[test]
fn wire_form_is_exact() {
    let e = Envelope::new(vec![b't'], PeerId::new(vec![7]), vec![b'p', b'q'], None);
    let expected: Vec<u8> = vec![
        0, 0, 0, 0, 0, 0, 0, 1, b't', 0, 0, 0, 0, 0, 0, 0, 1, 7, 0, 0, 0, 0, 0, 0, 0, 2, b'p',
        b'q', 0,
    ];
    assert_eq!(encode(&e), expected);
}

#[test]
fn content_id_is_fnv1a() {
    assert_eq!(content_id(&Vec::new()), 0xcbf29ce484222325);
    assert_eq!(content_id(&b"a".to_vec()), 0xaf63dc4c8601ec8c);
    assert_eq!(content_id(&b"foobar".to_vec()), 0x85944171f73967e8);
}

#[test]
fn equal_payloads_have_equal_ids() {
    let a = Envelope::new(b"x".to_vec(), PeerId::new(vec![1]), b"same".to_vec(), None);
    let b = Envelope::new(b"y".to_vec(), PeerId::new(vec![2]), b"same".to_vec(), Some(vec![1]));
    assert_eq!(a.content_id, b.content_id);
}

#[test]
fn truncated_input_is_malformed() {
    let bytes = encode(&sample(Some(vec![1, 2, 3])));
    for cut in 0..bytes.len() {
        let part = bytes[..cut].to_vec();
        assert!(matches!(decode(&part), Err(CodecError::Malformed)));
    }
}

#[test]
fn trailing_bytes_are_malformed() {
    let mut bytes = encode(&sample(None));
    bytes.push(0);
    assert!(matches!(decode(&bytes), Err(CodecError::Malformed)));
}

#[test]
fn unknown_signature_tag_is_malformed() {
    let mut bytes = encode(&sample(None));
    let last = bytes.len() - 1;
    bytes[last] = 2;
    assert!(matches!(decode(&bytes), Err(CodecError::Malformed)));
}

#[test]
fn huge_length_is_malformed() {
    let bytes: Vec<u8> = vec![0xff; 8];
    assert!(matches!(decode(&bytes), Err(CodecError::Malformed)));
}
