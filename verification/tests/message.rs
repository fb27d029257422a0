use blockchain::network::message::{DecodeError, Message, HEAD_LEN, TAG_BLOCK, TAG_DEPTH};

#[test]
fn depth_announcement_has_tag_and_little_endian_depth() {
    let data = Message::Depth { depth: 0x0102030405060708 }.encode();
    assert_eq!(data, vec![0, 8, 7, 6, 5, 4, 3, 2, 1]);
}

#[test]
fn block_payload_follows_the_depth() {
    let data = Message::Block { depth: 3, block: vec![0xaa, 0xbb, 0xcc] }.encode();
    assert_eq!(data, vec![1, 3, 0, 0, 0, 0, 0, 0, 0, 0xaa, 0xbb, 0xcc]);
}

#[test]
fn layout_constants() {
    assert_eq!(TAG_DEPTH, 0);
    assert_eq!(TAG_BLOCK, 1);
    assert_eq!(HEAD_LEN, 9);
}

#[test]
fn encode_then_decode_gives_the_message_back() {
    let samples = vec![
        Message::Depth { depth: 0 },
        Message::Depth { depth: 1 },
        Message::Depth { depth: u64::MAX },
        Message::Block { depth: 0, block: vec![] },
        Message::Block { depth: 77, block: vec![0] },
        Message::Block { depth: u64::MAX, block: vec![1, 0, 255, 9, 9, 9, 9, 9, 9, 9, 9, 9] },
    ];
    for m in samples {
        let data = m.encode();
        assert_eq!(Message::decode(&data), Ok(m));
    }
}

#[test]
fn decode_then_encode_gives_the_payload_back() {
    let payloads: Vec<Vec<u8>> = vec![
        vec![0, 1, 2, 3, 4, 5, 6, 7, 8],
        vec![1, 1, 2, 3, 4, 5, 6, 7, 8],
        vec![1, 0, 0, 0, 0, 0, 0, 0, 0, 42, 43],
    ];
    for p in payloads {
        let m = Message::decode(&p).unwrap();
        assert_eq!(m.encode(), p);
    }
}

#[test]
fn decode_reads_the_depth() {
    assert_eq!(Message::decode(&[0, 5, 1, 0, 0, 0, 0, 0, 0]), Ok(Message::Depth { depth: 261 }));
    assert_eq!(
        Message::decode(&[1, 2, 0, 0, 0, 0, 0, 0, 0, 7]),
        Ok(Message::Block { depth: 2, block: vec![7] })
    );
}

#[test]
fn depth_accessor_reads_both_kinds() {
    assert_eq!(Message::Depth { depth: 4 }.depth(), 4);
    assert_eq!(Message::Block { depth: 9, block: vec![1] }.depth(), 9);
}

#[test]
fn empty_payload_is_refused() {
    assert_eq!(Message::decode(&[]), Err(DecodeError::Empty));
}

#[test]
fn unknown_tag_is_refused() {
    assert_eq!(Message::decode(&[2, 0, 0, 0, 0, 0, 0, 0, 0]), Err(DecodeError::UnknownTag(2)));
    assert_eq!(Message::decode(&[255]), Err(DecodeError::UnknownTag(255)));
}

#[test]
fn short_payload_is_refused() {
    assert_eq!(Message::decode(&[0]), Err(DecodeError::Truncated));
    assert_eq!(Message::decode(&[1, 0, 0, 0, 0, 0, 0, 0]), Err(DecodeError::Truncated));
}

#[test]
fn bytes_after_a_depth_announcement_are_refused() {
    assert_eq!(Message::decode(&[0, 0, 0, 0, 0, 0, 0, 0, 0, 0]), Err(DecodeError::TrailingBytes));
}
