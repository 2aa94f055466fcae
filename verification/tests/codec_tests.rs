use chat_server::message::{ChatMessage, ChatMessageError, MessageTypes};

fn roundtrip(msg_type: MessageTypes, content: Option<Vec<u8>>) -> ChatMessage {
    let m = ChatMessage::try_new(msg_type, content).unwrap();
    let bytes = m.encode();
    let (back, consumed) = ChatMessage::decode(&bytes).unwrap();
    assert_eq!(consumed, bytes.len());
    back
}

#[test]
fn test_roundtrip_every_named_type() {
    let payload = b"hello".to_vec();
    for t in [
        MessageTypes::ChatMessage,
        MessageTypes::Join,
        MessageTypes::Leave,
        MessageTypes::UserRename,
        MessageTypes::Error,
    ] {
        let back = roundtrip(t, Some(payload.clone()));
        assert!(matches!(
            (t, back.get_type()),
            (MessageTypes::ChatMessage, MessageTypes::ChatMessage)
                | (MessageTypes::Join, MessageTypes::Join)
                | (MessageTypes::Leave, MessageTypes::Leave)
                | (MessageTypes::UserRename, MessageTypes::UserRename)
                | (MessageTypes::Error, MessageTypes::Error)
        ));
        assert_eq!(back.get_content().as_ref().unwrap(), &payload);
    }
}

#[test]
fn test_roundtrip_unknown_type_keeps_its_code() {
    let back = roundtrip(MessageTypes::Unknown(0xAB), Some(b"x".to_vec()));
    assert!(matches!(back.get_type(), MessageTypes::Unknown(0xAB)));
}

#[test]
fn test_unknown_carrying_a_named_code_becomes_that_type() {
    let m = ChatMessage::try_new(MessageTypes::Unknown(2), None).unwrap();
    assert!(matches!(m.get_type(), MessageTypes::Join));
}

#[test]
fn test_absent_payload_encodes_length_one() {
    let m = ChatMessage::try_new(MessageTypes::Leave, None).unwrap();
    assert_eq!(m.total_length(), 1);
    let bytes = m.encode();
    assert_eq!(bytes, vec![0u8, 1u8, 3u8]);
    let back = roundtrip(MessageTypes::Leave, None);
    assert!(back.get_content().is_none());
}

#[test]
fn test_empty_payload_is_absent_payload() {
    let m = ChatMessage::try_new(MessageTypes::ChatMessage, Some(Vec::new())).unwrap();
    assert!(m.get_content().is_none());
    assert_eq!(m.total_length(), 1);
}

#[test]
fn test_encode_exact_bytes() {
    let m = ChatMessage::try_new(MessageTypes::ChatMessage, Some(b"hi".to_vec())).unwrap();
    assert_eq!(m.total_length(), 3);
    assert_eq!(m.encode(), vec![0u8, 3u8, 1u8, b'h', b'i']);
}

#[test]
fn test_oversized_payload_is_invalid_length() {
    let big = vec![0u8; 65535];
    match ChatMessage::try_new(MessageTypes::ChatMessage, Some(big)) {
        Err(ChatMessageError::InvalidLength) => {}
        _ => panic!("Expected InvalidLength"),
    }
    let just_fits = vec![0u8; 65534];
    assert!(ChatMessage::try_new(MessageTypes::ChatMessage, Some(just_fits)).is_ok());
}

#[test]
fn test_truncated_buffers_keep_asking_for_more() {
    let m = ChatMessage::try_new(MessageTypes::ChatMessage, Some(b"hello".to_vec())).unwrap();
    let bytes = m.encode();
    for cut in 0..bytes.len() {
        let partial: Vec<u8> = bytes[..cut].to_vec();
        match ChatMessage::decode(&partial) {
            Err(ChatMessageError::Truncated) => {}
            other => panic!("Expected Truncated for prefix of {} bytes, got {:?}", cut, other),
        }
    }
    assert!(ChatMessage::decode(&bytes).is_ok());
}

#[test]
fn test_decode_ignores_trailing_bytes() {
    let m = ChatMessage::try_new(MessageTypes::Join, Some(b"alice".to_vec())).unwrap();
    let mut bytes = m.encode();
    let frame_len = bytes.len();
    bytes.extend_from_slice(&[9, 9, 9]);
    let (back, consumed) = ChatMessage::decode(&bytes).unwrap();
    assert_eq!(consumed, frame_len);
    assert!(matches!(back.get_type(), MessageTypes::Join));
    assert_eq!(back.get_content().as_ref().unwrap(), b"alice");
}

#[test]
fn test_zero_declared_length_is_invalid_format() {
    let bytes = vec![0u8, 0u8, 1u8];
    match ChatMessage::decode(&bytes) {
        Err(ChatMessageError::InvalidFormat) => {}
        other => panic!("Expected InvalidFormat, got {:?}", other),
    }
}
