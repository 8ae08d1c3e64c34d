//! The wire protocol: validation, payloads and framing.

use std::sync::Arc;

use bytes::BytesMut;

use wire_whisper::{
    encode_frame, validate_body_bytes, validate_username_bytes, ClientFrame, MessageBody, Payload,
    PayloadError, PostcardCodec, ProtocolError, ServerFrame, UserName, ValidationError,
    MAX_BODY_BYTES, MAX_FRAME_BYTES, MAX_USERNAME_BYTES, PROTOCOL_VERSION,
};

type LoopbackCodec = PostcardCodec<ClientFrame, ClientFrame>;

#[test]
fn client_frame_roundtrip() {
    let mut codec = LoopbackCodec::new();
    let mut buf = BytesMut::new();
    let frame = ClientFrame::Send {
        body: "hello, world".into(),
    };
    codec.encode(frame.clone(), &mut buf).unwrap();
    let decoded = codec.decode(&mut buf).unwrap().expect("frame");
    assert_eq!(frame, decoded);
    assert!(buf.is_empty(), "decoder should consume the entire frame");
}

#[test]
fn server_frame_roundtrip() {
    let mut codec = PostcardCodec::<ServerFrame, ServerFrame>::new();
    let mut buf = BytesMut::new();
    let frame = ServerFrame::Message {
        from: "alice".into(),
        body: "hi bob".into(),
    };
    codec.encode(frame.clone(), &mut buf).unwrap();
    let decoded = codec.decode(&mut buf).unwrap().expect("frame");
    assert_eq!(frame, decoded);
}

#[test]
fn rejects_oversize_declared_length() {
    let mut codec = LoopbackCodec::new();
    let mut buf = BytesMut::new();
    buf.extend_from_slice(&u32::to_be_bytes((MAX_FRAME_BYTES + 1) as u32));
    assert!(matches!(
        codec.decode(&mut buf),
        Err(ProtocolError::OversizeFrame { .. })
    ));
}

#[test]
fn partial_frame_yields_none() {
    let mut codec = LoopbackCodec::new();
    let mut buf = BytesMut::new();
    codec
        .encode(ClientFrame::Send { body: "abc".into() }, &mut buf)
        .unwrap();
    let n = buf.len();
    let mut partial = buf.split_to(n - 1);
    assert!(codec.decode(&mut partial).unwrap().is_none());
}

#[test]
fn two_frames_back_to_back() {
    let mut codec = LoopbackCodec::new();
    let mut buf = BytesMut::new();
    codec
        .encode(
            ClientFrame::Hello {
                version: PROTOCOL_VERSION,
                username: "alice".into(),
            },
            &mut buf,
        )
        .unwrap();
    codec
        .encode(ClientFrame::Send { body: "hi".into() }, &mut buf)
        .unwrap();
    let a = codec.decode(&mut buf).unwrap().unwrap();
    let b = codec.decode(&mut buf).unwrap().unwrap();
    assert!(matches!(a, ClientFrame::Hello { ref username, version }
        if username == "alice" && version == PROTOCOL_VERSION));
    assert!(matches!(b, ClientFrame::Send { ref body } if body == "hi"));
    assert!(buf.is_empty());
}

#[test]
fn encode_frame_matches_codec_output() {
    let frame = ServerFrame::Joined {
        username: "alice".into(),
    };
    let via_helper = encode_frame(&frame).unwrap();

    let mut codec = PostcardCodec::<ServerFrame, ServerFrame>::new();
    let mut buf = BytesMut::new();
    codec.encode(frame, &mut buf).unwrap();

    assert_eq!(&via_helper[..], &buf[..]);
}

#[test]
fn username_validation() {
    assert!(UserName::new("alice").is_ok());
    assert!(UserName::new("Alice_Smith-9").is_ok());
    assert_eq!(UserName::new(""), Err(ValidationError::UsernameEmpty));
    assert!(matches!(
        UserName::new("hi!"),
        Err(ValidationError::UsernameInvalidByte)
    ));
    assert!(matches!(
        UserName::new("with space"),
        Err(ValidationError::UsernameInvalidByte)
    ));
    assert!(UserName::new(&"x".repeat(MAX_USERNAME_BYTES)).is_ok());
    assert!(matches!(
        UserName::new(&"x".repeat(MAX_USERNAME_BYTES + 1)),
        Err(ValidationError::UsernameTooLong { .. })
    ));
}

#[test]
fn body_validation() {
    assert!(MessageBody::new("hi").is_ok());
    assert_eq!(MessageBody::new(""), Err(ValidationError::BodyEmpty));
    assert!(MessageBody::new(&"x".repeat(MAX_BODY_BYTES)).is_ok());
    assert!(matches!(
        MessageBody::new(&"x".repeat(MAX_BODY_BYTES + 1)),
        Err(ValidationError::BodyTooLong { .. })
    ));
}

#[test]
fn username_deserialize_validates() {
    // A serialized valid UserName decodes fine.
    let valid = UserName::new("alice").unwrap();
    let bytes = valid.serialize();
    assert_eq!(bytes, postcard::to_allocvec("alice").unwrap());
    let parsed = UserName::deserialize(&bytes).unwrap();
    assert_eq!(parsed.as_str(), "alice");

    // A raw string that's invalid for the rules fails when decoded
    // as a UserName.
    let raw_bytes = postcard::to_allocvec("bad space").unwrap();
    let err = UserName::deserialize(&raw_bytes);
    assert!(err.is_err(), "invalid usernames must not deserialize");
    assert_eq!(err, Err(PayloadError::Custom));
}

#[test]
fn body_deserialize_validates() {
    let body = MessageBody::new("hi \u{1f600}").unwrap();
    let bytes = body.serialize();
    assert_eq!(bytes, postcard::to_allocvec("hi \u{1f600}").unwrap());
    assert_eq!(MessageBody::deserialize(&bytes).unwrap().as_str(), "hi \u{1f600}");
    assert_eq!(MessageBody::deserialize(&[0]), Err(PayloadError::Custom));
    let long = postcard::to_allocvec(&"x".repeat(MAX_BODY_BYTES + 1)).unwrap();
    assert_eq!(MessageBody::deserialize(&long), Err(PayloadError::Custom));
}

#[test]
fn validated_text_is_handed_out_unchanged() {
    let name = UserName::new("Alice_Smith-9").unwrap();
    assert_eq!(name.as_str(), "Alice_Smith-9");
    assert_eq!(&**name.as_arc(), "Alice_Smith-9");
    assert_eq!(name.clone(), name);
    let arc = name.into_arc();
    let again = UserName::from_arc(arc.clone()).unwrap();
    assert!(Arc::ptr_eq(&arc, again.as_arc()));
    assert_eq!(
        UserName::from_arc(Arc::from("")),
        Err(ValidationError::UsernameEmpty)
    );
    assert_eq!(
        UserName::from_arc(Arc::from("a\u{e9}")),
        Err(ValidationError::UsernameInvalidByte)
    );
    for text in ["alice", "", "hi!", "a\u{e9}"] {
        assert_eq!(UserName::from_arc(Arc::from(text)), UserName::new(text));
    }
    assert_eq!(UserName::from_arc(again.clone().into_arc()), Ok(again));
    let body = MessageBody::new("hi there").unwrap();
    assert_eq!(body.as_str(), "hi there");
    assert_eq!(body.clone(), body);
    assert_eq!(&*body.into_arc(), "hi there");
}

#[test]
fn every_ascii_character_is_judged() {
    for b in 0u8..128 {
        let c = b as char;
        let allowed = c.is_ascii_alphanumeric() || c == '_' || c == '-';
        let verdict = validate_username_bytes(&c.to_string());
        if allowed {
            assert_eq!(verdict, Ok(()));
        } else {
            assert_eq!(verdict, Err(ValidationError::UsernameInvalidByte));
        }
    }
}

#[test]
fn lengths_are_in_bytes() {
    // Seventeen two-byte characters: over the limit, which is checked first.
    assert_eq!(
        validate_username_bytes(&"\u{e9}".repeat(17)),
        Err(ValidationError::UsernameTooLong { actual: 34, max: 32 })
    );
    assert_eq!(
        validate_username_bytes(&"\u{e9}".repeat(16)),
        Err(ValidationError::UsernameInvalidByte)
    );
    assert_eq!(validate_body_bytes(&"\u{1f600}".repeat(1024)), Ok(()));
    assert_eq!(
        validate_body_bytes(&"\u{1f600}".repeat(1025)),
        Err(ValidationError::BodyTooLong { actual: 4100, max: 4096 })
    );
}

#[test]
fn errors_describe_themselves() {
    assert_eq!(
        ValidationError::UsernameEmpty.message(),
        "username is empty (must be 1..=32 bytes)"
    );
    assert_eq!(
        ValidationError::UsernameTooLong { actual: 33, max: 32 }.message(),
        "username is 33 bytes; max is 32"
    );
    assert_eq!(
        ValidationError::UsernameInvalidByte.message(),
        "username contains an invalid byte (allowed: ASCII alnum, '_', '-')"
    );
    assert_eq!(ValidationError::BodyEmpty.message(), "body is empty");
    assert_eq!(
        ValidationError::BodyTooLong { actual: 4097, max: 4096 }.message(),
        "body is 4097 bytes; max is 4096"
    );
    assert_eq!(
        ProtocolError::OversizeFrame { len: 8193 }.message(),
        "frame size 8193 exceeds MAX_FRAME_BYTES (8192)"
    );
    for (ours, theirs) in [
        (PayloadError::UnexpectedEnd, postcard::Error::DeserializeUnexpectedEnd),
        (PayloadError::BadVarint, postcard::Error::DeserializeBadVarint),
        (PayloadError::BadUtf8, postcard::Error::DeserializeBadUtf8),
        (PayloadError::Custom, postcard::Error::SerdeDeCustom),
    ] {
        assert_eq!(
            ProtocolError::Postcard(ours).message(),
            format!("postcard codec failure: {theirs}")
        );
    }
}

/// Some text of every kind.
fn texts() -> Vec<String> {
    vec![
        String::new(),
        "a".into(),
        "hello, world".into(),
        "\u{e9}\u{4e2d}\u{1f600}".into(),
        "x".repeat(127),
        "x".repeat(128),
        "\u{1f600}".repeat(1000),
    ]
}

fn client_frames() -> Vec<ClientFrame> {
    let mut frames = vec![ClientFrame::Pong, ClientFrame::Leave];
    for text in texts() {
        for version in [0, 1, 127, 128, 255] {
            frames.push(ClientFrame::Hello { version, username: text.clone() });
        }
        frames.push(ClientFrame::Send { body: text });
    }
    frames
}

fn server_frames() -> Vec<ServerFrame> {
    let mut frames = vec![ServerFrame::Ping];
    for text in texts() {
        for occupancy in [0, 1, 127, 128, 16383, 16384, u32::MAX] {
            frames.push(ServerFrame::Welcome { motd: text.clone(), occupancy });
        }
        frames.push(ServerFrame::Rejected { reason: text.clone() });
        frames.push(ServerFrame::Joined { username: text.clone() });
        frames.push(ServerFrame::Departed { username: text.clone() });
        frames.push(ServerFrame::Error { reason: text.clone() });
        for body in ["", "hi", "\u{e9}"] {
            frames.push(ServerFrame::Message { from: text.clone(), body: body.into() });
        }
    }
    frames
}

#[test]
fn every_client_frame_survives_a_round_trip() {
    for frame in client_frames() {
        let bytes = encode_frame(&frame).unwrap();
        assert_eq!(ClientFrame::deserialize(&bytes[4..]), Ok(frame));
    }
}

#[test]
fn every_server_frame_survives_a_round_trip() {
    for frame in server_frames() {
        let bytes = encode_frame(&frame).unwrap();
        assert_eq!(ServerFrame::deserialize(&bytes[4..]), Ok(frame));
    }
}

#[test]
fn streams_of_frames_are_decoded_in_order() {
    let mut codec = LoopbackCodec::new();
    let mut buf = BytesMut::new();
    let frames = client_frames();
    for frame in &frames {
        codec.encode(frame.clone(), &mut buf).unwrap();
    }
    let mut decoded = Vec::new();
    while let Some(frame) = codec.decode(&mut buf).unwrap() {
        decoded.push(frame);
    }
    assert_eq!(decoded, frames);
    assert!(buf.is_empty());
}

#[test]
fn frames_arrive_byte_by_byte() {
    let mut codec = LoopbackCodec::new();
    let frame = ClientFrame::Hello { version: 1, username: "alice".into() };
    let bytes = encode_frame(&frame).unwrap();
    let mut buf = BytesMut::new();
    for i in 0..bytes.len() {
        assert_eq!(codec.decode(&mut buf).unwrap(), None);
        assert_eq!(&buf[..], &bytes[..i]);
        buf.extend_from_slice(&bytes[i..i + 1]);
    }
    assert_eq!(codec.decode(&mut buf).unwrap(), Some(frame));
    assert!(buf.is_empty());
}

#[test]
fn client_payloads_are_postcard_enums() {
    let expect = |frame: ClientFrame, bytes: Vec<u8>| {
        assert_eq!(frame.serialize(), bytes);
    };
    expect(
        ClientFrame::Hello { version: 200, username: "alice".into() },
        postcard::to_allocvec(&(0u32, 200u8, "alice")).unwrap(),
    );
    expect(
        ClientFrame::Send { body: "x".repeat(300) },
        postcard::to_allocvec(&(1u32, "x".repeat(300))).unwrap(),
    );
    expect(ClientFrame::Pong, vec![2]);
    expect(ClientFrame::Leave, vec![3]);
    expect(
        ClientFrame::Hello { version: 1, username: "bo".into() },
        vec![0, 1, 2, b'b', b'o'],
    );
}

#[test]
fn server_payloads_are_postcard_enums() {
    let expect = |frame: ServerFrame, bytes: Vec<u8>| {
        assert_eq!(frame.serialize(), bytes);
    };
    expect(
        ServerFrame::Welcome { motd: "hi".into(), occupancy: 300 },
        vec![0, 2, b'h', b'i', 0xac, 0x02],
    );
    expect(
        ServerFrame::Rejected { reason: "no".into() },
        postcard::to_allocvec(&(1u32, "no")).unwrap(),
    );
    expect(
        ServerFrame::Joined { username: "a".into() },
        postcard::to_allocvec(&(2u32, "a")).unwrap(),
    );
    expect(
        ServerFrame::Departed { username: "a".into() },
        postcard::to_allocvec(&(3u32, "a")).unwrap(),
    );
    expect(
        ServerFrame::Message { from: "a".into(), body: "\u{e9}".into() },
        postcard::to_allocvec(&(4u32, "a", "\u{e9}")).unwrap(),
    );
    expect(ServerFrame::Ping, vec![5]);
    expect(
        ServerFrame::Error { reason: "e".into() },
        postcard::to_allocvec(&(6u32, "e")).unwrap(),
    );
}

#[test]
fn frames_start_with_their_big_endian_length() {
    let bytes = encode_frame(&ServerFrame::Error { reason: "x".repeat(600) }).unwrap();
    // One byte for the variant, two for the length of the text.
    assert_eq!(&bytes[..7], &[0, 0, 2, 91, 6, 0xd8, 0x04]);
    assert_eq!(bytes.len(), 4 + 603);
}

#[test]
fn bad_payloads_are_named() {
    let read = |bytes: &[u8]| ClientFrame::deserialize(bytes);
    assert_eq!(read(&[]), Err(PayloadError::UnexpectedEnd));
    assert_eq!(read(&[0]), Err(PayloadError::UnexpectedEnd));
    assert_eq!(read(&[0, 1]), Err(PayloadError::UnexpectedEnd));
    assert_eq!(read(&[1, 3, b'a']), Err(PayloadError::UnexpectedEnd));
    assert_eq!(read(&[0x80, 0x80]), Err(PayloadError::UnexpectedEnd));
    assert_eq!(read(&[1, 2, 0xc3, 0x28]), Err(PayloadError::BadUtf8));
    assert_eq!(read(&[4]), Err(PayloadError::Custom));
    assert_eq!(read(&[0xff, 0xff, 0xff, 0xff, 0x0f]), Err(PayloadError::Custom));
    assert_eq!(read(&[0xff, 0xff, 0xff, 0xff, 0x10]), Err(PayloadError::BadVarint));
    assert_eq!(read(&[0x80; 5]), Err(PayloadError::BadVarint));
    assert_eq!(read(&[1, 0x80, 0x80, 0x80]), Err(PayloadError::UnexpectedEnd));
    let mut endless = vec![1u8];
    endless.extend_from_slice(&[0x80; 10]);
    assert_eq!(read(&endless), Err(PayloadError::BadVarint));
}

#[test]
fn lenient_payloads_are_read() {
    // Bytes behind the value are ignored, and numbers need not be written in
    // the shortest way.
    assert_eq!(ClientFrame::deserialize(&[2, 9, 9]), Ok(ClientFrame::Pong));
    assert_eq!(ClientFrame::deserialize(&[0x83, 0x00]), Ok(ClientFrame::Leave));
    assert_eq!(
        ClientFrame::deserialize(&[1, 0x81, 0x00, b'a', 7]),
        Ok(ClientFrame::Send { body: "a".into() })
    );
}

#[test]
fn a_bad_payload_is_taken_off_the_stream() {
    let mut codec = LoopbackCodec::new();
    let mut buf = BytesMut::from(&[0u8, 0, 0, 1, 9, 0, 0, 0, 1, 2][..]);
    assert_eq!(
        codec.decode(&mut buf),
        Err(ProtocolError::Postcard(PayloadError::Custom))
    );
    assert_eq!(codec.decode(&mut buf), Ok(Some(ClientFrame::Pong)));
    assert!(buf.is_empty());
}

#[test]
fn an_oversize_length_is_refused_at_once() {
    let mut codec = LoopbackCodec::new();
    let mut buf = BytesMut::from(&[0xff, 0xff, 0xff, 0xfe, 1][..]);
    assert_eq!(
        codec.decode(&mut buf),
        Err(ProtocolError::OversizeFrame { len: 0xffff_fffe })
    );
    assert_eq!(buf.len(), 5);
    // No room is made for such a frame.
    assert!(buf.capacity() < 1024);
    let mut buf = BytesMut::from(&u32::to_be_bytes(MAX_FRAME_BYTES as u32)[..]);
    assert_eq!(codec.decode(&mut buf), Ok(None));
}

#[test]
fn an_oversize_frame_is_not_encoded() {
    let mut codec = LoopbackCodec::new();
    let mut buf = BytesMut::from(&b"before"[..]);
    let big = ClientFrame::Send { body: "x".repeat(MAX_FRAME_BYTES) };
    let len = MAX_FRAME_BYTES + 3;
    assert_eq!(
        encode_frame(&big),
        Err(ProtocolError::OversizeFrame { len })
    );
    assert_eq!(
        codec.encode(big, &mut buf),
        Err(ProtocolError::OversizeFrame { len })
    );
    assert_eq!(&buf[..], b"before");
    let fits = ClientFrame::Send { body: "x".repeat(MAX_FRAME_BYTES - 3) };
    assert_eq!(encode_frame(&fits).unwrap().len(), 4 + MAX_FRAME_BYTES);
}

#[test]
fn the_largest_message_fits() {
    let frame = ServerFrame::Message {
        from: "x".repeat(MAX_USERNAME_BYTES),
        body: "x".repeat(MAX_BODY_BYTES),
    };
    let bytes = encode_frame(&frame).unwrap();
    assert_eq!(bytes.len(), 4 + 1 + 1 + 32 + 2 + 4096);
}
