use nats_core::codec::ServerCodec;
use nats_core::commands::{HMsg, HeaderMap, HeaderName, HeaderValue, Msg, ServerCommand,
    ServerDecodeError};

fn decode(codec: &mut ServerCodec, buf: &mut Vec<u8>) -> Result<Option<ServerCommand>, ServerDecodeError> {
    codec.decode(buf)
}

#[test]
fn lib_short() {
    let mut codec = ServerCodec;
    let mut buf: Vec<u8> = b"MSG FOO.BAR 9 11\r\nHello World\r\n".to_vec();
    assert_eq!(
        decode(&mut codec, &mut buf).expect("Failed to match"),
        Some(ServerCommand::Msg(Msg {
            subject: "FOO.BAR".into(),
            sid: "9".into(),
            reply_to: None,
            bytes: 11,
            payload: b"Hello World".to_vec(),
        }))
    );
    assert_eq!(decode(&mut codec, &mut buf).unwrap(), None);
}

#[test]
fn lib_long() {
    let mut codec = ServerCodec;
    let mut buf: Vec<u8> = b"MSG FOO.BAR 9 GREETING.34 11\r\nHello World\r\n".to_vec();
    assert_eq!(
        decode(&mut codec, &mut buf).unwrap(),
        Some(ServerCommand::Msg(Msg {
            subject: "FOO.BAR".into(),
            sid: "9".into(),
            reply_to: Some("GREETING.34".into()),
            bytes: 11,
            payload: b"Hello World".to_vec(),
        }))
    );
    assert_eq!(decode(&mut codec, &mut buf).unwrap(), None);
}

fn food_headers() -> HeaderMap {
    let mut h = HeaderMap::new();
    h.insert(HeaderName("FoodGroup".into()), HeaderValue("vegetable".into()));
    h
}

#[test]
fn short() {
    let mut codec = ServerCodec;
    let mut buf: Vec<u8> =
        b"HMSG FOO.BAR 9 34 45\r\nNATS/1.0\r\nFoodGroup: vegetable\r\n\r\nHello World\r\n"
            .to_vec();
    assert_eq!(
        decode(&mut codec, &mut buf).expect("Failed to match"),
        Some(ServerCommand::HMsg(HMsg {
            subject: "FOO.BAR".into(),
            sid: "9".into(),
            reply_to: None,
            header_bytes: 34,
            total_bytes: 45,
            headers: food_headers(),
            payload: b"Hello World".to_vec(),
        }))
    );
    assert_eq!(decode(&mut codec, &mut buf).unwrap(), None);
}

#[test]
fn long() {
    let mut codec = ServerCodec;
    let mut buf: Vec<u8> =
        b"HMSG FOO.BAR 9 BAZ.69 34 45\r\nNATS/1.0\r\nFoodGroup: vegetable\r\n\r\nHello World\r\n"
            .to_vec();
    assert_eq!(
        decode(&mut codec, &mut buf).unwrap(),
        Some(ServerCommand::HMsg(HMsg {
            subject: "FOO.BAR".into(),
            sid: "9".into(),
            reply_to: Some("BAZ.69".into()),
            header_bytes: 34,
            total_bytes: 45,
            headers: food_headers(),
            payload: b"Hello World".to_vec(),
        }))
    );
    assert_eq!(decode(&mut codec, &mut buf).unwrap(), None);
}

#[test]
fn ping_server() {
    let mut codec = ServerCodec;
    let mut buf: Vec<u8> = b"PING\r\n".to_vec();
    assert_eq!(decode(&mut codec, &mut buf).unwrap(), Some(ServerCommand::Ping));
    assert_eq!(decode(&mut codec, &mut buf).unwrap(), None);
}

#[test]
fn pong_server() {
    let mut codec = ServerCodec;
    let mut buf: Vec<u8> = b"PONG\r\n".to_vec();
    assert_eq!(decode(&mut codec, &mut buf).unwrap(), Some(ServerCommand::Pong));
    assert_eq!(decode(&mut codec, &mut buf).unwrap(), None);
}

#[test]
fn ok() {
    let mut codec = ServerCodec;
    let mut buf: Vec<u8> = b"+OK\r\n".to_vec();
    assert_eq!(decode(&mut codec, &mut buf).unwrap(), Some(ServerCommand::Okay));
    assert_eq!(decode(&mut codec, &mut buf).unwrap(), None);
}

#[test]
fn err() {
    let mut codec = ServerCodec;
    let mut buf: Vec<u8> = b"-ERR 'Unknown Protocol Operation'\r\n".to_vec();
    assert_eq!(
        decode(&mut codec, &mut buf).unwrap(),
        Some(ServerCommand::Error("Unknown Protocol Operation".into()))
    );
    assert_eq!(decode(&mut codec, &mut buf).unwrap(), None);
}

#[test]
fn partial_frame_waits_then_completes() {
    let mut codec = ServerCodec;
    let mut buf: Vec<u8> = b"MSG FOO.BAR 9 11\r\nHello".to_vec();
    assert_eq!(decode(&mut codec, &mut buf).unwrap(), None);
    buf.extend_from_slice(b" World\r\n");
    assert_eq!(
        decode(&mut codec, &mut buf).unwrap(),
        Some(ServerCommand::Msg(Msg {
            subject: "FOO.BAR".into(),
            sid: "9".into(),
            reply_to: None,
            bytes: 11,
            payload: b"Hello World".to_vec(),
        }))
    );
    assert!(buf.is_empty());
}

#[test]
fn malformed_frame_then_valid_frame() {
    let mut codec = ServerCodec;
    let mut buf: Vec<u8> = b"MSG FOO.BAR 9 nonsense\r\nPING\r\n".to_vec();
    assert_eq!(decode(&mut codec, &mut buf), Err(ServerDecodeError::BadMsg));
    assert_eq!(decode(&mut codec, &mut buf).unwrap(), Some(ServerCommand::Ping));
    assert_eq!(decode(&mut codec, &mut buf).unwrap(), None);
}

#[test]
fn unknown_command_skipped() {
    let mut codec = ServerCodec;
    let mut buf: Vec<u8> = b"WHAT is this\r\nPONG\r\n".to_vec();
    assert_eq!(decode(&mut codec, &mut buf), Err(ServerDecodeError::UnknownCommand));
    assert_eq!(decode(&mut codec, &mut buf).unwrap(), Some(ServerCommand::Pong));
}

#[test]
fn oversize_without_delimiter_is_reported_and_skipped() {
    let mut codec = ServerCodec;
    let mut buf: Vec<u8> = vec![b'A'; 70000];
    buf.extend_from_slice(b"\r\nPING\r\n");
    assert_eq!(decode(&mut codec, &mut buf), Err(ServerDecodeError::ExceedsSoftLength));
    assert_eq!(decode(&mut codec, &mut buf).unwrap(), Some(ServerCommand::Ping));
    assert_eq!(decode(&mut codec, &mut buf).unwrap(), None);
}

#[test]
fn msg_payload_length_must_match() {
    let mut codec = ServerCodec;
    let mut buf: Vec<u8> = b"MSG A 1 5\r\nab\r\nPING\r\n".to_vec();
    assert_eq!(decode(&mut codec, &mut buf), Err(ServerDecodeError::BadMsg));
}

#[test]
fn hmsg_total_smaller_than_headers_is_bad() {
    let mut codec = ServerCodec;
    let mut buf: Vec<u8> = b"HMSG A 1 30 20\r\nNATS/1.0\r\n\r\nxxxxxxxxxx\r\n".to_vec();
    assert_eq!(decode(&mut codec, &mut buf), Err(ServerDecodeError::BadHMsg));
}

#[test]
fn info_with_unknown_fields_decodes() {
    let mut codec = ServerCodec;
    let mut buf: Vec<u8> = {
        let mut v = br#"INFO {"server_id":"X","server_name":"demo","version":"2.10.17","proto":1,"go":"go1.22.4","host":"0.0.0.0","port":4222,"headers":true,"max_payload":1048576,"jetstream":true,"client_id":710058,"xkey":"whatever"}"#.to_vec();
        v.extend_from_slice(b"\r\n");
        v
    };
    let decoded = decode(&mut codec, &mut buf).unwrap().unwrap();
    match decoded {
        ServerCommand::Info(info) => {
            assert_eq!(info.server_id, "X");
            assert_eq!(info.server_name, "demo");
            assert_eq!(info.port, 4222);
            assert_eq!(info.max_payload, 1048576);
            assert_eq!(info.proto, 1);
            assert_eq!(info.headers, true);
            assert_eq!(info.jetstream, Some(true));
            assert_eq!(info.client_id, Some(710058));
            assert_eq!(info.auth_required, None);
        }
        other => panic!("expected INFO, got {:?}", other),
    }
    assert!(buf.is_empty());
}

#[test]
fn info_missing_required_field_is_bad() {
    let mut codec = ServerCodec;
    let mut buf: Vec<u8> = b"INFO {\"server_id\":\"X\"}\r\n".to_vec();
    assert_eq!(decode(&mut codec, &mut buf), Err(ServerDecodeError::BadInfo));
}

#[test]
fn err_without_quotes_is_bad() {
    let mut codec = ServerCodec;
    let mut buf: Vec<u8> = b"-ERR plain text\r\n".to_vec();
    assert_eq!(decode(&mut codec, &mut buf), Err(ServerDecodeError::BadErr));
}
