use nats_core::codec::ClientCodec;
use nats_core::commands::{ClientCommand, ClientDecodeError, Connect, HPublish, HeaderMap,
    HeaderName, HeaderValue, Publish, Subscribe, Unsubscribe};

fn decode(buf: &mut Vec<u8>) -> Result<Option<ClientCommand>, ClientDecodeError> {
    let mut codec = ClientCodec;
    codec.decode(buf)
}

fn encode(cmd: ClientCommand) -> Vec<u8> {
    let mut codec = ClientCodec;
    let mut out: Vec<u8> = Vec::new();
    codec.encode(cmd, &mut out).unwrap();
    out
}

#[test]
fn ping_client() {
    let mut buf: Vec<u8> = b"PING\r\n".to_vec();
    assert_eq!(decode(&mut buf).unwrap(), Some(ClientCommand::Ping));
    assert_eq!(decode(&mut buf).unwrap(), None);
}

#[test]
fn pong_client() {
    let mut buf: Vec<u8> = b"PONG\r\n".to_vec();
    assert_eq!(decode(&mut buf).unwrap(), Some(ClientCommand::Pong));
    assert_eq!(decode(&mut buf).unwrap(), None);
}

#[test]
fn pub_plain() {
    let mut buf: Vec<u8> = b"PUB FOO 11\r\nHello NATS!\r\n".to_vec();
    assert_eq!(
        decode(&mut buf).unwrap(),
        Some(ClientCommand::Publish(Publish {
            subject: "FOO".into(),
            reply_to: None,
            bytes: 11,
            payload: b"Hello NATS!".to_vec(),
        }))
    );
    assert_eq!(decode(&mut buf).unwrap(), None);
}

#[test]
fn pub_reply_to() {
    let mut buf: Vec<u8> = b"PUB FRONT.DOOR JOKE.22 11\r\nKnock Knock\r\n".to_vec();
    assert_eq!(
        decode(&mut buf).unwrap(),
        Some(ClientCommand::Publish(Publish {
            subject: "FRONT.DOOR".into(),
            reply_to: Some("JOKE.22".into()),
            bytes: 11,
            payload: b"Knock Knock".to_vec(),
        }))
    );
    assert_eq!(decode(&mut buf).unwrap(), None);
}

#[test]
fn lib_empty_msg() {
    let mut buf: Vec<u8> = b"PUB NOTIFY 0\r\n\r\n".to_vec();
    assert_eq!(
        decode(&mut buf).unwrap(),
        Some(ClientCommand::Publish(Publish {
            subject: "NOTIFY".into(),
            reply_to: None,
            bytes: 0,
            payload: Vec::new(),
        }))
    );
    assert_eq!(decode(&mut buf).unwrap(), None);
}

#[test]
fn sub() {
    let mut buf: Vec<u8> = b"SUB FOO 1\r\n".to_vec();
    assert_eq!(
        decode(&mut buf).unwrap(),
        Some(ClientCommand::Subscribe(Subscribe {
            subject: "FOO".into(),
            queue_group: None,
            sid: "1".into(),
        }))
    );
    assert_eq!(decode(&mut buf).unwrap(), None);
}

#[test]
fn sub_queue_group() {
    let mut buf: Vec<u8> = b"SUB BAR G1 44\r\n".to_vec();
    assert_eq!(
        decode(&mut buf).unwrap(),
        Some(ClientCommand::Subscribe(Subscribe {
            subject: "BAR".into(),
            queue_group: Some("G1".into()),
            sid: "44".into(),
        }))
    );
    assert_eq!(decode(&mut buf).unwrap(), None);
}

#[test]
fn unsub() {
    let mut buf: Vec<u8> = b"UNSUB 1\r\n".to_vec();
    assert_eq!(
        decode(&mut buf).unwrap(),
        Some(ClientCommand::Unsubscribe(Unsubscribe { sid: "1".into(), max_msgs: None }))
    );
    assert_eq!(decode(&mut buf).unwrap(), None);
}

#[test]
fn unsub_max_msgs() {
    let mut buf: Vec<u8> = b"UNSUB 1 5\r\n".to_vec();
    assert_eq!(
        decode(&mut buf).unwrap(),
        Some(ClientCommand::Unsubscribe(Unsubscribe {
            sid: "1".into(),
            max_msgs: Some(5),
        }))
    );
    assert_eq!(decode(&mut buf).unwrap(), None);
}

#[test]
fn unsub_zero_max_msgs_is_bad() {
    let mut buf: Vec<u8> = b"UNSUB 1 0\r\n".to_vec();
    assert_eq!(decode(&mut buf), Err(ClientDecodeError::BadUnsub));
}

#[test]
fn simple() {
    let mut headers = HeaderMap::new();
    headers.insert(HeaderName("Bar".into()), HeaderValue("Baz".into()));
    let mut buf: Vec<u8> = b"HPUB FOO 22 33\r\nNATS/1.0\r\nBar: Baz\r\n\r\nHello NATS!\r\n".to_vec();
    assert_eq!(
        decode(&mut buf).unwrap(),
        Some(ClientCommand::HPublish(HPublish {
            subject: "FOO".into(),
            reply_to: None,
            header_bytes: 22,
            total_bytes: 33,
            headers,
            payload: b"Hello NATS!".to_vec(),
        }))
    );
    assert_eq!(decode(&mut buf).unwrap(), None);
}

#[test]
fn reply_to() {
    let mut headers = HeaderMap::new();
    headers.insert(HeaderName("BREAKFAST".into()), HeaderValue("donut".into()));
    headers.insert(HeaderName("LUNCH".into()), HeaderValue("burger".into()));
    let mut buf: Vec<u8> =
        b"HPUB FRONT.DOOR JOKE.22 45 56\r\nNATS/1.0\r\nBREAKFAST: donut\r\nLUNCH: burger\r\n\r\nKnock Knock\r\n"
            .to_vec();
    assert_eq!(
        decode(&mut buf).unwrap(),
        Some(ClientCommand::HPublish(HPublish {
            subject: "FRONT.DOOR".into(),
            reply_to: Some("JOKE.22".into()),
            header_bytes: 45,
            total_bytes: 56,
            headers,
            payload: b"Knock Knock".to_vec(),
        }))
    );
    assert_eq!(decode(&mut buf).unwrap(), None);
}

#[test]
fn empty_msg() {
    let mut headers = HeaderMap::new();
    headers.insert(HeaderName("Bar".into()), HeaderValue("Baz".into()));
    let mut buf: Vec<u8> = b"HPUB NOTIFY 22 22\r\nNATS/1.0\r\nBar: Baz\r\n\r\n\r\n".to_vec();
    assert_eq!(
        decode(&mut buf).unwrap(),
        Some(ClientCommand::HPublish(HPublish {
            subject: "NOTIFY".into(),
            reply_to: None,
            header_bytes: 22,
            total_bytes: 22,
            headers,
            payload: Vec::new(),
        }))
    );
    assert_eq!(decode(&mut buf).unwrap(), None);
}

#[test]
fn double_header() {
    let mut headers = HeaderMap::new();
    headers.insert(HeaderName("BREAKFAST".into()), HeaderValue("donut".into()));
    headers.insert(HeaderName("BREAKFAST".into()), HeaderValue("eggs".into()));
    let mut buf: Vec<u8> =
        b"HPUB MORNING.MENU 47 51\r\nNATS/1.0\r\nBREAKFAST: donut\r\nBREAKFAST: eggs\r\n\r\nYum!\r\n"
            .to_vec();
    assert_eq!(
        decode(&mut buf).unwrap(),
        Some(ClientCommand::HPublish(HPublish {
            subject: "MORNING.MENU".into(),
            reply_to: None,
            header_bytes: 47,
            total_bytes: 51,
            headers,
            payload: b"Yum!".to_vec(),
        }))
    );
    assert_eq!(decode(&mut buf).unwrap(), None);
}

fn go_connect() -> Connect {
    Connect {
        verbose: false,
        pedantic: false,
        tls_required: false,
        auth_token: None,
        user: None,
        pass: None,
        name: Some("".into()),
        lang: "go".into(),
        version: "1.2.2".into(),
        protocol: Some(1),
        echo: None,
        sig: None,
        jwt: None,
        no_responders: None,
        headers: None,
        nkey: None,
    }
}

#[test]
fn connect() {
    let mut buf: Vec<u8> = {
        let mut v = br#"CONNECT {"verbose":false,"pedantic":false,"tls_required":false,"name":"","lang":"go","version":"1.2.2","protocol":1}"#.to_vec();
        v.extend_from_slice(b"\r\n");
        v
    };
    assert_eq!(decode(&mut buf).unwrap(), Some(ClientCommand::Connect(go_connect())));
    assert_eq!(decode(&mut buf).unwrap(), None);
}

#[test]
fn empty_pub_encodes_exactly_and_round_trips() {
    let cmd = ClientCommand::Publish(Publish {
        subject: "NOTIFY".into(),
        reply_to: None,
        bytes: 0,
        payload: Vec::new(),
    });
    let bytes = encode(cmd.clone());
    assert_eq!(bytes, b"PUB NOTIFY 0\r\n\r\n".to_vec());
    let mut buf = bytes;
    assert_eq!(decode(&mut buf).unwrap(), Some(cmd));
    assert!(buf.is_empty());
}

#[test]
fn every_client_command_round_trips() {
    let mut headers = HeaderMap::new();
    headers.insert(HeaderName("K".into()), HeaderValue("v".into()));
    let cmds = vec![
        ClientCommand::Connect(go_connect()),
        ClientCommand::Publish(Publish {
            subject: "S.T".into(),
            reply_to: Some("R".into()),
            bytes: 3,
            payload: b"abc".to_vec(),
        }),
        ClientCommand::HPublish(HPublish {
            subject: "S".into(),
            reply_to: None,
            header_bytes: 18,
            total_bytes: 20,
            headers,
            payload: b"xy".to_vec(),
        }),
        ClientCommand::Subscribe(Subscribe {
            subject: "S.>".into(),
            queue_group: Some("g".into()),
            sid: "7".into(),
        }),
        ClientCommand::Unsubscribe(Unsubscribe { sid: "7".into(), max_msgs: Some(2) }),
        ClientCommand::Ping,
        ClientCommand::Pong,
    ];
    for cmd in cmds {
        let mut buf = encode(cmd.clone());
        assert_eq!(decode(&mut buf).unwrap(), Some(cmd));
        assert!(buf.is_empty());
    }
}

#[test]
fn connect_with_quotes_in_name_round_trips() {
    let mut c = go_connect();
    c.name = Some("a\"b\\c".into());
    let cmd = ClientCommand::Connect(c);
    let mut buf = encode(cmd.clone());
    assert_eq!(decode(&mut buf).unwrap(), Some(cmd));
}
