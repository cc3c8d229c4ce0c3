use nats_core::binding::{ConnState, ConnectionCommand, Effect, NatsBinding,
    SubscriptionOptions, Timeouts};
use nats_core::codec::ServerCodec;
use nats_core::commands::{ClientCommand, Publish, ServerCommand};

fn info_command() -> ServerCommand {
    let mut codec = ServerCodec;
    let mut buf: Vec<u8> = {
        let mut v = br#"INFO {"server_id":"NC5WKM2NEXZZYVBSLD24PDKRCMRXZXSMBIYC3VLG7YS5RSD7ERST3OS4","server_name":"us-south-nats-demo","version":"2.10.17","proto":1,"git_commit":"b91de03","go":"go1.22.4","host":"0.0.0.0","port":4222,"headers":true,"tls_available":true,"max_payload":1048576,"jetstream":true,"client_id":710058,"client_ip":"176.199.209.34","nonce":"WnZZsP2OjHY8YwU","xkey":"XAHQDFJMDUWCMLSZC6U5REONIGLFHANVWQLZRSFLVBMC5RSUSGHSF5EC"}"#.to_vec();
        v.extend_from_slice(b"\r\n");
        v
    };
    codec.decode(&mut buf).unwrap().unwrap()
}

struct StepExpectations {
    poll_send_ping: Option<u64>,
    poll_send_pong: Option<u64>,
    poll_keep_alive: Option<u64>,
}

fn step(binding: &mut NatsBinding, tick: u64, expectations: StepExpectations) {
    assert_eq!(
        binding.poll_send_ping_timeout(tick),
        expectations.poll_send_ping,
        "Wrong PING timeout"
    );
    assert_eq!(
        binding.poll_send_pong_timeout(),
        expectations.poll_send_pong,
        "Wrong PONG timeout"
    );
    assert_eq!(
        binding.poll_keep_alive_timeout(),
        expectations.poll_keep_alive,
        "Wrong Keep-Alive timeout!"
    );

    binding.handle_send_ping_timeout(tick);
    binding.handle_send_pong_timeout(tick);
    binding.handle_keep_alive_timeout(tick);
}

#[test]
fn timeouts() {
    // How often we send PING, how long we may wait before answering a PING
    // with PONG, and how long we wait for a server PONG; in milliseconds.
    let ping_interval: u64 = 2000;
    let pong_delay: u64 = 0;
    let keep_alive: u64 = 3000;

    // Tick 0 - setup
    let now: u64 = 0;

    let mut binding = NatsBinding::new(Timeouts { ping_interval, pong_delay, keep_alive });
    assert!(matches!(binding.conn_state, ConnState::AwaitingInfo(_)));

    {
        let tick = now;
        step(
            &mut binding,
            tick,
            StepExpectations {
                poll_send_ping: None,
                poll_send_pong: None,
                poll_keep_alive: None,
            },
        );
        assert_eq!(binding.poll_transmit(), None);
    }

    // Tick 1 - Receive INFO, PING tick is also triggered
    {
        let tick = now + 1000;
        binding.handle_server_input(info_command(), tick);

        step(
            &mut binding,
            tick,
            StepExpectations {
                poll_send_ping: Some(tick),
                poll_send_pong: None,
                poll_keep_alive: None,
            },
        );

        assert!(matches!(binding.poll_transmit(), Some(ClientCommand::Connect(_))));
        assert_eq!(binding.poll_transmit(), Some(ClientCommand::Ping));
        assert_eq!(binding.poll_transmit(), None);
    }

    // Tick 2 - Receive PONG
    {
        let tick = now + 2000;
        binding.handle_server_input(ServerCommand::Pong, tick);

        step(
            &mut binding,
            tick,
            StepExpectations {
                // Send PING based on last tick + interval
                poll_send_ping: Some(tick + ping_interval - 1000),
                poll_send_pong: None,
                // Expect next PONG within given interval
                poll_keep_alive: Some(tick + keep_alive),
            },
        );

        assert_eq!(binding.poll_transmit(), None);
    }

    // Tick 3 - PING was sent in tick 1, so we expect it now.
    // Also, receive PING from server at this time to later send PONG
    {
        let tick = now + 3000;
        binding.handle_server_input(ServerCommand::Ping, tick);

        step(
            &mut binding,
            tick,
            StepExpectations {
                poll_send_ping: Some(tick),
                poll_send_pong: Some(tick),  // Receiving PING immediately starts send PONG
                poll_keep_alive: Some(tick + keep_alive - 1000),
            },
        );

        assert_eq!(binding.poll_transmit(), Some(ClientCommand::Ping));
        assert_eq!(binding.poll_transmit(), Some(ClientCommand::Pong));
        assert_eq!(binding.poll_transmit(), None);
    }

    // Tick 7 - PING was sent in tick 3, and we do not receive a PONG for
    // more than 3 ticks, therefore the connection is "lost"
    {
        let tick = now + 7000;

        step(
            &mut binding,
            tick,
            StepExpectations {
                poll_send_ping: Some(tick - 2000),  // overdue PING
                poll_send_pong: None,  // no PING has been received
                poll_keep_alive: Some(tick + keep_alive - 5000),  // no PONG received
            },
        );

        assert_eq!(binding.poll_transmit(), None);
        assert!(matches!(binding.conn_state, ConnState::ConnectionLost));
    }
}

#[test]
fn retain_preemptive_messages() {
    let tick: u64 = 0;

    let mut binding = NatsBinding::new(Timeouts {
        ping_interval: 10000,
        pong_delay: 10000,
        keep_alive: 10000,
    });
    assert!(matches!(binding.conn_state, ConnState::AwaitingInfo(_)));

    assert_eq!(
        binding.handle_client_input(
            ConnectionCommand::Publish {
                subject: "preemptive".into(),
                payload: b"Hello World!".to_vec(),
            },
            tick,
        ),
        None
    );

    assert_eq!(
        binding.handle_client_input(
            ConnectionCommand::Subscribe {
                subject: "preemptive".into(),
                options: SubscriptionOptions { max_msgs: Some(5), queue_group: None },
            },
            tick,
        ),
        None
    );

    let effects = binding.handle_server_input(info_command(), tick);
    assert!(matches!(binding.conn_state, ConnState::InfoReceived(_)));

    // The buffered subscription is answered once the session opens.
    assert_eq!(effects.len(), 1);
    match &effects[0] {
        Effect::Opened(response) => {
            assert_eq!(response.sid, "1");
            assert_eq!(response.max_msgs, Some(5));
        }
        other => panic!("expected a subscription response, got {:?}", other),
    }

    assert!(matches!(binding.poll_transmit(), Some(ClientCommand::Connect(_))));
    assert_eq!(
        binding.poll_transmit(),
        Some(ClientCommand::Publish(Publish {
            subject: "preemptive".into(),
            reply_to: None,
            bytes: "Hello World!".len(),
            payload: b"Hello World!".to_vec(),
        }))
    );
    assert!(matches!(binding.poll_transmit(), Some(ClientCommand::Subscribe(_))));
    assert!(matches!(binding.poll_transmit(), Some(ClientCommand::Unsubscribe(_))));
    assert!(matches!(binding.poll_transmit(), None));
}

#[test]
fn sids_increase_and_unsub_pairs_with_capped_subscribe() {
    let mut binding = NatsBinding::new(Timeouts {
        ping_interval: 10000,
        pong_delay: 10000,
        keep_alive: 10000,
    });
    binding.handle_server_input(info_command(), 0);
    assert!(matches!(binding.poll_transmit(), Some(ClientCommand::Connect(_))));

    let first = binding
        .handle_client_input(
            ConnectionCommand::Subscribe {
                subject: "a".into(),
                options: SubscriptionOptions { max_msgs: None, queue_group: None },
            },
            0,
        )
        .unwrap();
    assert_eq!(first.sid, "1");

    let second = binding
        .handle_client_input(
            ConnectionCommand::Subscribe {
                subject: "b".into(),
                options: SubscriptionOptions { max_msgs: Some(3), queue_group: None },
            },
            0,
        )
        .unwrap();
    assert_eq!(second.sid, "2");

    match binding.poll_transmit() {
        Some(ClientCommand::Subscribe(s)) => {
            assert_eq!(s.sid, "1");
            assert_eq!(s.subject, "a");
        }
        other => panic!("expected SUB, got {:?}", other),
    }
    match binding.poll_transmit() {
        Some(ClientCommand::Subscribe(s)) => {
            assert_eq!(s.sid, "2");
            assert_eq!(s.subject, "b");
        }
        other => panic!("expected SUB, got {:?}", other),
    }
    match binding.poll_transmit() {
        Some(ClientCommand::Unsubscribe(u)) => {
            assert_eq!(u.sid, "2");
            assert_eq!(u.max_msgs, Some(3));
        }
        other => panic!("expected UNSUB, got {:?}", other),
    }
    assert_eq!(binding.poll_transmit(), None);
}

#[test]
fn exactly_one_connect_even_after_second_info() {
    let mut binding = NatsBinding::new(Timeouts {
        ping_interval: 10000,
        pong_delay: 10000,
        keep_alive: 10000,
    });
    binding.handle_server_input(info_command(), 0);
    assert!(matches!(binding.poll_transmit(), Some(ClientCommand::Connect(_))));
    assert_eq!(binding.poll_transmit(), None);

    // A re-advertised INFO is ignored and enqueues nothing.
    binding.handle_server_input(info_command(), 5);
    assert_eq!(binding.poll_transmit(), None);
}

#[test]
fn non_info_first_frame_is_protocol_violation() {
    let mut binding = NatsBinding::new(Timeouts {
        ping_interval: 10000,
        pong_delay: 10000,
        keep_alive: 10000,
    });
    binding.handle_server_input(ServerCommand::Ping, 0);
    assert!(matches!(binding.conn_state, ConnState::NotInfoReceived));
    assert_eq!(binding.poll_transmit(), None);
    // Further input is discarded.
    binding.handle_server_input(info_command(), 1);
    assert!(matches!(binding.conn_state, ConnState::NotInfoReceived));
    assert_eq!(binding.poll_transmit(), None);
}

#[test]
fn message_for_registered_sid_is_delivered() {
    let mut binding = NatsBinding::new(Timeouts {
        ping_interval: 10000,
        pong_delay: 10000,
        keep_alive: 10000,
    });
    binding.handle_server_input(info_command(), 0);
    binding
        .handle_client_input(
            ConnectionCommand::Subscribe {
                subject: "FOO.BAR".into(),
                options: SubscriptionOptions { max_msgs: None, queue_group: None },
            },
            0,
        )
        .unwrap();

    let mut codec = ServerCodec;
    let mut buf: Vec<u8> = b"MSG FOO.BAR 1 2\r\nhi\r\n".to_vec();
    let msg = codec.decode(&mut buf).unwrap().unwrap();
    let effects = binding.handle_server_input(msg, 1);
    assert_eq!(effects.len(), 1);
    match &effects[0] {
        Effect::Deliver(m) => {
            assert_eq!(m.subject, "FOO.BAR");
            assert_eq!(m.sid, "1");
            assert_eq!(m.payload, b"hi".to_vec());
        }
        other => panic!("expected delivery, got {:?}", other),
    }

    // A message for an unknown sid is dropped.
    let mut buf2: Vec<u8> = b"MSG FOO.BAR 99 2\r\nhi\r\n".to_vec();
    let msg2 = codec.decode(&mut buf2).unwrap().unwrap();
    assert_eq!(binding.handle_server_input(msg2, 2).len(), 0);
}

#[test]
fn server_error_is_surfaced_without_ending_the_session() {
    let mut binding = NatsBinding::new(Timeouts {
        ping_interval: 10000,
        pong_delay: 10000,
        keep_alive: 10000,
    });
    binding.handle_server_input(info_command(), 0);
    let effects = binding.handle_server_input(
        ServerCommand::Error("Unknown Protocol Operation".into()),
        1,
    );
    assert_eq!(effects.len(), 1);
    match &effects[0] {
        Effect::ServerFault(text) => assert_eq!(text, "Unknown Protocol Operation"),
        other => panic!("expected a surfaced server error, got {:?}", other),
    }
    assert!(matches!(binding.conn_state, ConnState::InfoReceived(_)));
}

#[test]
fn unsubscribe_removes_registration() {
    let mut binding = NatsBinding::new(Timeouts {
        ping_interval: 10000,
        pong_delay: 10000,
        keep_alive: 10000,
    });
    binding.handle_server_input(info_command(), 0);
    binding
        .handle_client_input(
            ConnectionCommand::Subscribe {
                subject: "X".into(),
                options: SubscriptionOptions { max_msgs: None, queue_group: None },
            },
            0,
        )
        .unwrap();
    binding.handle_client_input(
        ConnectionCommand::Unsubscribe { sid: "1".into(), max_msgs: None },
        1,
    );

    let mut codec = ServerCodec;
    let mut buf: Vec<u8> = b"MSG X 1 2\r\nhi\r\n".to_vec();
    let msg = codec.decode(&mut buf).unwrap().unwrap();
    assert_eq!(binding.handle_server_input(msg, 2).len(), 0);
}
