use lib2ra::config::ServerConfig;
use lib2ra::instance::Stats;
use lib2ra::message::{Address, ClientMessage, MessageError, ServerMessage, SocketAddr};
use lib2ra::server::{
    alpn_protocols, dial, looked_up, upstream_chunk, Action, Dial, Event, HandleError, Opening, Server, Stage,
};
use lib2ra::stream::{read_server_message, wait_for_body};

fn server() -> Server {
    Server::new(ServerConfig {
        http_response: "HTTP/1.0 200 OK\nServer: gws".to_string(),
        buffer_size: 1024,
        inbound_addr: "127.0.0.1:9999".to_string(),
        cert_pem_path: "./cert/cert.pem".to_string(),
        key_pem_path: "./cert/key.pem".to_string(),
        separator: vec!['\r', '\n', '\r', '\n'],
        udp_bind_addr: "".to_string(),
    }
    .prepared())
}

fn addr(port: u16) -> SocketAddr {
    SocketAddr::V4 {
        octets: [10, 0, 0, 1],
        port,
    }
}

fn init_tx(uuid: &str) -> Event {
    Event::Message(ClientMessage::InitTx {
        uuid: uuid.to_string(),
    })
}

fn init_rx() -> Event {
    Event::Message(ClientMessage::InitRx { new_session: true })
}

/// Makes the session `id`, whose client is behind this channel.
fn with_session(server: &mut Server, channel: usize) {
    let mut stats = Stats::new();
    server.handle_as(
        &mut stats,
        Stage::First,
        init_rx(),
        "id".to_string(),
        channel,
    );
}

/// A stream that the server receives on for the session `id`.
fn tx_stage(server: &mut Server, stats: &mut Stats) -> Stage {
    let (stage, action) = server.handle(stats, Stage::First, init_tx("id"), 0);
    assert_eq!(action, Action::ReadMessage);
    stage
}

#[test]
fn the_head_is_read_byte_by_byte() {
    let mut server = server();
    let mut stats = Stats::new();
    let (mut stage, action) = server.begin();
    assert_eq!(action, Action::ReadByte);
    let head = b"POST / HTTP/1.0\nHost: fronted-domain.com\r\n\r\n";
    for (i, b) in head.iter().enumerate() {
        let (next, action) = server.handle(&mut stats, stage, Event::Byte(*b), 0);
        if i + 1 < head.len() {
            assert_eq!(action, Action::ReadByte);
        } else {
            assert_eq!(action, Action::ReadMessage);
        }
        stage = next;
    }
    assert!(matches!(stage, Stage::First));
}

#[test]
fn a_session_is_greeted_by_its_identifier() {
    let mut server = server();
    let mut stats = Stats::new();
    let (stage, action) = server.handle(&mut stats, Stage::First, init_rx(), 12);
    assert!(matches!(stage, Stage::Rx));
    let Action::Greet { greeting, replaced } = action else {
        panic!("{:?}", action)
    };
    assert_eq!(replaced, None);
    let head = "HTTP/1.0 200 OK\nServer: gws\r\n\r\n";
    assert!(greeting.starts_with(head.as_bytes()));
    let separator = vec!['\r', '\n', '\r', '\n'];
    let body = wait_for_body(&separator, &greeting).unwrap();
    assert_eq!(body, head.len());
    let (message, used) = read_server_message(&greeting[body..]).unwrap();
    assert_eq!(body + used, greeting.len());
    let ServerMessage::SessionCreated { uuid } = message else {
        panic!("{:?}", message)
    };

    // A random UUID in its usual form.
    let groups: Vec<usize> = uuid.split('-').map(|g| g.len()).collect();
    assert_eq!(groups, vec![8, 4, 4, 4, 12]);
    assert!(uuid
        .chars()
        .all(|c| matches!(c, '0'..='9' | 'a'..='f' | '-')));
    assert_eq!(uuid.as_bytes()[14], b'4');
    assert!(matches!(uuid.as_bytes()[19], b'8' | b'9' | b'a' | b'b'));

    // The other stream finds the session.
    assert_eq!(server.send_to_client.get(&uuid), Some(12));
    let (stage, action) = server.handle(&mut stats, Stage::First, init_tx(&uuid), 3);
    assert_eq!(action, Action::ReadMessage);
    match stage {
        Stage::Tx { session, client } => {
            assert_eq!(session.uuid, uuid);
            assert_eq!(client, 12);
        }
        _ => panic!("not receiving"),
    }
}

#[test]
fn sessions_do_not_mix() {
    let mut server = server();
    for i in 0..100usize {
        let opened = server.open_as(
            ClientMessage::InitRx {
                new_session: i % 2 == 0,
            },
            format!("s{i}"),
            1000 + i,
        );
        match opened {
            Ok(Opening::Rx { uuid, .. }) => assert_eq!(uuid, format!("s{i}")),
            _ => panic!("not sending"),
        }
    }
    for i in 0..100usize {
        match server.open_as(
            ClientMessage::InitTx {
                uuid: format!("s{i}"),
            },
            "unused".to_string(),
            0,
        ) {
            Ok(Opening::Tx(session)) => {
                assert_eq!(session.client_channel(&server), Ok(1000 + i));
            }
            _ => panic!("not receiving"),
        }
    }
    assert_eq!(server.send_to_client.get(&"unused".to_string()), None);
}

#[test]
fn an_unknown_session_is_refused() {
    let mut server = server();
    let mut stats = Stats::new();
    let (stage, action) = server.handle(&mut stats, Stage::First, init_tx("nobody"), 0);
    assert!(matches!(stage, Stage::Over));
    assert_eq!(
        action,
        Action::Close(Some(HandleError::UnknownUuid("nobody".to_string())))
    );
}

#[test]
fn other_first_messages_are_refused() {
    let mut server = server();
    let mut stats = Stats::new();
    let (stage, action) = server.handle(
        &mut stats,
        Stage::First,
        Event::Message(ClientMessage::Heartbeat),
        0,
    );
    assert!(matches!(stage, Stage::Over));
    assert_eq!(
        action,
        Action::Close(Some(HandleError::InvalidFirstMessage(
            ClientMessage::Heartbeat
        )))
    );
}

#[test]
fn connections_are_opened_and_fed() {
    let mut server = server();
    let mut stats = Stats::new();
    with_session(&mut server, 5);
    let stage = tx_stage(&mut server, &mut stats);
    let (stage, action) = server.handle(
        &mut stats,
        stage,
        Event::Message(ClientMessage::NewConnectionWithIp {
            addr: addr(80),
            id: 1,
        }),
        21,
    );
    assert_eq!(
        action,
        Action::Connect {
            id: 1,
            target: Address::SocketAddress(addr(80)),
            client: 5,
            replaced: None
        }
    );
    let (stage, action) = server.handle(&mut stats, stage, Event::Done, 0);
    assert_eq!(action, Action::ReadMessage);
    let (stage, action) = server.handle(
        &mut stats,
        stage,
        Event::Message(ClientMessage::NewConnectionWithDomain {
            domain: "example.com".to_string(),
            port: 443,
            id: 2,
        }),
        22,
    );
    assert_eq!(
        action,
        Action::Connect {
            id: 2,
            target: Address::DomainAddress("example.com".to_string(), 443),
            client: 5,
            replaced: None
        }
    );
    assert_eq!(stats.server_handled_tcp_conn, 2);
    assert_eq!(stats.client_handled_tcp_conn, 0);
    let mut stage = server.handle(&mut stats, stage, Event::Done, 0).0;
    for (id, channel) in [(2, 22), (1, 21)] {
        let (next, action) = server.handle(
            &mut stats,
            stage,
            Event::Message(ClientMessage::Data {
                id,
                data: vec![id as u8],
            }),
            99,
        );
        assert_eq!(
            action,
            Action::Deliver {
                channel,
                data: vec![id as u8]
            }
        );
        stage = server.handle(&mut stats, next, Event::Done, 0).0;
    }
    // No connection of this identifier.
    let (stage, action) = server.handle(
        &mut stats,
        stage,
        Event::Message(ClientMessage::Data {
            id: 3,
            data: vec![],
        }),
        99,
    );
    assert_eq!(action, Action::Close(Some(HandleError::NoSender)));
    let (_, action) = server.handle(&mut stats, stage, Event::Done, 0);
    assert_eq!(action, Action::Nothing);
    assert_eq!(stats.server_handled_tcp_conn, 2);
}

#[test]
fn an_old_channel_is_cut_off() {
    let mut server = server();
    let mut stats = Stats::new();
    with_session(&mut server, 5);
    let mut stage = tx_stage(&mut server, &mut stats);
    for (channel, cut_off) in [(21, None), (22, Some(21)), (23, Some(22))] {
        let (next, action) = server.handle(
            &mut stats,
            stage,
            Event::Message(ClientMessage::NewConnectionWithIp {
                addr: addr(80),
                id: 1,
            }),
            channel,
        );
        assert_eq!(
            action,
            Action::Connect {
                id: 1,
                target: Address::SocketAddress(addr(80)),
                client: 5,
                replaced: cut_off
            }
        );
        stage = server.handle(&mut stats, next, Event::Done, 0).0;
    }

    let (_, action) = server.handle_as(
        &mut stats,
        Stage::First,
        init_rx(),
        "id".to_string(),
        6,
    );
    assert!(matches!(
        action,
        Action::Greet {
            replaced: Some(5),
            ..
        }
    ));
    assert_eq!(server.send_to_client.get(&"id".to_string()), Some(6));
}

#[test]
fn messages_without_a_place_are_refused() {
    for m in [
        ClientMessage::NewUdpSocket { id: 1 },
        ClientMessage::CloseConnection { id: 1 },
        ClientMessage::Heartbeat,
        ClientMessage::InitRx { new_session: true },
    ] {
        let mut server = server();
        let mut stats = Stats::new();
        with_session(&mut server, 5);
        let stage = tx_stage(&mut server, &mut stats);
        let text = format!("{:?}", m);
        let (stage, action) = server.handle(&mut stats, stage, Event::Message(m), 1);
        assert!(matches!(stage, Stage::Over));
        match action {
            Action::Close(Some(HandleError::UnexpectedMessage(m))) => {
                assert_eq!(format!("{:?}", m), text)
            }
            other => panic!("{:?}", other),
        }
        assert_eq!(stats.server_handled_tcp_conn, 0);
    }
}

#[test]
fn what_is_sent_to_the_client_is_framed() {
    let mut server = server();
    let mut stats = Stats::new();
    let (stage, action) = server.handle(&mut stats, Stage::Rx, Event::Done, 0);
    assert_eq!(action, Action::AwaitOutgoing);
    let data = || ServerMessage::Data {
        id: 1,
        data: vec![7, 8],
    };
    let (stage, action) = server.handle(&mut stats, stage, Event::Outgoing(data()), 0);
    match action {
        Action::Send(bytes) => assert_eq!(read_server_message(&bytes), Ok((data(), 30))),
        other => panic!("{:?}", other),
    }
    let (stage, action) = server.handle(&mut stats, stage, Event::Ended, 0);
    assert!(matches!(stage, Stage::Over));
    assert_eq!(action, Action::Close(None));
}

#[test]
fn a_failure_closes_the_stream() {
    let mut server = server();
    let mut stats = Stats::new();
    let begun = server.begin().0;
    for stage in [begun, Stage::First, Stage::Rx] {
        let (stage, action) = server.handle(&mut stats, stage, Event::Failed, 0);
        assert!(matches!(stage, Stage::Over));
        assert_eq!(action, Action::Close(Some(HandleError::Failed)));
    }
    let (stage, action) = server.handle(&mut stats, Stage::First, Event::Byte(1), 0);
    assert!(matches!(stage, Stage::First));
    assert_eq!(action, Action::Nothing);
}

#[test]
fn one_protocol_is_offered() {
    assert_eq!(alpn_protocols(), vec![b"http/1.0".to_vec()]);
}

#[test]
fn reasons_have_words() {
    let unknown = HandleError::UnknownUuid("nobody".to_string());
    assert_eq!(unknown.text(), "unknown uuid nobody");
    assert_eq!(HandleError::NoSender.text(), "no sender!");
    for (port, text) in [
        (0, "failed to lookup example.com:0"),
        (443, "failed to lookup example.com:443"),
        (65535, "failed to lookup example.com:65535"),
    ] {
        let failed = HandleError::LookupFailed("example.com".to_string(), port);
        assert_eq!(failed.text(), text);
    }
    assert_eq!(
        HandleError::InvalidFirstMessage(ClientMessage::Heartbeat).text(),
        "invalid first message"
    );
    assert_eq!(
        HandleError::UnexpectedMessage(ClientMessage::Heartbeat).text(),
        "unexpected message"
    );
    assert_eq!(
        HandleError::Message(MessageError::Encode).text(),
        "failed to encode a message"
    );
    assert_eq!(HandleError::Failed.text(), "failed to read or write");
}

#[test]
fn places_are_dialled() {
    assert_eq!(
        dial(&Address::SocketAddress(addr(1))),
        Dial::Connect(addr(1))
    );
    for (port, text) in [
        (0, "example.com:0"),
        (80, "example.com:80"),
        (8080, "example.com:8080"),
        (65535, "example.com:65535"),
    ] {
        assert_eq!(
            dial(&Address::DomainAddress("example.com".to_string(), port)),
            Dial::Lookup(text.to_string())
        );
    }
}

#[test]
fn the_first_address_is_taken() {
    let name = || "example.com".to_string();
    assert_eq!(
        looked_up(name(), 80, &vec![addr(2), addr(3)]),
        Ok(addr(2))
    );
    assert_eq!(
        looked_up(name(), 80, &vec![]),
        Err(HandleError::LookupFailed(name(), 80))
    );
}

#[test]
fn what_is_read_goes_to_the_client() {
    let buff = [1, 2, 3, 4];
    assert_eq!(upstream_chunk(9, &buff, 0), None);
    assert_eq!(
        upstream_chunk(9, &buff, 2),
        Some(ServerMessage::Data {
            id: 9,
            data: vec![1, 2]
        })
    );
}
