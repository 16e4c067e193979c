use lib2ra::client::{
    Admission, Client, ClientPool, Command, PipeAction, PipeError, PipeEvent, PipeStage, Relay,
    RelayError, RelayStep, Reply, RestartStep, RxAction, Service, TlsRequest,
};
use lib2ra::config::ClientConfig;
use lib2ra::gate::{Gate, GateStep};
use lib2ra::instance::Stats;
use lib2ra::message::{
    Address, ClientMessage, IntoMessage, MessageError, ServerMessage, SocketAddr,
};
use lib2ra::stream::{read_client_message, ReadStop};
use lib2ra::table::{ConnectionTable, SessionTable};

fn config() -> ClientConfig {
    ClientConfig {
        http_request: "POST / HTTP/1.0\r\n\r\n".to_string(),
        buffer_size: 1024,
        tx_sni: "tx.com".to_string(),
        rx_sni: "rx.com".to_string(),
        insecure_tls: true,
        inbound_addr: "127.0.0.1:8989".to_string(),
        outbound_addr: "127.0.0.1:9999".to_string(),
        separator: vec!['\r', '\n', '\r', '\n'],
        client_pool: 5,
        udp_bind_addr: "".to_string(),
    }
}

fn local() -> SocketAddr {
    SocketAddr::V4 {
        octets: [127, 0, 0, 1],
        port: 80,
    }
}

fn connect() -> PipeAction {
    PipeAction::Connect("127.0.0.1:9999".to_string())
}

fn handshake(sni: &str) -> PipeAction {
    PipeAction::Handshake(TlsRequest {
        sni: sni.to_string(),
        insecure: true,
    })
}

fn http_request() -> PipeAction {
    PipeAction::Send(b"POST / HTTP/1.0\r\n\r\n".to_vec())
}

fn created(uuid: &str) -> ServerMessage {
    ServerMessage::SessionCreated {
        uuid: uuid.to_string(),
    }
}

/// A client that has its pipes.
fn ready_client() -> Client {
    let mut client = Client::new(config());
    assert_eq!(client.enter(), Admission::Restart);
    let (mut stage, _) = client.restart();
    for event in [
        PipeEvent::Done,
        PipeEvent::Done,
        PipeEvent::Done,
        PipeEvent::Done,
        PipeEvent::Done,
        PipeEvent::Done,
        PipeEvent::Message(created("id")),
        PipeEvent::Done,
        PipeEvent::Done,
        PipeEvent::Done,
        PipeEvent::Done,
        PipeEvent::Done,
    ] {
        stage = client.advance_pipes(stage, event).0;
    }
    assert_eq!(stage, PipeStage::Ready);
    assert_eq!(client.restarted(true), RestartStep::Done);
    client
}

#[test]
fn connections_go_round_the_pool() {
    let mut pool = ClientPool::new(5);
    let picked: Vec<usize> = (0..12).map(|_| pool.pick()).collect();
    assert_eq!(picked, vec![0, 1, 2, 3, 4, 0, 1, 2, 3, 4, 0, 1]);
    let mut pool = ClientPool::new(1);
    assert_eq!((pool.pick(), pool.pick()), (0, 0));
}

#[test]
fn a_gate_passes_while_it_is_open() {
    let mut gate = Gate::new(true);
    assert_eq!(gate.wait_or_pass(), GateStep::Pass);
    gate.set_open(false);
    assert_eq!(gate.wait_or_pass(), GateStep::Wait);
    gate.set_open(true);
    assert_eq!(gate.wait_or_pass(), GateStep::Pass);
    assert_eq!(Gate::new(false).wait_or_pass(), GateStep::Wait);
}

#[test]
fn one_connection_makes_the_pipes() {
    let mut client = Client::new(config());
    assert_eq!(client.enter(), Admission::Restart);
    assert_eq!(client.enter(), Admission::Proceed);
    client.pipe_broken();
    assert_eq!(client.enter(), Admission::Restart);
    client.restart();
    assert_eq!(client.enter(), Admission::Wait);
    assert_eq!(client.enter(), Admission::Wait);
    assert!(client.killing);

    let mut client = ready_client();
    assert_eq!(client.enter(), Admission::Proceed);
    client.shut_down();
    assert_eq!(client.enter(), Admission::Wait);
}

#[test]
fn the_pipes_are_made_step_by_step() {
    let mut client = Client::new(config());
    let (stage, action) = client.restart();
    assert_eq!(action, PipeAction::Kill);
    assert!(!client.gate.is_open);
    let (stage, action) = client.advance_pipes(stage, PipeEvent::Done);
    assert_eq!(action, connect());
    let (stage, action) = client.advance_pipes(stage, PipeEvent::Done);
    assert_eq!(action, handshake("rx.com"));
    let (stage, action) = client.advance_pipes(stage, PipeEvent::Done);
    assert_eq!(action, http_request());
    let (stage, action) = client.advance_pipes(stage, PipeEvent::Done);
    assert_eq!(
        action,
        PipeAction::Send(vec![5, 0, 0, 0, 0, 0, 0, 0, 0, 0, 0, 0, 1])
    );
    let (stage, action) = client.advance_pipes(stage, PipeEvent::Done);
    assert_eq!(action, PipeAction::WaitForBody);
    let (stage, action) = client.advance_pipes(stage, PipeEvent::Done);
    assert_eq!(action, PipeAction::ReadMessage);
    assert!(client.killing);
    let (stage, action) = client.advance_pipes(stage, PipeEvent::Message(created("ab")));
    assert_eq!(action, PipeAction::StartReceiver);
    assert!(!client.killing);
    let (stage, action) = client.advance_pipes(stage, PipeEvent::Done);
    assert_eq!(action, connect());
    let (stage, action) = client.advance_pipes(stage, PipeEvent::Done);
    assert_eq!(action, handshake("tx.com"));
    let (stage, action) = client.advance_pipes(stage, PipeEvent::Done);
    assert_eq!(action, http_request());
    let (stage, action) = client.advance_pipes(stage, PipeEvent::Done);
    assert_eq!(
        action,
        PipeAction::Send(vec![
            14, 0, 0, 0, 0, 0, 0, 0, 1, 0, 0, 0, 2, 0, 0, 0, 0, 0, 0, 0, b'a', b'b'
        ])
    );
    let (stage, action) = client.advance_pipes(stage, PipeEvent::Done);
    assert_eq!(action, PipeAction::Install);
    assert_eq!(stage, PipeStage::Ready);
    assert!(!client.gate.is_open);
    assert_eq!(client.restarted(true), RestartStep::Done);
    assert!(client.gate.is_open);
    assert!(!client.killing);
}

#[test]
fn a_failed_attempt_is_repeated() {
    let mut client = Client::new(config());
    let (stage, _) = client.restart();
    let (stage, _) = client.advance_pipes(stage, PipeEvent::Done);
    let (stage, action) = client.advance_pipes(stage, PipeEvent::Failed);
    assert_eq!(stage, PipeStage::Failed);
    assert_eq!(action, PipeAction::GiveUp(PipeError::Failed));
    assert!(client.killing);
    assert_eq!(
        client.restarted(false),
        RestartStep::Retry { after_secs: 5 }
    );
    assert!(!client.gate.is_open);
    // What comes late changes nothing.
    let (stage, action) = client.advance_pipes(stage, PipeEvent::Done);
    assert_eq!((stage, action), (PipeStage::Failed, PipeAction::Nothing));
    let (stage, action) = client.recreate_pipes();
    assert_eq!((stage, action), (PipeStage::Killing, PipeAction::Kill));
}

#[test]
fn only_a_session_goes_on() {
    let mut client = Client::new(config());
    let (stage, action) =
        client.advance_pipes(PipeStage::RxSession, PipeEvent::Message(ServerMessage::Heartbeat));
    assert_eq!(stage, PipeStage::Failed);
    assert_eq!(
        action,
        PipeAction::GiveUp(PipeError::UnexpectedMessage(ServerMessage::Heartbeat))
    );
    assert!(client.killing);
    // An event out of turn changes nothing.
    let (stage, action) =
        client.advance_pipes(PipeStage::RxBody, PipeEvent::Message(created("early")));
    assert_eq!((stage, action), (PipeStage::RxBody, PipeAction::Nothing));
    assert!(client.killing);
}

#[test]
fn names_are_checked_once_connected() {
    for (sni, valid) in [
        ("rx.com", true),
        ("a.b-c.example", true),
        ("127.0.0.1", true),
        ("", false),
        ("not a name", false),
        ("https://rx.com/", false),
        ("rx..com", false),
    ] {
        let mut config = config();
        config.rx_sni = sni.to_string();
        let mut client = Client::new(config);
        let (stage, _) = client.restart();
        let (stage, action) = client.advance_pipes(stage, PipeEvent::Done);
        assert_eq!(action, connect());
        let (stage, action) = client.advance_pipes(stage, PipeEvent::Done);
        if valid {
            assert_eq!(action, handshake(sni));
        } else {
            assert_eq!(stage, PipeStage::Failed);
            assert_eq!(action, PipeAction::GiveUp(PipeError::InvalidName));
        }
    }

    // The other name counts for the other stream.
    let mut config = config();
    config.tx_sni = "not a name".to_string();
    let mut client = Client::new(config);
    let connecting = || PipeStage::TxConnecting {
        uuid: "id".to_string(),
    };
    let (stage, action) = client.advance_pipes(connecting(), PipeEvent::Done);
    assert_eq!(stage, PipeStage::Failed);
    assert_eq!(action, PipeAction::GiveUp(PipeError::InvalidName));
    let (_, action) = client.advance_pipes_as(connecting(), PipeEvent::Done, true);
    assert_eq!(action, handshake("not a name"));
    let (_, action) = client.advance_pipes_as(PipeStage::RxConnecting, PipeEvent::Done, false);
    assert_eq!(action, PipeAction::GiveUp(PipeError::InvalidName));
}

#[test]
fn data_is_delivered_by_identifier() {
    let mut client = ready_client();
    let mut table = ConnectionTable::new();
    table.insert(3, 30);
    let data = |id| ServerMessage::Data {
        id,
        data: vec![1, 2],
    };
    assert_eq!(
        client.receive(&table, data(3)),
        RxAction::Deliver {
            channel: 30,
            data: vec![1, 2]
        }
    );
    assert_eq!(
        client.receive(&table, data(4)),
        RxAction::NoListener { id: 4 }
    );
    assert_eq!(
        client.receive(&table, ServerMessage::ConnectionClosed { id: 3 }),
        RxAction::Unexpected(ServerMessage::ConnectionClosed { id: 3 })
    );
    client.pipe_broken();
    assert_eq!(client.receive(&table, data(3)), RxAction::Stop);
    assert_eq!(
        client.receive(&table, data(4)),
        RxAction::NoListener { id: 4 }
    );
}

#[test]
fn only_connect_is_served() {
    let mut client = ready_client();
    let mut stats = Stats::new();
    let mut table = ConnectionTable::new();
    for command in [Command::Associate, Command::Bind] {
        assert_eq!(
            client.serve(&mut stats, &mut table, command, 9),
            Ok(Service::Refuse(Reply::CommandNotSupported))
        );
    }
    assert_eq!(stats.client_handled_tcp_conn, 0);
    assert_eq!(client.next_conn_id, 0);
    assert_eq!(table.get(0), None);

    let served = client
        .serve(
            &mut stats,
            &mut table,
            Command::Connect(Address::SocketAddress(local())),
            9,
        )
        .unwrap();
    match served {
        Service::Open(new, reply) => {
            assert_eq!(reply, Reply::Succeeded);
            assert_eq!(new.id, 0);
            assert_eq!(new.replaced, None);
            assert_eq!(
                read_client_message(&new.request).unwrap().0,
                ClientMessage::NewConnectionWithIp {
                    addr: local(),
                    id: 0
                }
            );
        }
        other => panic!("{:?}", other),
    }
    assert_eq!(stats.client_handled_tcp_conn, 1);
    assert_eq!(stats.server_handled_tcp_conn, 0);
    assert_eq!(table.get(0), Some(9));
}

#[test]
fn a_name_is_left_to_the_server() {
    let mut client = ready_client();
    let mut table = ConnectionTable::new();
    client.next_conn_id = 7;
    let new = client
        .create_new_connection(
            &mut table,
            Address::DomainAddress("example.com".to_string(), 443),
            1,
        )
        .unwrap();
    assert_eq!(new.id, 7);
    assert_eq!(client.next_conn_id, 8);
    assert_eq!(
        new.request,
        ClientMessage::NewConnectionWithDomain {
            domain: "example.com".to_string(),
            port: 443,
            id: 7
        }
        .as_message()
        .unwrap()
    );
}

#[test]
fn identifiers_start_over() {
    let mut client = ready_client();
    let mut table = ConnectionTable::new();
    client.next_conn_id = usize::MAX;
    let mut open = |channel| {
        client
            .create_new_connection(&mut table, Address::SocketAddress(local()), channel)
            .unwrap()
    };
    assert_eq!(open(1).id, usize::MAX);
    assert_eq!(open(2).id, 0);
    let third = open(3);
    assert_eq!((third.id, third.replaced), (1, None));
    client.next_conn_id = 0;
    let again = client
        .create_new_connection(&mut table, Address::SocketAddress(local()), 4)
        .unwrap();
    assert_eq!((again.id, again.replaced), (0, Some(2)));
    assert_eq!(table.get(0), Some(4));
    assert_eq!(table.get(1), Some(3));
    assert_eq!(table.get(usize::MAX), Some(1));
}

#[test]
fn replies_reach_the_connection_that_asked() {
    let mut client = ready_client();
    let mut table = ConnectionTable::new();
    let ids: Vec<usize> = (0..500)
        .map(|channel| {
            client
                .create_new_connection(&mut table, Address::SocketAddress(local()), 1000 + channel)
                .unwrap()
                .id
        })
        .collect();
    for (k, id) in ids.iter().enumerate() {
        assert_eq!(
            client.receive(
                &table,
                ServerMessage::Data {
                    id: *id,
                    data: vec![k as u8]
                }
            ),
            RxAction::Deliver {
                channel: 1000 + k,
                data: vec![k as u8]
            }
        );
    }
}

#[test]
fn tables_keep_the_last_entry() {
    let mut table = SessionTable::new();
    for i in 0..1000usize {
        assert_eq!(table.insert(format!("session {i}"), i), None);
    }
    assert_eq!(table.insert("session 17".to_string(), 5), Some(17));
    for i in 0..1000usize {
        let expected = if i == 17 { 5 } else { i };
        assert_eq!(table.get(&format!("session {i}")), Some(expected));
    }
    assert_eq!(table.get(&"session".to_string()), None);

    let mut table = ConnectionTable::new();
    assert_eq!(table.insert(4, 40), None);
    assert_eq!(table.insert(4, 41), Some(40));
    assert_eq!(table.get(4), Some(41));
    assert_eq!(table.get(41), None);
}

#[test]
fn what_is_read_is_sent_on() {
    let client = ready_client();
    let relay = Relay::new(6);
    assert!(relay.reads_on());
    let buff = [1, 2, 3, 4];
    assert_eq!(relay.read(&client, &buff, 0), Ok(RelayStep::Stop));
    match relay.read(&client, &buff, 3).unwrap() {
        RelayStep::Send(bytes) => {
            assert_eq!(
                read_client_message(&bytes),
                Ok((
                    ClientMessage::Data {
                        id: 6,
                        data: vec![1, 2, 3]
                    },
                    31
                ))
            );
        }
        RelayStep::Stop => panic!("stopped"),
    }
}

#[test]
fn a_buffer_can_be_too_large() {
    let client = ready_client();
    let relay = Relay::new(0);
    let buff = vec![1; 99_981];
    let sent = |n| match relay.read(&client, &buff, n).unwrap() {
        RelayStep::Send(bytes) => bytes,
        RelayStep::Stop => panic!("stopped"),
    };
    assert!(read_client_message(&sent(99_980)).is_ok());
    assert_eq!(
        read_client_message(&sent(99_981)),
        Err(ReadStop::TooLong(100_001))
    );
}

#[test]
fn failures_have_words() {
    assert_eq!(PipeError::InvalidName.text(), "invalid dns name");
    assert_eq!(
        PipeError::UnexpectedMessage(ServerMessage::Heartbeat).text(),
        "unexpected message received"
    );
    assert_eq!(
        PipeError::Message(MessageError::Encode).text(),
        "failed to encode a message"
    );
    assert_eq!(PipeError::Failed.text(), "failed to connect, read or write");
    assert_eq!(
        RelayError::Killed.text(),
        "kill notification received while handling socks5 connection"
    );
}

#[test]
fn a_broken_relay_reads_no_more() {
    let mut relay = Relay::new(1);
    relay.wrote(true);
    assert!(relay.reads_on());
    assert_eq!(relay.ended(false), Ok(()));
    assert!(relay.reads_on());
    relay.wrote(false);
    assert!(!relay.reads_on());
    relay.wrote(true);
    assert!(!relay.reads_on());

    let mut relay = Relay::new(1);
    assert_eq!(relay.send_failed(), RelayStep::Stop);
    assert!(!relay.reads_on());

    let mut relay = Relay::new(1);
    assert_eq!(relay.ended(true), Err(RelayError::Killed));
    assert!(!relay.reads_on());
    assert_eq!(relay.id, 1);
}
