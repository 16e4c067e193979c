//! Both sides together, joined in memory.

use lib2ra::client::{
    Admission, Client, Command, PipeAction, PipeEvent, PipeStage, Relay, RelayStep, Reply,
    RestartStep, RxAction, Service,
};
use lib2ra::config::{ClientConfig, Config, ServerConfig};
use lib2ra::instance::{Instance, StartStep};
use lib2ra::message::{Address, ServerMessage, SocketAddr};
use lib2ra::server::{dial, upstream_chunk, Action, Dial, Event, Server, Stage};
use lib2ra::stream::{read_client_message, read_server_message, wait_for_body, ReadStop};
use lib2ra::table::ConnectionTable;

fn config() -> Config {
    let separator = vec!['\r', '\n', '\r', '\n'];
    Config {
        client: Some(ClientConfig {
            http_request: "
POST / HTTP/1.0
Host: fronted-domain.com
Content-Length: 99999999999999999
X-2ra-version: <VER>
"
            .to_string(),
            buffer_size: 1024,
            tx_sni: "tx.com".to_string(),
            rx_sni: "rx.com".to_string(),
            insecure_tls: true,
            inbound_addr: "127.0.0.1:8989".to_string(),
            outbound_addr: "127.0.0.1:9999".to_string(),
            separator: separator.clone(),
            client_pool: 5,
            udp_bind_addr: "".to_string(),
        }),
        server: Some(ServerConfig {
            http_response: "
HTTP/1.0 200 OK
Content-Type: text/html; charset=UTF-8
Server: gws
"
            .to_string(),
            buffer_size: 1024,
            inbound_addr: "127.0.0.1:9999".to_string(),
            cert_pem_path: "./cert/cert.pem".to_string(),
            key_pem_path: "./cert/key.pem".to_string(),
            separator,
            udp_bind_addr: "".to_string(),
        }),
    }
}

/// The place of an HTTP server that answers each `GET` request with a header.
fn mock_addr() -> SocketAddr {
    SocketAddr::V4 {
        octets: [127, 0, 0, 1],
        port: 5000,
    }
}

fn mock_answer(request: &[u8]) -> Vec<u8> {
    assert!(request.starts_with(b"GET / HTTP/1."));
    b"HTTP/1.1 200 OK\r\nx-2ra: Yes\r\ncontent-length: 0\r\n\r\n".to_vec()
}

/// One stream as the server sees it.
struct ServerStream {
    stage: Option<Stage>,
    pending: Action,
    input: Vec<u8>,
    output: Vec<u8>,
}

/// A relay whose streams are buffers.
struct Env {
    instance: Instance,
    client: Client,
    server: Server,
    streams: Vec<ServerStream>,
    table: ConnectionTable,
    /// What came for the client, connection by connection.
    inboxes: Vec<Vec<u8>>,
    /// How much of the server's output the client has read.
    seen: usize,
}

impl Env {
    fn new() -> Env {
        let instance = Instance::new(config());
        let (mut server, mut client) = (None, None);
        for step in instance.start() {
            match step {
                StartStep::SpawnServer(c) => server = Some(Server::new(c)),
                StartStep::Pause { .. } => {}
                StartStep::SpawnClient(c) => client = Some(Client::new(c)),
            }
        }
        Env {
            instance,
            client: client.unwrap(),
            server: server.unwrap(),
            streams: vec![],
            table: ConnectionTable::new(),
            inboxes: vec![],
            seen: 0,
        }
    }

    fn connect(&mut self) {
        let (stage, pending) = self.server.begin();
        self.streams.push(ServerStream {
            stage: Some(stage),
            pending,
            input: vec![],
            output: vec![],
        });
    }

    /// Lets the server go on with a stream until it waits for something.
    fn run(&mut self, k: usize) {
        loop {
            let stream = &mut self.streams[k];
            let mut answer = None;
            let event = match &stream.pending {
                Action::ReadByte => {
                    if stream.input.is_empty() {
                        return;
                    }
                    Event::Byte(stream.input.remove(0))
                }
                Action::ReadMessage => match read_client_message(&stream.input) {
                    Ok((m, used)) => {
                        stream.input.drain(..used);
                        Event::Message(m)
                    }
                    Err(ReadStop::NeedMore(_)) => return,
                    Err(_) => Event::Failed,
                },
                Action::Send(bytes)
                | Action::Greet {
                    greeting: bytes,
                    replaced: None,
                } => {
                    stream.output.extend(bytes);
                    Event::Done
                }
                Action::Connect { target, .. } => {
                    assert_eq!(dial(target), Dial::Connect(mock_addr()));
                    Event::Done
                }
                Action::Deliver { channel, data } => {
                    answer = Some((*channel, mock_answer(data)));
                    Event::Done
                }
                Action::AwaitOutgoing => return,
                other => panic!("{:?}", other),
            };
            // A connection's channel bears the number of the connection.
            let channel = match &event {
                Event::Message(_) => self.inboxes.len().saturating_sub(1),
                _ => 0,
            };
            let stage = stream.stage.take().unwrap();
            let (stage, pending) =
                self.server
                    .handle(&mut self.instance.stats, stage, event, channel);
            stream.stage = Some(stage);
            stream.pending = pending;
            if let Some((id, bytes)) = answer {
                let m = upstream_chunk(id, &bytes, bytes.len()).unwrap();
                self.outgoing(m);
            }
        }
    }

    /// Lets a message out on the stream that the server sends on.
    fn outgoing(&mut self, m: ServerMessage) {
        let stream = &mut self.streams[0];
        assert_eq!(stream.pending, Action::AwaitOutgoing);
        let stage = stream.stage.take().unwrap();
        let (stage, pending) =
            self.server
                .handle(&mut self.instance.stats, stage, Event::Outgoing(m), 0);
        stream.stage = Some(stage);
        stream.pending = pending;
        self.run(0);
    }

    fn write(&mut self, k: usize, bytes: &[u8]) {
        self.streams[k].input.extend(bytes);
        self.run(k);
    }

    fn make_pipes(&mut self) {
        let (mut stage, mut action) = self.client.restart();
        loop {
            let event = match action {
                PipeAction::Kill | PipeAction::StartReceiver => PipeEvent::Done,
                PipeAction::Connect(server) => {
                    assert_eq!(server, "127.0.0.1:9999");
                    self.connect();
                    PipeEvent::Done
                }
                PipeAction::Handshake(request) => {
                    let names = ["rx.com", "tx.com"];
                    assert_eq!(request.sni, names[self.streams.len() - 1]);
                    assert!(request.insecure);
                    PipeEvent::Done
                }
                PipeAction::Send(bytes) => {
                    let k = self.streams.len() - 1;
                    self.write(k, &bytes);
                    PipeEvent::Done
                }
                PipeAction::WaitForBody => {
                    let separator = &self.client.config.separator;
                    self.seen = wait_for_body(separator, &self.streams[0].output).unwrap();
                    PipeEvent::Done
                }
                PipeAction::ReadMessage => {
                    let (m, used) =
                        read_server_message(&self.streams[0].output[self.seen..]).unwrap();
                    self.seen += used;
                    PipeEvent::Message(m)
                }
                PipeAction::Install => break,
                other => panic!("{:?}", other),
            };
            let (next, then) = self.client.advance_pipes(stage, event);
            stage = next;
            action = then;
        }
        assert_eq!(stage, PipeStage::Ready);
        assert_eq!(self.client.restarted(true), RestartStep::Done);
    }

    /// A SOCKS connection to the mock server.
    fn open(&mut self) -> Relay {
        match self.client.enter() {
            Admission::Restart => self.make_pipes(),
            Admission::Proceed => {}
            Admission::Wait => panic!("held back"),
        }
        let channel = self.inboxes.len();
        self.inboxes.push(vec![]);
        let command = Command::Connect(Address::SocketAddress(mock_addr()));
        let stats = &mut self.instance.stats;
        match self
            .client
            .serve(stats, &mut self.table, command, channel)
            .unwrap()
        {
            Service::Open(new, Reply::Succeeded) => {
                self.write(1, &new.request);
                Relay::new(new.id)
            }
            other => panic!("{:?}", other),
        }
    }

    fn send(&mut self, relay: &Relay, data: &[u8]) {
        match relay.read(&self.client, data, data.len()).unwrap() {
            RelayStep::Send(bytes) => self.write(1, &bytes),
            RelayStep::Stop => panic!("stopped"),
        }
    }

    /// Lets the client take in all that was sent to it.
    fn receive(&mut self) {
        while let Ok((m, used)) = read_server_message(&self.streams[0].output[self.seen..]) {
            self.seen += used;
            match self.client.receive(&self.table, m) {
                RxAction::Deliver { channel, data } => self.inboxes[channel].extend(data),
                other => panic!("{:?}", other),
            }
        }
        assert_eq!(self.seen, self.streams[0].output.len());
    }
}

#[test]
fn test_simple_http_client() {
    let mut env = Env::new();
    assert_eq!(env.instance.stats.client_handled_tcp_conn, 0);
    assert_eq!(env.instance.stats.server_handled_tcp_conn, 0);
    let relay = env.open();
    env.send(&relay, b"GET / HTTP/1.1\r\nhost: 127.0.0.1:5000\r\n\r\n");
    env.receive();
    let response = String::from_utf8(env.inboxes[0].clone()).unwrap();
    let header = response
        .lines()
        .filter_map(|l| l.split_once(": "))
        .find(|(name, _)| name.eq_ignore_ascii_case("X-2ra"))
        .unwrap();
    assert_eq!(header.1, "Yes");

    assert_ne!(env.instance.stats.client_handled_tcp_conn, 0);
    assert_ne!(env.instance.stats.server_handled_tcp_conn, 0);
}

#[test]
fn test_simple_tcp() {
    let mut env = Env::new();
    let relay = env.open();
    env.send(
        &relay,
        b"GET / HTTP/1.0
Host: fronted-domain.com
\r\n\r\n\r\n\r\n",
    );
    env.receive();
    let mut buff = [0u8; 1024 * 64];
    let n = env.inboxes[0].len();
    buff[..n].copy_from_slice(&env.inboxes[0]);
    let data = &buff[..n];
    let chunk = std::str::from_utf8(data).unwrap();
    assert!(chunk.contains("x-2ra: Yes"));
    assert!(chunk.ends_with("\r\n"));
}

#[test]
fn connections_share_the_pipes() {
    let mut env = Env::new();
    let first = env.open();
    let second = env.open();
    assert_eq!((first.id, second.id), (0, 1));
    env.send(&second, b"GET / HTTP/1.0\r\n\r\n");
    env.receive();
    assert!(env.inboxes[0].is_empty());
    assert!(!env.inboxes[1].is_empty());
    env.send(&first, b"GET / HTTP/1.0\r\n\r\n");
    env.receive();
    assert_eq!(env.inboxes[0], env.inboxes[1]);
    assert_eq!(env.streams.len(), 2);
    assert_eq!(env.instance.stats.client_handled_tcp_conn, 2);
    assert_eq!(env.instance.stats.server_handled_tcp_conn, 2);
}
