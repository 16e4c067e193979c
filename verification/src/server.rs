//! The server's side.
//!
//! A client opens two streams. On one the server sends (`InitRx`), on the other
//! it receives (`InitTx`); a session identifier ties them together. What comes in
//! on the second stream opens connections and carries their data.

use vstd::prelude::*;
use vstd::slice::{slice_subrange, slice_to_vec};
use vstd::utf8::{encode_utf8, is_ascii_chars_encode_utf8};

use crate::config::{blank_line, ends_early, http_head, law_head_is_read_whole, ServerConfig};
use crate::instance::{counted, Stats};
use crate::message::{
    decode_server, frame, law_data_message_len, server_bytes, Address, AddressView, ClientMessage,
    ClientMessageView, IntoMessage, MessageError, ServerMessage, ServerMessageView, SocketAddr,
};
use crate::stream::{
    body_start, law_server_frame_round_trip, match_step, read_frame, BodyWait, FrameView,
    HEADER_LEN,
};
use crate::table::{ConnectionTable, SessionTable};
use crate::text::{host_and_port, host_port};
use crate::wire::lemma_le_bytes_len;

verus! {

// ---------------------------------------------------------------------------
// Sessions
// ---------------------------------------------------------------------------

pub open spec fn is_lower_hex(c: char) -> bool {
    '0' <= c <= '9' || 'a' <= c <= 'f'
}

/// The text of a random (version 4) UUID: lower-case digits in groups of 8, 4, 4,
/// 4 and 12, of which the thirteenth is the version and the seventeenth begins
/// with the variant's bits.
pub open spec fn is_random_uuid(s: Seq<char>) -> bool {
    &&& s.len() == 36
    &&& forall|i: int|
        0 <= i < 36 ==> if i == 8 || i == 13 || i == 18 || i == 23 {
            #[trigger] s[i] == '-'
        } else {
            is_lower_hex(s[i])
        }
    &&& s[14] == '4'
    &&& s[19] == '8' || s[19] == '9' || s[19] == 'a' || s[19] == 'b'
}

/// `uuid::Uuid::new_v4` and its `to_string`. The identifier is random: only its
/// form is stated, not that it is new. It panics where the system gives no random
/// bytes.
#[verifier::external_body]
fn new_uuid() -> (r: String)
    ensures
        is_random_uuid(r@),
{
    uuid::Uuid::new_v4().to_string()
}

/// Why a stream is given up.
#[derive(Debug, PartialEq, Eq)]
pub enum HandleError {
    /// The first message opens neither direction.
    InvalidFirstMessage(ClientMessage),
    /// There is no session of this identifier.
    UnknownUuid(String),
    /// Data came for a connection that was never opened.
    NoSender,
    /// This message has no place on a stream that the server receives on.
    UnexpectedMessage(ClientMessage),
    /// The name has no address.
    LookupFailed(String, u16),
    /// A message could not be encoded.
    Message(MessageError),
    /// Reading or writing failed.
    Failed,
}

impl HandleError {
    /// The reason in words. A message that it is about is not part of the text.
    pub fn text(&self) -> (r: String)
        ensures
            match *self {
                HandleError::InvalidFirstMessage(_) => r@ == "invalid first message"@,
                HandleError::UnknownUuid(uuid) => r@ == "unknown uuid "@ + uuid@,
                HandleError::NoSender => r@ == "no sender!"@,
                HandleError::UnexpectedMessage(_) => r@ == "unexpected message"@,
                HandleError::LookupFailed(domain, port) => r@ == "failed to lookup "@ + host_port(
                    domain@,
                    port,
                ),
                HandleError::Message(_) => r@ == "failed to encode a message"@,
                HandleError::Failed => r@ == "failed to read or write"@,
            },
    {
        match self {
            HandleError::InvalidFirstMessage(_) => "invalid first message".to_owned(),
            HandleError::UnknownUuid(uuid) => {
                let mut text = "unknown uuid ".to_owned();
                text.append(uuid.as_str());
                text
            },
            HandleError::NoSender => "no sender!".to_owned(),
            HandleError::UnexpectedMessage(_) => "unexpected message".to_owned(),
            HandleError::LookupFailed(domain, port) => {
                let mut text = "failed to lookup ".to_owned();
                text.append(host_and_port(domain, *port).as_str());
                text
            },
            HandleError::Message(_) => "failed to encode a message".to_owned(),
            HandleError::Failed => "failed to read or write".to_owned(),
        }
    }
}

/// What all streams of a server share.
pub struct Server {
    pub send_to_client: SessionTable,
    pub config: ServerConfig,
}

/// A stream on which the server receives.
pub struct TxSession {
    pub uuid: String,
    pub connection_senders: ConnectionTable,
}

/// What a stream becomes after its first message.
pub enum Opening {
    /// Send the greeting, then whatever comes out of the session's channel. If the
    /// identifier was in use, its old channel is cut off.
    Rx { uuid: String, greeting: Vec<u8>, replaced: Option<usize> },
    /// Receive.
    Tx(TxSession),
}

/// What to do with a message that was received.
#[derive(Debug, PartialEq, Eq)]
pub enum TxAction {
    /// Connect to this place and serve the connection from its channel. If the
    /// identifier was in use, its old channel is cut off.
    Connect { id: usize, target: Address, replaced: Option<usize> },
    /// Hand the data to this channel.
    Deliver { channel: usize, data: Vec<u8> },
}

/// The first bytes that the server sends: the HTTP response, then the message
/// that names the session.
pub open spec fn rx_greeting(http_response: Seq<char>, uuid: Seq<char>) -> Seq<u8> {
    encode_utf8(http_response) + frame(server_bytes(ServerMessageView::SessionCreated { uuid }))
}

/// The sessions after a stream's first message.
pub open spec fn sessions_step(
    before: Map<Seq<char>, usize>,
    init: ClientMessageView,
    uuid: Seq<char>,
    channel: usize,
) -> Map<Seq<char>, usize> {
    match init {
        ClientMessageView::InitRx { .. } => before.insert(uuid, channel),
        _ => before,
    }
}

/// The connection that a message asks for.
pub open spec fn opens(m: ClientMessageView) -> Option<usize> {
    match m {
        ClientMessageView::NewConnectionWithIp { id, .. } => Some(id),
        ClientMessageView::NewConnectionWithDomain { id, .. } => Some(id),
        _ => None,
    }
}

/// The connections after a message was received.
pub open spec fn senders_step(
    before: Map<usize, usize>,
    m: ClientMessageView,
    channel: usize,
) -> Map<usize, usize> {
    match opens(m) {
        Some(id) => before.insert(id, channel),
        None => before,
    }
}

impl Server {
    /// No session yet.
    pub fn new(config: ServerConfig) -> (r: Server)
        ensures
            r.config == config,
            r.send_to_client@ == Map::<Seq<char>, usize>::empty(),
    {
        Server { send_to_client: SessionTable::new(), config }
    }

    /// Takes the first message of a stream. `InitRx` makes a session of this
    /// identifier, whose messages come out of this channel.
    pub fn open_as(&mut self, init: ClientMessage, uuid: String, channel: usize) -> (r: Result<
        Opening,
        HandleError,
    >)
        ensures
            final(self).config == old(self).config,
            final(self).send_to_client@ == sessions_step(
                old(self).send_to_client@,
                init@,
                uuid@,
                channel,
            ),
            match init {
                ClientMessage::InitRx { .. } => r matches Ok(
                    Opening::Rx { uuid: named, greeting, replaced },
                ) && named == uuid && greeting@ == rx_greeting(
                    old(self).config.http_response@,
                    uuid@,
                ) && replaced == old(self).send_to_client@.get(uuid@),
                ClientMessage::InitTx { uuid: wanted } => r matches Ok(Opening::Tx(session))
                    && session.uuid == wanted && session.connection_senders@ == Map::<
                    usize,
                    usize,
                >::empty(),
                _ => r matches Err(HandleError::InvalidFirstMessage(m)) && m == init,
            },
    {
        match init {
            ClientMessage::InitRx { .. } => {
                let mut greeting = slice_to_vec(self.config.http_response.as_str().as_bytes());
                let created = ServerMessage::SessionCreated { uuid: uuid.clone() };
                match created.as_message() {
                    Ok(message) => {
                        let mut message = message;
                        greeting.append(&mut message);
                    },
                    Err(e) => {
                        return Err(HandleError::Message(e));
                    },
                }
                let replaced = self.send_to_client.insert(uuid.clone(), channel);
                Ok(Opening::Rx { uuid, greeting, replaced })
            },
            ClientMessage::InitTx { uuid: wanted } => Ok(
                Opening::Tx(
                    TxSession { uuid: wanted, connection_senders: ConnectionTable::new() },
                ),
            ),
            other => Err(HandleError::InvalidFirstMessage(other)),
        }
    }
}

impl TxSession {
    /// The channel to the client of this session. It is asked for before each
    /// message: without it the stream is given up.
    pub fn client_channel(&self, server: &Server) -> (r: Result<usize, HandleError>)
        ensures
            match server.send_to_client@.get(self.uuid@) {
                Some(channel) => r == Ok::<usize, HandleError>(channel),
                None => r matches Err(HandleError::UnknownUuid(uuid)) && uuid == self.uuid,
            },
    {
        match server.send_to_client.get(&self.uuid) {
            Some(channel) => Ok(channel),
            None => Err(HandleError::UnknownUuid(self.uuid.clone())),
        }
    }

    /// Takes a message. A request for a connection is counted, and data for it
    /// goes to this channel from then on.
    pub fn receive(&mut self, stats: &mut Stats, msg: ClientMessage, channel: usize) -> (r: Result<
        TxAction,
        HandleError,
    >)
        ensures
            final(self).uuid == old(self).uuid,
            final(self).connection_senders@ == senders_step(
                old(self).connection_senders@,
                msg@,
                channel,
            ),
            final(stats).server_handled_tcp_conn == if opens(msg@) is Some {
                counted(old(stats).server_handled_tcp_conn)
            } else {
                old(stats).server_handled_tcp_conn
            },
            final(stats).client_handled_tcp_conn == old(stats).client_handled_tcp_conn,
            match msg {
                ClientMessage::NewConnectionWithDomain { domain, port, id } => r matches Ok(
                    TxAction::Connect { id: opened, target, replaced },
                ) && opened == id && target == Address::DomainAddress(domain, port) && replaced
                    == old(self).connection_senders@.get(id),
                ClientMessage::NewConnectionWithIp { addr, id } => r matches Ok(
                    TxAction::Connect { id: opened, target, replaced },
                ) && opened == id && target == Address::SocketAddress(addr) && replaced == old(
                    self,
                ).connection_senders@.get(id),
                ClientMessage::Data { id, data } => match old(self).connection_senders@.get(id) {
                    Some(to) => r matches Ok(TxAction::Deliver { channel: c, data: d }) && c == to
                        && d == data,
                    None => r == Err::<TxAction, HandleError>(HandleError::NoSender),
                },
                _ => r matches Err(HandleError::UnexpectedMessage(m)) && m == msg,
            },
    {
        match msg {
            ClientMessage::NewConnectionWithDomain { domain, port, id } => {
                stats.count_server_conn();
                let replaced = self.connection_senders.insert(id, channel);
                Ok(TxAction::Connect { id, target: Address::DomainAddress(domain, port), replaced })
            },
            ClientMessage::NewConnectionWithIp { addr, id } => {
                stats.count_server_conn();
                let replaced = self.connection_senders.insert(id, channel);
                Ok(TxAction::Connect { id, target: Address::SocketAddress(addr), replaced })
            },
            ClientMessage::Data { id, data } => match self.connection_senders.get(id) {
                Some(to) => Ok(TxAction::Deliver { channel: to, data }),
                None => Err(HandleError::NoSender),
            },
            other => Err(HandleError::UnexpectedMessage(other)),
        }
    }
}

/// The application protocols that the server offers in the TLS handshake.
pub fn alpn_protocols() -> (r: Vec<Vec<u8>>)
    ensures
        r@.len() == 1,
        r@[0]@ == encode_utf8("http/1.0"@),
{
    let mut protocols: Vec<Vec<u8>> = Vec::new();
    protocols.push(slice_to_vec("http/1.0".as_bytes()));
    protocols
}

// ---------------------------------------------------------------------------
// Connections
// ---------------------------------------------------------------------------

/// How many bytes are read from a connection at once.
pub const UPSTREAM_BUFFER: usize = 1024;

/// The first step to a connection.
#[derive(Debug, PartialEq, Eq)]
pub enum Dial {
    /// Look this up and go on with what is found.
    Lookup(String),
    /// Connect.
    Connect(SocketAddr),
}

/// How to get to a place: an address is connected to as it is, a name is looked
/// up together with its port.
pub fn dial(target: &Address) -> (r: Dial)
    ensures
        match *target {
            Address::SocketAddress(addr) => r == Dial::Connect(addr),
            Address::DomainAddress(domain, port) => r matches Dial::Lookup(query) && query@
                == host_port(domain@, port),
        },
{
    match target {
        Address::SocketAddress(addr) => Dial::Connect(*addr),
        Address::DomainAddress(domain, port) => Dial::Lookup(host_and_port(domain, *port)),
    }
}

/// Of the addresses of a name the first is taken.
pub fn looked_up(domain: String, port: u16, found: &Vec<SocketAddr>) -> (r: Result<
    SocketAddr,
    HandleError,
>)
    ensures
        if found@.len() > 0 {
            r == Ok::<SocketAddr, HandleError>(found@[0])
        } else {
            r == Err::<SocketAddr, HandleError>(HandleError::LookupFailed(domain, port))
        },
{
    if found.len() > 0 {
        Ok(found[0])
    } else {
        Err(HandleError::LookupFailed(domain, port))
    }
}

/// What is sent to the client of the `n` bytes that were read from a connection.
/// Nothing was read at its end: then nothing is sent and reading stops.
pub fn upstream_chunk(id: usize, buff: &[u8], n: usize) -> (r: Option<ServerMessage>)
    requires
        n <= buff@.len(),
    ensures
        if n == 0 {
            r is None
        } else {
            r matches Some(m) && m@ == (ServerMessageView::Data { id, data: buff@.take(n as int) })
        },
{
    if n == 0 {
        None
    } else {
        let data = slice_to_vec(slice_subrange(buff, 0, n));
        assert(data@ =~= buff@.take(n as int));
        Some(ServerMessage::Data { id, data })
    }
}

// ---------------------------------------------------------------------------
// Handling a stream
// ---------------------------------------------------------------------------

/// How far a stream is.
pub enum Stage {
    /// The HTTP request is read.
    Head(BodyWait),
    /// The first message is read.
    First,
    /// The server sends.
    Rx,
    /// The server receives; this channel leads to the client.
    Tx { session: TxSession, client: usize },
    /// The stream is done with.
    Over,
}

/// What came of the last action.
#[derive(Debug, PartialEq, Eq)]
pub enum Event {
    /// A byte was read.
    Byte(u8),
    /// A message was read.
    Message(ClientMessage),
    /// This came out of the session's channel.
    Outgoing(ServerMessage),
    /// The session's channel is closed, or the relay shuts down.
    Ended,
    /// It is done.
    Done,
    /// It failed.
    Failed,
}

/// What is to be done next.
#[derive(Debug, PartialEq, Eq)]
pub enum Action {
    ReadByte,
    ReadMessage,
    /// Send these bytes.
    Send(Vec<u8>),
    /// Send these bytes, the first on a stream that the server sends on; close this
    /// channel, which the session had before.
    Greet { greeting: Vec<u8>, replaced: Option<usize> },
    /// Wait for what comes out of the session's channel.
    AwaitOutgoing,
    /// Connect to the target; hand the data that comes from there to the client's
    /// channel. Close this channel, which the connection's identifier had before.
    Connect { id: usize, target: Address, client: usize, replaced: Option<usize> },
    /// Hand the data to this channel.
    Deliver { channel: usize, data: Vec<u8> },
    /// Close the stream, for this reason if there is one.
    Close(Option<HandleError>),
    /// Nothing: the event does not belong to this stage.
    Nothing,
}

/// A [`HandleError`], mathematically.
#[verifier::ext_equal]
pub enum HandleErrorView {
    InvalidFirstMessage(ClientMessageView),
    UnknownUuid(Seq<char>),
    NoSender,
    UnexpectedMessage(ClientMessageView),
    LookupFailed(Seq<char>, u16),
    Message(MessageError),
    Failed,
}

/// A [`Stage`], mathematically.
#[verifier::ext_equal]
pub enum StageView {
    Head { target: Seq<char>, matched: nat },
    First,
    Rx,
    Tx { uuid: Seq<char>, senders: Map<usize, usize>, client: usize },
    Over,
}

/// An [`Event`], mathematically.
#[verifier::ext_equal]
pub enum EventView {
    Byte(u8),
    Message(ClientMessageView),
    Outgoing(ServerMessageView),
    Ended,
    Done,
    Failed,
}

/// An [`Action`], mathematically.
#[verifier::ext_equal]
pub enum ActionView {
    ReadByte,
    ReadMessage,
    Send(Seq<u8>),
    Greet { greeting: Seq<u8>, replaced: Option<usize> },
    AwaitOutgoing,
    Connect { id: usize, target: AddressView, client: usize, replaced: Option<usize> },
    Deliver { channel: usize, data: Seq<u8> },
    Close(Option<HandleErrorView>),
    Nothing,
}

impl View for HandleError {
    type V = HandleErrorView;

    open spec fn view(&self) -> HandleErrorView {
        match *self {
            HandleError::InvalidFirstMessage(m) => HandleErrorView::InvalidFirstMessage(m@),
            HandleError::UnknownUuid(uuid) => HandleErrorView::UnknownUuid(uuid@),
            HandleError::NoSender => HandleErrorView::NoSender,
            HandleError::UnexpectedMessage(m) => HandleErrorView::UnexpectedMessage(m@),
            HandleError::LookupFailed(domain, port) => HandleErrorView::LookupFailed(
                domain@,
                port,
            ),
            HandleError::Message(e) => HandleErrorView::Message(e),
            HandleError::Failed => HandleErrorView::Failed,
        }
    }
}

impl View for Stage {
    type V = StageView;

    open spec fn view(&self) -> StageView {
        match *self {
            Stage::Head(wait) => StageView::Head {
                target: wait.target@,
                matched: wait.matched_idx as nat,
            },
            Stage::First => StageView::First,
            Stage::Rx => StageView::Rx,
            Stage::Tx { session, client } => StageView::Tx {
                uuid: session.uuid@,
                senders: session.connection_senders@,
                client,
            },
            Stage::Over => StageView::Over,
        }
    }
}

impl View for Event {
    type V = EventView;

    open spec fn view(&self) -> EventView {
        match *self {
            Event::Byte(b) => EventView::Byte(b),
            Event::Message(m) => EventView::Message(m@),
            Event::Outgoing(m) => EventView::Outgoing(m@),
            Event::Ended => EventView::Ended,
            Event::Done => EventView::Done,
            Event::Failed => EventView::Failed,
        }
    }
}

impl View for Action {
    type V = ActionView;

    open spec fn view(&self) -> ActionView {
        match *self {
            Action::ReadByte => ActionView::ReadByte,
            Action::ReadMessage => ActionView::ReadMessage,
            Action::Send(bytes) => ActionView::Send(bytes@),
            Action::AwaitOutgoing => ActionView::AwaitOutgoing,
            Action::Greet { greeting, replaced } => ActionView::Greet {
                greeting: greeting@,
                replaced,
            },
            Action::Connect { id, target, client, replaced } => ActionView::Connect {
                id,
                target: target@,
                client,
                replaced,
            },
            Action::Deliver { channel, data } => ActionView::Deliver { channel, data: data@ },
            Action::Close(Some(e)) => ActionView::Close(Some(e@)),
            Action::Close(None) => ActionView::Close(None),
            Action::Nothing => ActionView::Nothing,
        }
    }
}

impl Stage {
    /// A separator that is waited for is not matched yet.
    pub open spec fn well_formed(self) -> bool {
        match self {
            Stage::Head(wait) => wait.well_formed(),
            _ => true,
        }
    }
}

/// Before each message that it receives the server looks for the session; without
/// one it closes the stream.
pub open spec fn await_message(
    sessions: Map<Seq<char>, usize>,
    uuid: Seq<char>,
    senders: Map<usize, usize>,
) -> (StageView, ActionView) {
    match sessions.get(uuid) {
        Some(client) => (StageView::Tx { uuid, senders, client }, ActionView::ReadMessage),
        None => close(HandleErrorView::UnknownUuid(uuid)),
    }
}

pub open spec fn close(e: HandleErrorView) -> (StageView, ActionView) {
    (StageView::Over, ActionView::Close(Some(e)))
}

/// What a stream becomes after its first message.
pub open spec fn open_step(
    sessions: Map<Seq<char>, usize>,
    http_response: Seq<char>,
    init: ClientMessageView,
    uuid: Seq<char>,
) -> (StageView, ActionView) {
    match init {
        ClientMessageView::InitRx { .. } => (
            StageView::Rx,
            ActionView::Greet {
                greeting: rx_greeting(http_response, uuid),
                replaced: sessions.get(uuid),
            },
        ),
        ClientMessageView::InitTx { uuid: wanted } => await_message(
            sessions,
            wanted,
            Map::empty(),
        ),
        _ => close(HandleErrorView::InvalidFirstMessage(init)),
    }
}

/// What becomes of a message that the server receives.
pub open spec fn receive_step(
    uuid: Seq<char>,
    senders: Map<usize, usize>,
    client: usize,
    msg: ClientMessageView,
    channel: usize,
) -> (StageView, ActionView) {
    let next = StageView::Tx { uuid, senders: senders_step(senders, msg, channel), client };
    let connect = |id: usize, target: AddressView|
        ActionView::Connect { id, target, client, replaced: senders.get(id) };
    match msg {
        ClientMessageView::NewConnectionWithIp { addr, id } => (
            next,
            connect(id, AddressView::SocketAddress(addr)),
        ),
        ClientMessageView::NewConnectionWithDomain { domain, port, id } => (
            next,
            connect(id, AddressView::DomainAddress(domain, port)),
        ),
        ClientMessageView::Data { id, data } => match senders.get(id) {
            Some(to) => (next, ActionView::Deliver { channel: to, data }),
            None => close(HandleErrorView::NoSender),
        },
        _ => close(HandleErrorView::UnexpectedMessage(msg)),
    }
}

/// The next stage of a stream, and what is to be done in it. A session that is
/// made now gets this identifier, and it or a connection that is opened now this
/// channel.
pub open spec fn handle_step(
    sessions: Map<Seq<char>, usize>,
    http_response: Seq<char>,
    stage: StageView,
    event: EventView,
    uuid: Seq<char>,
    channel: usize,
) -> (StageView, ActionView) {
    match (stage, event) {
        (StageView::Over, _) => (stage, ActionView::Nothing),
        (_, EventView::Failed) => close(HandleErrorView::Failed),
        (StageView::Head { target, matched }, EventView::Byte(b)) => {
            let now = match_step(target, matched, b);
            if now >= target.len() {
                (StageView::First, ActionView::ReadMessage)
            } else {
                (StageView::Head { target, matched: now }, ActionView::ReadByte)
            }
        },
        (StageView::First, EventView::Message(m)) => open_step(sessions, http_response, m, uuid),
        (StageView::Rx, EventView::Done) => (stage, ActionView::AwaitOutgoing),
        (StageView::Rx, EventView::Outgoing(m)) => (
            stage,
            ActionView::Send(frame(server_bytes(m))),
        ),
        (StageView::Rx, EventView::Ended) => (StageView::Over, ActionView::Close(None)),
        (StageView::Tx { uuid: own, senders, client }, EventView::Message(m)) => receive_step(
            own,
            senders,
            client,
            m,
            channel,
        ),
        (StageView::Tx { uuid: own, senders, .. }, EventView::Done) => await_message(
            sessions,
            own,
            senders,
        ),
        _ => (stage, ActionView::Nothing),
    }
}

/// Whether the event makes a session.
pub open spec fn makes_session(stage: StageView, event: EventView) -> bool {
    match event {
        EventView::Message(m) => stage is First && m is InitRx,
        _ => false,
    }
}

/// The sessions after an event.
pub open spec fn sessions_of(
    sessions: Map<Seq<char>, usize>,
    stage: StageView,
    event: EventView,
    uuid: Seq<char>,
    channel: usize,
) -> Map<Seq<char>, usize> {
    match (stage, event) {
        (StageView::First, EventView::Message(m)) => sessions_step(sessions, m, uuid, channel),
        _ => sessions,
    }
}

/// The count of connections after an event.
pub open spec fn count_of(count: usize, stage: StageView, event: EventView) -> usize {
    match (stage, event) {
        (StageView::Tx { .. }, EventView::Message(m)) => if opens(m) is Some {
            counted(count)
        } else {
            count
        },
        _ => count,
    }
}

impl Server {
    /// A new stream: its HTTP request comes first. The separator must not be empty.
    pub fn begin(&self) -> (r: (Stage, Action))
        requires
            self.config.separator@.len() > 0,
        ensures
            r.0.well_formed(),
            r.0@ == (StageView::Head { target: self.config.separator@, matched: 0 }),
            r.1@ == ActionView::ReadByte,
    {
        (Stage::Head(BodyWait::new(self.config.separator.clone())), Action::ReadByte)
    }

    /// Looks for the session before the next message is received.
    fn await_message(&self, session: TxSession) -> (r: (Stage, Action))
        ensures
            r.0.well_formed(),
            (r.0@, r.1@) == await_message(
                self.send_to_client@,
                session.uuid@,
                session.connection_senders@,
            ),
    {
        match session.client_channel(self) {
            Ok(client) => (Stage::Tx { session, client }, Action::ReadMessage),
            Err(e) => (Stage::Over, Action::Close(Some(e))),
        }
    }

    /// Goes on with a stream after what came of the last action. A session that is
    /// made now gets this identifier, and it or a connection that is opened now
    /// this channel.
    pub fn handle_as(
        &mut self,
        stats: &mut Stats,
        stage: Stage,
        event: Event,
        uuid: String,
        channel: usize,
    ) -> (r: (Stage, Action))
        requires
            stage.well_formed(),
        ensures
            r.0.well_formed(),
            final(self).config == old(self).config,
            final(self).send_to_client@ == sessions_of(
                old(self).send_to_client@,
                stage@,
                event@,
                uuid@,
                channel,
            ),
            final(stats).server_handled_tcp_conn == count_of(
                old(stats).server_handled_tcp_conn,
                stage@,
                event@,
            ),
            final(stats).client_handled_tcp_conn == old(stats).client_handled_tcp_conn,
            (r.0@, r.1@) == handle_step(
                old(self).send_to_client@,
                old(self).config.http_response@,
                stage@,
                event@,
                uuid@,
                channel,
            ),
    {
        match (stage, event) {
            (Stage::Over, _) => (Stage::Over, Action::Nothing),
            (_, Event::Failed) => (Stage::Over, Action::Close(Some(HandleError::Failed))),
            (Stage::Head(wait), Event::Byte(b)) => {
                let mut wait = wait;
                if wait.feed(b) {
                    (Stage::First, Action::ReadMessage)
                } else {
                    (Stage::Head(wait), Action::ReadByte)
                }
            },
            (Stage::First, Event::Message(m)) => match self.open_as(m, uuid, channel) {
                Ok(Opening::Rx { greeting, replaced, .. }) => (
                    Stage::Rx,
                    Action::Greet { greeting, replaced },
                ),
                Ok(Opening::Tx(session)) => self.await_message(session),
                Err(e) => (Stage::Over, Action::Close(Some(e))),
            },
            (Stage::Rx, Event::Done) => (Stage::Rx, Action::AwaitOutgoing),
            (Stage::Rx, Event::Outgoing(m)) => match m.as_message() {
                Ok(bytes) => (Stage::Rx, Action::Send(bytes)),
                Err(e) => (Stage::Over, Action::Close(Some(HandleError::Message(e)))),
            },
            (Stage::Rx, Event::Ended) => (Stage::Over, Action::Close(None)),
            (Stage::Tx { session, client }, Event::Message(m)) => {
                let mut session = session;
                match session.receive(stats, m, channel) {
                    Ok(TxAction::Connect { id, target, replaced }) => (
                        Stage::Tx { session, client },
                        Action::Connect { id, target, client, replaced },
                    ),
                    Ok(TxAction::Deliver { channel: to, data }) => (
                        Stage::Tx { session, client },
                        Action::Deliver { channel: to, data },
                    ),
                    Err(e) => (Stage::Over, Action::Close(Some(e))),
                }
            },
            (Stage::Tx { session, .. }, Event::Done) => self.await_message(session),
            (stage, _) => (stage, Action::Nothing),
        }
    }

    /// Goes on with a stream after what came of the last action. A session that is
    /// made now gets a random identifier.
    pub fn handle(&mut self, stats: &mut Stats, stage: Stage, event: Event, channel: usize) -> (r: (
        Stage,
        Action,
    ))
        requires
            stage.well_formed(),
        ensures
            r.0.well_formed(),
            final(self).config == old(self).config,
            final(stats).server_handled_tcp_conn == count_of(
                old(stats).server_handled_tcp_conn,
                stage@,
                event@,
            ),
            final(stats).client_handled_tcp_conn == old(stats).client_handled_tcp_conn,
            exists|uuid: Seq<char>|
                (makes_session(stage@, event@) ==> is_random_uuid(uuid))
                    && final(self).send_to_client@ == #[trigger] sessions_of(
                    old(self).send_to_client@,
                    stage@,
                    event@,
                    uuid,
                    channel,
                ) && (r.0@, r.1@) == handle_step(
                    old(self).send_to_client@,
                    old(self).config.http_response@,
                    stage@,
                    event@,
                    uuid,
                    channel,
                ),
    {
        let uuid = match (&stage, &event) {
            (Stage::First, Event::Message(ClientMessage::InitRx { .. })) => new_uuid(),
            _ => String::new(),
        };
        assert(makes_session(stage@, event@) ==> is_random_uuid(uuid@));
        self.handle_as(stats, stage, event, uuid, channel)
    }
}

// ---------------------------------------------------------------------------
// Laws
// ---------------------------------------------------------------------------

/// The sessions after the streams that these first messages opened, in order;
/// with each message stand the identifier and the channel at hand for it.
pub open spec fn sessions_after(
    before: Map<Seq<char>, usize>,
    inits: Seq<(ClientMessageView, Seq<char>, usize)>,
) -> Map<Seq<char>, usize>
    decreases inits.len(),
{
    if inits.len() == 0 {
        before
    } else {
        let (init, uuid, channel) = inits.last();
        sessions_step(sessions_after(before, inits.drop_last()), init, uuid, channel)
    }
}

/// A session leads to the channel that it was last opened with, whatever streams
/// were opened since.
pub proof fn law_session_found(
    before: Map<Seq<char>, usize>,
    inits: Seq<(ClientMessageView, Seq<char>, usize)>,
    k: int,
)
    requires
        0 <= k < inits.len(),
        inits[k].0 is InitRx,
        forall|j: int|
            k < j < inits.len() && (#[trigger] inits[j]).0 is InitRx ==> inits[j].1 != inits[k].1,
    ensures
        sessions_after(before, inits).get(inits[k].1) == Some(inits[k].2),
    decreases inits.len(),
{
    if k < inits.len() - 1 {
        let shorter = inits.drop_last();
        assert forall|j: int|
            k < j < shorter.len() && (#[trigger] shorter[j]).0 is InitRx implies shorter[j].1
            != shorter[k].1 by {
            assert(inits[j] == shorter[j]);
        }
        law_session_found(before, shorter, k);
        assert(inits[inits.len() - 1] == inits.last());
    }
}

/// There is no session but those that were opened.
pub proof fn law_no_other_session(
    inits: Seq<(ClientMessageView, Seq<char>, usize)>,
    uuid: Seq<char>,
)
    requires
        forall|j: int|
            0 <= j < inits.len() && (#[trigger] inits[j]).0 is InitRx ==> inits[j].1 != uuid,
    ensures
        sessions_after(Map::empty(), inits).get(uuid) is None,
    decreases inits.len(),
{
    if inits.len() > 0 {
        let shorter = inits.drop_last();
        assert forall|j: int|
            0 <= j < shorter.len() && (#[trigger] shorter[j]).0 is InitRx implies shorter[j].1
            != uuid by {
            assert(inits[j] == shorter[j]);
        }
        law_no_other_session(shorter, uuid);
        assert(inits[inits.len() - 1] == inits.last());
    }
}

/// The connections after these messages were received, in order; with each
/// message stands the channel at hand for it.
pub open spec fn senders_after(
    before: Map<usize, usize>,
    msgs: Seq<(ClientMessageView, usize)>,
) -> Map<usize, usize>
    decreases msgs.len(),
{
    if msgs.len() == 0 {
        before
    } else {
        senders_step(senders_after(before, msgs.drop_last()), msgs.last().0, msgs.last().1)
    }
}

/// Data for a connection goes to the channel that it was last opened with,
/// whatever messages came since.
pub proof fn law_data_follows_connection(
    before: Map<usize, usize>,
    msgs: Seq<(ClientMessageView, usize)>,
    k: int,
)
    requires
        0 <= k < msgs.len(),
        opens(msgs[k].0) is Some,
        forall|j: int| k < j < msgs.len() ==> opens((#[trigger] msgs[j]).0) != opens(msgs[k].0),
    ensures
        senders_after(before, msgs).get(opens(msgs[k].0)->Some_0) == Some(msgs[k].1),
    decreases msgs.len(),
{
    if k < msgs.len() - 1 {
        let shorter = msgs.drop_last();
        assert forall|j: int| k < j < shorter.len() implies opens((#[trigger] shorter[j]).0)
            != opens(shorter[k].0) by {
            assert(msgs[j] == shorter[j]);
        }
        law_data_follows_connection(before, shorter, k);
        assert(msgs[msgs.len() - 1] == msgs.last());
    }
}

/// A connection that was never opened has no channel: data for it is refused.
pub proof fn law_unopened_connection_refused(msgs: Seq<(ClientMessageView, usize)>, id: usize)
    requires
        forall|j: int| 0 <= j < msgs.len() ==> opens((#[trigger] msgs[j]).0) != Some(id),
    ensures
        senders_after(Map::empty(), msgs).get(id) is None,
    decreases msgs.len(),
{
    if msgs.len() > 0 {
        let shorter = msgs.drop_last();
        assert forall|j: int| 0 <= j < shorter.len() implies opens((#[trigger] shorter[j]).0)
            != Some(id) by {
            assert(msgs[j] == shorter[j]);
        }
        law_unopened_connection_refused(shorter, id);
        assert(msgs[msgs.len() - 1] == msgs.last());
    }
}

/// The two streams of a client find each other: once the first has made a session,
/// a second one that names it receives for that session's client. One that names
/// no session is closed at once.
pub proof fn law_session_joins_streams(
    sessions: Map<Seq<char>, usize>,
    http_response: Seq<char>,
    new_session: bool,
    uuid: Seq<char>,
    client: usize,
    other_uuid: Seq<char>,
    other_channel: usize,
)
    ensures
        ({
            let init = EventView::Message(ClientMessageView::InitRx { new_session });
            let join = EventView::Message(ClientMessageView::InitTx { uuid });
            let joined = sessions_of(sessions, StageView::First, init, uuid, client);
            &&& handle_step(
                joined,
                http_response,
                StageView::First,
                join,
                other_uuid,
                other_channel,
            ) == (
                StageView::Tx { uuid, senders: Map::empty(), client },
                ActionView::ReadMessage,
            )
            &&& !sessions.contains_key(uuid) ==> handle_step(
                sessions,
                http_response,
                StageView::First,
                join,
                other_uuid,
                other_channel,
            ) == close(HandleErrorView::UnknownUuid(uuid))
        }),
{
}

/// The stage of a stream after these bytes of its HTTP request.
pub open spec fn stage_after_bytes(stage: StageView, bytes: Seq<u8>) -> StageView
    decreases bytes.len(),
{
    if bytes.len() == 0 {
        stage
    } else {
        let next = handle_step(
            Map::empty(),
            Seq::empty(),
            stage,
            EventView::Byte(bytes[0]),
            Seq::empty(),
            0,
        ).0;
        stage_after_bytes(next, bytes.drop_first())
    }
}

/// The first message is read right behind the separator.
pub proof fn law_first_message_follows_head(target: Seq<char>, matched: nat, bytes: Seq<u8>)
    ensures
        body_start(target, matched, bytes) == Some(bytes.len()) ==> stage_after_bytes(
            StageView::Head { target, matched },
            bytes,
        ) == StageView::First,
        body_start(target, matched, bytes) is None ==> stage_after_bytes(
            StageView::Head { target, matched },
            bytes,
        ) is Head,
    decreases bytes.len(),
{
    if bytes.len() > 0 {
        let now = match_step(target, matched, bytes[0]);
        if now < target.len() {
            law_first_message_follows_head(target, now, bytes.drop_first());
        } else if bytes.len() == 1 {
            assert(stage_after_bytes(StageView::First, bytes.drop_first()) == StageView::First);
        }
    }
}

/// Whatever is read from a connection at once fits into one message, which the
/// client reads back unchanged, and then what was sent later.
pub proof fn law_upstream_data_arrives(id: usize, data: Seq<u8>, later: Seq<u8>)
    requires
        data.len() <= UPSTREAM_BUFFER,
    ensures
        ({
            let m = ServerMessageView::Data { id, data };
            let stream = frame(server_bytes(m)) + later;
            &&& read_frame(stream) == FrameView::Body(server_bytes(m))
            &&& decode_server(server_bytes(m)) == Ok::<_, Seq<char>>(m)
            &&& stream.skip((HEADER_LEN + server_bytes(m).len()) as int) == later
        }),
{
    law_data_message_len(id, data);
    law_server_frame_round_trip(ServerMessageView::Data { id, data }, later);
}

proof fn lemma_uuid_is_ascii(uuid: Seq<char>)
    requires
        is_random_uuid(uuid),
    ensures
        encode_utf8(uuid).len() == 36,
{
    assert forall|i: int| 0 <= i < uuid.len() implies '\0' <= #[trigger] uuid[i] <= '\u{7f}' by {
        assert(if i == 8 || i == 13 || i == 18 || i == 23 {
            uuid[i] == '-'
        } else {
            is_lower_hex(uuid[i])
        });
    }
    is_ascii_chars_encode_utf8(uuid);
}

/// The client learns the session from the greeting: behind the HTTP head it
/// reads the message with the identifier, and then what was sent later.
pub proof fn law_greeting_names_session(lines: Seq<char>, uuid: Seq<char>, later: Seq<u8>)
    requires
        !ends_early(lines),
        is_random_uuid(uuid),
    ensures
        ({
            let stream = rx_greeting(http_head(lines), uuid) + later;
            let created = ServerMessageView::SessionCreated { uuid };
            &&& body_start(blank_line(), 0, stream) matches Some(n) && {
                let body = stream.skip(n as int);
                &&& read_frame(body) == FrameView::Body(server_bytes(created))
                &&& decode_server(server_bytes(created)) == Ok::<_, Seq<char>>(created)
                &&& body.skip((HEADER_LEN + server_bytes(created).len()) as int) == later
            }
        }),
{
    let created = ServerMessageView::SessionCreated { uuid };
    let message = frame(server_bytes(created));
    let head = encode_utf8(http_head(lines));
    lemma_uuid_is_ascii(uuid);
    lemma_le_bytes_len(0, 4);
    lemma_le_bytes_len(36, 8);
    law_head_is_read_whole(lines, message + later);
    law_server_frame_round_trip(created, later);
    assert(rx_greeting(http_head(lines), uuid) + later =~= head + (message + later));
}

} // verus!
