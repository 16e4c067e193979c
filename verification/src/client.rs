//! The client's side.
//!
//! A client keeps two streams to the server, its pipes: it receives on one and
//! sends on the other. SOCKS connections share them. When a pipe breaks, both
//! are made anew before the next connection is served.

use vstd::arithmetic::div_mod::{lemma_fundamental_div_mod, lemma_fundamental_div_mod_converse};
use vstd::prelude::*;
use vstd::slice::{slice_subrange, slice_to_vec};
use vstd::utf8::encode_utf8;

use crate::config::{
    blank_line, ends_early, http_head, law_head_is_read_whole, ClientConfig, ClientConfigView,
};
use crate::gate::{Gate, GateStep};
use crate::instance::{counted, Stats};
use crate::message::{
    client_bytes, decode_client, frame, law_data_message_len, Address, AddressView, ClientMessage,
    ClientMessageView, IntoMessage, MessageError, ServerMessage, ServerMessageView,
};
use crate::server::{handle_step, opens, ActionView, EventView, StageView};
use crate::stream::{
    body_start, law_client_frame_round_trip, law_long_frame_refused, read_frame, FrameView,
    HEADER_LEN, MAX_MESSAGE_LEN,
};
use crate::table::ConnectionTable;
use crate::wire::lemma_le_bytes_len;

verus! {

// ---------------------------------------------------------------------------
// The pool
// ---------------------------------------------------------------------------

/// Whose turn it is among the clients that share the work.
#[derive(Debug)]
pub struct ClientPool {
    pub size: usize,
    pub next_client_idx: usize,
}

/// Who comes after whom.
pub open spec fn next_turn(size: nat, turn: nat) -> nat {
    if turn + 1 >= size {
        0
    } else {
        turn + 1
    }
}

impl ClientPool {
    pub open spec fn well_formed(self) -> bool {
        self.next_client_idx < self.size
    }

    /// The first client comes first. There must be one.
    pub fn new(size: usize) -> (r: ClientPool)
        requires
            size > 0,
        ensures
            r.well_formed(),
            r.size == size,
            r.next_client_idx == 0,
    {
        ClientPool { size, next_client_idx: 0 }
    }

    /// The client that serves the next connection.
    pub fn pick(&mut self) -> (idx: usize)
        requires
            old(self).well_formed(),
        ensures
            final(self).well_formed(),
            final(self).size == old(self).size,
            idx == old(self).next_client_idx,
            final(self).next_client_idx == next_turn(
                old(self).size as nat,
                old(self).next_client_idx as nat,
            ),
    {
        let idx: usize = self.next_client_idx;
        self.next_client_idx = self.next_client_idx + 1;
        if self.next_client_idx >= self.size {
            self.next_client_idx = 0;
        }
        idx
    }
}

/// Whose turn it is after so many connections.
pub open spec fn turn_after(size: nat, connections: nat) -> nat
    decreases connections,
{
    if connections == 0 {
        0
    } else {
        next_turn(size, turn_after(size, (connections - 1) as nat))
    }
}

/// Connections go round the pool: each client gets every `size`-th.
pub proof fn law_round_robin(size: nat, connections: nat)
    requires
        size > 0,
    ensures
        turn_after(size, connections) == connections % size,
    decreases connections,
{
    if connections == 0 {
        assert(0nat % size == 0) by (nonlinear_arith)
            requires
                size > 0,
        ;
    } else {
        let n = (connections - 1) as nat;
        law_round_robin(size, n);
        let q = (n / size) as int;
        let r = (n % size) as int;
        lemma_fundamental_div_mod(n as int, size as int);
        if r + 1 < size {
            lemma_fundamental_div_mod_converse(connections as int, size as int, q, r + 1);
        } else {
            assert(size * (q + 1) == size * q + size) by (nonlinear_arith);
            lemma_fundamental_div_mod_converse(connections as int, size as int, q + 1, 0);
        }
    }
}

// ---------------------------------------------------------------------------
// The client
// ---------------------------------------------------------------------------

/// One client.
pub struct Client {
    pub config: ClientConfig,
    pub next_conn_id: usize,
    pub gate: Gate,
    /// The pipes are broken, or there are none yet.
    pub killing: bool,
}

/// What a new connection does first.
#[derive(Debug, Clone, Copy, PartialEq, Eq)]
pub enum Admission {
    /// Wait until that changes, then ask again.
    Wait,
    /// Make the pipes anew, then go on.
    Restart,
    /// Go on.
    Proceed,
}

/// What a connection that comes now does first.
pub open spec fn admission(is_open: bool, killing: bool) -> Admission {
    if !is_open {
        Admission::Wait
    } else if killing {
        Admission::Restart
    } else {
        Admission::Proceed
    }
}

/// Whether the pipes still count as broken once a connection has come: the one
/// that is to make them anew has taken that upon it.
pub open spec fn killing_once_entered(is_open: bool, killing: bool) -> bool {
    killing && !is_open
}

impl Client {
    /// The two differ at most in whether the pipes count as broken.
    pub open spec fn same_but_killing(self, other: Client) -> bool {
        &&& self.config == other.config
        &&& self.next_conn_id == other.next_conn_id
        &&& self.gate == other.gate
    }

    /// No pipes yet, so the first connection makes them.
    pub fn new(config: ClientConfig) -> (r: Client)
        ensures
            r.config == config,
            r.next_conn_id == 0,
            r.gate.is_open,
            r.killing,
    {
        Client { config, next_conn_id: 0, gate: Gate::new(true), killing: true }
    }

    /// Lets a connection in. Of those that find the pipes broken, one makes them
    /// anew.
    pub fn enter(&mut self) -> (r: Admission)
        ensures
            final(self).same_but_killing(*old(self)),
            r == admission(old(self).gate.is_open, old(self).killing),
            final(self).killing == killing_once_entered(
                old(self).gate.is_open,
                old(self).killing,
            ),
    {
        match self.gate.wait_or_pass() {
            GateStep::Wait => Admission::Wait,
            GateStep::Pass => {
                if self.killing {
                    self.killing = false;
                    Admission::Restart
                } else {
                    Admission::Proceed
                }
            },
        }
    }

    /// A pipe failed to read or to write.
    pub fn pipe_broken(&mut self)
        ensures
            final(self).same_but_killing(*old(self)),
            final(self).killing,
    {
        self.killing = true;
    }

    /// The relay shuts down: nobody passes any more.
    pub fn shut_down(&mut self)
        ensures
            final(self).config == old(self).config,
            final(self).next_conn_id == old(self).next_conn_id,
            final(self).killing == old(self).killing,
            !final(self).gate.is_open,
    {
        self.gate.set_open(false);
    }
}

// ---------------------------------------------------------------------------
// Making the pipes
// ---------------------------------------------------------------------------

/// Whether `rustls::ServerName::try_from` takes a string for a server's name: a DNS
/// name or an IP address.
pub uninterp spec fn is_server_name(sni: Seq<char>) -> bool;

/// `rustls::ServerName::try_from` on a string: whether it is a server's name. It
/// depends on the string alone.
#[verifier::external_body]
fn names_server(sni: &String) -> (r: bool)
    ensures
        r == is_server_name(sni@),
{
    rustls::ServerName::try_from(sni.as_str()).is_ok()
}

/// A TLS handshake to make: under which name, and whether any certificate will do.
#[derive(Debug, PartialEq, Eq)]
pub struct TlsRequest {
    pub sni: String,
    pub insecure: bool,
}

/// How far the pipes are made.
#[derive(Debug, PartialEq, Eq)]
pub enum PipeStage {
    /// The old pipes are told to end.
    Killing,
    /// The receiving stream is connected.
    RxConnecting,
    /// Its TLS handshake is made.
    RxHandshaking,
    /// Its HTTP request is sent.
    RxRequesting,
    /// Its first message is sent.
    RxGreeting,
    /// Its HTTP response is waited for.
    RxBody,
    /// The session's identifier is waited for.
    RxSession,
    /// The receiving task is started.
    RxStarting { uuid: String },
    /// The sending stream is connected.
    TxConnecting { uuid: String },
    /// Its TLS handshake is made.
    TxHandshaking { uuid: String },
    /// Its HTTP request is sent.
    TxRequesting { uuid: String },
    /// Its first message is sent.
    TxGreeting,
    /// Both pipes stand.
    Ready,
    /// They could not be made.
    Failed,
}

/// What came of the last action.
#[derive(Debug, PartialEq, Eq)]
pub enum PipeEvent {
    /// It is done.
    Done,
    /// It is done: this was read.
    Message(ServerMessage),
    /// It failed.
    Failed,
}

/// What is to be done next.
#[derive(Debug, PartialEq, Eq)]
pub enum PipeAction {
    /// Tell the old pipes to end.
    Kill,
    /// Connect the next stream to this server.
    Connect(String),
    /// Make the TLS handshake on the stream connected last.
    Handshake(TlsRequest),
    /// Send these bytes on it.
    Send(Vec<u8>),
    /// Read from it up to the separator.
    WaitForBody,
    /// Read a message from it.
    ReadMessage,
    /// Receive on it from now on, with a new table of connections.
    StartReceiver,
    /// Send on it from now on; the new table and pipes take the place of the old.
    Install,
    /// Give up, for this reason.
    GiveUp(PipeError),
    /// Nothing: the event does not belong to this stage.
    Nothing,
}

/// Why the pipes could not be made.
#[derive(Debug, PartialEq, Eq)]
pub enum PipeError {
    /// The configured name is no server's name.
    InvalidName,
    /// The server did not answer with a session but with this.
    UnexpectedMessage(ServerMessage),
    /// A message could not be encoded.
    Message(MessageError),
    /// Connecting, reading or writing failed.
    Failed,
}

impl PipeError {
    /// The reason in words. A message that it is about is not part of the text.
    pub fn text(&self) -> (r: String)
        ensures
            match *self {
                PipeError::InvalidName => r@ == "invalid dns name"@,
                PipeError::UnexpectedMessage(_) => r@ == "unexpected message received"@,
                PipeError::Message(_) => r@ == "failed to encode a message"@,
                PipeError::Failed => r@ == "failed to connect, read or write"@,
            },
    {
        match self {
            PipeError::InvalidName => "invalid dns name".to_owned(),
            PipeError::UnexpectedMessage(_) => "unexpected message received".to_owned(),
            PipeError::Message(_) => "failed to encode a message".to_owned(),
            PipeError::Failed => "failed to connect, read or write".to_owned(),
        }
    }
}

/// A [`TlsRequest`], mathematically.
#[verifier::ext_equal]
pub struct TlsRequestView {
    pub sni: Seq<char>,
    pub insecure: bool,
}

/// A [`PipeStage`], mathematically.
#[verifier::ext_equal]
pub enum PipeStageView {
    Killing,
    RxConnecting,
    RxHandshaking,
    RxRequesting,
    RxGreeting,
    RxBody,
    RxSession,
    RxStarting { uuid: Seq<char> },
    TxConnecting { uuid: Seq<char> },
    TxHandshaking { uuid: Seq<char> },
    TxRequesting { uuid: Seq<char> },
    TxGreeting,
    Ready,
    Failed,
}

/// A [`PipeEvent`], mathematically.
#[verifier::ext_equal]
pub enum PipeEventView {
    Done,
    Message(ServerMessageView),
    Failed,
}

/// A [`PipeAction`], mathematically.
#[verifier::ext_equal]
pub enum PipeActionView {
    Kill,
    Connect(Seq<char>),
    Handshake(TlsRequestView),
    Send(Seq<u8>),
    WaitForBody,
    ReadMessage,
    StartReceiver,
    Install,
    GiveUp(PipeErrorView),
    Nothing,
}

/// A [`PipeError`], mathematically.
#[verifier::ext_equal]
pub enum PipeErrorView {
    InvalidName,
    UnexpectedMessage(ServerMessageView),
    Message(MessageError),
    Failed,
}

impl View for TlsRequest {
    type V = TlsRequestView;

    open spec fn view(&self) -> TlsRequestView {
        TlsRequestView { sni: self.sni@, insecure: self.insecure }
    }
}

impl View for PipeError {
    type V = PipeErrorView;

    open spec fn view(&self) -> PipeErrorView {
        match *self {
            PipeError::InvalidName => PipeErrorView::InvalidName,
            PipeError::UnexpectedMessage(m) => PipeErrorView::UnexpectedMessage(m@),
            PipeError::Message(e) => PipeErrorView::Message(e),
            PipeError::Failed => PipeErrorView::Failed,
        }
    }
}

impl View for PipeStage {
    type V = PipeStageView;

    open spec fn view(&self) -> PipeStageView {
        match *self {
            PipeStage::Killing => PipeStageView::Killing,
            PipeStage::RxConnecting => PipeStageView::RxConnecting,
            PipeStage::RxHandshaking => PipeStageView::RxHandshaking,
            PipeStage::RxRequesting => PipeStageView::RxRequesting,
            PipeStage::RxGreeting => PipeStageView::RxGreeting,
            PipeStage::RxBody => PipeStageView::RxBody,
            PipeStage::RxSession => PipeStageView::RxSession,
            PipeStage::RxStarting { uuid } => PipeStageView::RxStarting { uuid: uuid@ },
            PipeStage::TxConnecting { uuid } => PipeStageView::TxConnecting { uuid: uuid@ },
            PipeStage::TxHandshaking { uuid } => PipeStageView::TxHandshaking { uuid: uuid@ },
            PipeStage::TxRequesting { uuid } => PipeStageView::TxRequesting { uuid: uuid@ },
            PipeStage::TxGreeting => PipeStageView::TxGreeting,
            PipeStage::Ready => PipeStageView::Ready,
            PipeStage::Failed => PipeStageView::Failed,
        }
    }
}

impl View for PipeEvent {
    type V = PipeEventView;

    open spec fn view(&self) -> PipeEventView {
        match *self {
            PipeEvent::Done => PipeEventView::Done,
            PipeEvent::Message(m) => PipeEventView::Message(m@),
            PipeEvent::Failed => PipeEventView::Failed,
        }
    }
}

impl View for PipeAction {
    type V = PipeActionView;

    open spec fn view(&self) -> PipeActionView {
        match *self {
            PipeAction::Kill => PipeActionView::Kill,
            PipeAction::Connect(server) => PipeActionView::Connect(server@),
            PipeAction::Handshake(request) => PipeActionView::Handshake(request@),
            PipeAction::Send(bytes) => PipeActionView::Send(bytes@),
            PipeAction::WaitForBody => PipeActionView::WaitForBody,
            PipeAction::ReadMessage => PipeActionView::ReadMessage,
            PipeAction::StartReceiver => PipeActionView::StartReceiver,
            PipeAction::Install => PipeActionView::Install,
            PipeAction::GiveUp(e) => PipeActionView::GiveUp(e@),
            PipeAction::Nothing => PipeActionView::Nothing,
        }
    }
}

/// The handshake of a pipe under this name, with the configured certificate policy.
pub open spec fn tls_request(config: ClientConfigView, sni: Seq<char>) -> TlsRequestView {
    TlsRequestView { sni, insecure: config.insecure_tls }
}

/// The first message on the receiving stream.
pub open spec fn rx_hello() -> Seq<u8> {
    frame(client_bytes(ClientMessageView::InitRx { new_session: true }))
}

/// The first message on the sending stream.
pub open spec fn tx_hello(uuid: Seq<char>) -> Seq<u8> {
    frame(client_bytes(ClientMessageView::InitTx { uuid }))
}

impl PipeStageView {
    /// Nothing more happens.
    pub open spec fn is_over(self) -> bool {
        self is Ready || self is Failed
    }
}

/// Gives up for this reason.
pub open spec fn give_up(e: PipeErrorView) -> (PipeStageView, PipeActionView) {
    (PipeStageView::Failed, PipeActionView::GiveUp(e))
}

/// The next stage, and what is to be done in it. At the stages in which a stream is
/// connected, `named` says whether its configured name is a server's name.
pub open spec fn pipe_step(
    config: ClientConfigView,
    stage: PipeStageView,
    event: PipeEventView,
    named: bool,
) -> (PipeStageView, PipeActionView) {
    match (stage, event) {
        (PipeStageView::Killing, PipeEventView::Done) => (
            PipeStageView::RxConnecting,
            PipeActionView::Connect(config.outbound_addr),
        ),
        (PipeStageView::RxConnecting, PipeEventView::Done) => if named {
            (
                PipeStageView::RxHandshaking,
                PipeActionView::Handshake(tls_request(config, config.rx_sni)),
            )
        } else {
            give_up(PipeErrorView::InvalidName)
        },
        (PipeStageView::RxHandshaking, PipeEventView::Done) => (
            PipeStageView::RxRequesting,
            PipeActionView::Send(encode_utf8(config.http_request)),
        ),
        (PipeStageView::RxRequesting, PipeEventView::Done) => (
            PipeStageView::RxGreeting,
            PipeActionView::Send(rx_hello()),
        ),
        (PipeStageView::RxGreeting, PipeEventView::Done) => (
            PipeStageView::RxBody,
            PipeActionView::WaitForBody,
        ),
        (PipeStageView::RxBody, PipeEventView::Done) => (
            PipeStageView::RxSession,
            PipeActionView::ReadMessage,
        ),
        (PipeStageView::RxSession, PipeEventView::Message(m)) => match m {
            ServerMessageView::SessionCreated { uuid } => (
                PipeStageView::RxStarting { uuid },
                PipeActionView::StartReceiver,
            ),
            _ => give_up(PipeErrorView::UnexpectedMessage(m)),
        },
        (PipeStageView::RxStarting { uuid }, PipeEventView::Done) => (
            PipeStageView::TxConnecting { uuid },
            PipeActionView::Connect(config.outbound_addr),
        ),
        (PipeStageView::TxConnecting { uuid }, PipeEventView::Done) => if named {
            (
                PipeStageView::TxHandshaking { uuid },
                PipeActionView::Handshake(tls_request(config, config.tx_sni)),
            )
        } else {
            give_up(PipeErrorView::InvalidName)
        },
        (PipeStageView::TxHandshaking { uuid }, PipeEventView::Done) => (
            PipeStageView::TxRequesting { uuid },
            PipeActionView::Send(encode_utf8(config.http_request)),
        ),
        (PipeStageView::TxRequesting { uuid }, PipeEventView::Done) => (
            PipeStageView::TxGreeting,
            PipeActionView::Send(tx_hello(uuid)),
        ),
        (PipeStageView::TxGreeting, PipeEventView::Done) => (
            PipeStageView::Ready,
            PipeActionView::Install,
        ),
        (_, PipeEventView::Failed) => if stage.is_over() {
            (stage, PipeActionView::Nothing)
        } else {
            give_up(PipeErrorView::Failed)
        },
        _ => (stage, PipeActionView::Nothing),
    }
}

/// Whether the stream that is connected at this stage has a server's name.
pub open spec fn stage_named(config: ClientConfigView, stage: PipeStageView) -> bool {
    match stage {
        PipeStageView::RxConnecting => is_server_name(config.rx_sni),
        PipeStageView::TxConnecting { .. } => is_server_name(config.tx_sni),
        _ => true,
    }
}

/// Whether the event brings the session, and with it working pipes.
pub open spec fn brings_session(stage: PipeStageView, event: PipeEventView) -> bool {
    match event {
        PipeEventView::Message(m) => stage is RxSession && m is SessionCreated,
        _ => false,
    }
}

/// How long to wait before the pipes are tried again.
pub const RETRY_SECS: u64 = 5;

/// What follows an attempt to make the pipes.
#[derive(Debug, Clone, Copy, PartialEq, Eq)]
pub enum RestartStep {
    /// Wait so long, then try again.
    Retry { after_secs: u64 },
    /// The pipes stand.
    Done,
}

impl Client {
    fn tls_request(&self, sni: &String) -> (r: TlsRequest)
        ensures
            r@ == tls_request(self.config@, sni@),
    {
        TlsRequest { sni: sni.clone(), insecure: self.config.insecure_tls }
    }

    /// The bytes of the HTTP request.
    fn http_request(&self) -> (r: Vec<u8>)
        ensures
            r@ == encode_utf8(self.config@.http_request),
    {
        slice_to_vec(self.config.http_request.as_str().as_bytes())
    }

    /// Gives a message to be sent, and the stage in which it is.
    fn send_hello(hello: ClientMessage, stage: PipeStage) -> (r: (PipeStage, PipeAction))
        ensures
            r.0 == stage,
            r.1@ == PipeActionView::Send(frame(client_bytes(hello@))),
    {
        match hello.as_message() {
            Ok(bytes) => (stage, PipeAction::Send(bytes)),
            Err(e) => (PipeStage::Failed, PipeAction::GiveUp(PipeError::Message(e))),
        }
    }

    /// Begins to make the pipes. Until the session is there they count as broken.
    pub fn recreate_pipes(&mut self) -> (r: (PipeStage, PipeAction))
        ensures
            final(self).same_but_killing(*old(self)),
            final(self).killing,
            r.0 == PipeStage::Killing,
            r.1 == PipeAction::Kill,
    {
        self.killing = true;
        (PipeStage::Killing, PipeAction::Kill)
    }

    /// Goes on with it after what came of the last action. At the stages in which a
    /// stream is connected, `named` says whether its configured name is a server's
    /// name.
    pub fn advance_pipes_as(&mut self, stage: PipeStage, event: PipeEvent, named: bool) -> (r: (
        PipeStage,
        PipeAction,
    ))
        ensures
            final(self).same_but_killing(*old(self)),
            final(self).killing == (old(self).killing && !brings_session(stage@, event@)),
            (r.0@, r.1@) == pipe_step(old(self).config@, stage@, event@, named),
    {
        match (stage, event) {
            (PipeStage::Killing, PipeEvent::Done) => (
                PipeStage::RxConnecting,
                PipeAction::Connect(self.config.outbound_addr.clone()),
            ),
            (PipeStage::RxConnecting, PipeEvent::Done) => {
                if named {
                    let request = self.tls_request(&self.config.rx_sni);
                    (PipeStage::RxHandshaking, PipeAction::Handshake(request))
                } else {
                    (PipeStage::Failed, PipeAction::GiveUp(PipeError::InvalidName))
                }
            },
            (PipeStage::RxHandshaking, PipeEvent::Done) => (
                PipeStage::RxRequesting,
                PipeAction::Send(self.http_request()),
            ),
            (PipeStage::RxRequesting, PipeEvent::Done) => Self::send_hello(
                ClientMessage::InitRx { new_session: true },
                PipeStage::RxGreeting,
            ),
            (PipeStage::RxGreeting, PipeEvent::Done) => (
                PipeStage::RxBody,
                PipeAction::WaitForBody,
            ),
            (PipeStage::RxBody, PipeEvent::Done) => (PipeStage::RxSession, PipeAction::ReadMessage),
            (PipeStage::RxSession, PipeEvent::Message(ServerMessage::SessionCreated { uuid })) => {
                self.killing = false;
                (PipeStage::RxStarting { uuid }, PipeAction::StartReceiver)
            },
            (PipeStage::RxSession, PipeEvent::Message(m)) => (
                PipeStage::Failed,
                PipeAction::GiveUp(PipeError::UnexpectedMessage(m)),
            ),
            (PipeStage::RxStarting { uuid }, PipeEvent::Done) => (
                PipeStage::TxConnecting { uuid },
                PipeAction::Connect(self.config.outbound_addr.clone()),
            ),
            (PipeStage::TxConnecting { uuid }, PipeEvent::Done) => {
                if named {
                    let request = self.tls_request(&self.config.tx_sni);
                    (PipeStage::TxHandshaking { uuid }, PipeAction::Handshake(request))
                } else {
                    (PipeStage::Failed, PipeAction::GiveUp(PipeError::InvalidName))
                }
            },
            (PipeStage::TxHandshaking { uuid }, PipeEvent::Done) => (
                PipeStage::TxRequesting { uuid },
                PipeAction::Send(self.http_request()),
            ),
            (PipeStage::TxRequesting { uuid }, PipeEvent::Done) => Self::send_hello(
                ClientMessage::InitTx { uuid },
                PipeStage::TxGreeting,
            ),
            (PipeStage::TxGreeting, PipeEvent::Done) => (PipeStage::Ready, PipeAction::Install),
            (PipeStage::Ready, _) => (PipeStage::Ready, PipeAction::Nothing),
            (PipeStage::Failed, _) => (PipeStage::Failed, PipeAction::Nothing),
            (_, PipeEvent::Failed) => (PipeStage::Failed, PipeAction::GiveUp(PipeError::Failed)),
            (stage, _) => (stage, PipeAction::Nothing),
        }
    }

    /// Goes on with it after what came of the last action.
    pub fn advance_pipes(&mut self, stage: PipeStage, event: PipeEvent) -> (r: (
        PipeStage,
        PipeAction,
    ))
        ensures
            final(self).same_but_killing(*old(self)),
            final(self).killing == (old(self).killing && !brings_session(stage@, event@)),
            (r.0@, r.1@) == pipe_step(
                old(self).config@,
                stage@,
                event@,
                stage_named(old(self).config@, stage@),
            ),
    {
        let named = match &stage {
            PipeStage::RxConnecting => names_server(&self.config.rx_sni),
            PipeStage::TxConnecting { .. } => names_server(&self.config.tx_sni),
            _ => true,
        };
        self.advance_pipes_as(stage, event, named)
    }

    /// Holds connections back and begins to make the pipes.
    pub fn restart(&mut self) -> (r: (PipeStage, PipeAction))
        ensures
            final(self).config == old(self).config,
            final(self).next_conn_id == old(self).next_conn_id,
            !final(self).gate.is_open,
            final(self).killing,
            r.0 == PipeStage::Killing,
            r.1 == PipeAction::Kill,
    {
        self.gate.set_open(false);
        self.recreate_pipes()
    }

    /// After an attempt: if the pipes stand, connections may pass; if not, they are
    /// held back as before and the pipes are tried again.
    pub fn restarted(&mut self, ready: bool) -> (r: RestartStep)
        ensures
            final(self).config == old(self).config,
            final(self).next_conn_id == old(self).next_conn_id,
            final(self).killing == old(self).killing,
            final(self).gate.is_open == (ready || old(self).gate.is_open),
            r == if ready {
                RestartStep::Done
            } else {
                RestartStep::Retry { after_secs: RETRY_SECS }
            },
    {
        if ready {
            self.gate.set_open(true);
            RestartStep::Done
        } else {
            RestartStep::Retry { after_secs: RETRY_SECS }
        }
    }
}

// ---------------------------------------------------------------------------
// Receiving
// ---------------------------------------------------------------------------

/// What to do with a message from the server.
#[derive(Debug, PartialEq, Eq)]
pub enum RxAction {
    /// Hand the data to this channel.
    Deliver { channel: usize, data: Vec<u8> },
    /// Stop receiving: the pipes are broken.
    Stop,
    /// Drop it: nobody listens for this connection.
    NoListener { id: usize },
    /// Drop it: it has no place here.
    Unexpected(ServerMessage),
}

/// An [`RxAction`], mathematically.
#[verifier::ext_equal]
pub enum RxActionView {
    Deliver { channel: usize, data: Seq<u8> },
    Stop,
    NoListener { id: usize },
    Unexpected(ServerMessageView),
}

impl View for RxAction {
    type V = RxActionView;

    open spec fn view(&self) -> RxActionView {
        match *self {
            RxAction::Deliver { channel, data } => RxActionView::Deliver { channel, data: data@ },
            RxAction::Stop => RxActionView::Stop,
            RxAction::NoListener { id } => RxActionView::NoListener { id },
            RxAction::Unexpected(m) => RxActionView::Unexpected(m@),
        }
    }
}

/// What to do with a message, given the channels of the connections.
pub open spec fn rx_step(
    killing: bool,
    channels: Map<usize, usize>,
    msg: ServerMessageView,
) -> RxActionView {
    match msg {
        ServerMessageView::Data { id, data } => match channels.get(id) {
            Some(channel) => if killing {
                RxActionView::Stop
            } else {
                RxActionView::Deliver { channel, data }
            },
            None => RxActionView::NoListener { id },
        },
        _ => RxActionView::Unexpected(msg),
    }
}

impl Client {
    /// Takes a message that came in; the table is that of the pipe it came from.
    pub fn receive(&self, receiver_channels: &ConnectionTable, msg: ServerMessage) -> (r: RxAction)
        ensures
            r@ == rx_step(self.killing, receiver_channels@, msg@),
    {
        match msg {
            ServerMessage::Data { id, data } => match receiver_channels.get(id) {
                Some(channel) => {
                    if self.killing {
                        RxAction::Stop
                    } else {
                        RxAction::Deliver { channel, data }
                    }
                },
                None => RxAction::NoListener { id },
            },
            other => RxAction::Unexpected(other),
        }
    }
}

// ---------------------------------------------------------------------------
// Connections
// ---------------------------------------------------------------------------

/// What a SOCKS connection asks for.
#[derive(Debug, PartialEq, Eq)]
pub enum Command {
    Associate,
    Bind,
    Connect(Address),
}

/// The answer to it.
#[derive(Debug, Clone, Copy, PartialEq, Eq)]
pub enum Reply {
    Succeeded,
    CommandNotSupported,
}

/// A connection that the server is to open.
#[derive(Debug, PartialEq, Eq)]
pub struct NewConnection {
    pub id: usize,
    /// The bytes to send to the server.
    pub request: Vec<u8>,
    /// The identifier was in use, and its old channel, this one, is cut off.
    pub replaced: Option<usize>,
}

/// What to do with a SOCKS connection.
#[derive(Debug, PartialEq, Eq)]
pub enum Service {
    /// Reply and close it.
    Refuse(Reply),
    /// Send the request; once it is sent, reply and relay.
    Open(NewConnection, Reply),
}

/// The message that asks the server for a connection.
pub open spec fn connection_request(addr: AddressView, id: usize) -> ClientMessageView {
    match addr {
        AddressView::SocketAddress(addr) => ClientMessageView::NewConnectionWithIp { addr, id },
        AddressView::DomainAddress(domain, port) => ClientMessageView::NewConnectionWithDomain {
            domain,
            port,
            id,
        },
    }
}

impl Client {
    /// The two differ at most in the identifier that comes next.
    pub open spec fn same_but_next_id(self, other: Client) -> bool {
        &&& self.config == other.config
        &&& self.gate == other.gate
        &&& self.killing == other.killing
    }

    /// Gives a connection the next identifier, and its data this channel.
    pub fn create_new_connection(
        &mut self,
        receiver_channels: &mut ConnectionTable,
        addr: Address,
        channel: usize,
    ) -> (r: Result<NewConnection, MessageError>)
        ensures
            final(self).same_but_next_id(*old(self)),
            final(self).next_conn_id == counted(old(self).next_conn_id),
            final(receiver_channels)@ == old(receiver_channels)@.insert(
                old(self).next_conn_id,
                channel,
            ),
            r is Ok,
            r->Ok_0.id == old(self).next_conn_id,
            r->Ok_0.replaced == old(receiver_channels)@.get(old(self).next_conn_id),
            r->Ok_0.request@ == frame(
                client_bytes(connection_request(addr@, old(self).next_conn_id)),
            ),
    {
        let id: usize = self.next_conn_id;
        self.next_conn_id = self.next_conn_id.wrapping_add(1);
        let replaced = receiver_channels.insert(id, channel);
        let msg = match addr {
            Address::SocketAddress(addr) => ClientMessage::NewConnectionWithIp { addr, id },
            Address::DomainAddress(domain, port) => ClientMessage::NewConnectionWithDomain {
                domain,
                port,
                id,
            },
        };
        let request = msg.as_message()?;
        Ok(NewConnection { id, request, replaced })
    }

    /// The bytes that carry a connection's data to the server.
    pub fn send_data(&self, id: usize, data: Vec<u8>) -> (r: Result<Vec<u8>, MessageError>)
        ensures
            r is Ok,
            r->Ok_0@ == frame(client_bytes(ClientMessageView::Data { id, data: data@ })),
    {
        let msg = ClientMessage::Data { id, data };
        msg.as_message()
    }

    /// Takes what a SOCKS connection asks for. Only `CONNECT` is served; it is
    /// counted.
    pub fn serve(
        &mut self,
        stats: &mut Stats,
        receiver_channels: &mut ConnectionTable,
        command: Command,
        channel: usize,
    ) -> (r: Result<Service, MessageError>)
        ensures
            match command {
                Command::Connect(addr) => {
                    &&& final(self).same_but_next_id(*old(self))
                    &&& final(self).next_conn_id == counted(old(self).next_conn_id)
                    &&& final(receiver_channels)@ == old(receiver_channels)@.insert(
                        old(self).next_conn_id,
                        channel,
                    )
                    &&& final(stats).client_handled_tcp_conn == counted(
                        old(stats).client_handled_tcp_conn,
                    )
                    &&& final(stats).server_handled_tcp_conn == old(stats).server_handled_tcp_conn
                    &&& r matches Ok(Service::Open(new, reply)) && reply == Reply::Succeeded
                        && new.id == old(self).next_conn_id && new.replaced == old(
                        receiver_channels,
                    )@.get(old(self).next_conn_id) && new.request@ == frame(
                        client_bytes(connection_request(addr@, old(self).next_conn_id)),
                    )
                },
                _ => {
                    &&& *final(self) == *old(self)
                    &&& final(receiver_channels)@ == old(receiver_channels)@
                    &&& *final(stats) == *old(stats)
                    &&& r == Ok::<Service, MessageError>(
                        Service::Refuse(Reply::CommandNotSupported),
                    )
                },
            },
    {
        match command {
            Command::Associate => Ok(Service::Refuse(Reply::CommandNotSupported)),
            Command::Bind => Ok(Service::Refuse(Reply::CommandNotSupported)),
            Command::Connect(addr) => {
                stats.count_client_conn();
                let new = self.create_new_connection(receiver_channels, addr, channel)?;
                Ok(Service::Open(new, Reply::Succeeded))
            },
        }
    }
}

// ---------------------------------------------------------------------------
// Relaying
// ---------------------------------------------------------------------------

/// A SOCKS connection that is being relayed.
#[derive(Debug, PartialEq, Eq)]
pub struct Relay {
    pub id: usize,
    /// One of its ends is gone.
    pub broken_pipe: bool,
}

/// What to do after reading from a SOCKS connection.
#[derive(Debug, PartialEq, Eq)]
pub enum RelayStep {
    /// Send these bytes to the server and read on.
    Send(Vec<u8>),
    /// Stop reading.
    Stop,
}

/// Why a relay was ended from outside.
#[derive(Debug, Clone, Copy, PartialEq, Eq)]
pub enum RelayError {
    /// The pipes were told to end.
    Killed,
}

impl RelayError {
    /// The reason in words.
    pub fn text(&self) -> (r: String)
        ensures
            r@ == "kill notification received while handling socks5 connection"@,
    {
        match self {
            RelayError::Killed =>
                "kill notification received while handling socks5 connection".to_owned(),
        }
    }
}

impl Relay {
    pub fn new(id: usize) -> (r: Relay)
        ensures
            r == (Relay { id, broken_pipe: false }),
    {
        Relay { id, broken_pipe: false }
    }

    /// Whether to read on.
    pub fn reads_on(&self) -> (r: bool)
        ensures
            r == !self.broken_pipe,
    {
        !self.broken_pipe
    }

    /// Takes the `n` bytes that were read; at the end of the connection there were
    /// none.
    pub fn read(&self, client: &Client, buff: &[u8], n: usize) -> (r: Result<
        RelayStep,
        MessageError,
    >)
        requires
            n <= buff@.len(),
        ensures
            if n == 0 {
                r == Ok::<RelayStep, MessageError>(RelayStep::Stop)
            } else {
                r matches Ok(RelayStep::Send(bytes)) && bytes@ == frame(
                    client_bytes(
                        ClientMessageView::Data { id: self.id, data: buff@.take(n as int) },
                    ),
                )
            },
    {
        if n == 0 {
            Ok(RelayStep::Stop)
        } else {
            let data = slice_to_vec(slice_subrange(buff, 0, n));
            assert(data@ =~= buff@.take(n as int));
            let bytes = client.send_data(self.id, data)?;
            Ok(RelayStep::Send(bytes))
        }
    }

    /// The server could not be sent to: reading stops, for good.
    pub fn send_failed(&mut self) -> (r: RelayStep)
        ensures
            final(self).id == old(self).id,
            final(self).broken_pipe,
            r == RelayStep::Stop,
    {
        self.broken_pipe = true;
        RelayStep::Stop
    }

    /// Data was written to the SOCKS connection, or it failed.
    pub fn wrote(&mut self, ok: bool)
        ensures
            final(self).id == old(self).id,
            final(self).broken_pipe == (old(self).broken_pipe || !ok),
    {
        if !ok {
            self.broken_pipe = true;
        }
    }

    /// The relay ended: because the pipes were told to end, or since both
    /// directions are done.
    pub fn ended(&mut self, killed: bool) -> (r: Result<(), RelayError>)
        ensures
            final(self).id == old(self).id,
            final(self).broken_pipe == (old(self).broken_pipe || killed),
            r == if killed {
                Err::<(), RelayError>(RelayError::Killed)
            } else {
                Ok::<(), RelayError>(())
            },
    {
        if killed {
            self.broken_pipe = true;
            Err(RelayError::Killed)
        } else {
            Ok(())
        }
    }
}

// ---------------------------------------------------------------------------
// Laws
// ---------------------------------------------------------------------------

/// The identifier that comes `n` connections after `first`.
pub open spec fn conn_id_after(first: usize, n: nat) -> usize
    decreases n,
{
    if n == 0 {
        first
    } else {
        counted(conn_id_after(first, (n - 1) as nat))
    }
}

proof fn lemma_conn_id_after(first: usize, n: nat)
    requires
        n <= usize::MAX,
    ensures
        conn_id_after(first, n) == if first + n <= usize::MAX {
            first + n
        } else {
            first + n - usize::MAX - 1
        },
    decreases n,
{
    if n > 0 {
        lemma_conn_id_after(first, (n - 1) as nat);
    }
}

/// Connections get different identifiers: one comes back only after all others
/// were given out.
pub proof fn law_conn_ids_distinct(first: usize, i: nat, j: nat)
    requires
        i < j <= usize::MAX,
    ensures
        conn_id_after(first, i) != conn_id_after(first, j),
{
    lemma_conn_id_after(first, i);
    lemma_conn_id_after(first, j);
}

/// The channels of the connections that were opened one after the other, from the
/// identifier `first` on.
pub open spec fn channels_after(first: usize, opened: Seq<usize>) -> Map<usize, usize>
    decreases opened.len(),
{
    if opened.len() == 0 {
        Map::empty()
    } else {
        channels_after(first, opened.drop_last()).insert(
            conn_id_after(first, (opened.len() - 1) as nat),
            opened.last(),
        )
    }
}

/// Data that comes back for a connection goes to its own channel, however many
/// connections were opened since, until identifiers are used again.
pub proof fn law_reply_reaches_connection(first: usize, opened: Seq<usize>, k: int, data: Seq<u8>)
    requires
        0 <= k < opened.len() <= usize::MAX + 1,
    ensures
        rx_step(
            false,
            channels_after(first, opened),
            ServerMessageView::Data { id: conn_id_after(first, k as nat), data },
        ) == (RxActionView::Deliver { channel: opened[k], data }),
    decreases opened.len(),
{
    let last = opened.len() - 1;
    if k < last {
        law_reply_reaches_connection(first, opened.drop_last(), k, data);
        law_conn_ids_distinct(first, k as nat, last as nat);
    }
}

/// Whether the pipes still count as broken after so many connections came.
pub open spec fn killing_after_entries(is_open: bool, killing: bool, n: nat) -> bool
    decreases n,
{
    if n == 0 {
        killing
    } else {
        killing_once_entered(is_open, killing_after_entries(is_open, killing, (n - 1) as nat))
    }
}

/// Of the connections that come while the pipes are broken only the first makes
/// them anew; while that goes on, all others wait.
pub proof fn law_one_restart(killing: bool, n: nat)
    ensures
        n > 0 ==> admission(true, killing_after_entries(true, killing, n)) == Admission::Proceed,
        admission(true, killing_after_entries(true, killing, 0)) == Admission::Restart <==> killing,
        admission(false, killing_after_entries(false, killing, n)) == Admission::Wait,
        killing_after_entries(false, killing, n) == killing,
    decreases n,
{
    if n > 0 {
        law_one_restart(killing, (n - 1) as nat);
    }
}

/// The next stage, and what is to be done in it, with the configured names.
pub open spec fn pipe_next(
    config: ClientConfigView,
    stage: PipeStageView,
    event: PipeEventView,
) -> (PipeStageView, PipeActionView) {
    pipe_step(config, stage, event, stage_named(config, stage))
}

/// The stage after these events.
pub open spec fn stage_after(config: ClientConfigView, events: Seq<PipeEventView>) -> PipeStageView
    decreases events.len(),
{
    if events.len() == 0 {
        PipeStageView::Killing
    } else {
        pipe_next(config, stage_after(config, events.drop_last()), events.last()).0
    }
}

/// What was to be done, event by event.
pub open spec fn actions_of(
    config: ClientConfigView,
    events: Seq<PipeEventView>,
) -> Seq<PipeActionView>
    decreases events.len(),
{
    if events.len() == 0 {
        Seq::empty()
    } else {
        actions_of(config, events.drop_last()).push(
            pipe_next(config, stage_after(config, events.drop_last()), events.last()).1,
        )
    }
}

/// Whether the pipes count as broken after these events.
pub open spec fn killing_after(config: ClientConfigView, events: Seq<PipeEventView>) -> bool
    decreases events.len(),
{
    if events.len() == 0 {
        true
    } else {
        killing_after(config, events.drop_last()) && !brings_session(
            stage_after(config, events.drop_last()),
            events.last(),
        )
    }
}

proof fn lemma_one_more_event(
    config: ClientConfigView,
    events: Seq<PipeEventView>,
    event: PipeEventView,
)
    ensures
        ({
            let (stage, action) = pipe_next(config, stage_after(config, events), event);
            &&& stage_after(config, events.push(event)) == stage
            &&& actions_of(config, events.push(event)) == actions_of(config, events).push(action)
            &&& killing_after(config, events.push(event)) == (killing_after(config, events)
                && !brings_session(stage_after(config, events), event))
        }),
{
    assert(events.push(event).drop_last() =~= events);
}

/// The events of an attempt in which everything goes well, as far as the receiving
/// stream.
pub open spec fn good_rx_events(uuid: Seq<char>) -> Seq<PipeEventView> {
    seq![
        PipeEventView::Done,
        PipeEventView::Done,
        PipeEventView::Done,
        PipeEventView::Done,
        PipeEventView::Done,
        PipeEventView::Done,
        PipeEventView::Message(ServerMessageView::SessionCreated { uuid }),
    ]
}

/// The events of an attempt in which everything goes well.
pub open spec fn good_events(uuid: Seq<char>) -> Seq<PipeEventView> {
    good_rx_events(uuid) + seq![
        PipeEventView::Done,
        PipeEventView::Done,
        PipeEventView::Done,
        PipeEventView::Done,
        PipeEventView::Done,
    ]
}

/// The actions that make the receiving stream.
pub open spec fn rx_actions(config: ClientConfigView) -> Seq<PipeActionView> {
    seq![
        PipeActionView::Connect(config.outbound_addr),
        PipeActionView::Handshake(tls_request(config, config.rx_sni)),
        PipeActionView::Send(encode_utf8(config.http_request)),
        PipeActionView::Send(rx_hello()),
        PipeActionView::WaitForBody,
        PipeActionView::ReadMessage,
        PipeActionView::StartReceiver,
    ]
}

/// The actions that make the sending stream.
pub open spec fn tx_actions(config: ClientConfigView, uuid: Seq<char>) -> Seq<PipeActionView> {
    seq![
        PipeActionView::Connect(config.outbound_addr),
        PipeActionView::Handshake(tls_request(config, config.tx_sni)),
        PipeActionView::Send(encode_utf8(config.http_request)),
        PipeActionView::Send(tx_hello(uuid)),
        PipeActionView::Install,
    ]
}

proof fn lemma_rx_made(config: ClientConfigView, uuid: Seq<char>)
    requires
        is_server_name(config.rx_sni),
    ensures
        stage_after(config, good_rx_events(uuid)) == (PipeStageView::RxStarting { uuid }),
        !killing_after(config, good_rx_events(uuid)),
        actions_of(config, good_rx_events(uuid)) == rx_actions(config),
{
    let done = PipeEventView::Done;
    let session = PipeEventView::Message(ServerMessageView::SessionCreated { uuid });
    let e0 = Seq::<PipeEventView>::empty();
    let e1 = e0.push(done);
    let e2 = e1.push(done);
    let e3 = e2.push(done);
    let e4 = e3.push(done);
    let e5 = e4.push(done);
    let e6 = e5.push(done);
    assert(e6.push(session) =~= good_rx_events(uuid));
    lemma_one_more_event(config, e0, done);
    lemma_one_more_event(config, e1, done);
    lemma_one_more_event(config, e2, done);
    lemma_one_more_event(config, e3, done);
    lemma_one_more_event(config, e4, done);
    lemma_one_more_event(config, e5, done);
    lemma_one_more_event(config, e6, session);
}

/// If everything goes well, the pipes are made by these actions in this order:
/// the receiving stream first, then the sending one, which names the session
/// that the server gave. Afterwards they do not count as broken.
pub proof fn law_pipes_made(config: ClientConfigView, uuid: Seq<char>)
    requires
        is_server_name(config.rx_sni),
        is_server_name(config.tx_sni),
    ensures
        stage_after(config, good_events(uuid)) is Ready,
        !killing_after(config, good_events(uuid)),
        actions_of(config, good_events(uuid)) == rx_actions(config) + tx_actions(config, uuid),
{
    let done = PipeEventView::Done;
    let e0 = good_rx_events(uuid);
    let e1 = e0.push(done);
    let e2 = e1.push(done);
    let e3 = e2.push(done);
    let e4 = e3.push(done);
    assert(e4.push(done) =~= good_events(uuid));
    lemma_rx_made(config, uuid);
    lemma_one_more_event(config, e0, done);
    lemma_one_more_event(config, e1, done);
    lemma_one_more_event(config, e2, done);
    lemma_one_more_event(config, e3, done);
    lemma_one_more_event(config, e4, done);
}

/// Whether the stream of this stage has had its name taken: for the receiving
/// stream, and for the sending one.
spec fn names_taken(stage: PipeStageView) -> (bool, bool) {
    let tx = stage is TxHandshaking || stage is TxRequesting || stage is TxGreeting
        || stage is Ready;
    let rx = !(stage is Killing || stage is RxConnecting || stage is Failed);
    (rx, tx)
}

proof fn lemma_names_taken(config: ClientConfigView, events: Seq<PipeEventView>)
    ensures
        names_taken(stage_after(config, events)).0 ==> is_server_name(config.rx_sni),
        names_taken(stage_after(config, events)).1 ==> is_server_name(config.tx_sni),
    decreases events.len(),
{
    if events.len() > 0 {
        lemma_names_taken(config, events.drop_last());
    }
}

/// Whatever happens, pipes whose names are not servers' names are never ready.
pub proof fn law_ready_pipes_have_names(config: ClientConfigView, events: Seq<PipeEventView>)
    requires
        stage_after(config, events) is Ready,
    ensures
        is_server_name(config.rx_sni),
        is_server_name(config.tx_sni),
{
    lemma_names_taken(config, events);
}

/// Whether the sending stream is being made at this stage.
pub open spec fn sends(stage: PipeStageView) -> bool {
    stage is TxConnecting || stage is TxHandshaking || stage is TxRequesting || stage is TxGreeting
}

/// Whether the session is there at this stage.
pub open spec fn has_session(stage: PipeStageView) -> bool {
    match stage {
        PipeStageView::RxStarting { .. } => true,
        PipeStageView::Ready => true,
        _ => sends(stage),
    }
}

/// Whatever happens, in an attempt that has not failed the pipes count as broken
/// exactly until the session is there.
pub proof fn law_broken_until_session(config: ClientConfigView, events: Seq<PipeEventView>)
    ensures
        has_session(stage_after(config, events)) ==> !killing_after(config, events),
        !has_session(stage_after(config, events)) && !(stage_after(config, events) is Failed)
            ==> killing_after(config, events),
    decreases events.len(),
{
    if events.len() > 0 {
        law_broken_until_session(config, events.drop_last());
    }
}

/// The session that the sending stream will name, if it is known at this stage.
pub open spec fn session_of(stage: PipeStageView) -> Option<Seq<char>> {
    match stage {
        PipeStageView::RxStarting { uuid } => Some(uuid),
        PipeStageView::TxConnecting { uuid } => Some(uuid),
        PipeStageView::TxHandshaking { uuid } => Some(uuid),
        PipeStageView::TxRequesting { uuid } => Some(uuid),
        _ => None,
    }
}

/// Whatever happens, the session that the sending stream names is one that the
/// server created.
pub proof fn law_session_comes_from_server(
    config: ClientConfigView,
    events: Seq<PipeEventView>,
    uuid: Seq<char>,
)
    requires
        session_of(stage_after(config, events)) == Some(uuid),
    ensures
        events.contains(PipeEventView::Message(ServerMessageView::SessionCreated { uuid })),
    decreases events.len(),
{
    let shorter = events.drop_last();
    let session = PipeEventView::Message(ServerMessageView::SessionCreated { uuid });
    if session_of(stage_after(config, shorter)) == Some(uuid) {
        law_session_comes_from_server(config, shorter, uuid);
        let k = choose|k: int| 0 <= k < shorter.len() && shorter[k] == session;
        assert(events[k] == session);
    } else {
        assert(events[events.len() - 1] == session);
    }
}

/// An attempt that is over stays over, and nothing more is done for it.
pub proof fn law_attempt_over(
    config: ClientConfigView,
    stage: PipeStageView,
    event: PipeEventView,
)
    requires
        stage.is_over(),
    ensures
        pipe_next(config, stage, event) == (stage, PipeActionView::Nothing),
{
}

/// The server, whose separator is the blank line, reads behind the HTTP request
/// the message that opens the receiving stream, and then what was sent later.
pub proof fn law_rx_hello_is_read(lines: Seq<char>, later: Seq<u8>)
    requires
        !ends_early(lines),
    ensures
        ({
            let stream = encode_utf8(http_head(lines)) + rx_hello() + later;
            let hello = ClientMessageView::InitRx { new_session: true };
            body_start(blank_line(), 0, stream) matches Some(n) && {
                let body = stream.skip(n as int);
                &&& read_frame(body) == FrameView::Body(client_bytes(hello))
                &&& decode_client(client_bytes(hello)) == Ok::<_, Seq<char>>(hello)
                &&& body.skip((HEADER_LEN + client_bytes(hello).len()) as int) == later
            }
        }),
{
    let hello = ClientMessageView::InitRx { new_session: true };
    let head = encode_utf8(http_head(lines));
    lemma_le_bytes_len(0, 4);
    law_head_is_read_whole(lines, rx_hello() + later);
    law_client_frame_round_trip(hello, later);
    assert(head + rx_hello() + later =~= head + (rx_hello() + later));
}

/// The server, whose separator is the blank line, reads behind the HTTP request
/// the message that opens the sending stream of a session, and then what was
/// sent later.
pub proof fn law_tx_hello_is_read(lines: Seq<char>, uuid: Seq<char>, later: Seq<u8>)
    requires
        !ends_early(lines),
        encode_utf8(uuid).len() + 12 <= MAX_MESSAGE_LEN,
    ensures
        ({
            let stream = encode_utf8(http_head(lines)) + tx_hello(uuid) + later;
            let hello = ClientMessageView::InitTx { uuid };
            body_start(blank_line(), 0, stream) matches Some(n) && {
                let body = stream.skip(n as int);
                &&& read_frame(body) == FrameView::Body(client_bytes(hello))
                &&& decode_client(client_bytes(hello)) == Ok::<_, Seq<char>>(hello)
                &&& body.skip((HEADER_LEN + client_bytes(hello).len()) as int) == later
            }
        }),
{
    let hello = ClientMessageView::InitTx { uuid };
    let head = encode_utf8(http_head(lines));
    lemma_le_bytes_len(1, 4);
    lemma_le_bytes_len(encode_utf8(uuid).len(), 8);
    law_head_is_read_whole(lines, tx_hello(uuid) + later);
    law_client_frame_round_trip(hello, later);
    assert(head + tx_hello(uuid) + later =~= head + (tx_hello(uuid) + later));
}

/// What the client asks for is what the server opens: under the same identifier,
/// at the same place, up to the flow label and scope of its address.
pub proof fn law_request_opens_connection(addr: AddressView, id: usize)
    ensures
        opens(connection_request(addr, id).as_received()) == Some(id),
        match addr {
            AddressView::SocketAddress(a) => connection_request(addr, id).as_received() == (
            ClientMessageView::NewConnectionWithIp { addr: a.as_received(), id }),
            AddressView::DomainAddress(domain, port) => connection_request(addr, id).as_received()
                == (ClientMessageView::NewConnectionWithDomain { domain, port, id }),
        },
{
}

/// A connection that the client asks for is opened for that client, and the data
/// that follows is handed to it: the server connects to the place, cuts off the
/// channel that the identifier had before, looks for the session again, and gives
/// the data to the channel of the connection.
pub proof fn law_data_reaches_connection(
    sessions: Map<Seq<char>, usize>,
    http_response: Seq<char>,
    uuid: Seq<char>,
    senders: Map<usize, usize>,
    addr: AddressView,
    id: usize,
    channel: usize,
    data: Seq<u8>,
    other_uuid: Seq<char>,
    other_channel: usize,
)
    requires
        sessions.contains_key(uuid),
    ensures
        ({
            let client = sessions[uuid];
            let asked = EventView::Message(connection_request(addr, id).as_received());
            let sent = EventView::Message(ClientMessageView::Data { id, data });
            let step = |stage: StageView, event: EventView, channel: usize|
                handle_step(sessions, http_response, stage, event, other_uuid, channel);
            let connected = step(StageView::Tx { uuid, senders, client }, asked, channel);
            let waiting = step(connected.0, EventView::Done, other_channel);
            &&& connected.1 == ActionView::Connect {
                id,
                target: addr.as_received(),
                client,
                replaced: senders.get(id),
            }
            &&& waiting.1 == ActionView::ReadMessage
            &&& step(waiting.0, sent, other_channel).1 == ActionView::Deliver { channel, data }
        }),
{
}

/// Data reaches the server unchanged, under the identifier of its connection, if
/// it was read with a buffer of at most 99980 bytes; more is refused as too long.
pub proof fn law_relayed_data_arrives(id: usize, data: Seq<u8>, later: Seq<u8>)
    requires
        data.len() + 20 <= usize::MAX,
    ensures
        ({
            let body = client_bytes(ClientMessageView::Data { id, data });
            let stream = frame(body) + later;
            if data.len() <= MAX_MESSAGE_LEN - 20 {
                &&& read_frame(stream) == FrameView::Body(body)
                &&& decode_client(body) == Ok::<_, Seq<char>>(ClientMessageView::Data { id, data })
                &&& stream.skip((HEADER_LEN + body.len()) as int) == later
            } else {
                read_frame(stream) == FrameView::TooLong(body.len())
            }
        }),
{
    let m = ClientMessageView::Data { id, data };
    law_data_message_len(id, data);
    if data.len() <= MAX_MESSAGE_LEN - 20 {
        law_client_frame_round_trip(m, later);
    } else {
        law_long_frame_refused(client_bytes(m), later);
    }
}

} // verus!
