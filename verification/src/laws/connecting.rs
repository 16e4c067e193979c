//! What the client does with its pipes and connections.

use vstd::prelude::*;
use vstd::utf8::encode_utf8;

use crate::client::{
    admission, brings_session, connection_request, is_server_name, killing_once_entered, next_turn,
    pipe_next, pipe_step, rx_hello, rx_step, stage_named, tls_request, tx_hello, Admission, Client,
    ClientPool, PipeAction, PipeActionView, PipeError, PipeErrorView, PipeEvent, PipeEventView,
    PipeStage, PipeStageView, RxAction, RxActionView, TlsRequest, RETRY_SECS,
};
use crate::config::ClientConfigView;
use crate::laws::messages::law_frame_layout;
use crate::message::{
    client_bytes, decode_client, law_client_message_round_trip, AddressView, ClientMessageView,
    ServerMessageView, SocketAddrView,
};
use crate::stream::{law_frame_read, read_frame, FrameView, MAX_MESSAGE_LEN};
use crate::wire::{le_value, lemma_le_bytes_len};

verus! {

// ---------------------------------------------------------------------------
// Views
// ---------------------------------------------------------------------------

/// The view of a handshake keeps all of it.
pub proof fn law_tls_request_view(r: TlsRequest)
    ensures
        r@.sni == r.sni@,
        r@.insecure == r.insecure,
{
}

/// The view of a reason keeps all of it.
pub proof fn law_pipe_error_view(e: PipeError)
    ensures
        match e {
            PipeError::InvalidName => e@ == PipeErrorView::InvalidName,
            PipeError::UnexpectedMessage(m) => e@ == PipeErrorView::UnexpectedMessage(m@),
            PipeError::Message(x) => e@ == PipeErrorView::Message(x),
            PipeError::Failed => e@ == PipeErrorView::Failed,
        },
{
}

/// The view of a stage keeps all of it.
pub proof fn law_pipe_stage_view(s: PipeStage)
    ensures
        match s {
            PipeStage::Killing => s@ == PipeStageView::Killing,
            PipeStage::RxConnecting => s@ == PipeStageView::RxConnecting,
            PipeStage::RxHandshaking => s@ == PipeStageView::RxHandshaking,
            PipeStage::RxRequesting => s@ == PipeStageView::RxRequesting,
            PipeStage::RxGreeting => s@ == PipeStageView::RxGreeting,
            PipeStage::RxBody => s@ == PipeStageView::RxBody,
            PipeStage::RxSession => s@ == PipeStageView::RxSession,
            PipeStage::RxStarting { uuid } => s@ == (PipeStageView::RxStarting { uuid: uuid@ }),
            PipeStage::TxConnecting { uuid } => s@ == (PipeStageView::TxConnecting { uuid: uuid@ }),
            PipeStage::TxHandshaking { uuid } => s@ == (PipeStageView::TxHandshaking {
                uuid: uuid@,
            }),
            PipeStage::TxRequesting { uuid } => s@ == (PipeStageView::TxRequesting { uuid: uuid@ }),
            PipeStage::TxGreeting => s@ == PipeStageView::TxGreeting,
            PipeStage::Ready => s@ == PipeStageView::Ready,
            PipeStage::Failed => s@ == PipeStageView::Failed,
        },
{
}

/// The view of an event keeps all of it.
pub proof fn law_pipe_event_view(e: PipeEvent)
    ensures
        match e {
            PipeEvent::Done => e@ == PipeEventView::Done,
            PipeEvent::Message(m) => e@ == PipeEventView::Message(m@),
            PipeEvent::Failed => e@ == PipeEventView::Failed,
        },
{
}

/// The view of an action keeps all of it.
pub proof fn law_pipe_action_view(a: PipeAction)
    ensures
        match a {
            PipeAction::Kill => a@ == PipeActionView::Kill,
            PipeAction::Connect(server) => a@ == PipeActionView::Connect(server@),
            PipeAction::Handshake(r) => a@ == PipeActionView::Handshake(r@),
            PipeAction::Send(bytes) => a@ == PipeActionView::Send(bytes@),
            PipeAction::WaitForBody => a@ == PipeActionView::WaitForBody,
            PipeAction::ReadMessage => a@ == PipeActionView::ReadMessage,
            PipeAction::StartReceiver => a@ == PipeActionView::StartReceiver,
            PipeAction::Install => a@ == PipeActionView::Install,
            PipeAction::GiveUp(e) => a@ == PipeActionView::GiveUp(e@),
            PipeAction::Nothing => a@ == PipeActionView::Nothing,
        },
{
}

/// The view of what is done with a message keeps all of it.
pub proof fn law_rx_action_view(a: RxAction)
    ensures
        match a {
            RxAction::Deliver { channel, data } => a@ == (RxActionView::Deliver {
                channel,
                data: data@,
            }),
            RxAction::Stop => a@ == RxActionView::Stop,
            RxAction::NoListener { id } => a@ == (RxActionView::NoListener { id }),
            RxAction::Unexpected(m) => a@ == RxActionView::Unexpected(m@),
        },
{
}

// ---------------------------------------------------------------------------
// Who is let in
// ---------------------------------------------------------------------------

/// What stays where only one thing may change.
pub proof fn law_all_else_stays(a: Client, b: Client)
    ensures
        a.same_but_killing(b) <==> a.config == b.config && a.next_conn_id == b.next_conn_id
            && a.gate == b.gate,
        a.same_but_next_id(b) <==> a.config == b.config && a.gate == b.gate && a.killing
            == b.killing,
{
}

/// Connections are held back exactly while the way is shut; otherwise broken pipes
/// are made anew, by one connection, and whole ones are used.
pub proof fn law_admission(is_open: bool, killing: bool)
    ensures
        admission(is_open, killing) == Admission::Wait <==> !is_open,
        admission(is_open, killing) == Admission::Restart <==> is_open && killing,
        admission(is_open, killing) == Admission::Proceed <==> is_open && !killing,
        killing_once_entered(is_open, killing) <==> killing && !is_open,
{
}

/// A turn is one of the pool's, and the next comes one later, round the pool.
pub proof fn law_turns_go_round(size: nat, turn: nat, pool: ClientPool)
    requires
        turn < size,
    ensures
        next_turn(size, turn) < size,
        next_turn(size, turn) == (turn + 1) % size,
        pool.well_formed() <==> pool.next_client_idx < pool.size,
{
    if turn + 1 < size {
        assert((turn + 1) % size == turn + 1) by (nonlinear_arith)
            requires
                0 <= turn,
                turn + 1 < size,
        ;
    } else {
        assert((turn + 1) % size == 0) by (nonlinear_arith)
            requires
                0 < size,
                turn + 1 == size,
        ;
    }
}

// ---------------------------------------------------------------------------
// Making the pipes
// ---------------------------------------------------------------------------

/// A failure ends the attempt, at whatever stage it comes.
pub proof fn law_failure_ends_attempt(config: ClientConfigView, stage: PipeStageView, named: bool)
    requires
        !(stage is Ready) && !(stage is Failed),
    ensures
        pipe_next(config, stage, PipeEventView::Failed) == (
            PipeStageView::Failed,
            PipeActionView::GiveUp(PipeErrorView::Failed),
        ),
        pipe_step(config, stage, PipeEventView::Failed, named) == (
            PipeStageView::Failed,
            PipeActionView::GiveUp(PipeErrorView::Failed),
        ),
{
}

/// Once the pipes stand, or could not be made, nothing happens any more.
pub proof fn law_nothing_follows_the_end(
    config: ClientConfigView,
    event: PipeEventView,
    named: bool,
)
    ensures
        pipe_step(config, PipeStageView::Ready, event, named) == (
            PipeStageView::Ready,
            PipeActionView::Nothing,
        ),
        pipe_step(config, PipeStageView::Failed, event, named) == (
            PipeStageView::Failed,
            PipeActionView::Nothing,
        ),
        PipeStageView::Ready.is_over() && PipeStageView::Failed.is_over(),
        forall|stage: PipeStageView| #[trigger]
            stage.is_over() ==> stage is Ready || stage is Failed,
{
}

/// A message is taken only where the session is waited for, and there only a message
/// is; at other stages either changes nothing.
pub proof fn law_foreign_pipe_events_change_nothing(
    config: ClientConfigView,
    stage: PipeStageView,
    m: ServerMessageView,
    named: bool,
)
    ensures
        !(stage is RxSession) ==> pipe_step(config, stage, PipeEventView::Message(m), named) == (
            stage,
            PipeActionView::Nothing,
        ),
        pipe_step(config, PipeStageView::RxSession, PipeEventView::Done, named) == (
            PipeStageView::RxSession,
            PipeActionView::Nothing,
        ),
{
}

/// Both streams go to the configured server, and not on without a server's name;
/// the handshake is made under the stream's own name, and with any certificate only
/// where that is configured.
pub proof fn law_streams_are_connected(config: ClientConfigView, uuid: Seq<char>)
    ensures
        pipe_next(config, PipeStageView::Killing, PipeEventView::Done) == (
            PipeStageView::RxConnecting,
            PipeActionView::Connect(config.outbound_addr),
        ),
        is_server_name(config.rx_sni) ==> ({
            let step = pipe_next(config, PipeStageView::RxConnecting, PipeEventView::Done);
            &&& step.0 == PipeStageView::RxHandshaking
            &&& step.1 matches PipeActionView::Handshake(r) && r.sni == config.rx_sni && r.insecure
                == config.insecure_tls
        }),
        !is_server_name(config.rx_sni) ==> pipe_next(
            config,
            PipeStageView::RxConnecting,
            PipeEventView::Done,
        ) == (PipeStageView::Failed, PipeActionView::GiveUp(PipeErrorView::InvalidName)),
        pipe_next(config, PipeStageView::RxStarting { uuid }, PipeEventView::Done) == (
            PipeStageView::TxConnecting { uuid },
            PipeActionView::Connect(config.outbound_addr),
        ),
        is_server_name(config.tx_sni) ==> ({
            let step = pipe_next(config, PipeStageView::TxConnecting { uuid }, PipeEventView::Done);
            &&& step.0 == (PipeStageView::TxHandshaking { uuid })
            &&& step.1 matches PipeActionView::Handshake(r) && r.sni == config.tx_sni && r.insecure
                == config.insecure_tls
        }),
        !is_server_name(config.tx_sni) ==> pipe_next(
            config,
            PipeStageView::TxConnecting { uuid },
            PipeEventView::Done,
        ) == (PipeStageView::Failed, PipeActionView::GiveUp(PipeErrorView::InvalidName)),
{
}

/// The names that are looked at are those of the stream that is being connected;
/// what comes of it is decided by that alone.
pub proof fn law_names_belong_to_streams(config: ClientConfigView, uuid: Seq<char>, sni: Seq<char>)
    ensures
        stage_named(config, PipeStageView::RxConnecting) <==> is_server_name(config.rx_sni),
        stage_named(config, PipeStageView::TxConnecting { uuid }) <==> is_server_name(
            config.tx_sni,
        ),
        tls_request(config, sni).sni == sni,
        tls_request(config, sni).insecure == config.insecure_tls,
        pipe_step(config, PipeStageView::RxConnecting, PipeEventView::Done, true) == (
            PipeStageView::RxHandshaking,
            PipeActionView::Handshake(tls_request(config, config.rx_sni)),
        ),
        pipe_step(config, PipeStageView::TxConnecting { uuid }, PipeEventView::Done, true) == (
            PipeStageView::TxHandshaking { uuid },
            PipeActionView::Handshake(tls_request(config, config.tx_sni)),
        ),
        pipe_step(config, PipeStageView::RxConnecting, PipeEventView::Done, false) == (
            PipeStageView::Failed,
            PipeActionView::GiveUp(PipeErrorView::InvalidName),
        ),
        pipe_step(config, PipeStageView::TxConnecting { uuid }, PipeEventView::Done, false) == (
            PipeStageView::Failed,
            PipeActionView::GiveUp(PipeErrorView::InvalidName),
        ),
{
}

/// Whether a name is a server's matters only where a stream has just been connected.
pub proof fn law_names_matter_only_once_connected(
    config: ClientConfigView,
    stage: PipeStageView,
    event: PipeEventView,
)
    requires
        !(event is Done) || !(stage is RxConnecting || stage is TxConnecting),
    ensures
        pipe_step(config, stage, event, true) == pipe_step(config, stage, event, false),
        pipe_next(config, stage, event) == pipe_step(config, stage, event, true),
{
}

/// On both streams the whole configured request is sent first.
pub proof fn law_request_is_sent_first(config: ClientConfigView, uuid: Seq<char>)
    ensures
        pipe_next(config, PipeStageView::RxHandshaking, PipeEventView::Done) == (
            PipeStageView::RxRequesting,
            PipeActionView::Send(encode_utf8(config.http_request)),
        ),
        pipe_next(config, PipeStageView::TxHandshaking { uuid }, PipeEventView::Done) == (
            PipeStageView::TxRequesting { uuid },
            PipeActionView::Send(encode_utf8(config.http_request)),
        ),
{
}

/// Then the receiving stream asks for a new session, and the sending one names the
/// session that it is for: the server reads just that, and then what is sent later.
pub proof fn law_hellos_are_sent(config: ClientConfigView, uuid: Seq<char>, later: Seq<u8>)
    requires
        encode_utf8(uuid).len() + 12 <= u64::MAX,
    ensures
        ({
            let rx = pipe_next(config, PipeStageView::RxRequesting, PipeEventView::Done);
            let tx = pipe_next(config, PipeStageView::TxRequesting { uuid }, PipeEventView::Done);
            &&& rx.0 == PipeStageView::RxGreeting
            &&& tx.0 == PipeStageView::TxGreeting
            &&& rx.1 == PipeActionView::Send(rx_hello())
            &&& tx.1 == PipeActionView::Send(tx_hello(uuid))
        }),
        rx_hello().len() == 13,
        read_frame(rx_hello() + later) == FrameView::Body(rx_hello().skip(8)),
        (rx_hello() + later).skip(13) == later,
        decode_client(rx_hello().skip(8)) == Ok::<_, Seq<char>>(
            ClientMessageView::InitRx { new_session: true },
        ),
        le_value(tx_hello(uuid).take(8)) == tx_hello(uuid).len() - 8,
        decode_client(tx_hello(uuid).skip(8)) == Ok::<_, Seq<char>>(
            ClientMessageView::InitTx { uuid },
        ),
        encode_utf8(uuid).len() + 12 <= MAX_MESSAGE_LEN ==> read_frame(tx_hello(uuid) + later)
            == FrameView::Body(tx_hello(uuid).skip(8)),
{
    let init = ClientMessageView::InitRx { new_session: true };
    let join = ClientMessageView::InitTx { uuid };
    lemma_le_bytes_len(0, 4);
    lemma_le_bytes_len(1, 4);
    lemma_le_bytes_len(encode_utf8(uuid).len(), 8);
    law_frame_layout(client_bytes(init));
    law_frame_layout(client_bytes(join));
    law_client_message_round_trip(init, Seq::empty());
    law_client_message_round_trip(join, Seq::empty());
    assert(client_bytes(init) + Seq::empty() =~= client_bytes(init));
    assert(client_bytes(join) + Seq::empty() =~= client_bytes(join));
    law_frame_read(client_bytes(init), later);
    assert((rx_hello() + later).skip(13) =~= later);
    if client_bytes(join).len() <= MAX_MESSAGE_LEN {
        law_frame_read(client_bytes(join), later);
    }
}

/// The receiving stream then waits for the response and the session; with the
/// session it starts to receive, for that session the other stream is made, and any
/// other message ends the attempt and is named. The sending stream stands once its
/// message is sent.
pub proof fn law_session_joins_pipes(
    config: ClientConfigView,
    uuid: Seq<char>,
    m: ServerMessageView,
)
    ensures
        pipe_next(config, PipeStageView::RxGreeting, PipeEventView::Done) == (
            PipeStageView::RxBody,
            PipeActionView::WaitForBody,
        ),
        pipe_next(config, PipeStageView::RxBody, PipeEventView::Done) == (
            PipeStageView::RxSession,
            PipeActionView::ReadMessage,
        ),
        pipe_next(
            config,
            PipeStageView::RxSession,
            PipeEventView::Message(ServerMessageView::SessionCreated { uuid }),
        ) == (PipeStageView::RxStarting { uuid }, PipeActionView::StartReceiver),
        !(m is SessionCreated) ==> pipe_next(
            config,
            PipeStageView::RxSession,
            PipeEventView::Message(m),
        ) == (
            PipeStageView::Failed,
            PipeActionView::GiveUp(PipeErrorView::UnexpectedMessage(m)),
        ),
        pipe_next(config, PipeStageView::TxGreeting, PipeEventView::Done) == (
            PipeStageView::Ready,
            PipeActionView::Install,
        ),
{
}

/// The pipes are whole again with the session's message, where it is waited for, and
/// with nothing else.
pub proof fn law_session_makes_pipes_whole(stage: PipeStageView, event: PipeEventView)
    ensures
        brings_session(stage, event) <==> stage is RxSession && (event matches
            PipeEventView::Message(m) && m is SessionCreated),
{
}

/// How long a failed attempt waits before the next.
pub proof fn law_retry()
    ensures
        RETRY_SECS == 5,
{
}

// ---------------------------------------------------------------------------
// Connections
// ---------------------------------------------------------------------------

/// Data from the server goes, whole, to the channel of its connection; with broken
/// pipes receiving stops instead. Data for nobody, and all other messages, are only
/// named.
pub proof fn law_data_comes_back(
    killing: bool,
    channels: Map<usize, usize>,
    id: usize,
    data: Seq<u8>,
    m: ServerMessageView,
)
    ensures
        ({
            let step = rx_step(killing, channels, ServerMessageView::Data { id, data });
            &&& channels.contains_key(id) && !killing ==> step == (RxActionView::Deliver {
                channel: channels[id],
                data,
            })
            &&& channels.contains_key(id) && killing ==> step == RxActionView::Stop
            &&& !channels.contains_key(id) ==> step == (RxActionView::NoListener { id })
        }),
        !(m is Data) ==> rx_step(killing, channels, m) == RxActionView::Unexpected(m),
{
}

/// The server is asked for just the place that the connection wants, under its own
/// identifier.
pub proof fn law_place_is_asked_for(
    addr: SocketAddrView,
    domain: Seq<char>,
    port: u16,
    id: usize,
)
    ensures
        connection_request(AddressView::SocketAddress(addr), id) == (
        ClientMessageView::NewConnectionWithIp { addr, id }),
        connection_request(AddressView::DomainAddress(domain, port), id) == (
        ClientMessageView::NewConnectionWithDomain { domain, port, id }),
{
}

} // verus!
