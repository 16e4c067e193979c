//! What one step of the server or the client does, as whoever runs it sees it.

use vstd::prelude::*;

use crate::client::{
    is_server_name, Admission, Client, PipeAction, PipeEvent, PipeStage, Relay, RelayStep, RxAction,
};
use crate::gate::Gate;
use crate::instance::Stats;
use crate::laws::streams::law_body_starts_once_matched;
use crate::message::{ClientMessage, ServerMessage};
use crate::server::{Action, Event, HandleError, Opening, Server, Stage, TxAction, TxSession};
use crate::stream::{law_separator_precedes_body, spells, wait_for_body, BodyWait};
use crate::table::ConnectionTable;

verus! {

/// A step of the server: a failure closes the stream, one that is closed stays so,
/// and neither changes sessions or counters. The configuration always stays.
pub proof fn law_server_step_on_failure(
    server: &mut Server,
    stats: &mut Stats,
    stage: Stage,
    event: Event,
    uuid: String,
    channel: usize,
    r: (Stage, Action),
)
    requires
        stage.well_formed(),
        call_ensures(Server::handle_as, (server, stats, stage, event, uuid, channel), r),
    ensures
        final(server).config == old(server).config,
        final(stats).client_handled_tcp_conn == old(stats).client_handled_tcp_conn,
        event is Failed && !(stage is Over) ==> r.0 is Over && (r.1 matches Action::Close(Some(e))
            && e is Failed),
        stage is Over ==> r.0 is Over && r.1 is Nothing,
        event is Failed || stage is Over ==> final(server).send_to_client@
            == old(server).send_to_client@,
        event is Failed || stage is Over ==> final(stats).server_handled_tcp_conn
            == old(stats).server_handled_tcp_conn,
{
}

/// A step of the server on a stream that it receives on: data goes to its
/// connection's channel, a request opens a connection for the stream's client and is
/// counted, and the sessions stay.
pub proof fn law_server_step_on_message(
    server: &mut Server,
    stats: &mut Stats,
    session: TxSession,
    client: usize,
    m: ClientMessage,
    uuid: String,
    channel: usize,
    r: (Stage, Action),
)
    requires
        call_ensures(
            Server::handle_as,
            (server, stats, Stage::Tx { session, client }, Event::Message(m), uuid, channel),
            r,
        ),
    ensures
        final(server).send_to_client@ == old(server).send_to_client@,
        m matches ClientMessage::Data { id, data } ==> match session.connection_senders@.get(id) {
            Some(to) => (r.1 matches Action::Deliver { channel: c, data: d } && c == to && d@
                == data@) && r.0 is Tx,
            None => (r.1 matches Action::Close(Some(e)) && e is NoSender) && r.0 is Over,
        },
        m matches ClientMessage::NewConnectionWithDomain { domain, port, id } ==> (r.1 matches
            Action::Connect { id: to, client: c, replaced, .. } && to == id && c == client
            && replaced == session.connection_senders@.get(id)),
        m matches ClientMessage::NewConnectionWithIp { addr, id } ==> (r.1 matches Action::Connect {
            id: to,
            client: c,
            replaced,
            ..
        } && to == id && c == client && replaced == session.connection_senders@.get(id)),
{
}

/// The first message of a stream: a session is made for `InitRx`, under the
/// identifier and with the channel at hand, and for nothing else.
pub proof fn law_opening(
    server: &mut Server,
    init: ClientMessage,
    uuid: String,
    channel: usize,
    r: Result<Opening, HandleError>,
)
    requires
        call_ensures(Server::open_as, (server, init, uuid, channel), r),
    ensures
        final(server).config == old(server).config,
        init is InitRx ==> (r matches Ok(Opening::Rx { uuid: named, replaced, .. }) && named@
            == uuid@ && replaced == old(server).send_to_client@.get(uuid@)),
        init is InitRx ==> final(server).send_to_client@ == old(server).send_to_client@.insert(
            uuid@,
            channel,
        ),
        init matches ClientMessage::InitTx { uuid: wanted } ==> (r matches Ok(Opening::Tx(s))
            && s.uuid@ == wanted@ && s.connection_senders@ == Map::<usize, usize>::empty()),
        !(init is InitRx) ==> final(server).send_to_client@ == old(server).send_to_client@,
        !(init is InitRx) && !(init is InitTx) ==> (r matches Err(
            HandleError::InvalidFirstMessage(m),
        ) && m == init),
{
}

/// A session's client is found as long as there is the session.
pub proof fn law_client_is_found(
    session: &TxSession,
    server: &Server,
    r: Result<usize, HandleError>,
)
    requires
        call_ensures(TxSession::client_channel, (session, server), r),
    ensures
        server.send_to_client@.contains_key(session.uuid@) ==> (r matches Ok(c) && c
            == server.send_to_client@[session.uuid@]),
        !server.send_to_client@.contains_key(session.uuid@) ==> (r matches Err(
            HandleError::UnknownUuid(uuid),
        ) && uuid@ == session.uuid@),
{
}

/// A step of the client's pipes: a failure ends the attempt, an unexpected message
/// too, the session makes the pipes whole, and nothing but that changes the client.
pub proof fn law_pipe_steps(
    client: &mut Client,
    stage: PipeStage,
    event: PipeEvent,
    named: bool,
    r: (PipeStage, PipeAction),
)
    requires
        call_ensures(Client::advance_pipes_as, (client, stage, event, named), r),
    ensures
        event is Failed && !(stage is Ready) && !(stage is Failed) ==> r.0 is Failed && (
        r.1 matches PipeAction::GiveUp(e) && e is Failed),
        stage is Ready ==> r.0 is Ready && r.1 is Nothing,
        stage is Failed ==> r.0 is Failed && r.1 is Nothing,
        stage is RxSession ==> (event matches PipeEvent::Message(
            ServerMessage::SessionCreated { uuid },
        ) ==> (r.0 matches PipeStage::RxStarting { uuid: u } && u@ == uuid@)
            && !final(client).killing),
        !(stage is RxSession) ==> final(client).killing == old(client).killing,
        final(client).config == old(client).config,
        final(client).next_conn_id == old(client).next_conn_id,
        final(client).gate == old(client).gate,
{
}

/// The same where the configured names are looked at.
pub proof fn law_pipe_steps_with_names(
    client: &mut Client,
    stage: PipeStage,
    event: PipeEvent,
    r: (PipeStage, PipeAction),
)
    requires
        call_ensures(Client::advance_pipes, (client, stage, event), r),
    ensures
        event is Failed && !(stage is Ready) && !(stage is Failed) ==> r.0 is Failed && (
        r.1 matches PipeAction::GiveUp(e) && e is Failed),
        stage is RxConnecting && event is Done ==> (r.0 is RxHandshaking
            <==> is_server_name(old(client).config.rx_sni@)),
        stage is TxConnecting && event is Done ==> (r.0 is TxHandshaking
            <==> is_server_name(old(client).config.tx_sni@)),
        final(client).config == old(client).config,
{
}

/// Who comes in: nobody while the way is shut, one to make broken pipes anew, and
/// otherwise everybody.
pub proof fn law_entering(client: &mut Client, r: Admission)
    requires
        call_ensures(Client::enter, (client,), r),
    ensures
        r == Admission::Wait <==> !old(client).gate.is_open,
        r == Admission::Restart <==> old(client).gate.is_open && old(client).killing,
        final(client).killing <==> old(client).killing && !old(client).gate.is_open,
        final(client).gate == old(client).gate,
        final(client).config == old(client).config,
        final(client).next_conn_id == old(client).next_conn_id,
{
}

/// A broken pipe, a shutdown and a new attempt each change one thing of a client.
pub proof fn law_one_thing_changes(
    broken: &mut Client,
    shut: &mut Client,
    again: &mut Client,
    begun: (PipeStage, PipeAction),
)
    requires
        call_ensures(Client::pipe_broken, (broken,), ()),
        call_ensures(Client::shut_down, (shut,), ()),
        call_ensures(Client::recreate_pipes, (again,), begun),
    ensures
        final(broken).killing && final(broken).gate == old(broken).gate,
        final(broken).next_conn_id == old(broken).next_conn_id,
        final(broken).config == old(broken).config,
        !final(shut).gate.is_open && final(shut).killing == old(shut).killing,
        final(shut).next_conn_id == old(shut).next_conn_id,
        final(shut).config == old(shut).config,
        final(again).killing && final(again).gate == old(again).gate && begun.0 is Killing
            && begun.1 is Kill && final(again).config == old(again).config,
{
}

/// What comes from the server goes to the channel of its connection, whole, unless
/// the pipes are broken.
pub proof fn law_message_comes_in(
    client: &Client,
    channels: &ConnectionTable,
    msg: ServerMessage,
    r: RxAction,
)
    requires
        call_ensures(Client::receive, (client, channels, msg), r),
    ensures
        msg matches ServerMessage::Data { id, data } ==> {
            &&& channels@.contains_key(id) && !client.killing ==> (r matches RxAction::Deliver {
                channel,
                data: d,
            } && channel == channels@[id] && d@ == data@)
            &&& channels@.contains_key(id) && client.killing ==> r is Stop
            &&& !channels@.contains_key(id) ==> (r matches RxAction::NoListener { id: i } && i
                == id)
        },
        !(msg is Data) ==> (r matches RxAction::Unexpected(m) && m@ == msg@),
{
}

/// Counters go up one by one; the way is opened and shut as it is told; a relay that
/// cannot send is broken.
pub proof fn law_told_to_change(
    a: &mut Stats,
    b: &mut Stats,
    gate: &mut Gate,
    val: bool,
    relay: &mut Relay,
    step: RelayStep,
)
    requires
        call_ensures(Stats::count_client_conn, (a,), ()),
        call_ensures(Stats::count_server_conn, (b,), ()),
        call_ensures(Gate::set_open, (gate, val), ()),
        call_ensures(Relay::send_failed, (relay,), step),
    ensures
        old(a).client_handled_tcp_conn < usize::MAX ==> final(a).client_handled_tcp_conn
            == old(a).client_handled_tcp_conn + 1,
        final(a).server_handled_tcp_conn == old(a).server_handled_tcp_conn,
        old(b).server_handled_tcp_conn < usize::MAX ==> final(b).server_handled_tcp_conn
            == old(b).server_handled_tcp_conn + 1,
        final(b).client_handled_tcp_conn == old(b).client_handled_tcp_conn,
        final(gate).is_open == val,
        final(relay).broken_pipe && final(relay).id == old(relay).id && step is Stop,
{
}

/// A byte fed to a wait counts if it continues the separator, and otherwise starts
/// over; with the last one the separator is reached.
pub proof fn law_byte_is_fed(wait: &mut BodyWait, byte: u8, reached: bool)
    requires
        old(wait).matched_idx < old(wait).target@.len(),
        call_ensures(BodyWait::feed, (wait, byte), reached),
    ensures
        ({
            let fits = byte as char == old(wait).target@[old(wait).matched_idx as int];
            let last = old(wait).matched_idx + 1 == old(wait).target@.len();
            &&& reached <==> fits && last
            &&& fits && !last ==> final(wait).matched_idx == old(wait).matched_idx + 1
            &&& !fits || last ==> final(wait).matched_idx == 0
            &&& final(wait).target@ == old(wait).target@
        }),
{
}

/// The body is found right behind the separator.
pub proof fn law_body_is_found(target: &Vec<char>, bytes: &[u8], r: Option<usize>)
    requires
        target@.len() > 0,
        call_ensures(wait_for_body, (target, bytes), r),
    ensures
        r matches Some(n) ==> target@.len() <= n <= bytes@.len() && spells(
            bytes@.subrange(n - target@.len(), n as int),
            target@,
        ),
{
    law_body_starts_once_matched(target@, 0, bytes@);
    if r is Some {
        law_separator_precedes_body(target@, bytes@);
    }
}

/// A message that a session receives: what a request replaces is reported, what is
/// for no connection is refused, and the session keeps its name.
pub proof fn law_session_receives(
    session: &mut TxSession,
    stats: &mut Stats,
    msg: ClientMessage,
    channel: usize,
    r: Result<TxAction, HandleError>,
)
    requires
        call_ensures(TxSession::receive, (session, stats, msg, channel), r),
    ensures
        final(session).uuid == old(session).uuid,
        msg is Data ==> final(session).connection_senders@ == old(session).connection_senders@,
        msg matches ClientMessage::Data { id, data } ==> {
            let senders = old(session).connection_senders@;
            &&& senders.contains_key(id) ==> (r matches Ok(
                TxAction::Deliver { channel: c, data: d },
            ) && c == senders[id] && d@ == data@)
            &&& !senders.contains_key(id) ==> (r matches Err(e) && e is NoSender)
        },
        msg matches ClientMessage::NewConnectionWithIp { id, .. } ==> r is Ok
            && final(session).connection_senders@
            == old(session).connection_senders@.insert(id, channel),
        msg matches ClientMessage::NewConnectionWithDomain { id, .. } ==> r is Ok
            && final(session).connection_senders@
            == old(session).connection_senders@.insert(id, channel),
{
}

} // verus!
