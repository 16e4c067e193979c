//! What the server does with its streams.

use vstd::prelude::*;
use vstd::utf8::encode_utf8;

use crate::laws::messages::law_frame_layout;
use crate::message::{
    decode_server, frame, law_server_message_round_trip, server_bytes, AddressView,
    ClientMessageView, ServerMessageView, SocketAddrView,
};
use crate::server::{
    count_of, handle_step, makes_session, opens, rx_greeting, senders_step, sessions_of,
    sessions_step, Action, ActionView, Event, EventView, HandleError, HandleErrorView, Stage,
    StageView, UPSTREAM_BUFFER,
};
use crate::stream::{law_frame_read, read_frame, FrameView, MAX_MESSAGE_LEN};
use crate::table::CHANNEL_CAPACITY;
use crate::wire::{le_value, lemma_le_bytes_len};

verus! {

// ---------------------------------------------------------------------------
// Views
// ---------------------------------------------------------------------------

/// The view of a reason keeps all of it.
pub proof fn law_handle_error_view(e: HandleError)
    ensures
        match e {
            HandleError::InvalidFirstMessage(m) => e@ == HandleErrorView::InvalidFirstMessage(m@),
            HandleError::UnknownUuid(uuid) => e@ == HandleErrorView::UnknownUuid(uuid@),
            HandleError::NoSender => e@ == HandleErrorView::NoSender,
            HandleError::UnexpectedMessage(m) => e@ == HandleErrorView::UnexpectedMessage(m@),
            HandleError::LookupFailed(domain, port) => e@ == HandleErrorView::LookupFailed(
                domain@,
                port,
            ),
            HandleError::Message(x) => e@ == HandleErrorView::Message(x),
            HandleError::Failed => e@ == HandleErrorView::Failed,
        },
{
}

/// The view of a stage keeps all of it.
pub proof fn law_stage_view(s: Stage)
    ensures
        match s {
            Stage::Head(wait) => s@ == (StageView::Head {
                target: wait.target@,
                matched: wait.matched_idx as nat,
            }),
            Stage::First => s@ == StageView::First,
            Stage::Rx => s@ == StageView::Rx,
            Stage::Tx { session, client } => s@ == (StageView::Tx {
                uuid: session.uuid@,
                senders: session.connection_senders@,
                client,
            }),
            Stage::Over => s@ == StageView::Over,
        },
        s.well_formed() <==> match s {
            Stage::Head(wait) => wait.matched_idx < wait.target@.len(),
            _ => true,
        },
{
}

/// The view of an event keeps all of it.
pub proof fn law_event_view(e: Event)
    ensures
        match e {
            Event::Byte(b) => e@ == EventView::Byte(b),
            Event::Message(m) => e@ == EventView::Message(m@),
            Event::Outgoing(m) => e@ == EventView::Outgoing(m@),
            Event::Ended => e@ == EventView::Ended,
            Event::Done => e@ == EventView::Done,
            Event::Failed => e@ == EventView::Failed,
        },
{
}

/// The view of an action keeps all of it.
pub proof fn law_action_view(a: Action)
    ensures
        match a {
            Action::ReadByte => a@ == ActionView::ReadByte,
            Action::ReadMessage => a@ == ActionView::ReadMessage,
            Action::Send(bytes) => a@ == ActionView::Send(bytes@),
            Action::Greet { greeting, replaced } => a@ == (ActionView::Greet {
                greeting: greeting@,
                replaced,
            }),
            Action::AwaitOutgoing => a@ == ActionView::AwaitOutgoing,
            Action::Connect { id, target, client, replaced } => a@ == (ActionView::Connect {
                id,
                target: target@,
                client,
                replaced,
            }),
            Action::Deliver { channel, data } => a@ == (ActionView::Deliver {
                channel,
                data: data@,
            }),
            Action::Close(Some(e)) => a@ == ActionView::Close(Some(e@)),
            Action::Close(None) => a@ == ActionView::Close(None),
            Action::Nothing => a@ == ActionView::Nothing,
        },
{
}

// ---------------------------------------------------------------------------
// Any stream
// ---------------------------------------------------------------------------

/// A failure closes a stream, whatever it was doing; a closed stream does nothing
/// any more.
pub proof fn law_failure_closes_stream(
    sessions: Map<Seq<char>, usize>,
    http_response: Seq<char>,
    stage: StageView,
    event: EventView,
    uuid: Seq<char>,
    channel: usize,
)
    ensures
        !(stage is Over) ==> handle_step(
            sessions,
            http_response,
            stage,
            EventView::Failed,
            uuid,
            channel,
        ) == (StageView::Over, ActionView::Close(Some(HandleErrorView::Failed))),
        handle_step(sessions, http_response, StageView::Over, event, uuid, channel) == (
            StageView::Over,
            ActionView::Nothing,
        ),
{
}

/// An event that does not belong to a stage changes nothing: bytes belong to the
/// head, messages to what follows it on a stream that the server receives on, what
/// is to be sent and its end to one that it sends on.
pub proof fn law_foreign_events_change_nothing(
    sessions: Map<Seq<char>, usize>,
    http_response: Seq<char>,
    stage: StageView,
    event: EventView,
    uuid: Seq<char>,
    channel: usize,
)
    requires
        !(event is Failed),
        stage is Head ==> !(event is Byte),
        stage is First ==> !(event is Message),
        stage is Rx ==> !(event is Done) && !(event is Outgoing) && !(event is Ended),
        stage is Tx ==> !(event is Message) && !(event is Done),
    ensures
        handle_step(sessions, http_response, stage, event, uuid, channel) == (
            stage,
            ActionView::Nothing,
        ),
{
}

/// The stages follow each other: from the head to the first message, from there to
/// sending or receiving, and from each of them only to the end.
pub proof fn law_stages_follow_each_other(
    sessions: Map<Seq<char>, usize>,
    http_response: Seq<char>,
    stage: StageView,
    event: EventView,
    uuid: Seq<char>,
    channel: usize,
)
    ensures
        ({
            let next = handle_step(sessions, http_response, stage, event, uuid, channel).0;
            &&& stage is Head ==> next is Head || next is First || next is Over
            &&& stage is First ==> next is First || next is Rx || next is Tx || next is Over
            &&& stage is Rx ==> next is Rx || next is Over
            &&& stage is Tx ==> next is Tx || next is Over
            &&& stage is Tx && next is Tx ==> next->Tx_uuid == stage->Tx_uuid
        }),
{
}

/// In the head, the byte that completes the separator leads to the first message;
/// with any other byte the head goes on, for the same separator.
pub proof fn law_head_is_read_to_separator(
    sessions: Map<Seq<char>, usize>,
    http_response: Seq<char>,
    target: Seq<char>,
    matched: nat,
    byte: u8,
    uuid: Seq<char>,
    channel: usize,
)
    requires
        matched < target.len(),
    ensures
        ({
            let step = handle_step(
                sessions,
                http_response,
                StageView::Head { target, matched },
                EventView::Byte(byte),
                uuid,
                channel,
            );
            let fits = byte as char == target[matched as int];
            &&& fits && matched + 1 == target.len() ==> step == (
                StageView::First,
                ActionView::ReadMessage,
            )
            &&& fits && matched + 1 < target.len() ==> step == (
                StageView::Head { target, matched: matched + 1 },
                ActionView::ReadByte,
            )
            &&& !fits ==> step == (StageView::Head { target, matched: 0 }, ActionView::ReadByte)
        }),
{
}

// ---------------------------------------------------------------------------
// The first message
// ---------------------------------------------------------------------------

/// A stream that asks to be sent to becomes one: it is greeted, and what the
/// session's identifier led to before is given up.
pub proof fn law_rx_stream_is_greeted(
    sessions: Map<Seq<char>, usize>,
    http_response: Seq<char>,
    new_session: bool,
    uuid: Seq<char>,
    channel: usize,
)
    ensures
        ({
            let init = EventView::Message(ClientMessageView::InitRx { new_session });
            let step = handle_step(
                sessions,
                http_response,
                StageView::First,
                init,
                uuid,
                channel,
            );
            let after = sessions_of(sessions, StageView::First, init, uuid, channel);
            &&& step.0 == StageView::Rx
            &&& step.1 matches ActionView::Greet { greeting, replaced } && greeting == rx_greeting(
                http_response,
                uuid,
            ) && (sessions.contains_key(uuid) ==> replaced == Some(sessions[uuid])) && (
            !sessions.contains_key(uuid) ==> replaced is None)
            &&& after.contains_key(uuid) && after[uuid] == channel
            &&& forall|other: Seq<char>|
                other != uuid ==> (after.contains_key(other) <==> sessions.contains_key(other))
                    && (sessions.contains_key(other) ==> #[trigger] after[other]
                    == sessions[other])
            &&& makes_session(StageView::First, init)
        }),
{
}

/// The greeting is the whole HTTP response, and behind it the message that names the
/// session.
pub proof fn law_greeting_is_response_and_session(http_response: Seq<char>, uuid: Seq<char>)
    requires
        encode_utf8(uuid).len() + 12 <= u64::MAX,
    ensures
        ({
            let greeting = rx_greeting(http_response, uuid);
            let n = encode_utf8(http_response).len() as int;
            let message = greeting.skip(n);
            &&& greeting.len() > n + 8
            &&& greeting.take(n) == encode_utf8(http_response)
            &&& le_value(message.take(8)) == message.len() - 8
            &&& decode_server(message.skip(8)) == Ok::<_, Seq<char>>(
                ServerMessageView::SessionCreated { uuid },
            )
        }),
{
    let greeting = rx_greeting(http_response, uuid);
    let n = encode_utf8(http_response).len() as int;
    let created = ServerMessageView::SessionCreated { uuid };
    let body = server_bytes(created);
    lemma_le_bytes_len(0, 4);
    lemma_le_bytes_len(encode_utf8(uuid).len(), 8);
    law_frame_layout(body);
    law_server_message_round_trip(created, Seq::empty());
    assert(body + Seq::empty() =~= body);
    assert(greeting.take(n) =~= encode_utf8(http_response));
    assert(greeting.skip(n) =~= frame(body));
}

/// A stream that wants to send for a session receives for that session's client,
/// with no connection open; without such a session it is closed.
pub proof fn law_tx_stream_joins_session(
    sessions: Map<Seq<char>, usize>,
    http_response: Seq<char>,
    wanted: Seq<char>,
    uuid: Seq<char>,
    channel: usize,
)
    ensures
        ({
            let step = handle_step(
                sessions,
                http_response,
                StageView::First,
                EventView::Message(ClientMessageView::InitTx { uuid: wanted }),
                uuid,
                channel,
            );
            &&& sessions.contains_key(wanted) ==> step == (
                StageView::Tx {
                    uuid: wanted,
                    senders: Map::<usize, usize>::empty(),
                    client: sessions[wanted],
                },
                ActionView::ReadMessage,
            )
            &&& !sessions.contains_key(wanted) ==> step == (
                StageView::Over,
                ActionView::Close(Some(HandleErrorView::UnknownUuid(wanted))),
            )
        }),
{
}

/// Any other first message closes the stream, and is named.
pub proof fn law_other_first_messages_are_refused(
    sessions: Map<Seq<char>, usize>,
    http_response: Seq<char>,
    m: ClientMessageView,
    uuid: Seq<char>,
    channel: usize,
)
    requires
        !(m is InitRx) && !(m is InitTx),
    ensures
        handle_step(
            sessions,
            http_response,
            StageView::First,
            EventView::Message(m),
            uuid,
            channel,
        ) == (
            StageView::Over,
            ActionView::Close(Some(HandleErrorView::InvalidFirstMessage(m))),
        ),
{
}

/// Sessions are made by the first message `InitRx` and by nothing else; nothing
/// takes one away.
pub proof fn law_only_init_rx_makes_sessions(
    sessions: Map<Seq<char>, usize>,
    stage: StageView,
    event: EventView,
    uuid: Seq<char>,
    channel: usize,
)
    ensures
        makes_session(stage, event) <==> stage is First && (event matches EventView::Message(m)
            && m is InitRx),
        !makes_session(stage, event) ==> sessions_of(sessions, stage, event, uuid, channel)
            == sessions,
        forall|other: Seq<char>|
            sessions.contains_key(other) ==> #[trigger] sessions_of(
                sessions,
                stage,
                event,
                uuid,
                channel,
            ).contains_key(other),
{
}

/// The same of the step that opens a stream.
pub proof fn law_opening_adds_one_session(
    before: Map<Seq<char>, usize>,
    init: ClientMessageView,
    uuid: Seq<char>,
    channel: usize,
)
    ensures
        !(init is InitRx) ==> sessions_step(before, init, uuid, channel) == before,
        init is InitRx ==> sessions_step(before, init, uuid, channel).get(uuid) == Some(channel)
            && sessions_step(before, init, uuid, channel).remove(uuid) == before.remove(uuid),
{
    if init is InitRx {
        assert(before.insert(uuid, channel).remove(uuid) =~= before.remove(uuid));
    }
}

// ---------------------------------------------------------------------------
// Sending
// ---------------------------------------------------------------------------

/// Every message that comes out of a session's channel is sent, whole: the client
/// reads it back, and then what was sent later. The stream goes on.
pub proof fn law_outgoing_is_sent(
    sessions: Map<Seq<char>, usize>,
    http_response: Seq<char>,
    m: ServerMessageView,
    uuid: Seq<char>,
    channel: usize,
    later: Seq<u8>,
)
    requires
        m.well_formed(),
        server_bytes(m).len() <= u64::MAX,
    ensures
        ({
            let step = handle_step(
                sessions,
                http_response,
                StageView::Rx,
                EventView::Outgoing(m),
                uuid,
                channel,
            );
            &&& step.0 == StageView::Rx
            &&& step.1 matches ActionView::Send(bytes) && {
                &&& bytes.len() >= 8
                &&& le_value(bytes.take(8)) == bytes.len() - 8
                &&& decode_server(bytes.skip(8)) == Ok::<_, Seq<char>>(m.as_received())
                &&& bytes.len() <= MAX_MESSAGE_LEN + 8 ==> read_frame(bytes + later)
                    == FrameView::Body(bytes.skip(8)) && (bytes + later).skip(bytes.len() as int)
                    == later
            }
        }),
{
    let body = server_bytes(m);
    law_frame_layout(body);
    law_server_message_round_trip(m, Seq::empty());
    assert(body + Seq::empty() =~= body);
    assert((frame(body) + later).skip(frame(body).len() as int) =~= later);
    if body.len() <= MAX_MESSAGE_LEN {
        law_frame_read(body, later);
    }
}

/// After each message the next is waited for; when the channel ends, the stream is
/// closed without a complaint.
pub proof fn law_sending_goes_on_until_the_end(
    sessions: Map<Seq<char>, usize>,
    http_response: Seq<char>,
    uuid: Seq<char>,
    channel: usize,
)
    ensures
        handle_step(sessions, http_response, StageView::Rx, EventView::Done, uuid, channel) == (
            StageView::Rx,
            ActionView::AwaitOutgoing,
        ),
        handle_step(sessions, http_response, StageView::Rx, EventView::Ended, uuid, channel) == (
            StageView::Over,
            ActionView::Close(None),
        ),
{
}

// ---------------------------------------------------------------------------
// Receiving
// ---------------------------------------------------------------------------

/// After each message the session is looked for again: if it is there, the next
/// message is read, for the client that it leads to now; if not, the stream is
/// closed. The connections stay.
pub proof fn law_session_is_looked_for_again(
    sessions: Map<Seq<char>, usize>,
    http_response: Seq<char>,
    own: Seq<char>,
    senders: Map<usize, usize>,
    client: usize,
    uuid: Seq<char>,
    channel: usize,
)
    ensures
        ({
            let step = handle_step(
                sessions,
                http_response,
                StageView::Tx { uuid: own, senders, client },
                EventView::Done,
                uuid,
                channel,
            );
            &&& sessions.contains_key(own) ==> step == (
                StageView::Tx { uuid: own, senders, client: sessions[own] },
                ActionView::ReadMessage,
            )
            &&& !sessions.contains_key(own) ==> step == (
                StageView::Over,
                ActionView::Close(Some(HandleErrorView::UnknownUuid(own))),
            )
        }),
{
}

/// A request is answered by a connection to just that place, for the client of the
/// stream, under the identifier that was asked for. From then on the identifier
/// leads to the channel at hand, the channel it led to before is given up, and all
/// other connections stay.
pub proof fn law_request_is_answered(
    sessions: Map<Seq<char>, usize>,
    http_response: Seq<char>,
    own: Seq<char>,
    senders: Map<usize, usize>,
    client: usize,
    addr: SocketAddrView,
    domain: Seq<char>,
    port: u16,
    id: usize,
    uuid: Seq<char>,
    channel: usize,
)
    ensures
        ({
            let stage = StageView::Tx { uuid: own, senders, client };
            let by_ip = handle_step(
                sessions,
                http_response,
                stage,
                EventView::Message(ClientMessageView::NewConnectionWithIp { addr, id }),
                uuid,
                channel,
            );
            let by_name = handle_step(
                sessions,
                http_response,
                stage,
                EventView::Message(ClientMessageView::NewConnectionWithDomain { domain, port, id }),
                uuid,
                channel,
            );
            let replaced = if senders.contains_key(id) {
                Some(senders[id])
            } else {
                None
            };
            &&& by_ip.0 == (StageView::Tx {
                uuid: own,
                senders: senders.insert(id, channel),
                client,
            })
            &&& by_ip.1 == (ActionView::Connect {
                id,
                target: AddressView::SocketAddress(addr),
                client,
                replaced,
            })
            &&& by_name.0 == by_ip.0
            &&& by_name.1 == (ActionView::Connect {
                id,
                target: AddressView::DomainAddress(domain, port),
                client,
                replaced,
            })
        }),
{
}

/// Data is handed, whole, to the channel of its connection, and nothing else
/// changes; for a connection that is not open the stream is closed.
pub proof fn law_data_is_delivered(
    sessions: Map<Seq<char>, usize>,
    http_response: Seq<char>,
    own: Seq<char>,
    senders: Map<usize, usize>,
    client: usize,
    id: usize,
    data: Seq<u8>,
    uuid: Seq<char>,
    channel: usize,
)
    ensures
        ({
            let stage = StageView::Tx { uuid: own, senders, client };
            let step = handle_step(
                sessions,
                http_response,
                stage,
                EventView::Message(ClientMessageView::Data { id, data }),
                uuid,
                channel,
            );
            &&& senders.contains_key(id) ==> step == (
                stage,
                ActionView::Deliver { channel: senders[id], data },
            )
            &&& !senders.contains_key(id) ==> step == (
                StageView::Over,
                ActionView::Close(Some(HandleErrorView::NoSender)),
            )
        }),
{
}

/// Any other message that is received closes the stream, and is named.
pub proof fn law_other_messages_are_refused(
    sessions: Map<Seq<char>, usize>,
    http_response: Seq<char>,
    stage: StageView,
    m: ClientMessageView,
    uuid: Seq<char>,
    channel: usize,
)
    requires
        stage is Tx,
        !(m is NewConnectionWithIp) && !(m is NewConnectionWithDomain) && !(m is Data),
    ensures
        handle_step(sessions, http_response, stage, EventView::Message(m), uuid, channel) == (
            StageView::Over,
            ActionView::Close(Some(HandleErrorView::UnexpectedMessage(m))),
        ),
{
}

/// A request, and nothing else, opens a connection: it alone changes which channel
/// an identifier leads to, and only for its own.
pub proof fn law_only_requests_open(before: Map<usize, usize>, m: ClientMessageView, channel: usize)
    ensures
        m matches ClientMessageView::NewConnectionWithIp { id, .. } ==> opens(m) == Some(id),
        m matches ClientMessageView::NewConnectionWithDomain { id, .. } ==> opens(m) == Some(id),
        !(m is NewConnectionWithIp) && !(m is NewConnectionWithDomain) ==> opens(m) is None
            && senders_step(before, m, channel) == before,
        opens(m) matches Some(id) ==> senders_step(before, m, channel).get(id) == Some(channel)
            && senders_step(before, m, channel).remove(id) == before.remove(id),
{
    if opens(m) is Some {
        let id = opens(m)->Some_0;
        assert(before.insert(id, channel).remove(id) =~= before.remove(id));
    }
}

/// Each request for a connection is counted once, and nothing else is.
pub proof fn law_requests_are_counted(count: usize, stage: StageView, event: EventView)
    ensures
        ({
            let requested = stage is Tx && (event matches EventView::Message(m) && (
            m is NewConnectionWithIp || m is NewConnectionWithDomain));
            &&& requested && count < usize::MAX ==> count_of(count, stage, event) == count + 1
            &&& requested && count == usize::MAX ==> count_of(count, stage, event) == 0
            &&& !requested ==> count_of(count, stage, event) == count
        }),
{
}

/// How much is read from a connection at once, and how much waits in a channel.
pub proof fn law_buffers()
    ensures
        UPSTREAM_BUFFER == 1024,
        CHANNEL_CAPACITY == 10_000,
{
}

} // verus!
