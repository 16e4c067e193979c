//! What the functions of the library give back, as any caller sees it.

use vstd::prelude::*;
use vstd::utf8::encode_utf8;

use crate::client::{
    connection_request, Client, ClientPool, Command, NewConnection, PipeAction, PipeStage, Relay,
    RelayError, RelayStep, Reply, RestartStep, Service,
};
use crate::config::{config_path, trimmed, ClientConfig, Config, ServerConfig};
use crate::gate::{Gate, GateStep};
use crate::instance::{Instance, StartStep, Stats};
use crate::laws::messages::{
    begins_with, law_frame_layout, law_only_client_messages_are_read,
    law_only_server_messages_are_read,
};
use crate::laws::numbers::{
    is_number, law_counted_goes_round, law_decimal_is_read_back, law_host_port_is_read_back,
    number_value,
};
use crate::laws::starting::{
    law_config_flag, law_config_view, law_start_follows_configuration, same_client, same_server,
};
use crate::laws::streams::law_frame_found;
use crate::message::{
    client_bytes, decode_client, decode_server, frame, law_client_message_round_trip,
    law_data_message_len, law_server_message_round_trip, parse_client_message, parse_server_message,
    server_bytes, Address, AddressView, ClientMessage, ClientMessageView, DecodeError, IntoMessage,
    MessageError, ServerMessage, ServerMessageView, SocketAddr,
};
use crate::pem::{all_certs, error, only_key, LoadError, LoadErrorKind};
use crate::server::{
    alpn_protocols, dial, looked_up, upstream_chunk, Action, Dial, HandleError, Server, Stage,
};
use crate::stream::{read_client_message, read_server_message, ReadStop};
use crate::table::{ConnectionTable, SessionTable};
use crate::text::{decimal, host_port};
use crate::wire::le_value;

verus! {

// ---------------------------------------------------------------------------
// Messages
// ---------------------------------------------------------------------------

/// Whether these bytes are a message on a stream, and the server reads it as this.
pub open spec fn carries(bytes: Seq<u8>, m: ClientMessageView) -> bool {
    &&& bytes.len() >= 8
    &&& le_value(bytes.take(8)) == bytes.len() - 8
    &&& decode_client(bytes.skip(8)) == Ok::<_, Seq<char>>(m)
}

proof fn lemma_carries(m: ClientMessageView)
    requires
        m.well_formed(),
        client_bytes(m).len() <= u64::MAX,
    ensures
        carries(frame(client_bytes(m)), m.as_received()),
{
    law_frame_layout(client_bytes(m));
    law_client_message_round_trip(m, Seq::empty());
    assert(client_bytes(m) + Seq::empty() =~= client_bytes(m));
}

proof fn lemma_carries_data(id: usize, data: Seq<u8>)
    requires
        data.len() + 20 <= u64::MAX,
    ensures
        carries(
            frame(client_bytes(ClientMessageView::Data { id, data })),
            ClientMessageView::Data { id, data },
        ),
{
    law_data_message_len(id, data);
    lemma_carries(ClientMessageView::Data { id, data });
}

/// A client message is always written, and read back by the server.
pub proof fn law_client_message_is_written(
    m: &ClientMessage,
    r: Result<Vec<u8>, MessageError>,
)
    requires
        call_ensures(<ClientMessage as IntoMessage>::as_message, (m,), r),
        m@.well_formed(),
        client_bytes(m@).len() <= u64::MAX,
    ensures
        r matches Ok(bytes) && carries(bytes@, m@.as_received()),
{
    lemma_carries(m@);
}

/// A server message is always written, and read back by the client.
pub proof fn law_server_message_is_written(
    m: &ServerMessage,
    r: Result<Vec<u8>, MessageError>,
)
    requires
        call_ensures(<ServerMessage as IntoMessage>::as_message, (m,), r),
        m@.well_formed(),
        server_bytes(m@).len() <= u64::MAX,
    ensures
        r matches Ok(bytes) && bytes@.len() >= 8 && le_value(bytes@.take(8)) == bytes@.len() - 8
            && decode_server(bytes@.skip(8)) == Ok::<_, Seq<char>>(m@.as_received()),
{
    law_frame_layout(server_bytes(m@));
    law_server_message_round_trip(m@, Seq::empty());
    assert(server_bytes(m@) + Seq::empty() =~= server_bytes(m@));
}

/// A client message that is read stands in the bytes it is read from, and all bytes
/// in which one stands are read.
pub proof fn law_client_message_is_parsed(
    b: &[u8],
    r: Result<ClientMessage, DecodeError>,
    m: ClientMessageView,
    rest: Seq<u8>,
)
    requires
        call_ensures(parse_client_message, (b,), r),
    ensures
        r matches Ok(read) ==> begins_with(b@, client_bytes(read@)),
        m.well_formed() && b@ == client_bytes(m) + rest ==> r is Ok && r->Ok_0@ == m.as_received(),
{
    law_only_client_messages_are_read(b@);
    if m.well_formed() {
        law_client_message_round_trip(m, rest);
    }
}

/// The same of server messages.
pub proof fn law_server_message_is_parsed(
    b: &[u8],
    r: Result<ServerMessage, DecodeError>,
    m: ServerMessageView,
    rest: Seq<u8>,
)
    requires
        call_ensures(parse_server_message, (b,), r),
    ensures
        r matches Ok(read) ==> begins_with(b@, server_bytes(read@)),
        m.well_formed() && b@ == server_bytes(m) + rest ==> r is Ok && r->Ok_0@ == m.as_received(),
{
    law_only_server_messages_are_read(b@);
    if m.well_formed() {
        law_server_message_round_trip(m, rest);
    }
}

/// A client message off a stream: it stands behind its length, as many bytes are used
/// as that says, and more are asked for exactly while some are missing.
pub proof fn law_client_message_off_a_stream(
    buffer: &[u8],
    r: Result<(ClientMessage, usize), ReadStop>,
)
    requires
        call_ensures(read_client_message, (buffer,), r),
    ensures
        ({
            let said = le_value(buffer@.take(8));
            match r {
                Ok((m, used)) => used == 8 + said && said <= 100_000 && used <= buffer@.len()
                    && begins_with(buffer@.subrange(8, used as int), client_bytes(m@)),
                Err(ReadStop::NeedMore(n)) => if buffer@.len() < 8 {
                    n == 8 - buffer@.len()
                } else {
                    said <= 100_000 && n == 8 + said - buffer@.len() && n > 0
                },
                Err(ReadStop::TooLong(n)) => buffer@.len() >= 8 && n == said && said > 100_000,
                Err(ReadStop::Malformed(_)) => buffer@.len() >= 8 && (said > usize::MAX || (said
                    <= 100_000 && buffer@.len() >= 8 + said && decode_client(
                    buffer@.subrange(8, 8int + said),
                ) is Err)),
            }
        }),
{
    law_frame_found(buffer@);
    if buffer@.len() >= 8 {
        law_only_client_messages_are_read(buffer@.subrange(8, 8int + le_value(buffer@.take(8))));
    }
}

/// The same of server messages.
pub proof fn law_server_message_off_a_stream(
    buffer: &[u8],
    r: Result<(ServerMessage, usize), ReadStop>,
)
    requires
        call_ensures(read_server_message, (buffer,), r),
    ensures
        ({
            let said = le_value(buffer@.take(8));
            match r {
                Ok((m, used)) => used == 8 + said && said <= 100_000 && used <= buffer@.len()
                    && begins_with(buffer@.subrange(8, used as int), server_bytes(m@)),
                Err(ReadStop::NeedMore(n)) => if buffer@.len() < 8 {
                    n == 8 - buffer@.len()
                } else {
                    said <= 100_000 && n == 8 + said - buffer@.len() && n > 0
                },
                Err(ReadStop::TooLong(n)) => buffer@.len() >= 8 && n == said && said > 100_000,
                Err(ReadStop::Malformed(_)) => buffer@.len() >= 8 && (said > usize::MAX || (said
                    <= 100_000 && buffer@.len() >= 8 + said && decode_server(
                    buffer@.subrange(8, 8int + said),
                ) is Err)),
            }
        }),
{
    law_frame_found(buffer@);
    if buffer@.len() >= 8 {
        law_only_server_messages_are_read(buffer@.subrange(8, 8int + le_value(buffer@.take(8))));
    }
}

// ---------------------------------------------------------------------------
// The server
// ---------------------------------------------------------------------------

/// What was read from a connection goes to its client, all of it and nothing else,
/// under the connection's identifier; at the end of the connection nothing does.
pub proof fn law_chunk_is_what_was_read(
    id: usize,
    buff: &[u8],
    n: usize,
    r: Option<ServerMessage>,
)
    requires
        n <= buff@.len(),
        call_ensures(upstream_chunk, (id, buff, n), r),
    ensures
        r is None <==> n == 0,
        r matches Some(m) ==> (m matches ServerMessage::Data { id: to, data } && to == id
            && data@.len() == n && forall|i: int| 0 <= i < n ==> #[trigger] data@[i] == buff@[i]),
{
}

/// An address is connected to as it is; a name is looked up whole, with its port.
pub proof fn law_place_is_dialled(target: &Address, r: Dial)
    requires
        call_ensures(dial, (target,), r),
    ensures
        match *target {
            Address::SocketAddress(addr) => r matches Dial::Connect(a) && a == addr,
            Address::DomainAddress(domain, port) => r matches Dial::Lookup(query) && ({
                let n = domain@.len() as int;
                &&& query@.len() > n + 1
                &&& query@.take(n) == domain@
                &&& query@[n] == ':'
                &&& is_number(query@.skip(n + 1))
                &&& number_value(query@.skip(n + 1)) == port
            }),
        },
{
    if let Address::DomainAddress(domain, port) = *target {
        law_host_port_is_read_back(domain@, port);
    }
}

/// The first address that was found is taken; without one the lookup has failed, and
/// that names what was looked up.
pub proof fn law_first_address_is_taken(
    domain: String,
    port: u16,
    found: &Vec<SocketAddr>,
    r: Result<SocketAddr, HandleError>,
)
    requires
        call_ensures(looked_up, (domain, port, found), r),
    ensures
        found@.len() > 0 ==> (r matches Ok(a) && a == found@.first()),
        found@.len() == 0 ==> (r matches Err(HandleError::LookupFailed(d, p)) && d@ == domain@ && p
            == port),
{
}

/// One protocol is offered in the handshake.
pub proof fn law_offered_protocols(r: Vec<Vec<u8>>)
    requires
        call_ensures(alpn_protocols, (), r),
    ensures
        r@.len() == 1,
        r@[0]@ == encode_utf8("http/1.0"@),
{
}

/// A stream begins with the whole separator still to come.
pub proof fn law_stream_begins_with_head(server: &Server, r: (Stage, Action))
    requires
        server.config.separator@.len() > 0,
        call_ensures(Server::begin, (server,), r),
    ensures
        r.0 matches Stage::Head(wait) && wait.target@ == server.config.separator@
            && wait.matched_idx == 0,
        r.1 is ReadByte,
{
}

/// What went wrong is said in these words.
pub proof fn law_reasons_in_words(e: &HandleError, r: String)
    requires
        call_ensures(HandleError::text, (e,), r),
    ensures
        match *e {
            HandleError::InvalidFirstMessage(_) => r@ == "invalid first message"@,
            HandleError::UnknownUuid(uuid) => r@ == "unknown uuid "@ + uuid@,
            HandleError::NoSender => r@ == "no sender!"@,
            HandleError::UnexpectedMessage(_) => r@ == "unexpected message"@,
            HandleError::LookupFailed(domain, port) => {
                let lead = "failed to lookup "@ + domain@ + seq![':'];
                &&& r@.len() > lead.len()
                &&& r@.take(lead.len() as int) == lead
                &&& is_number(r@.skip(lead.len() as int))
                &&& number_value(r@.skip(lead.len() as int)) == port
            },
            _ => true,
        },
{
    if let HandleError::LookupFailed(domain, port) = *e {
        let words = "failed to lookup "@;
        let lead = words + domain@ + seq![':'];
        let query = host_port(domain@, port);
        law_host_port_is_read_back(domain@, port);
        assert(query =~= query.take(domain@.len() as int) + seq![':'] + query.skip(
            domain@.len() + 1int,
        ));
        assert(r@.take(lead.len() as int) =~= lead);
        assert(r@.skip(lead.len() as int) =~= query.skip(domain@.len() + 1int));
    }
}

/// The same of what stops a stream from being read.
pub proof fn law_stops_in_words(stop: &ReadStop, r: String)
    requires
        call_ensures(ReadStop::text, (stop,), r),
    ensures
        match *stop {
            ReadStop::TooLong(len) => {
                let lead = "invalid message len size. "@;
                let end = " is too big"@;
                let digits = r@.subrange(lead.len() as int, r@.len() - end.len());
                &&& r@.len() > lead.len() + end.len()
                &&& r@.take(lead.len() as int) == lead
                &&& is_number(digits)
                &&& number_value(digits) == len
                &&& r@.skip(r@.len() - end.len()) == end
            },
            ReadStop::Malformed(reason) => r@ == reason@,
            _ => true,
        },
{
    if let ReadStop::TooLong(len) = *stop {
        let lead = "invalid message len size. "@;
        let end = " is too big"@;
        let d = decimal(len as nat);
        law_decimal_is_read_back(len as nat);
        assert(r@.take(lead.len() as int) =~= lead);
        assert(r@.subrange(lead.len() as int, r@.len() - end.len()) =~= d);
        assert(r@.skip(r@.len() - end.len()) =~= end);
    }
}

// ---------------------------------------------------------------------------
// Certificates and configuration
// ---------------------------------------------------------------------------

/// All certificates are taken, in order; a single key is, and no other number.
pub proof fn law_what_was_found_is_taken(
    certs: Option<Vec<Vec<u8>>>,
    taken: Result<Vec<Vec<u8>>, LoadError>,
    keys: Option<Vec<Vec<u8>>>,
    key: Result<Vec<u8>, LoadError>,
)
    requires
        call_ensures(all_certs, (certs,), taken),
        call_ensures(only_key, (keys,), key),
    ensures
        taken is Ok <==> certs is Some,
        taken matches Ok(all) ==> all@ == certs->Some_0@,
        taken matches Err(e) ==> e.kind == LoadErrorKind::Other && e.message@
            == "failed to load certificate"@,
        key is Ok <==> keys is Some && keys->Some_0@.len() == 1,
        key matches Ok(k) ==> k@ == keys->Some_0@[0]@,
        key matches Err(e) ==> e.kind == LoadErrorKind::Other && e.message@ == if keys is Some {
            "expected a single private key"@
        } else {
            "failed to load private key"@
        },
{
}

/// A failure keeps its message.
pub proof fn law_failure_keeps_its_message(message: String, e: LoadError)
    requires
        call_ensures(error, (message,), e),
    ensures
        e.kind == LoadErrorKind::Other,
        e.message@ == message@,
{
}

/// A path that is given back stands behind the first flag.
pub proof fn law_path_behind_first_flag(args: &Vec<String>, r: Option<String>)
    requires
        call_ensures(config_path, (args,), r),
    ensures
        r matches Some(path) ==> exists|i: int|
            0 <= i < args@.len() && #[trigger] args@[i]@ == "--config="@ + path@ && forall|j: int|
                0 <= j < i ==> !"--config="@.is_prefix_of(#[trigger] args@[j]@),
{
    law_config_flag();
}

/// A prepared configuration is the one that was given, but for its HTTP head.
pub proof fn law_prepared_is_configured(
    server: &ServerConfig,
    s: ServerConfig,
    client: &ClientConfig,
    c: ClientConfig,
)
    requires
        call_ensures(ServerConfig::prepared, (server,), s),
        call_ensures(ClientConfig::prepared, (client,), c),
    ensures
        same_server(s@, server@),
        same_client(c@, client@),
        s.http_response@ == trimmed(server.http_response@) + seq![
            '\r',
            '\n',
            '\r',
            '\n',
        ],
        c.http_request@ == trimmed(client.http_request@) + seq![
            '\r',
            '\n',
            '\r',
            '\n',
        ],
{
}

/// An instance starts with its configuration and with nothing counted.
pub proof fn law_new_instance(config: Config, r: Instance, stats: Stats)
    requires
        call_ensures(Instance::new, (config,), r),
        call_ensures(Stats::new, (), stats),
    ensures
        r.config == config,
        r.stats.client_handled_tcp_conn == 0 && r.stats.server_handled_tcp_conn == 0,
        stats.client_handled_tcp_conn == 0 && stats.server_handled_tcp_conn == 0,
{
}

/// The server is started first, if there is one, with its own configuration; the
/// client last, if there is one, with its own.
pub proof fn law_start_order(instance: &Instance, steps: Vec<StartStep>)
    requires
        call_ensures(Instance::start, (instance,), steps),
    ensures
        instance.config.server matches Some(c) ==> steps@.len() > 0 && (steps@[0] matches
            StartStep::SpawnServer(s) && same_server(s@, c@)),
        instance.config.client matches Some(c) ==> steps@.len() > 0 && (steps@.last() matches
            StartStep::SpawnClient(s) && same_client(s@, c@)),
        exists|k: int|
            0 <= k < steps@.len() && (#[trigger] steps@[k] matches StartStep::Pause { millis }
                && millis == 100),
{
    let views = steps@.map_values(|s: StartStep| s@);
    law_start_follows_configuration(instance.config@);
    law_config_view(instance.config);
    assert(views.len() == steps@.len());
    assert(views[0] == steps@[0]@);
    assert(views.last() == steps@.last()@);
    let k: int = if instance.config.server is Some {
        1
    } else {
        0
    };
    assert(views[k] == steps@[k]@);
}

// ---------------------------------------------------------------------------
// The client
// ---------------------------------------------------------------------------

/// What was read from a connection is sent on, all of it and nothing else, under the
/// connection's identifier; at the end of the connection nothing is.
pub proof fn law_relay_sends_what_was_read(
    relay: &Relay,
    client: &Client,
    buff: &[u8],
    n: usize,
    r: Result<RelayStep, MessageError>,
)
    requires
        n <= buff@.len(),
        n + 20 <= u64::MAX,
        call_ensures(Relay::read, (relay, client, buff, n), r),
    ensures
        n == 0 ==> (r matches Ok(RelayStep::Stop)),
        n > 0 ==> (r matches Ok(RelayStep::Send(bytes)) && carries(
            bytes@,
            ClientMessageView::Data { id: relay.id, data: buff@.take(n as int) },
        )),
{
    lemma_carries_data(relay.id, buff@.take(n as int));
}

/// Data is sent under the identifier it belongs to.
pub proof fn law_data_is_sent(
    client: &Client,
    id: usize,
    data: Vec<u8>,
    r: Result<Vec<u8>, MessageError>,
)
    requires
        data@.len() + 20 <= u64::MAX,
        call_ensures(Client::send_data, (client, id, data), r),
    ensures
        r matches Ok(bytes) && carries(bytes@, ClientMessageView::Data { id, data: data@ }),
{
    lemma_carries_data(id, data@);
}

/// The message that asks for this place under this identifier.
pub open spec fn asks_for(m: ClientMessageView, place: AddressView, wanted: usize) -> bool {
    match place {
        AddressView::SocketAddress(a) => m == (ClientMessageView::NewConnectionWithIp {
            addr: a.as_received(),
            id: wanted,
        }),
        AddressView::DomainAddress(d, p) => m == (ClientMessageView::NewConnectionWithDomain {
            domain: d,
            port: p,
            id: wanted,
        }),
    }
}

/// What a new connection sends is a request for its place under its identifier.
pub proof fn law_new_connection_asks_for_its_place(
    client: &mut Client,
    channels: &mut ConnectionTable,
    addr: Address,
    channel: usize,
    r: Result<NewConnection, MessageError>,
)
    requires
        call_ensures(Client::create_new_connection, (client, channels, addr, channel), r),
        client_bytes(
            connection_request(addr@, old(client).next_conn_id),
        ).len() <= u64::MAX,
        connection_request(addr@, old(client).next_conn_id).well_formed(),
    ensures
        r matches Ok(new) && {
            &&& new.id == old(client).next_conn_id
            &&& exists|m: ClientMessageView| #[trigger]
                carries(new.request@, m) && asks_for(m, addr@, new.id)
            &&& final(channels)@.get(new.id) == Some(channel)
            &&& new.replaced == old(channels)@.get(new.id)
            &&& final(channels)@.remove(new.id) == old(channels)@.remove(new.id)
        },
        final(client).next_conn_id as int == if old(client).next_conn_id == usize::MAX {
            0
        } else {
            old(client).next_conn_id + 1
        },
        final(client).config == old(client).config,
{
    let m = connection_request(addr@, old(client).next_conn_id);
    let id = old(client).next_conn_id;
    lemma_carries(m);
    assert(carries(r->Ok_0.request@, m.as_received()));
    assert(asks_for(m.as_received(), addr@, id));
    assert(final(channels)@.remove(id) =~= old(channels)@.remove(id));
}

/// Turns are taken one after the other.
pub proof fn law_turn_is_taken(pool: &mut ClientPool, idx: usize)
    requires
        old(pool).next_client_idx < old(pool).size,
        call_ensures(ClientPool::pick, (pool,), idx),
    ensures
        idx == old(pool).next_client_idx,
        final(pool).size == old(pool).size,
        idx + 1 < old(pool).size ==> final(pool).next_client_idx == idx + 1,
        idx + 1 == old(pool).size ==> final(pool).next_client_idx == 0,
{
}

/// A restart shuts the way and counts the pipes as broken; it opens again when they
/// stand, and a failed attempt waits five seconds.
pub proof fn law_restart_shuts_and_opens(
    client: &mut Client,
    begun: (PipeStage, PipeAction),
    other: &mut Client,
    ready: bool,
    step: RestartStep,
)
    requires
        call_ensures(Client::restart, (client,), begun),
        call_ensures(Client::restarted, (other, ready), step),
    ensures
        !final(client).gate.is_open && final(client).killing,
        begun.0 is Killing && begun.1 is Kill,
        ready ==> final(other).gate.is_open && step == RestartStep::Done,
        !ready ==> final(other).gate.is_open == old(other).gate.is_open && step == (
        RestartStep::Retry { after_secs: 5 }),
        final(other).killing == old(other).killing,
{
}

/// A new client has no pipes and lets connections in.
pub proof fn law_new_client(config: ClientConfig, r: Client)
    requires
        call_ensures(Client::new, (config,), r),
    ensures
        r.config == config,
        r.next_conn_id == 0,
        r.gate.is_open && r.killing,
{
}

/// Connections pass exactly while the way is open.
pub proof fn law_gate_passes_while_open(gate: &Gate, step: GateStep, v: bool, new: Gate)
    requires
        call_ensures(Gate::wait_or_pass, (gate,), step),
        call_ensures(Gate::new, (v,), new),
    ensures
        step == GateStep::Pass <==> gate.is_open,
        new.is_open == v,
{
}

/// A relay reads on until one of its ends is gone.
pub proof fn law_relay_reads_until_broken(
    id: usize,
    new: Relay,
    relay: &Relay,
    reads: bool,
    writer: &mut Relay,
    ok: bool,
    ended: &mut Relay,
    killed: bool,
    end: Result<(), RelayError>,
)
    requires
        call_ensures(Relay::new, (id,), new),
        call_ensures(Relay::reads_on, (relay,), reads),
        call_ensures(Relay::wrote, (writer, ok), ()),
        call_ensures(Relay::ended, (ended, killed), end),
    ensures
        new.id == id && !new.broken_pipe,
        reads == !relay.broken_pipe,
        final(writer).broken_pipe <==> old(writer).broken_pipe || !ok,
        final(writer).id == old(writer).id,
        end is Err <==> killed,
        final(ended).broken_pipe <==> old(ended).broken_pipe || killed,
{
}

/// Only `CONNECT` is served; the others are refused and change nothing.
pub proof fn law_only_connect_is_served(
    client: &mut Client,
    stats: &mut Stats,
    channels: &mut ConnectionTable,
    command: Command,
    channel: usize,
    r: Result<Service, MessageError>,
)
    requires
        call_ensures(Client::serve, (client, stats, channels, command, channel), r),
    ensures
        command is Connect ==> (r matches Ok(Service::Open(new, reply)) && reply
            == Reply::Succeeded && new.id == old(client).next_conn_id && final(channels)@.get(
            new.id,
        ) == Some(channel)) && final(stats).client_handled_tcp_conn as int == (old(
            stats,
        ).client_handled_tcp_conn + 1) % (usize::MAX + 1),
        !(command is Connect) ==> (r matches Ok(Service::Refuse(reply)) && reply
            == Reply::CommandNotSupported) && *final(client) == *old(client) && *final(stats)
            == *old(stats) && final(channels)@ == old(channels)@,
        final(stats).server_handled_tcp_conn == old(stats).server_handled_tcp_conn,
{
    law_counted_goes_round(old(stats).client_handled_tcp_conn);
}

// ---------------------------------------------------------------------------
// Tables
// ---------------------------------------------------------------------------

/// A table gives back what was put in last, and puts nothing else in or out.
pub proof fn law_tables_remember(
    connections: &mut ConnectionTable,
    id: usize,
    sessions: &mut SessionTable,
    uuid: String,
    channel: usize,
    old_connection: Option<usize>,
    old_session: Option<usize>,
    table: &ConnectionTable,
    found: Option<usize>,
)
    requires
        call_ensures(ConnectionTable::insert, (connections, id, channel), old_connection),
        call_ensures(SessionTable::insert, (sessions, uuid, channel), old_session),
        call_ensures(ConnectionTable::get, (table, id), found),
    ensures
        final(connections)@.get(id) == Some(channel),
        final(connections)@.remove(id) == old(connections)@.remove(id),
        old_connection == old(connections)@.get(id),
        final(sessions)@.get(uuid@) == Some(channel),
        final(sessions)@.remove(uuid@) == old(sessions)@.remove(uuid@),
        old_session == old(sessions)@.get(uuid@),
        found is Some <==> table@.contains_key(id),
        found matches Some(c) ==> c == table@[id],
{
    assert(final(connections)@.remove(id) =~= old(connections)@.remove(id));
    assert(final(sessions)@.remove(uuid@) =~= old(sessions)@.remove(uuid@));
}

} // verus!
