//! Messages: where their fields stand, that they arrive, and that nothing else is
//! taken for one.

use vstd::prelude::*;
use vstd::utf8::encode_utf8;

use crate::laws::wire::{
    law_blob_found, law_blob_stands_behind_its_length, law_flag_found, law_number_found,
    law_octets_found, law_range_is_a_power, law_size_found, law_text_found,
    law_text_stands_behind_its_length,
};
use crate::message::{
    addr_bytes, client_bytes, decode_client, decode_server, frame, id_bytes, kind_bytes,
    law_client_message_round_trip, law_server_message_round_trip, port_bytes, server_bytes,
    take_addr, Address, AddressView, ClientMessage, ClientMessageView, IntoMessage, ServerMessage,
    ServerMessageView, SocketAddr, SocketAddrView,
};
use crate::wire::{
    blob_bytes, blob_fault, bool_bytes, bool_fault, integer_fault, le_bytes, le_range, le_value,
    lemma_le_bytes_len, lemma_le_ranges, lemma_le_round_trip, short_fault, take_blob, take_bool,
    take_le, take_octets, take_size, take_text, text_bytes, text_fault, usize_fault,
};

verus! {

// ---------------------------------------------------------------------------
// Views
// ---------------------------------------------------------------------------

/// The view of an address keeps all of it.
pub proof fn law_addr_view(a: SocketAddr)
    ensures
        match a {
            SocketAddr::V4 { octets, port } => a@ matches SocketAddrView::V4 { octets: o, port: p }
                && o == octets@ && p == port,
            SocketAddr::V6 { octets, port, flowinfo, scope_id } => a@ matches SocketAddrView::V6 {
                octets: o,
                port: p,
                flowinfo: f,
                scope_id: s,
            } && o == octets@ && p == port && f == flowinfo && s == scope_id,
        },
{
}

/// The view of a place keeps all of it.
pub proof fn law_place_view(a: Address)
    ensures
        match a {
            Address::SocketAddress(addr) => a@ matches AddressView::SocketAddress(x) && x == addr@,
            Address::DomainAddress(domain, port) => a@ matches AddressView::DomainAddress(d, p)
                && d == domain@ && p == port,
        },
{
}

/// The view of a client message keeps all of it.
pub proof fn law_client_message_view(m: ClientMessage)
    ensures
        match m {
            ClientMessage::InitRx { new_session } => m@ == (ClientMessageView::InitRx {
                new_session,
            }),
            ClientMessage::InitTx { uuid } => m@ == (ClientMessageView::InitTx { uuid: uuid@ }),
            ClientMessage::NewUdpSocket { id } => m@ == (ClientMessageView::NewUdpSocket { id }),
            ClientMessage::DataUdp { id, addr, data } => m@ == (ClientMessageView::DataUdp {
                id,
                addr: addr@,
                data: data@,
            }),
            ClientMessage::NewConnectionWithIp { addr, id } => m@ == (
            ClientMessageView::NewConnectionWithIp { addr: addr@, id }),
            ClientMessage::NewConnectionWithDomain { domain, port, id } => m@ == (
            ClientMessageView::NewConnectionWithDomain { domain: domain@, port, id }),
            ClientMessage::Data { id, data } => m@ == (ClientMessageView::Data {
                id,
                data: data@,
            }),
            ClientMessage::CloseConnection { id } => m@ == (ClientMessageView::CloseConnection {
                id,
            }),
            ClientMessage::Heartbeat => m@ == ClientMessageView::Heartbeat,
        },
{
}

/// The view of a server message keeps all of it.
pub proof fn law_server_message_view(m: ServerMessage)
    ensures
        match m {
            ServerMessage::SessionCreated { uuid } => m@ == (ServerMessageView::SessionCreated {
                uuid: uuid@,
            }),
            ServerMessage::Data { id, data } => m@ == (ServerMessageView::Data {
                id,
                data: data@,
            }),
            ServerMessage::DataUdp { id, data, addr } => m@ == (ServerMessageView::DataUdp {
                id,
                data: data@,
                addr: addr@,
            }),
            ServerMessage::ConnectionClosed { id } => m@ == (ServerMessageView::ConnectionClosed {
                id,
            }),
            ServerMessage::Heartbeat => m@ == ServerMessageView::Heartbeat,
        },
{
}

// ---------------------------------------------------------------------------
// Where the fields stand
// ---------------------------------------------------------------------------

/// A number in so many bytes stands for itself.
proof fn lemma_number(n: nat, width: nat)
    requires
        n < le_range(width),
    ensures
        le_bytes(n, width).len() == width,
        le_value(le_bytes(n, width)) == n,
{
    lemma_le_bytes_len(n, width);
    lemma_le_round_trip(n, width);
}

/// The kind of a client message stands in its first four bytes.
pub proof fn law_client_kind_in_front(m: ClientMessageView)
    ensures
        client_bytes(m).len() >= 4,
        le_value(client_bytes(m).take(4)) == match m {
            ClientMessageView::InitRx { .. } => 0nat,
            ClientMessageView::InitTx { .. } => 1,
            ClientMessageView::NewUdpSocket { .. } => 2,
            ClientMessageView::DataUdp { .. } => 3,
            ClientMessageView::NewConnectionWithIp { .. } => 4,
            ClientMessageView::NewConnectionWithDomain { .. } => 5,
            ClientMessageView::Data { .. } => 6,
            ClientMessageView::CloseConnection { .. } => 7,
            ClientMessageView::Heartbeat => 8,
        },
{
    lemma_le_ranges();
    lemma_number(0, 4);
    lemma_number(1, 4);
    lemma_number(2, 4);
    lemma_number(3, 4);
    lemma_number(4, 4);
    lemma_number(5, 4);
    lemma_number(6, 4);
    lemma_number(7, 4);
    lemma_number(8, 4);
    let b = client_bytes(m).take(4);
    match m {
        ClientMessageView::InitRx { .. } => assert(b =~= le_bytes(0, 4)),
        ClientMessageView::InitTx { .. } => assert(b =~= le_bytes(1, 4)),
        ClientMessageView::NewUdpSocket { .. } => assert(b =~= le_bytes(2, 4)),
        ClientMessageView::DataUdp { .. } => assert(b =~= le_bytes(3, 4)),
        ClientMessageView::NewConnectionWithIp { .. } => assert(b =~= le_bytes(4, 4)),
        ClientMessageView::NewConnectionWithDomain { .. } => assert(b =~= le_bytes(5, 4)),
        ClientMessageView::Data { .. } => assert(b =~= le_bytes(6, 4)),
        ClientMessageView::CloseConnection { .. } => assert(b =~= le_bytes(7, 4)),
        ClientMessageView::Heartbeat => assert(b =~= le_bytes(8, 4)),
    }
}

/// The kind of a server message stands in its first four bytes.
pub proof fn law_server_kind_in_front(m: ServerMessageView)
    ensures
        server_bytes(m).len() >= 4,
        le_value(server_bytes(m).take(4)) == match m {
            ServerMessageView::SessionCreated { .. } => 0nat,
            ServerMessageView::Data { .. } => 1,
            ServerMessageView::DataUdp { .. } => 2,
            ServerMessageView::ConnectionClosed { .. } => 3,
            ServerMessageView::Heartbeat => 4,
        },
{
    lemma_le_ranges();
    lemma_number(0, 4);
    lemma_number(1, 4);
    lemma_number(2, 4);
    lemma_number(3, 4);
    lemma_number(4, 4);
    let b = server_bytes(m).take(4);
    match m {
        ServerMessageView::SessionCreated { .. } => assert(b =~= le_bytes(0, 4)),
        ServerMessageView::Data { .. } => assert(b =~= le_bytes(1, 4)),
        ServerMessageView::DataUdp { .. } => assert(b =~= le_bytes(2, 4)),
        ServerMessageView::ConnectionClosed { .. } => assert(b =~= le_bytes(3, 4)),
        ServerMessageView::Heartbeat => assert(b =~= le_bytes(4, 4)),
    }
}

/// Messages without fields end behind their kind, a flag is the one byte behind it.
pub proof fn law_small_messages(new_session: bool)
    ensures
        client_bytes(ClientMessageView::Heartbeat).len() == 4,
        server_bytes(ServerMessageView::Heartbeat).len() == 4,
        client_bytes(ClientMessageView::InitRx { new_session }).len() == 5,
        client_bytes(ClientMessageView::InitRx { new_session })[4] == if new_session {
            1u8
        } else {
            0u8
        },
{
    lemma_le_bytes_len(0, 4);
    lemma_le_bytes_len(4, 4);
    lemma_le_bytes_len(8, 4);
}

/// An identifier alone stands in the eight bytes behind the kind.
pub proof fn law_id_follows_kind(id: usize)
    ensures
        client_bytes(ClientMessageView::NewUdpSocket { id }).len() == 12,
        le_value(client_bytes(ClientMessageView::NewUdpSocket { id }).skip(4)) == id,
        client_bytes(ClientMessageView::CloseConnection { id }).len() == 12,
        le_value(client_bytes(ClientMessageView::CloseConnection { id }).skip(4)) == id,
        server_bytes(ServerMessageView::ConnectionClosed { id }).len() == 12,
        le_value(server_bytes(ServerMessageView::ConnectionClosed { id }).skip(4)) == id,
{
    lemma_le_ranges();
    lemma_le_bytes_len(2, 4);
    lemma_le_bytes_len(7, 4);
    lemma_le_bytes_len(3, 4);
    lemma_number(id as nat, 8);
    let bytes = le_bytes(id as nat, 8);
    assert(client_bytes(ClientMessageView::NewUdpSocket { id }).skip(4) =~= bytes);
    assert(client_bytes(ClientMessageView::CloseConnection { id }).skip(4) =~= bytes);
    assert(server_bytes(ServerMessageView::ConnectionClosed { id }).skip(4) =~= bytes);
}

/// A session's identifier stands behind the kind and its length.
pub proof fn law_session_follows_kind(uuid: Seq<char>)
    requires
        encode_utf8(uuid).len() <= u64::MAX,
    ensures
        ({
            let c = client_bytes(ClientMessageView::InitTx { uuid });
            let s = server_bytes(ServerMessageView::SessionCreated { uuid });
            &&& le_value(c.subrange(4, 12)) == encode_utf8(uuid).len()
            &&& c.skip(12) == encode_utf8(uuid)
            &&& le_value(s.subrange(4, 12)) == encode_utf8(uuid).len()
            &&& s.skip(12) == encode_utf8(uuid)
        }),
{
    lemma_le_bytes_len(0, 4);
    lemma_le_bytes_len(1, 4);
    law_text_stands_behind_its_length(uuid);
    let c = client_bytes(ClientMessageView::InitTx { uuid });
    let s = server_bytes(ServerMessageView::SessionCreated { uuid });
    let t = text_bytes(uuid);
    assert(c.subrange(4, 12) =~= t.take(8));
    assert(c.skip(12) =~= t.skip(8));
    assert(s.subrange(4, 12) =~= t.take(8));
    assert(s.skip(12) =~= t.skip(8));
}

/// Data stands whole at the end of its message, behind the identifier of its
/// connection and its length.
pub proof fn law_data_follows_id(id: usize, data: Seq<u8>)
    requires
        data.len() <= u64::MAX,
    ensures
        ({
            let c = client_bytes(ClientMessageView::Data { id, data });
            let s = server_bytes(ServerMessageView::Data { id, data });
            &&& le_value(c.subrange(4, 12)) == id
            &&& le_value(c.subrange(12, 20)) == data.len()
            &&& c.skip(20) == data
            &&& le_value(s.subrange(4, 12)) == id
            &&& le_value(s.subrange(12, 20)) == data.len()
            &&& s.skip(20) == data
        }),
{
    lemma_le_ranges();
    lemma_le_bytes_len(6, 4);
    lemma_le_bytes_len(1, 4);
    lemma_number(id as nat, 8);
    law_blob_stands_behind_its_length(data);
    let c = client_bytes(ClientMessageView::Data { id, data });
    let s = server_bytes(ServerMessageView::Data { id, data });
    let d = blob_bytes(data);
    assert(c.subrange(4, 12) =~= le_bytes(id as nat, 8));
    assert(c.subrange(12, 20) =~= d.take(8));
    assert(c.skip(20) =~= d.skip(8));
    assert(s.subrange(4, 12) =~= le_bytes(id as nat, 8));
    assert(s.subrange(12, 20) =~= d.take(8));
    assert(s.skip(20) =~= d.skip(8));
}

/// An address is its family in four bytes, its octets, and its port in two bytes.
pub proof fn law_addr_layout(a: SocketAddrView)
    requires
        a.well_formed(),
    ensures
        match a {
            SocketAddrView::V4 { octets, port } => {
                &&& addr_bytes(a).len() == 10
                &&& le_value(addr_bytes(a).take(4)) == 0
                &&& addr_bytes(a).subrange(4, 8) == octets
                &&& le_value(addr_bytes(a).skip(8)) == port
            },
            SocketAddrView::V6 { octets, port, .. } => {
                &&& addr_bytes(a).len() == 22
                &&& le_value(addr_bytes(a).take(4)) == 1
                &&& addr_bytes(a).subrange(4, 20) == octets
                &&& le_value(addr_bytes(a).skip(20)) == port
            },
        },
{
    lemma_le_ranges();
    lemma_number(0, 4);
    lemma_number(1, 4);
    let b = addr_bytes(a);
    match a {
        SocketAddrView::V4 { octets, port } => {
            lemma_number(port as nat, 2);
            assert(b.take(4) =~= le_bytes(0, 4));
            assert(b.subrange(4, 8) =~= octets);
            assert(b.skip(8) =~= le_bytes(port as nat, 2));
        },
        SocketAddrView::V6 { octets, port, .. } => {
            lemma_number(port as nat, 2);
            assert(b.take(4) =~= le_bytes(1, 4));
            assert(b.subrange(4, 20) =~= octets);
            assert(b.skip(20) =~= le_bytes(port as nat, 2));
        },
    }
}

/// A request for a connection to an address holds the address, then the identifier.
pub proof fn law_ip_request_layout(addr: SocketAddrView, id: usize)
    ensures
        ({
            let c = client_bytes(ClientMessageView::NewConnectionWithIp { addr, id });
            let n = addr_bytes(addr).len() as int;
            &&& c.len() == 12 + n
            &&& c.subrange(4, 4 + n) == addr_bytes(addr)
            &&& le_value(c.skip(4 + n)) == id
        }),
{
    lemma_le_ranges();
    lemma_le_bytes_len(4, 4);
    lemma_number(id as nat, 8);
    let c = client_bytes(ClientMessageView::NewConnectionWithIp { addr, id });
    let n = addr_bytes(addr).len() as int;
    assert(c.subrange(4, 4 + n) =~= addr_bytes(addr));
    assert(c.skip(4 + n) =~= le_bytes(id as nat, 8));
}

/// A request for a connection to a name holds the name behind its length, then the
/// port, then the identifier.
pub proof fn law_domain_request_layout(domain: Seq<char>, port: u16, id: usize)
    requires
        encode_utf8(domain).len() <= u64::MAX,
    ensures
        ({
            let c = client_bytes(ClientMessageView::NewConnectionWithDomain { domain, port, id });
            let n = encode_utf8(domain).len() as int;
            &&& c.len() == 22 + n
            &&& le_value(c.subrange(4, 12)) == n
            &&& c.subrange(12, 12 + n) == encode_utf8(domain)
            &&& le_value(c.subrange(12 + n, 14 + n)) == port
            &&& le_value(c.skip(14 + n)) == id
        }),
{
    lemma_le_ranges();
    lemma_le_bytes_len(5, 4);
    lemma_number(port as nat, 2);
    lemma_number(id as nat, 8);
    law_text_stands_behind_its_length(domain);
    let c = client_bytes(ClientMessageView::NewConnectionWithDomain { domain, port, id });
    let n = encode_utf8(domain).len() as int;
    let t = text_bytes(domain);
    assert(c.subrange(4, 12) =~= t.take(8));
    assert(c.subrange(12, 12 + n) =~= t.skip(8));
    assert(c.subrange(12 + n, 14 + n) =~= le_bytes(port as nat, 2));
    assert(c.skip(14 + n) =~= le_bytes(id as nat, 8));
}

/// A datagram to the server holds identifier, address and data, one from it
/// identifier, data and address.
pub proof fn law_datagram_layout(id: usize, addr: SocketAddrView, data: Seq<u8>)
    requires
        data.len() <= u64::MAX,
    ensures
        ({
            let c = client_bytes(ClientMessageView::DataUdp { id, addr, data });
            let s = server_bytes(ServerMessageView::DataUdp { id, data, addr });
            let n = addr_bytes(addr).len() as int;
            let k = data.len() as int;
            &&& c.len() == 20 + n + k && s.len() == 20 + n + k
            &&& le_value(c.subrange(4, 12)) == id
            &&& c.subrange(12, 12 + n) == addr_bytes(addr)
            &&& le_value(c.subrange(12 + n, 20 + n)) == k
            &&& c.skip(20 + n) == data
            &&& le_value(s.subrange(4, 12)) == id
            &&& le_value(s.subrange(12, 20)) == k
            &&& s.subrange(20, 20 + k) == data
            &&& s.skip(20 + k) == addr_bytes(addr)
        }),
{
    lemma_le_ranges();
    lemma_le_bytes_len(3, 4);
    lemma_le_bytes_len(2, 4);
    lemma_number(id as nat, 8);
    law_blob_stands_behind_its_length(data);
    let c = client_bytes(ClientMessageView::DataUdp { id, addr, data });
    let s = server_bytes(ServerMessageView::DataUdp { id, data, addr });
    let n = addr_bytes(addr).len() as int;
    let k = data.len() as int;
    let d = blob_bytes(data);
    assert(c.subrange(4, 12) =~= le_bytes(id as nat, 8));
    assert(c.subrange(12, 12 + n) =~= addr_bytes(addr));
    assert(c.subrange(12 + n, 20 + n) =~= d.take(8));
    assert(c.skip(20 + n) =~= d.skip(8));
    assert(s.subrange(4, 12) =~= le_bytes(id as nat, 8));
    assert(s.subrange(12, 20) =~= d.take(8));
    assert(s.subrange(20, 20 + k) =~= d.skip(8));
    assert(s.skip(20 + k) =~= addr_bytes(addr));
}

/// A message on a stream stands whole behind its length.
pub proof fn law_frame_layout(body: Seq<u8>)
    requires
        body.len() <= u64::MAX,
    ensures
        frame(body).len() == body.len() + 8,
        le_value(frame(body).take(8)) == body.len(),
        frame(body).skip(8) == body,
{
    law_blob_stands_behind_its_length(body);
}

/// What is put on a stream is the message that was to be put there.
pub proof fn law_body_is_of_the_message(c: ClientMessage, s: ServerMessage)
    ensures
        c.body() == client_bytes(c@),
        s.body() == server_bytes(s@),
{
}

// ---------------------------------------------------------------------------
// Messages arrive
// ---------------------------------------------------------------------------

/// An address is well-formed if it has its octets: four, or sixteen.
pub proof fn law_addr_well_formed(octets: Seq<u8>, port: u16, flowinfo: u32, scope_id: u32)
    ensures
        (SocketAddrView::V4 { octets, port }).well_formed() <==> octets.len() == 4,
        (SocketAddrView::V6 { octets, port, flowinfo, scope_id }).well_formed() <==> octets.len()
            == 16,
{
}

/// Every message that fits into memory is well-formed.
pub proof fn law_messages_are_well_formed(
    id: usize,
    port: u16,
    new_session: bool,
    text: Seq<char>,
    addr: SocketAddrView,
    data: Seq<u8>,
)
    requires
        encode_utf8(text).len() <= u64::MAX,
        data.len() <= u64::MAX,
        addr.well_formed(),
    ensures
        (ClientMessageView::InitRx { new_session }).well_formed(),
        (ClientMessageView::InitTx { uuid: text }).well_formed(),
        (ClientMessageView::NewUdpSocket { id }).well_formed(),
        (ClientMessageView::DataUdp { id, addr, data }).well_formed(),
        (ClientMessageView::NewConnectionWithIp { addr, id }).well_formed(),
        (ClientMessageView::NewConnectionWithDomain { domain: text, port, id }).well_formed(),
        (ClientMessageView::Data { id, data }).well_formed(),
        (ClientMessageView::CloseConnection { id }).well_formed(),
        ClientMessageView::Heartbeat.well_formed(),
        (ServerMessageView::SessionCreated { uuid: text }).well_formed(),
        (ServerMessageView::Data { id, data }).well_formed(),
        (ServerMessageView::DataUdp { id, data, addr }).well_formed(),
        (ServerMessageView::ConnectionClosed { id }).well_formed(),
        ServerMessageView::Heartbeat.well_formed(),
{
}

/// An address arrives with its octets and port; flow label and scope are zero.
pub proof fn law_addr_arrives(octets: Seq<u8>, port: u16, flowinfo: u32, scope_id: u32)
    ensures
        (SocketAddrView::V4 { octets, port }).as_received() == (SocketAddrView::V4 {
            octets,
            port,
        }),
        (SocketAddrView::V6 { octets, port, flowinfo, scope_id }).as_received() == (
        SocketAddrView::V6 { octets, port, flowinfo: 0, scope_id: 0 }),
{
}

/// A place arrives as its address does, or as the name and port that it is.
pub proof fn law_place_arrives(addr: SocketAddrView, domain: Seq<char>, port: u16)
    ensures
        AddressView::SocketAddress(addr).as_received() == AddressView::SocketAddress(
            addr.as_received(),
        ),
        AddressView::DomainAddress(domain, port).as_received() == AddressView::DomainAddress(
            domain,
            port,
        ),
{
}

/// Each client message is read as the message that was written, field by field,
/// whatever follows; only an address loses its flow label and scope.
pub proof fn law_client_messages_arrive(
    id: usize,
    port: u16,
    new_session: bool,
    text: Seq<char>,
    addr: SocketAddrView,
    data: Seq<u8>,
    rest: Seq<u8>,
)
    requires
        encode_utf8(text).len() <= u64::MAX,
        data.len() <= u64::MAX,
        addr.well_formed(),
    ensures
        decode_client(client_bytes(ClientMessageView::InitRx { new_session }) + rest) == Ok::<
            _,
            Seq<char>,
        >(ClientMessageView::InitRx { new_session }),
        decode_client(client_bytes(ClientMessageView::InitTx { uuid: text }) + rest) == Ok::<
            _,
            Seq<char>,
        >(ClientMessageView::InitTx { uuid: text }),
        decode_client(client_bytes(ClientMessageView::NewUdpSocket { id }) + rest) == Ok::<
            _,
            Seq<char>,
        >(ClientMessageView::NewUdpSocket { id }),
        decode_client(client_bytes(ClientMessageView::DataUdp { id, addr, data }) + rest) == Ok::<
            _,
            Seq<char>,
        >(ClientMessageView::DataUdp { id, addr: addr.as_received(), data }),
        decode_client(client_bytes(ClientMessageView::NewConnectionWithIp { addr, id }) + rest)
            == Ok::<_, Seq<char>>(
            ClientMessageView::NewConnectionWithIp { addr: addr.as_received(), id },
        ),
        decode_client(
            client_bytes(ClientMessageView::NewConnectionWithDomain { domain: text, port, id })
                + rest,
        ) == Ok::<_, Seq<char>>(
            ClientMessageView::NewConnectionWithDomain { domain: text, port, id },
        ),
        decode_client(client_bytes(ClientMessageView::Data { id, data }) + rest) == Ok::<
            _,
            Seq<char>,
        >(ClientMessageView::Data { id, data }),
        decode_client(client_bytes(ClientMessageView::CloseConnection { id }) + rest) == Ok::<
            _,
            Seq<char>,
        >(ClientMessageView::CloseConnection { id }),
        decode_client(client_bytes(ClientMessageView::Heartbeat) + rest) == Ok::<_, Seq<char>>(
            ClientMessageView::Heartbeat,
        ),
{
    law_messages_are_well_formed(id, port, new_session, text, addr, data);
    law_client_message_round_trip(ClientMessageView::InitRx { new_session }, rest);
    law_client_message_round_trip(ClientMessageView::InitTx { uuid: text }, rest);
    law_client_message_round_trip(ClientMessageView::NewUdpSocket { id }, rest);
    law_client_message_round_trip(ClientMessageView::DataUdp { id, addr, data }, rest);
    law_client_message_round_trip(ClientMessageView::NewConnectionWithIp { addr, id }, rest);
    law_client_message_round_trip(
        ClientMessageView::NewConnectionWithDomain { domain: text, port, id },
        rest,
    );
    law_client_message_round_trip(ClientMessageView::Data { id, data }, rest);
    law_client_message_round_trip(ClientMessageView::CloseConnection { id }, rest);
    law_client_message_round_trip(ClientMessageView::Heartbeat, rest);
}

/// The same of server messages.
pub proof fn law_server_messages_arrive(
    id: usize,
    text: Seq<char>,
    addr: SocketAddrView,
    data: Seq<u8>,
    rest: Seq<u8>,
)
    requires
        encode_utf8(text).len() <= u64::MAX,
        data.len() <= u64::MAX,
        addr.well_formed(),
    ensures
        decode_server(server_bytes(ServerMessageView::SessionCreated { uuid: text }) + rest)
            == Ok::<_, Seq<char>>(ServerMessageView::SessionCreated { uuid: text }),
        decode_server(server_bytes(ServerMessageView::Data { id, data }) + rest) == Ok::<
            _,
            Seq<char>,
        >(ServerMessageView::Data { id, data }),
        decode_server(server_bytes(ServerMessageView::DataUdp { id, data, addr }) + rest) == Ok::<
            _,
            Seq<char>,
        >(ServerMessageView::DataUdp { id, data, addr: addr.as_received() }),
        decode_server(server_bytes(ServerMessageView::ConnectionClosed { id }) + rest) == Ok::<
            _,
            Seq<char>,
        >(ServerMessageView::ConnectionClosed { id }),
        decode_server(server_bytes(ServerMessageView::Heartbeat) + rest) == Ok::<_, Seq<char>>(
            ServerMessageView::Heartbeat,
        ),
{
    law_messages_are_well_formed(id, 0, true, text, addr, data);
    law_server_message_round_trip(ServerMessageView::SessionCreated { uuid: text }, rest);
    law_server_message_round_trip(ServerMessageView::Data { id, data }, rest);
    law_server_message_round_trip(ServerMessageView::DataUdp { id, data, addr }, rest);
    law_server_message_round_trip(ServerMessageView::ConnectionClosed { id }, rest);
    law_server_message_round_trip(ServerMessageView::Heartbeat, rest);
}

// ---------------------------------------------------------------------------
// Nothing else is taken for a message
// ---------------------------------------------------------------------------

/// Whether bytes begin with these.
pub open spec fn begins_with(b: Seq<u8>, front: Seq<u8>) -> bool {
    front.len() <= b.len() && b.take(front.len() as int) == front
}

proof fn lemma_begins_with(b: Seq<u8>, front: Seq<u8>, rest: Seq<u8>)
    requires
        b == front + rest,
    ensures
        begins_with(b, front),
{
    assert(b.take(front.len() as int) =~= front);
}

/// What is read as an address is the encoding of that address.
pub proof fn law_only_addresses_are_read(b: Seq<u8>)
    ensures
        take_addr(b) matches Ok((a, rest)) ==> a.well_formed() && a.as_received() == a && b
            == addr_bytes(a) + rest,
{
    if take_addr(b) is Ok {
        let (a, rest) = take_addr(b)->Ok_0;
        law_number_found(b, 4);
        let (kind, b1) = take_le(b, 4)->Some_0;
        let count: nat = if kind == 0 {
            4
        } else {
            16
        };
        law_octets_found(b1, count);
        let (octets, b2) = take_octets(b1, count)->Some_0;
        law_number_found(b2, 2);
        law_range_is_a_power(2);
        lemma_le_ranges();
        let (port, b3) = take_le(b2, 2)->Some_0;
        assert(b =~= le_bytes(kind, 4) + octets + le_bytes(port, 2) + rest);
    }
}

/// Fields in front of `rest`, put together.
proof fn lemma_put_together(a: Seq<u8>, b: Seq<u8>, c: Seq<u8>, d: Seq<u8>, rest: Seq<u8>)
    ensures
        begins_with(a + (b + rest), a + b),
        begins_with(a + (b + (c + rest)), a + b + c),
        begins_with(a + (b + (c + (d + rest))), a + b + c + d),
{
    assert(a + (b + rest) =~= (a + b) + rest);
    assert(a + (b + (c + rest)) =~= (a + b + c) + rest);
    assert(a + (b + (c + (d + rest))) =~= (a + b + c + d) + rest);
    lemma_begins_with(a + (b + rest), a + b, rest);
    lemma_begins_with(a + (b + (c + rest)), a + b + c, rest);
    lemma_begins_with(a + (b + (c + (d + rest))), a + b + c + d, rest);
}

proof fn lemma_datagram_read(b: Seq<u8>)
    requires
        decode_client(b) is Ok,
        take_le(b, 4) is Some,
        take_le(b, 4)->Some_0.0 == 3,
    ensures
        begins_with(b, client_bytes(decode_client(b)->Ok_0)),
        decode_client(b)->Ok_0.well_formed(),
        decode_client(b)->Ok_0.as_received() == decode_client(b)->Ok_0,
{
    law_number_found(b, 4);
    let f = take_le(b, 4)->Some_0.1;
    law_size_found(f);
    let (id, f1) = take_size(f)->Some_0;
    law_only_addresses_are_read(f1);
    let (addr, f2) = take_addr(f1)->Ok_0;
    law_blob_found(f2);
    let (data, rest) = take_blob(f2)->Some_0;
    lemma_put_together(
        kind_bytes(3),
        id_bytes(id as usize),
        addr_bytes(addr),
        blob_bytes(data),
        rest,
    );
}

proof fn lemma_ip_request_read(b: Seq<u8>)
    requires
        decode_client(b) is Ok,
        take_le(b, 4) is Some,
        take_le(b, 4)->Some_0.0 == 4,
    ensures
        begins_with(b, client_bytes(decode_client(b)->Ok_0)),
        decode_client(b)->Ok_0.well_formed(),
        decode_client(b)->Ok_0.as_received() == decode_client(b)->Ok_0,
{
    law_number_found(b, 4);
    let f = take_le(b, 4)->Some_0.1;
    law_only_addresses_are_read(f);
    let (addr, f1) = take_addr(f)->Ok_0;
    law_size_found(f1);
    let (id, rest) = take_size(f1)->Some_0;
    lemma_put_together(
        kind_bytes(4),
        addr_bytes(addr),
        id_bytes(id as usize),
        Seq::empty(),
        rest,
    );
}

proof fn lemma_domain_request_read(b: Seq<u8>)
    requires
        decode_client(b) is Ok,
        take_le(b, 4) is Some,
        take_le(b, 4)->Some_0.0 == 5,
    ensures
        begins_with(b, client_bytes(decode_client(b)->Ok_0)),
        decode_client(b)->Ok_0.well_formed(),
        decode_client(b)->Ok_0.as_received() == decode_client(b)->Ok_0,
{
    law_number_found(b, 4);
    let f = take_le(b, 4)->Some_0.1;
    law_text_found(f);
    let (domain, f1) = take_text(f)->Some_0;
    law_number_found(f1, 2);
    law_range_is_a_power(2);
    lemma_le_ranges();
    let (port, f2) = take_le(f1, 2)->Some_0;
    law_size_found(f2);
    let (id, rest) = take_size(f2)->Some_0;
    lemma_put_together(
        kind_bytes(5),
        text_bytes(domain),
        port_bytes(port as u16),
        id_bytes(id as usize),
        rest,
    );
}

proof fn lemma_data_read(b: Seq<u8>)
    requires
        decode_client(b) is Ok,
        take_le(b, 4) is Some,
        take_le(b, 4)->Some_0.0 == 6,
    ensures
        begins_with(b, client_bytes(decode_client(b)->Ok_0)),
        decode_client(b)->Ok_0.well_formed(),
        decode_client(b)->Ok_0.as_received() == decode_client(b)->Ok_0,
{
    law_number_found(b, 4);
    let f = take_le(b, 4)->Some_0.1;
    law_size_found(f);
    let (id, f1) = take_size(f)->Some_0;
    law_blob_found(f1);
    let (data, rest) = take_blob(f1)->Some_0;
    lemma_put_together(
        kind_bytes(6),
        id_bytes(id as usize),
        blob_bytes(data),
        Seq::empty(),
        rest,
    );
}

proof fn lemma_short_message_read(b: Seq<u8>)
    requires
        decode_client(b) is Ok,
        take_le(b, 4) is Some,
        take_le(b, 4)->Some_0.0 < 3 || take_le(b, 4)->Some_0.0 > 6,
    ensures
        begins_with(b, client_bytes(decode_client(b)->Ok_0)),
        decode_client(b)->Ok_0.well_formed(),
        decode_client(b)->Ok_0.as_received() == decode_client(b)->Ok_0,
{
    law_number_found(b, 4);
    let (kind, f) = take_le(b, 4)->Some_0;
    let k = kind_bytes(kind);
    let none = Seq::<u8>::empty();
    if kind == 0 {
        law_flag_found(f);
        let (x, rest) = take_bool(f)->Some_0;
        lemma_put_together(k, bool_bytes(x), none, none, rest);
    } else if kind == 1 {
        law_text_found(f);
        let (uuid, rest) = take_text(f)->Some_0;
        lemma_put_together(k, text_bytes(uuid), none, none, rest);
    } else if kind == 2 || kind == 7 {
        law_size_found(f);
        let (id, rest) = take_size(f)->Some_0;
        lemma_put_together(k, id_bytes(id as usize), none, none, rest);
    } else {
        lemma_begins_with(b, k, f);
    }
}

/// What is read as a client message begins with the encoding of that message.
pub proof fn law_only_client_messages_are_read(b: Seq<u8>)
    ensures
        decode_client(b) matches Ok(m) ==> m.well_formed() && m.as_received() == m && begins_with(
            b,
            client_bytes(m),
        ),
{
    if decode_client(b) is Ok {
        let kind = take_le(b, 4)->Some_0.0;
        if kind == 3 {
            lemma_datagram_read(b);
        } else if kind == 4 {
            lemma_ip_request_read(b);
        } else if kind == 5 {
            lemma_domain_request_read(b);
        } else if kind == 6 {
            lemma_data_read(b);
        } else {
            lemma_short_message_read(b);
        }
    }
}

/// What is read as a server message begins with the encoding of that message.
pub proof fn law_only_server_messages_are_read(b: Seq<u8>)
    ensures
        decode_server(b) matches Ok(m) ==> m.well_formed() && m.as_received() == m && begins_with(
            b,
            server_bytes(m),
        ),
{
    if decode_server(b) is Ok {
        law_number_found(b, 4);
        let (kind, f) = take_le(b, 4)->Some_0;
        let k = kind_bytes(kind);
        let none = Seq::<u8>::empty();
        if kind == 0 {
            law_text_found(f);
            let (uuid, rest) = take_text(f)->Some_0;
            lemma_put_together(k, text_bytes(uuid), none, none, rest);
        } else if kind == 1 {
            law_size_found(f);
            let (id, f1) = take_size(f)->Some_0;
            law_blob_found(f1);
            let (data, rest) = take_blob(f1)->Some_0;
            lemma_put_together(k, id_bytes(id as usize), blob_bytes(data), none, rest);
        } else if kind == 2 {
            law_size_found(f);
            let (id, f1) = take_size(f)->Some_0;
            law_blob_found(f1);
            let (data, f2) = take_blob(f1)->Some_0;
            law_only_addresses_are_read(f2);
            let (addr, rest) = take_addr(f2)->Ok_0;
            lemma_put_together(k, id_bytes(id as usize), blob_bytes(data), addr_bytes(addr), rest);
        } else if kind == 3 {
            law_size_found(f);
            let (id, rest) = take_size(f)->Some_0;
            lemma_put_together(k, id_bytes(id as usize), none, none, rest);
        } else {
            lemma_begins_with(b, k, f);
        }
    }
}

// ---------------------------------------------------------------------------
// What is said of other bytes
// ---------------------------------------------------------------------------

/// Of bytes without a kind it is said that they are too short; of an unknown kind,
/// which it is, and how many there are.
pub proof fn law_unknown_kinds_are_named(b: Seq<u8>)
    ensures
        b.len() < 4 ==> decode_client(b) == Err::<ClientMessageView, _>(short_fault(b)),
        b.len() < 4 ==> decode_server(b) == Err::<ServerMessageView, _>(short_fault(b)),
        b.len() >= 4 && le_value(b.take(4)) > 8 ==> decode_client(b) == Err::<ClientMessageView, _>(
            integer_fault(le_value(b.take(4)), "variant index 0 <= i < 9"@),
        ),
        b.len() >= 4 && le_value(b.take(4)) > 4 ==> decode_server(b) == Err::<ServerMessageView, _>(
            integer_fault(le_value(b.take(4)), "variant index 0 <= i < 5"@),
        ),
{
}

/// What is said of an address is said of its family, of its octets or of its port.
pub proof fn law_addr_faults(b: Seq<u8>)
    ensures
        b.len() < 4 ==> take_addr(b) == Err::<(SocketAddrView, Seq<u8>), _>(short_fault(b)),
        b.len() >= 4 && le_value(b.take(4)) > 1 ==> take_addr(b) == Err::<
            (SocketAddrView, Seq<u8>),
            _,
        >(integer_fault(le_value(b.take(4)), "`V4` or `V6`"@)),
        4 <= b.len() < 8 && le_value(b.take(4)) == 0 ==> take_addr(b) == Err::<
            (SocketAddrView, Seq<u8>),
            _,
        >(short_fault(b.skip(4))),
        8 <= b.len() < 10 && le_value(b.take(4)) == 0 ==> take_addr(b) == Err::<
            (SocketAddrView, Seq<u8>),
            _,
        >(short_fault(b.skip(4).skip(4))),
        4 <= b.len() < 20 && le_value(b.take(4)) == 1 ==> take_addr(b) == Err::<
            (SocketAddrView, Seq<u8>),
            _,
        >(short_fault(b.skip(4))),
        20 <= b.len() < 22 && le_value(b.take(4)) == 1 ==> take_addr(b) == Err::<
            (SocketAddrView, Seq<u8>),
            _,
        >(short_fault(b.skip(4).skip(16))),
{
}

/// What is said of a client message is said of the first field that is not there.
pub proof fn law_client_faults(b: Seq<u8>)
    requires
        b.len() >= 4,
    ensures
        ({
            let kind = le_value(b.take(4));
            let f = b.skip(4);
            let said = |text: Seq<char>| decode_client(b) == Err::<ClientMessageView, _>(text);
            &&& kind == 0 && take_bool(f) is None ==> said(bool_fault(f))
            &&& (kind == 1 || kind == 5) && take_text(f) is None ==> said(text_fault(f))
            &&& (kind == 2 || kind == 3 || kind == 6 || kind == 7) && take_size(f) is None ==> said(
                usize_fault(f),
            )
            &&& kind == 4 && take_addr(f) is Err ==> said(take_addr(f)->Err_0)
            &&& kind == 3 && take_size(f) is Some && take_addr(take_size(f)->Some_0.1) is Err
                ==> said(take_addr(take_size(f)->Some_0.1)->Err_0)
            &&& kind == 3 && take_size(f) is Some && take_addr(take_size(f)->Some_0.1) is Ok && ({
                let g = take_addr(take_size(f)->Some_0.1)->Ok_0.1;
                take_blob(g) is None
            }) ==> said(blob_fault(take_addr(take_size(f)->Some_0.1)->Ok_0.1))
            &&& kind == 4 && take_addr(f) is Ok && take_size(take_addr(f)->Ok_0.1) is None ==> said(
                usize_fault(take_addr(f)->Ok_0.1),
            )
            &&& kind == 5 && take_text(f) is Some && take_text(f)->Some_0.1.len() < 2 ==> said(
                short_fault(take_text(f)->Some_0.1),
            )
            &&& kind == 5 && take_text(f) is Some && take_text(f)->Some_0.1.len() >= 2 && take_size(
                take_text(f)->Some_0.1.skip(2),
            ) is None ==> said(usize_fault(take_text(f)->Some_0.1.skip(2)))
            &&& kind == 6 && take_size(f) is Some && take_blob(take_size(f)->Some_0.1) is None
                ==> said(blob_fault(take_size(f)->Some_0.1))
        }),
{
}

/// What is said of a server message is said of the first field that is not there.
pub proof fn law_server_faults(b: Seq<u8>)
    requires
        b.len() >= 4,
    ensures
        ({
            let kind = le_value(b.take(4));
            let f = b.skip(4);
            let said = |text: Seq<char>| decode_server(b) == Err::<ServerMessageView, _>(text);
            &&& kind == 0 && take_text(f) is None ==> said(text_fault(f))
            &&& (kind == 1 || kind == 2 || kind == 3) && take_size(f) is None ==> said(
                usize_fault(f),
            )
            &&& (kind == 1 || kind == 2) && take_size(f) is Some && take_blob(
                take_size(f)->Some_0.1,
            ) is None ==> said(blob_fault(take_size(f)->Some_0.1))
            &&& kind == 2 && take_size(f) is Some && take_blob(take_size(f)->Some_0.1) is Some
                && take_addr(take_blob(take_size(f)->Some_0.1)->Some_0.1) is Err ==> said(
                take_addr(take_blob(take_size(f)->Some_0.1)->Some_0.1)->Err_0,
            )
        }),
{
}

} // verus!
