//! The messages that client and server exchange, and their encoding.
//!
//! A message is written as the index of its kind in four bytes, then its fields
//! in order. On a stream each message stands behind its length in eight bytes.

use vstd::prelude::*;
use vstd::utf8::encode_utf8;

use crate::wire::{
    blob_bytes, blob_fault, bool_bytes, bool_fault, integer_fault, integer_fault_text, le_bytes,
    lemma_le_bytes_len, lemma_le_ranges, lemma_take_blob, lemma_take_bool, lemma_take_le,
    lemma_take_octets, lemma_take_size, lemma_take_text, serialize_16_octets, serialize_4_octets,
    serialize_blob, serialize_bool, serialize_text, serialize_u16, serialize_u32, serialize_u64,
    short_fault, take_blob, take_bool, take_le, take_octets, take_size, take_text, text_bytes,
    text_fault, usize_fault, FieldReader,
};

verus! {

/// An internet socket address.
#[allow(inconsistent_fields)]
#[derive(Debug, Clone, Copy, PartialEq, Eq)]
pub enum SocketAddr {
    V4 { octets: [u8; 4], port: u16 },
    V6 { octets: [u8; 16], port: u16, flowinfo: u32, scope_id: u32 },
}

/// Where a connection should go: an address, or a name still to be looked up.
#[derive(Debug, PartialEq, Eq)]
pub enum Address {
    SocketAddress(SocketAddr),
    DomainAddress(String, u16),
}

/// What a client asks of the server.
#[derive(Debug, PartialEq, Eq)]
pub enum ClientMessage {
    InitRx { new_session: bool },
    InitTx { uuid: String },
    NewUdpSocket { id: usize },
    DataUdp { id: usize, addr: SocketAddr, data: Vec<u8> },
    NewConnectionWithIp { addr: SocketAddr, id: usize },
    NewConnectionWithDomain { domain: String, port: u16, id: usize },
    Data { id: usize, data: Vec<u8> },
    CloseConnection { id: usize },
    Heartbeat,
}

/// What the server tells a client.
#[derive(Debug, PartialEq, Eq)]
pub enum ServerMessage {
    SessionCreated { uuid: String },
    Data { id: usize, data: Vec<u8> },
    DataUdp { id: usize, data: Vec<u8>, addr: SocketAddr },
    ConnectionClosed { id: usize },
    Heartbeat,
}

/// Why a message could not be written.
#[derive(Debug, Clone, Copy, PartialEq, Eq)]
pub enum MessageError {
    /// A field could not be encoded.
    Encode,
}

/// Bytes are no encoding of a message.
#[derive(Debug, PartialEq, Eq)]
pub struct DecodeError {
    /// What is wrong with them.
    pub text: String,
}

// ---------------------------------------------------------------------------
// Views
// ---------------------------------------------------------------------------

/// A [`SocketAddr`], mathematically.
#[verifier::ext_equal]
pub enum SocketAddrView {
    V4 { octets: Seq<u8>, port: u16 },
    V6 { octets: Seq<u8>, port: u16, flowinfo: u32, scope_id: u32 },
}

/// A [`ClientMessage`], mathematically.
#[verifier::ext_equal]
pub enum ClientMessageView {
    InitRx { new_session: bool },
    InitTx { uuid: Seq<char> },
    NewUdpSocket { id: usize },
    DataUdp { id: usize, addr: SocketAddrView, data: Seq<u8> },
    NewConnectionWithIp { addr: SocketAddrView, id: usize },
    NewConnectionWithDomain { domain: Seq<char>, port: u16, id: usize },
    Data { id: usize, data: Seq<u8> },
    CloseConnection { id: usize },
    Heartbeat,
}

/// A [`ServerMessage`], mathematically.
#[verifier::ext_equal]
pub enum ServerMessageView {
    SessionCreated { uuid: Seq<char> },
    Data { id: usize, data: Seq<u8> },
    DataUdp { id: usize, data: Seq<u8>, addr: SocketAddrView },
    ConnectionClosed { id: usize },
    Heartbeat,
}

impl View for SocketAddr {
    type V = SocketAddrView;

    open spec fn view(&self) -> SocketAddrView {
        match *self {
            SocketAddr::V4 { octets, port } => SocketAddrView::V4 { octets: octets@, port },
            SocketAddr::V6 { octets, port, flowinfo, scope_id } => SocketAddrView::V6 {
                octets: octets@,
                port,
                flowinfo,
                scope_id,
            },
        }
    }
}

/// An [`Address`], mathematically.
#[verifier::ext_equal]
pub enum AddressView {
    SocketAddress(SocketAddrView),
    DomainAddress(Seq<char>, u16),
}

impl View for Address {
    type V = AddressView;

    open spec fn view(&self) -> AddressView {
        match *self {
            Address::SocketAddress(addr) => AddressView::SocketAddress(addr@),
            Address::DomainAddress(domain, port) => AddressView::DomainAddress(domain@, port),
        }
    }
}

impl View for ClientMessage {
    type V = ClientMessageView;

    open spec fn view(&self) -> ClientMessageView {
        match *self {
            ClientMessage::InitRx { new_session } => ClientMessageView::InitRx { new_session },
            ClientMessage::InitTx { uuid } => ClientMessageView::InitTx { uuid: uuid@ },
            ClientMessage::NewUdpSocket { id } => ClientMessageView::NewUdpSocket { id },
            ClientMessage::DataUdp { id, addr, data } => ClientMessageView::DataUdp {
                id,
                addr: addr@,
                data: data@,
            },
            ClientMessage::NewConnectionWithIp { addr, id } =>
                ClientMessageView::NewConnectionWithIp { addr: addr@, id },
            ClientMessage::NewConnectionWithDomain { domain, port, id } =>
                ClientMessageView::NewConnectionWithDomain { domain: domain@, port, id },
            ClientMessage::Data { id, data } => ClientMessageView::Data { id, data: data@ },
            ClientMessage::CloseConnection { id } => ClientMessageView::CloseConnection { id },
            ClientMessage::Heartbeat => ClientMessageView::Heartbeat,
        }
    }
}

impl View for ServerMessage {
    type V = ServerMessageView;

    open spec fn view(&self) -> ServerMessageView {
        match *self {
            ServerMessage::SessionCreated { uuid } => ServerMessageView::SessionCreated {
                uuid: uuid@,
            },
            ServerMessage::Data { id, data } => ServerMessageView::Data { id, data: data@ },
            ServerMessage::DataUdp { id, data, addr } => ServerMessageView::DataUdp {
                id,
                data: data@,
                addr: addr@,
            },
            ServerMessage::ConnectionClosed { id } => ServerMessageView::ConnectionClosed { id },
            ServerMessage::Heartbeat => ServerMessageView::Heartbeat,
        }
    }
}

// ---------------------------------------------------------------------------
// The encoding
// ---------------------------------------------------------------------------

/// The index of a kind, in front of the fields.
pub open spec fn kind_bytes(index: nat) -> Seq<u8> {
    le_bytes(index, 4)
}

pub open spec fn id_bytes(id: usize) -> Seq<u8> {
    le_bytes(id as nat, 8)
}

pub open spec fn port_bytes(port: u16) -> Seq<u8> {
    le_bytes(port as nat, 2)
}

/// An address is its family, octets and port; flow label and scope are not written.
pub open spec fn addr_bytes(a: SocketAddrView) -> Seq<u8> {
    match a {
        SocketAddrView::V4 { octets, port } => kind_bytes(0) + octets + port_bytes(port),
        SocketAddrView::V6 { octets, port, .. } => kind_bytes(1) + octets + port_bytes(port),
    }
}

/// The encoding of a client message, without the length in front.
pub open spec fn client_bytes(m: ClientMessageView) -> Seq<u8> {
    match m {
        ClientMessageView::InitRx { new_session } => kind_bytes(0) + bool_bytes(new_session),
        ClientMessageView::InitTx { uuid } => kind_bytes(1) + text_bytes(uuid),
        ClientMessageView::NewUdpSocket { id } => kind_bytes(2) + id_bytes(id),
        ClientMessageView::DataUdp { id, addr, data } => kind_bytes(3) + id_bytes(id) + addr_bytes(
            addr,
        ) + blob_bytes(data),
        ClientMessageView::NewConnectionWithIp { addr, id } => kind_bytes(4) + addr_bytes(addr)
            + id_bytes(id),
        ClientMessageView::NewConnectionWithDomain { domain, port, id } => kind_bytes(5)
            + text_bytes(domain) + port_bytes(port) + id_bytes(id),
        ClientMessageView::Data { id, data } => kind_bytes(6) + id_bytes(id) + blob_bytes(data),
        ClientMessageView::CloseConnection { id } => kind_bytes(7) + id_bytes(id),
        ClientMessageView::Heartbeat => kind_bytes(8),
    }
}

/// The encoding of a server message, without the length in front.
pub open spec fn server_bytes(m: ServerMessageView) -> Seq<u8> {
    match m {
        ServerMessageView::SessionCreated { uuid } => kind_bytes(0) + text_bytes(uuid),
        ServerMessageView::Data { id, data } => kind_bytes(1) + id_bytes(id) + blob_bytes(data),
        ServerMessageView::DataUdp { id, data, addr } => kind_bytes(2) + id_bytes(id) + blob_bytes(
            data,
        ) + addr_bytes(addr),
        ServerMessageView::ConnectionClosed { id } => kind_bytes(3) + id_bytes(id),
        ServerMessageView::Heartbeat => kind_bytes(4),
    }
}

/// A message as it stands on a stream: behind its length.
pub open spec fn frame(body: Seq<u8>) -> Seq<u8> {
    blob_bytes(body)
}

/// Appends an encoded field.
fn put(out: &mut Vec<u8>, field: Result<Vec<u8>, Box<bincode::ErrorKind>>) -> (r: Result<
    (),
    MessageError,
>)
    ensures
        match field {
            Ok(b) => r is Ok && final(out)@ == old(out)@ + b@,
            Err(_) => r == Err::<(), MessageError>(MessageError::Encode) && final(out)@ == old(
                out,
            )@,
        },
{
    match field {
        Ok(b) => {
            let mut b = b;
            out.append(&mut b);
            Ok(())
        },
        Err(_) => Err(MessageError::Encode),
    }
}

/// Appends an encoded address.
fn put_addr(out: &mut Vec<u8>, addr: &SocketAddr) -> (r: Result<(), MessageError>)
    ensures
        r is Ok,
        final(out)@ == old(out)@ + addr_bytes(addr@),
{
    match addr {
        SocketAddr::V4 { octets, port } => {
            put(out, serialize_u32(0))?;
            put(out, serialize_4_octets(octets))?;
            put(out, serialize_u16(*port))?;
        },
        SocketAddr::V6 { octets, port, .. } => {
            put(out, serialize_u32(1))?;
            put(out, serialize_16_octets(octets))?;
            put(out, serialize_u16(*port))?;
        },
    }
    Ok(())
}

/// Puts its length in front of an encoded message.
fn framed(body: Vec<u8>) -> (r: Result<Vec<u8>, MessageError>)
    ensures
        r is Ok,
        r->Ok_0@ == frame(body@),
{
    let mut body = body;
    let mut result: Vec<u8> = Vec::new();
    put(&mut result, serialize_u64(body.len() as u64))?;
    result.append(&mut body);
    Ok(result)
}

/// Messages that can be put on a stream.
pub trait IntoMessage {
    /// The encoding, without the length in front.
    spec fn body(&self) -> Seq<u8>;

    /// The message as it stands on a stream.
    fn as_message(&self) -> (r: Result<Vec<u8>, MessageError>)
        ensures
            r is Ok,
            r->Ok_0@ == frame(self.body()),
    ;
}

impl IntoMessage for ClientMessage {
    open spec fn body(&self) -> Seq<u8> {
        client_bytes(self@)
    }

    fn as_message(&self) -> (r: Result<Vec<u8>, MessageError>) {
        let mut body: Vec<u8> = Vec::new();
        let out = &mut body;
        match self {
            ClientMessage::InitRx { new_session } => {
                put(out, serialize_u32(0))?;
                put(out, serialize_bool(*new_session))?;
            },
            ClientMessage::InitTx { uuid } => {
                put(out, serialize_u32(1))?;
                put(out, serialize_text(uuid))?;
            },
            ClientMessage::NewUdpSocket { id } => {
                put(out, serialize_u32(2))?;
                put(out, serialize_u64(*id as u64))?;
            },
            ClientMessage::DataUdp { id, addr, data } => {
                put(out, serialize_u32(3))?;
                put(out, serialize_u64(*id as u64))?;
                put_addr(out, addr)?;
                put(out, serialize_blob(data))?;
            },
            ClientMessage::NewConnectionWithIp { addr, id } => {
                put(out, serialize_u32(4))?;
                put_addr(out, addr)?;
                put(out, serialize_u64(*id as u64))?;
            },
            ClientMessage::NewConnectionWithDomain { domain, port, id } => {
                put(out, serialize_u32(5))?;
                put(out, serialize_text(domain))?;
                put(out, serialize_u16(*port))?;
                put(out, serialize_u64(*id as u64))?;
            },
            ClientMessage::Data { id, data } => {
                put(out, serialize_u32(6))?;
                put(out, serialize_u64(*id as u64))?;
                put(out, serialize_blob(data))?;
            },
            ClientMessage::CloseConnection { id } => {
                put(out, serialize_u32(7))?;
                put(out, serialize_u64(*id as u64))?;
            },
            ClientMessage::Heartbeat => {
                put(out, serialize_u32(8))?;
            },
        }
        framed(body)
    }
}

impl IntoMessage for ServerMessage {
    open spec fn body(&self) -> Seq<u8> {
        server_bytes(self@)
    }

    fn as_message(&self) -> (r: Result<Vec<u8>, MessageError>) {
        let mut body: Vec<u8> = Vec::new();
        let out = &mut body;
        match self {
            ServerMessage::SessionCreated { uuid } => {
                put(out, serialize_u32(0))?;
                put(out, serialize_text(uuid))?;
            },
            ServerMessage::Data { id, data } => {
                put(out, serialize_u32(1))?;
                put(out, serialize_u64(*id as u64))?;
                put(out, serialize_blob(data))?;
            },
            ServerMessage::DataUdp { id, data, addr } => {
                put(out, serialize_u32(2))?;
                put(out, serialize_u64(*id as u64))?;
                put(out, serialize_blob(data))?;
                put_addr(out, addr)?;
            },
            ServerMessage::ConnectionClosed { id } => {
                put(out, serialize_u32(3))?;
                put(out, serialize_u64(*id as u64))?;
            },
            ServerMessage::Heartbeat => {
                put(out, serialize_u32(4))?;
            },
        }
        framed(body)
    }
}

// ---------------------------------------------------------------------------
// The decoding
// ---------------------------------------------------------------------------

/// An address off the front of `b`, with what is left, or what is wrong with it.
pub open spec fn take_addr(b: Seq<u8>) -> Result<(SocketAddrView, Seq<u8>), Seq<char>> {
    match take_le(b, 4) {
        None => Err(short_fault(b)),
        Some((kind, b)) => {
            let count: nat = if kind == 0 {
                4
            } else {
                16
            };
            if kind > 1 {
                Err(integer_fault(kind, "`V4` or `V6`"@))
            } else {
                match take_octets(b, count) {
                    None => Err(short_fault(b)),
                    Some((octets, b)) => match take_le(b, 2) {
                        None => Err(short_fault(b)),
                        Some((port, b)) => Ok(
                            (
                                if kind == 0 {
                                    SocketAddrView::V4 { octets, port: port as u16 }
                                } else {
                                    SocketAddrView::V6 {
                                        octets,
                                        port: port as u16,
                                        flowinfo: 0,
                                        scope_id: 0,
                                    }
                                },
                                b,
                            ),
                        ),
                    },
                }
            }
        },
    }
}

/// The fields of the client message of kind `kind` off the front of `b`; bytes
/// behind them do not matter.
pub open spec fn decode_client_fields(kind: nat, b: Seq<u8>) -> Result<
    ClientMessageView,
    Seq<char>,
> {
    if kind == 0 {
        match take_bool(b) {
            None => Err(bool_fault(b)),
            Some((new_session, _)) => Ok(ClientMessageView::InitRx { new_session }),
        }
    } else if kind == 1 {
        match take_text(b) {
            None => Err(text_fault(b)),
            Some((uuid, _)) => Ok(ClientMessageView::InitTx { uuid }),
        }
    } else if kind == 2 {
        match take_size(b) {
            None => Err(usize_fault(b)),
            Some((id, _)) => Ok(ClientMessageView::NewUdpSocket { id: id as usize }),
        }
    } else if kind == 3 {
        match take_size(b) {
            None => Err(usize_fault(b)),
            Some((id, b)) => match take_addr(b) {
                Err(text) => Err(text),
                Ok((addr, b)) => match take_blob(b) {
                    None => Err(blob_fault(b)),
                    Some((data, _)) => Ok(
                        ClientMessageView::DataUdp { id: id as usize, addr, data },
                    ),
                },
            },
        }
    } else if kind == 4 {
        match take_addr(b) {
            Err(text) => Err(text),
            Ok((addr, b)) => match take_size(b) {
                None => Err(usize_fault(b)),
                Some((id, _)) => Ok(
                    ClientMessageView::NewConnectionWithIp { addr, id: id as usize },
                ),
            },
        }
    } else if kind == 5 {
        match take_text(b) {
            None => Err(text_fault(b)),
            Some((domain, b)) => match take_le(b, 2) {
                None => Err(short_fault(b)),
                Some((port, b)) => match take_size(b) {
                    None => Err(usize_fault(b)),
                    Some((id, _)) => Ok(
                        ClientMessageView::NewConnectionWithDomain {
                            domain,
                            port: port as u16,
                            id: id as usize,
                        },
                    ),
                },
            },
        }
    } else if kind == 6 {
        match take_size(b) {
            None => Err(usize_fault(b)),
            Some((id, b)) => match take_blob(b) {
                None => Err(blob_fault(b)),
                Some((data, _)) => Ok(ClientMessageView::Data { id: id as usize, data }),
            },
        }
    } else if kind == 7 {
        match take_size(b) {
            None => Err(usize_fault(b)),
            Some((id, _)) => Ok(ClientMessageView::CloseConnection { id: id as usize }),
        }
    } else if kind == 8 {
        Ok(ClientMessageView::Heartbeat)
    } else {
        Err(integer_fault(kind, "variant index 0 <= i < 9"@))
    }
}

/// The client message that `b` begins with, or what is wrong with it.
pub open spec fn decode_client(b: Seq<u8>) -> Result<ClientMessageView, Seq<char>> {
    match take_le(b, 4) {
        None => Err(short_fault(b)),
        Some((kind, b)) => decode_client_fields(kind, b),
    }
}

/// The fields of the server message of kind `kind` off the front of `b`; bytes
/// behind them do not matter.
pub open spec fn decode_server_fields(kind: nat, b: Seq<u8>) -> Result<
    ServerMessageView,
    Seq<char>,
> {
    if kind == 0 {
        match take_text(b) {
            None => Err(text_fault(b)),
            Some((uuid, _)) => Ok(ServerMessageView::SessionCreated { uuid }),
        }
    } else if kind == 1 {
        match take_size(b) {
            None => Err(usize_fault(b)),
            Some((id, b)) => match take_blob(b) {
                None => Err(blob_fault(b)),
                Some((data, _)) => Ok(ServerMessageView::Data { id: id as usize, data }),
            },
        }
    } else if kind == 2 {
        match take_size(b) {
            None => Err(usize_fault(b)),
            Some((id, b)) => match take_blob(b) {
                None => Err(blob_fault(b)),
                Some((data, b)) => match take_addr(b) {
                    Err(text) => Err(text),
                    Ok((addr, _)) => Ok(
                        ServerMessageView::DataUdp { id: id as usize, data, addr },
                    ),
                },
            },
        }
    } else if kind == 3 {
        match take_size(b) {
            None => Err(usize_fault(b)),
            Some((id, _)) => Ok(ServerMessageView::ConnectionClosed { id: id as usize }),
        }
    } else if kind == 4 {
        Ok(ServerMessageView::Heartbeat)
    } else {
        Err(integer_fault(kind, "variant index 0 <= i < 5"@))
    }
}

/// The server message that `b` begins with, or what is wrong with it.
pub open spec fn decode_server(b: Seq<u8>) -> Result<ServerMessageView, Seq<char>> {
    match take_le(b, 4) {
        None => Err(short_fault(b)),
        Some((kind, b)) => decode_server_fields(kind, b),
    }
}

fn read_addr(reader: &mut FieldReader<'_>) -> (r: Result<SocketAddr, String>)
    ensures
        match take_addr(old(reader).rest@) {
            Ok((addr, rest)) => r is Ok && r->Ok_0@ == addr && final(reader).rest@ == rest,
            Err(text) => r is Err && r->Err_0@ == text,
        },
{
    let kind = reader.take_u32()?;
    if kind == 0 {
        let octets = reader.take_4_octets()?;
        let port = reader.take_u16()?;
        Ok(SocketAddr::V4 { octets, port })
    } else if kind == 1 {
        let octets = reader.take_16_octets()?;
        let port = reader.take_u16()?;
        Ok(SocketAddr::V6 { octets, port, flowinfo: 0, scope_id: 0 })
    } else {
        Err(integer_fault_text(kind as usize, "`V4` or `V6`"))
    }
}

fn read_client_fields(b: &[u8]) -> (r: Result<ClientMessage, String>)
    ensures
        match decode_client(b@) {
            Ok(m) => r is Ok && r->Ok_0@ == m,
            Err(text) => r is Err && r->Err_0@ == text,
        },
{
    let mut reader = FieldReader { rest: b };
    let kind = reader.take_u32()?;
    if kind == 0 {
        let new_session = reader.take_bool()?;
        Ok(ClientMessage::InitRx { new_session })
    } else if kind == 1 {
        let uuid = reader.take_text()?;
        Ok(ClientMessage::InitTx { uuid })
    } else if kind == 2 {
        let id = reader.take_usize()?;
        Ok(ClientMessage::NewUdpSocket { id })
    } else if kind == 3 {
        let id = reader.take_usize()?;
        let addr = read_addr(&mut reader)?;
        let data = reader.take_blob()?;
        Ok(ClientMessage::DataUdp { id, addr, data })
    } else if kind == 4 {
        let addr = read_addr(&mut reader)?;
        let id = reader.take_usize()?;
        Ok(ClientMessage::NewConnectionWithIp { addr, id })
    } else if kind == 5 {
        let domain = reader.take_text()?;
        let port = reader.take_u16()?;
        let id = reader.take_usize()?;
        Ok(ClientMessage::NewConnectionWithDomain { domain, port, id })
    } else if kind == 6 {
        let id = reader.take_usize()?;
        let data = reader.take_blob()?;
        Ok(ClientMessage::Data { id, data })
    } else if kind == 7 {
        let id = reader.take_usize()?;
        Ok(ClientMessage::CloseConnection { id })
    } else if kind == 8 {
        Ok(ClientMessage::Heartbeat)
    } else {
        Err(integer_fault_text(kind as usize, "variant index 0 <= i < 9"))
    }
}

fn read_server_fields(b: &[u8]) -> (r: Result<ServerMessage, String>)
    ensures
        match decode_server(b@) {
            Ok(m) => r is Ok && r->Ok_0@ == m,
            Err(text) => r is Err && r->Err_0@ == text,
        },
{
    let mut reader = FieldReader { rest: b };
    let kind = reader.take_u32()?;
    if kind == 0 {
        let uuid = reader.take_text()?;
        Ok(ServerMessage::SessionCreated { uuid })
    } else if kind == 1 {
        let id = reader.take_usize()?;
        let data = reader.take_blob()?;
        Ok(ServerMessage::Data { id, data })
    } else if kind == 2 {
        let id = reader.take_usize()?;
        let data = reader.take_blob()?;
        let addr = read_addr(&mut reader)?;
        Ok(ServerMessage::DataUdp { id, data, addr })
    } else if kind == 3 {
        let id = reader.take_usize()?;
        Ok(ServerMessage::ConnectionClosed { id })
    } else if kind == 4 {
        Ok(ServerMessage::Heartbeat)
    } else {
        Err(integer_fault_text(kind as usize, "variant index 0 <= i < 5"))
    }
}

/// The client message that `b` begins with.
pub fn parse_client_message(b: &[u8]) -> (r: Result<ClientMessage, DecodeError>)
    ensures
        match decode_client(b@) {
            Ok(m) => r is Ok && r->Ok_0@ == m,
            Err(text) => r is Err && r->Err_0.text@ == text,
        },
{
    match read_client_fields(b) {
        Ok(m) => Ok(m),
        Err(text) => Err(DecodeError { text }),
    }
}

/// The server message that `b` begins with.
pub fn parse_server_message(b: &[u8]) -> (r: Result<ServerMessage, DecodeError>)
    ensures
        match decode_server(b@) {
            Ok(m) => r is Ok && r->Ok_0@ == m,
            Err(text) => r is Err && r->Err_0.text@ == text,
        },
{
    match read_server_fields(b) {
        Ok(m) => Ok(m),
        Err(text) => Err(DecodeError { text }),
    }
}

// ---------------------------------------------------------------------------
// Laws
// ---------------------------------------------------------------------------

impl SocketAddrView {
    /// Octets as many as the family has.
    pub open spec fn well_formed(self) -> bool {
        match self {
            SocketAddrView::V4 { octets, .. } => octets.len() == 4,
            SocketAddrView::V6 { octets, .. } => octets.len() == 16,
        }
    }

    /// The address as the other side reads it: without flow label and scope.
    pub open spec fn as_received(self) -> SocketAddrView {
        match self {
            SocketAddrView::V4 { .. } => self,
            SocketAddrView::V6 { octets, port, .. } => SocketAddrView::V6 {
                octets,
                port,
                flowinfo: 0,
                scope_id: 0,
            },
        }
    }
}

impl AddressView {
    /// The place as the other side reads it.
    pub open spec fn as_received(self) -> AddressView {
        match self {
            AddressView::SocketAddress(addr) => AddressView::SocketAddress(addr.as_received()),
            AddressView::DomainAddress(..) => self,
        }
    }
}

impl ClientMessageView {
    /// Whether a message can exist: its addresses have all their octets and its
    /// strings are shorter than a 64-bit length can say.
    pub open spec fn well_formed(self) -> bool {
        match self {
            ClientMessageView::InitTx { uuid } => encode_utf8(uuid).len() <= u64::MAX,
            ClientMessageView::DataUdp { addr, data, .. } => addr.well_formed() && data.len()
                <= u64::MAX,
            ClientMessageView::NewConnectionWithIp { addr, .. } => addr.well_formed(),
            ClientMessageView::NewConnectionWithDomain { domain, .. } => encode_utf8(domain).len()
                <= u64::MAX,
            ClientMessageView::Data { data, .. } => data.len() <= u64::MAX,
            _ => true,
        }
    }

    /// The message as the server reads it.
    pub open spec fn as_received(self) -> ClientMessageView {
        match self {
            ClientMessageView::DataUdp { id, addr, data } => ClientMessageView::DataUdp {
                id,
                addr: addr.as_received(),
                data,
            },
            ClientMessageView::NewConnectionWithIp { addr, id } =>
                ClientMessageView::NewConnectionWithIp { addr: addr.as_received(), id },
            _ => self,
        }
    }
}

impl ServerMessageView {
    /// Whether a message can exist: its addresses have all their octets and its
    /// strings are shorter than a 64-bit length can say.
    pub open spec fn well_formed(self) -> bool {
        match self {
            ServerMessageView::SessionCreated { uuid } => encode_utf8(uuid).len() <= u64::MAX,
            ServerMessageView::Data { data, .. } => data.len() <= u64::MAX,
            ServerMessageView::DataUdp { data, addr, .. } => addr.well_formed() && data.len()
                <= u64::MAX,
            _ => true,
        }
    }

    /// The message as the client reads it.
    pub open spec fn as_received(self) -> ServerMessageView {
        match self {
            ServerMessageView::DataUdp { id, data, addr } => ServerMessageView::DataUdp {
                id,
                data,
                addr: addr.as_received(),
            },
            _ => self,
        }
    }
}

/// Fields followed by `rest`, regrouped from the front.
proof fn lemma_regroup(a: Seq<u8>, b: Seq<u8>, c: Seq<u8>, d: Seq<u8>, rest: Seq<u8>)
    ensures
        a + b + rest == a + (b + rest),
        a + b + c + rest == a + (b + (c + rest)),
        a + b + c + d + rest == a + (b + (c + (d + rest))),
{
    assert(a + b + rest =~= a + (b + rest));
    assert(a + b + c + rest =~= a + (b + (c + rest)));
    assert(a + b + c + d + rest =~= a + (b + (c + (d + rest))));
}

proof fn lemma_take_addr(a: SocketAddrView, rest: Seq<u8>)
    requires
        a.well_formed(),
    ensures
        take_addr(addr_bytes(a) + rest) == Ok::<(SocketAddrView, Seq<u8>), Seq<char>>(
            (a.as_received(), rest),
        ),
{
    lemma_le_ranges();
    match a {
        SocketAddrView::V4 { octets, port } => {
            let b1 = port_bytes(port) + rest;
            let b0 = octets + b1;
            lemma_regroup(kind_bytes(0), octets, port_bytes(port), Seq::empty(), rest);
            lemma_take_le(0, 4, b0);
            lemma_take_octets(octets, b1);
            lemma_take_le(port as nat, 2, rest);
        },
        SocketAddrView::V6 { octets, port, .. } => {
            let b1 = port_bytes(port) + rest;
            let b0 = octets + b1;
            lemma_regroup(kind_bytes(1), octets, port_bytes(port), Seq::empty(), rest);
            lemma_take_le(1, 4, b0);
            lemma_take_octets(octets, b1);
            lemma_take_le(port as nat, 2, rest);
        },
    }
}

/// The kind in front decides which fields are read.
proof fn lemma_client_kind(kind: nat, fields: Seq<u8>)
    requires
        kind <= 8,
    ensures
        decode_client(kind_bytes(kind) + fields) == decode_client_fields(kind, fields),
{
    lemma_le_ranges();
    lemma_take_le(kind, 4, fields);
}

proof fn lemma_client_data_udp(id: usize, addr: SocketAddrView, data: Seq<u8>, rest: Seq<u8>)
    requires
        addr.well_formed(),
        data.len() <= u64::MAX,
    ensures
        decode_client_fields(3, id_bytes(id) + (addr_bytes(addr) + (blob_bytes(data) + rest)))
            == Ok::<_, Seq<char>>(
            ClientMessageView::DataUdp { id, addr: addr.as_received(), data },
        ),
{
    let b2 = blob_bytes(data) + rest;
    let b1 = addr_bytes(addr) + b2;
    lemma_take_size(id as nat, b1);
    lemma_take_addr(addr, b2);
    lemma_take_blob(data, rest);
}

proof fn lemma_client_domain(domain: Seq<char>, port: u16, id: usize, rest: Seq<u8>)
    requires
        encode_utf8(domain).len() <= u64::MAX,
    ensures
        decode_client_fields(5, text_bytes(domain) + (port_bytes(port) + (id_bytes(id) + rest)))
            == Ok::<_, Seq<char>>(ClientMessageView::NewConnectionWithDomain { domain, port, id }),
{
    lemma_le_ranges();
    let b2 = id_bytes(id) + rest;
    let b1 = port_bytes(port) + b2;
    lemma_take_text(domain, b1);
    lemma_take_le(port as nat, 2, b2);
    lemma_take_size(id as nat, rest);
}

/// What the server reads of an encoded client message is that message, up to the
/// flow label and scope of its address, whatever bytes stand behind it.
pub proof fn law_client_message_round_trip(m: ClientMessageView, rest: Seq<u8>)
    requires
        m.well_formed(),
    ensures
        decode_client(client_bytes(m) + rest) == Ok::<_, Seq<char>>(m.as_received()),
{
    match m {
        ClientMessageView::InitRx { new_session } => {
            let b = bool_bytes(new_session) + rest;
            lemma_regroup(kind_bytes(0), bool_bytes(new_session), Seq::empty(), Seq::empty(), rest);
            lemma_client_kind(0, b);
            lemma_take_bool(new_session, rest);
        },
        ClientMessageView::InitTx { uuid } => {
            let b = text_bytes(uuid) + rest;
            lemma_regroup(kind_bytes(1), text_bytes(uuid), Seq::empty(), Seq::empty(), rest);
            lemma_client_kind(1, b);
            lemma_take_text(uuid, rest);
        },
        ClientMessageView::NewUdpSocket { id } => {
            let b = id_bytes(id) + rest;
            lemma_regroup(kind_bytes(2), id_bytes(id), Seq::empty(), Seq::empty(), rest);
            lemma_client_kind(2, b);
            lemma_take_size(id as nat, rest);
        },
        ClientMessageView::DataUdp { id, addr, data } => {
            let b = id_bytes(id) + (addr_bytes(addr) + (blob_bytes(data) + rest));
            lemma_regroup(kind_bytes(3), id_bytes(id), addr_bytes(addr), blob_bytes(data), rest);
            lemma_client_kind(3, b);
            lemma_client_data_udp(id, addr, data, rest);
        },
        ClientMessageView::NewConnectionWithIp { addr, id } => {
            let b1 = id_bytes(id) + rest;
            let b0 = addr_bytes(addr) + b1;
            lemma_regroup(kind_bytes(4), addr_bytes(addr), id_bytes(id), Seq::empty(), rest);
            lemma_client_kind(4, b0);
            lemma_take_addr(addr, b1);
            lemma_take_size(id as nat, rest);
        },
        ClientMessageView::NewConnectionWithDomain { domain, port, id } => {
            let b = text_bytes(domain) + (port_bytes(port) + (id_bytes(id) + rest));
            lemma_regroup(kind_bytes(5), text_bytes(domain), port_bytes(port), id_bytes(id), rest);
            lemma_client_kind(5, b);
            lemma_client_domain(domain, port, id, rest);
        },
        ClientMessageView::Data { id, data } => {
            let b1 = blob_bytes(data) + rest;
            let b0 = id_bytes(id) + b1;
            lemma_regroup(kind_bytes(6), id_bytes(id), blob_bytes(data), Seq::empty(), rest);
            lemma_client_kind(6, b0);
            lemma_take_size(id as nat, b1);
            lemma_take_blob(data, rest);
        },
        ClientMessageView::CloseConnection { id } => {
            let b = id_bytes(id) + rest;
            lemma_regroup(kind_bytes(7), id_bytes(id), Seq::empty(), Seq::empty(), rest);
            lemma_client_kind(7, b);
            lemma_take_size(id as nat, rest);
        },
        ClientMessageView::Heartbeat => {
            lemma_client_kind(8, rest);
        },
    }
}

/// The kind in front decides which fields are read.
proof fn lemma_server_kind(kind: nat, fields: Seq<u8>)
    requires
        kind <= 4,
    ensures
        decode_server(kind_bytes(kind) + fields) == decode_server_fields(kind, fields),
{
    lemma_le_ranges();
    lemma_take_le(kind, 4, fields);
}

proof fn lemma_server_data_udp(id: usize, data: Seq<u8>, addr: SocketAddrView, rest: Seq<u8>)
    requires
        addr.well_formed(),
        data.len() <= u64::MAX,
    ensures
        decode_server_fields(2, id_bytes(id) + (blob_bytes(data) + (addr_bytes(addr) + rest)))
            == Ok::<_, Seq<char>>(
            ServerMessageView::DataUdp { id, data, addr: addr.as_received() },
        ),
{
    let b2 = addr_bytes(addr) + rest;
    let b1 = blob_bytes(data) + b2;
    lemma_take_size(id as nat, b1);
    lemma_take_blob(data, b2);
    lemma_take_addr(addr, rest);
}

/// What the client reads of an encoded server message is that message, up to the
/// flow label and scope of its address, whatever bytes stand behind it.
pub proof fn law_server_message_round_trip(m: ServerMessageView, rest: Seq<u8>)
    requires
        m.well_formed(),
    ensures
        decode_server(server_bytes(m) + rest) == Ok::<_, Seq<char>>(m.as_received()),
{
    match m {
        ServerMessageView::SessionCreated { uuid } => {
            let b = text_bytes(uuid) + rest;
            lemma_regroup(kind_bytes(0), text_bytes(uuid), Seq::empty(), Seq::empty(), rest);
            lemma_server_kind(0, b);
            lemma_take_text(uuid, rest);
        },
        ServerMessageView::Data { id, data } => {
            let b1 = blob_bytes(data) + rest;
            let b0 = id_bytes(id) + b1;
            lemma_regroup(kind_bytes(1), id_bytes(id), blob_bytes(data), Seq::empty(), rest);
            lemma_server_kind(1, b0);
            lemma_take_size(id as nat, b1);
            lemma_take_blob(data, rest);
        },
        ServerMessageView::DataUdp { id, data, addr } => {
            let b = id_bytes(id) + (blob_bytes(data) + (addr_bytes(addr) + rest));
            lemma_regroup(kind_bytes(2), id_bytes(id), blob_bytes(data), addr_bytes(addr), rest);
            lemma_server_kind(2, b);
            lemma_server_data_udp(id, data, addr, rest);
        },
        ServerMessageView::ConnectionClosed { id } => {
            let b = id_bytes(id) + rest;
            lemma_regroup(kind_bytes(3), id_bytes(id), Seq::empty(), Seq::empty(), rest);
            lemma_server_kind(3, b);
            lemma_take_size(id as nat, rest);
        },
        ServerMessageView::Heartbeat => {
            lemma_server_kind(4, rest);
        },
    }
}

/// A `Data` message of `n` bytes takes `n + 20` bytes, in either direction.
pub proof fn law_data_message_len(id: usize, data: Seq<u8>)
    ensures
        client_bytes(ClientMessageView::Data { id, data }).len() == data.len() + 20,
        server_bytes(ServerMessageView::Data { id, data }).len() == data.len() + 20,
{
    lemma_le_bytes_len(6, 4);
    lemma_le_bytes_len(1, 4);
    lemma_le_bytes_len(id as nat, 8);
    lemma_le_bytes_len(data.len(), 8);
}

} // verus!
