use lib2ra::message::{
    parse_client_message, parse_server_message, ClientMessage, IntoMessage, ServerMessage,
    SocketAddr,
};
use serde::de::{Error, Unexpected};
use serde::ser::{Serialize, SerializeStructVariant, Serializer};

fn v4() -> SocketAddr {
    SocketAddr::V4 {
        octets: [127, 0, 0, 1],
        port: 8080,
    }
}

fn v6(flowinfo: u32, scope_id: u32) -> SocketAddr {
    SocketAddr::V6 {
        octets: [1, 2, 3, 4, 5, 6, 7, 8, 9, 10, 11, 12, 13, 14, 15, 16],
        port: 443,
        flowinfo,
        scope_id,
    }
}

/// The encoding without the length in front, which must be right.
fn body<M: IntoMessage>(m: &M) -> Vec<u8> {
    let bytes = m.as_message().unwrap();
    let len = bytes.len() - 8;
    assert_eq!(bytes[..8], bincode::serialize(&(len as u64)).unwrap()[..]);
    bytes[8..].to_vec()
}

#[test]
fn heartbeat_bytes() {
    assert_eq!(
        ClientMessage::Heartbeat.as_message().unwrap(),
        vec![4, 0, 0, 0, 0, 0, 0, 0, 8, 0, 0, 0]
    );
    assert_eq!(
        ServerMessage::Heartbeat.as_message().unwrap(),
        vec![4, 0, 0, 0, 0, 0, 0, 0, 4, 0, 0, 0]
    );
}

#[test]
fn data_bytes() {
    let m = ClientMessage::Data {
        id: 0x0102,
        data: vec![9, 8, 7],
    };
    assert_eq!(
        m.as_message().unwrap(),
        vec![
            23, 0, 0, 0, 0, 0, 0, 0, 6, 0, 0, 0, 2, 1, 0, 0, 0, 0, 0, 0, 3, 0, 0, 0, 0, 0, 0, 0, 9,
            8, 7
        ]
    );
}

#[test]
fn client_encodings_are_those_of_bincode() {
    let uuid = "67e55044-10b1-426f-9247-bb680e5fe0c8".to_string();
    let octets6 = [1u8, 2, 3, 4, 5, 6, 7, 8, 9, 10, 11, 12, 13, 14, 15, 16];
    assert_eq!(
        body(&ClientMessage::InitRx { new_session: true }),
        bincode::serialize(&(0u32, true)).unwrap()
    );
    assert_eq!(
        body(&ClientMessage::InitRx { new_session: false }),
        bincode::serialize(&(0u32, false)).unwrap()
    );
    assert_eq!(
        body(&ClientMessage::InitTx { uuid: uuid.clone() }),
        bincode::serialize(&(1u32, uuid)).unwrap()
    );
    assert_eq!(
        body(&ClientMessage::NewUdpSocket { id: 5 }),
        bincode::serialize(&(2u32, 5usize)).unwrap()
    );
    assert_eq!(
        body(&ClientMessage::DataUdp {
            id: 6,
            addr: v6(0, 0),
            data: vec![1, 2]
        }),
        bincode::serialize(&(3u32, 6usize, (1u32, octets6, 443u16), vec![1u8, 2])).unwrap()
    );
    assert_eq!(
        body(&ClientMessage::NewConnectionWithIp { addr: v4(), id: 7 }),
        bincode::serialize(&(4u32, (0u32, [127u8, 0, 0, 1], 8080u16), 7usize)).unwrap()
    );
    assert_eq!(
        body(&ClientMessage::NewConnectionWithDomain {
            domain: "b\u{fc}cher.example".to_string(),
            port: 80,
            id: usize::MAX
        }),
        bincode::serialize(&(5u32, "b\u{fc}cher.example", 80u16, usize::MAX)).unwrap()
    );
    assert_eq!(
        body(&ClientMessage::Data {
            id: 8,
            data: vec![]
        }),
        bincode::serialize(&(6u32, 8usize, Vec::<u8>::new())).unwrap()
    );
    assert_eq!(
        body(&ClientMessage::CloseConnection { id: 9 }),
        bincode::serialize(&(7u32, 9usize)).unwrap()
    );
}

#[test]
fn server_encodings_are_those_of_bincode() {
    assert_eq!(
        body(&ServerMessage::SessionCreated {
            uuid: "u".to_string()
        }),
        bincode::serialize(&(0u32, "u")).unwrap()
    );
    assert_eq!(
        body(&ServerMessage::Data {
            id: 1,
            data: vec![0, 255]
        }),
        bincode::serialize(&(1u32, 1usize, vec![0u8, 255])).unwrap()
    );
    assert_eq!(
        body(&ServerMessage::DataUdp {
            id: 2,
            data: vec![3],
            addr: v4()
        }),
        bincode::serialize(&(2u32, 2usize, vec![3u8], (0u32, [127u8, 0, 0, 1], 8080u16))).unwrap()
    );
    assert_eq!(
        body(&ServerMessage::ConnectionClosed { id: 3 }),
        bincode::serialize(&(3u32, 3usize)).unwrap()
    );
}

/// A message as `serde` describes a variant with named fields.
struct DataVariant {
    id: usize,
    data: Vec<u8>,
}

impl Serialize for DataVariant {
    fn serialize<S: Serializer>(&self, s: S) -> Result<S::Ok, S::Error> {
        let mut v = s.serialize_struct_variant("ClientMessage", 6, "Data", 2)?;
        v.serialize_field("id", &self.id)?;
        v.serialize_field("data", &self.data)?;
        v.end()
    }
}

#[test]
fn data_is_encoded_as_an_enum_variant() {
    let expected = bincode::serialize(&DataVariant {
        id: 77,
        data: vec![5, 6, 7],
    })
    .unwrap();
    assert_eq!(
        body(&ClientMessage::Data {
            id: 77,
            data: vec![5, 6, 7]
        }),
        expected
    );
}

#[test]
fn client_messages_round_trip() {
    let all = vec![
        ClientMessage::InitRx { new_session: true },
        ClientMessage::InitRx { new_session: false },
        ClientMessage::InitTx {
            uuid: "\u{1f600} id".to_string(),
        },
        ClientMessage::NewUdpSocket { id: 0 },
        ClientMessage::DataUdp {
            id: 1,
            addr: v4(),
            data: vec![1, 2, 3],
        },
        ClientMessage::DataUdp {
            id: 1,
            addr: v6(0, 0),
            data: vec![],
        },
        ClientMessage::NewConnectionWithIp { addr: v4(), id: 2 },
        ClientMessage::NewConnectionWithIp {
            addr: v6(0, 0),
            id: usize::MAX,
        },
        ClientMessage::NewConnectionWithDomain {
            domain: "example.com".to_string(),
            port: 65535,
            id: 3,
        },
        ClientMessage::Data {
            id: 4,
            data: vec![0; 1024],
        },
        ClientMessage::CloseConnection { id: 5 },
        ClientMessage::Heartbeat,
    ];
    for m in all {
        let mut bytes = body(&m);
        assert_eq!(parse_client_message(&bytes).unwrap(), m);
        // What stands behind a message does not matter.
        bytes.extend([1, 2, 3]);
        assert_eq!(parse_client_message(&bytes).unwrap(), m);
    }
}

#[test]
fn server_messages_round_trip() {
    let all = vec![
        ServerMessage::SessionCreated {
            uuid: "".to_string(),
        },
        ServerMessage::Data {
            id: 4,
            data: vec![7; 300],
        },
        ServerMessage::DataUdp {
            id: 1,
            data: vec![1, 2, 3],
            addr: v6(0, 0),
        },
        ServerMessage::ConnectionClosed { id: 5 },
        ServerMessage::Heartbeat,
    ];
    for m in all {
        let mut bytes = body(&m);
        assert_eq!(parse_server_message(&bytes).unwrap(), m);
        bytes.push(0);
        assert_eq!(parse_server_message(&bytes).unwrap(), m);
    }
}

#[test]
fn flow_label_and_scope_are_not_sent() {
    let sent = ClientMessage::NewConnectionWithIp {
        addr: v6(1, 2),
        id: 2,
    };
    assert_eq!(
        parse_client_message(&body(&sent)).unwrap(),
        ClientMessage::NewConnectionWithIp {
            addr: v6(0, 0),
            id: 2
        }
    );
}

/// What is said of a client message that cannot be read.
fn client_fault(bytes: &[u8]) -> String {
    parse_client_message(bytes).unwrap_err().text
}

/// What is said of a server message that cannot be read.
fn server_fault(bytes: &[u8]) -> String {
    parse_server_message(bytes).unwrap_err().text
}

/// What `bincode` says of bytes that end too early.
fn too_short() -> String {
    bincode::deserialize::<u16>(&[1]).unwrap_err().to_string()
}

#[test]
fn truncated_messages_are_malformed() {
    let whole = body(&ClientMessage::DataUdp {
        id: 1,
        addr: v4(),
        data: vec![1, 2, 3],
    });
    for n in 0..whole.len() {
        assert_eq!(client_fault(&whole[..n]), too_short());
    }
    let whole = body(&ClientMessage::NewConnectionWithIp {
        addr: v6(0, 0),
        id: 1,
    });
    for n in 0..whole.len() {
        assert_eq!(client_fault(&whole[..n]), too_short());
    }
    assert_eq!(client_fault(&[0, 0, 0, 0]), too_short());
    let whole = body(&ServerMessage::SessionCreated {
        uuid: "abc".to_string(),
    });
    for n in 0..whole.len() {
        let fault = if n < 4 {
            bincode::deserialize::<u32>(&whole[..n])
                .unwrap_err()
                .to_string()
        } else {
            bincode::deserialize::<String>(&whole[4..n])
                .unwrap_err()
                .to_string()
        };
        assert_eq!(server_fault(&whole[..n]), fault);
    }
}

#[test]
fn bincode_says_the_same_of_whole_messages() {
    // A kind that is there, so that the fields alone decide.
    for bytes in [
        bincode::serialize(&(6u32, 1u64)).unwrap(),
        bincode::serialize(&(6u32, 1u64, u64::MAX, 1u8)).unwrap(),
        bincode::serialize(&(6u32, 7u32)).unwrap(),
        vec![6, 0, 0],
    ] {
        let said = bincode::deserialize::<(u32, usize, Vec<u8>)>(&bytes).unwrap_err();
        assert_eq!(client_fault(&bytes), said.to_string());
    }
    for text in [vec![0xffu8, 0xfe], vec![b'a', 0xc3], vec![b'a', 0x80, b'b']] {
        let bytes = bincode::serialize(&(5u32, text, 80u16, 1u64)).unwrap();
        let said = bincode::deserialize::<(u32, String, u16, usize)>(&bytes).unwrap_err();
        assert_eq!(client_fault(&bytes), said.to_string());
        assert!(said.to_string().starts_with("string is not valid utf8: "));
    }
    for flag in [2u8, 10, 255] {
        let bytes = bincode::serialize(&(0u32, flag)).unwrap();
        let said = bincode::deserialize::<(u32, bool)>(&bytes).unwrap_err();
        assert_eq!(client_fault(&bytes), said.to_string());
        assert_eq!(
            client_fault(&bytes),
            format!("invalid u8 while decoding bool, expected 0 or 1, found {flag}")
        );
    }
}

#[test]
fn unknown_kinds_are_named() {
    for kind in [9u32, 10, 255, u32::MAX] {
        let bytes = bincode::serialize(&(kind, 0u64)).unwrap();
        let said = bincode::Error::invalid_value(
            Unexpected::Unsigned(kind as u64),
            &"variant index 0 <= i < 9",
        );
        assert_eq!(client_fault(&bytes), said.to_string());
    }
    let bytes = bincode::serialize(&(5u32, 0u64)).unwrap();
    let said =
        bincode::Error::invalid_value(Unexpected::Unsigned(5), &"variant index 0 <= i < 5");
    assert_eq!(server_fault(&bytes), said.to_string());
    // No such address family.
    let bytes = bincode::serialize(&(4u32, 2u32, [0u8; 16], 80u16, 1u64)).unwrap();
    assert_eq!(
        client_fault(&bytes),
        "invalid value: integer `2`, expected `V4` or `V6`"
    );
}
