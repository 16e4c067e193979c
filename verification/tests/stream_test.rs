use lib2ra::message::{ClientMessage, IntoMessage, ServerMessage};
use lib2ra::stream::{
    read_client_message, read_server_message, wait_for_body, BodyWait, ReadStop, HEADER_LEN,
    MAX_MESSAGE_LEN,
};

fn crlf2() -> Vec<char> {
    vec!['\r', '\n', '\r', '\n']
}

#[test]
fn a_message_is_waited_for_byte_by_byte() {
    let m = ClientMessage::Data {
        id: 3,
        data: vec![1, 2, 3, 4, 5],
    };
    let bytes = m.as_message().unwrap();
    for n in 0..HEADER_LEN {
        assert_eq!(
            read_client_message(&bytes[..n]),
            Err(ReadStop::NeedMore(HEADER_LEN - n))
        );
    }
    for n in HEADER_LEN..bytes.len() {
        assert_eq!(
            read_client_message(&bytes[..n]),
            Err(ReadStop::NeedMore(bytes.len() - n))
        );
    }
    assert_eq!(read_client_message(&bytes), Ok((m, bytes.len())));
}

#[test]
fn messages_are_read_one_after_the_other() {
    let mut stream = vec![];
    stream.extend(
        ServerMessage::SessionCreated {
            uuid: "x".to_string(),
        }
        .as_message()
        .unwrap(),
    );
    stream.extend(ServerMessage::Heartbeat.as_message().unwrap());
    stream.extend(
        ServerMessage::Data {
            id: 1,
            data: vec![9],
        }
        .as_message()
        .unwrap(),
    );
    let mut at = 0;
    let mut seen = vec![];
    while let Ok((m, used)) = read_server_message(&stream[at..]) {
        at += used;
        seen.push(m);
    }
    assert_eq!(at, stream.len());
    assert_eq!(
        seen,
        vec![
            ServerMessage::SessionCreated {
                uuid: "x".to_string()
            },
            ServerMessage::Heartbeat,
            ServerMessage::Data {
                id: 1,
                data: vec![9]
            },
        ]
    );
    assert_eq!(
        read_server_message(&stream[at..]),
        Err(ReadStop::NeedMore(8))
    );
}

#[test]
fn long_messages_are_refused() {
    let longest = ClientMessage::Data {
        id: 0,
        data: vec![7; MAX_MESSAGE_LEN - 20],
    };
    let bytes = longest.as_message().unwrap();
    assert_eq!(bytes.len(), MAX_MESSAGE_LEN + HEADER_LEN);
    assert_eq!(read_client_message(&bytes), Ok((longest, bytes.len())));

    let longer = ClientMessage::Data {
        id: 0,
        data: vec![7; MAX_MESSAGE_LEN - 19],
    };
    let bytes = longer.as_message().unwrap();
    assert_eq!(
        read_client_message(&bytes),
        Err(ReadStop::TooLong(100_001))
    );
    // The length alone is enough.
    assert_eq!(
        read_client_message(&bytes[..HEADER_LEN]),
        Err(ReadStop::TooLong(100_001))
    );
    assert_eq!(
        read_server_message(&[0xff, 0xff, 0xff, 0xff, 0, 0, 0, 0]),
        Err(ReadStop::TooLong(0xffff_ffff))
    );
}

#[test]
fn reasons_to_stop_have_words() {
    assert_eq!(
        ReadStop::TooLong(100_001).text(),
        "invalid message len size. 100001 is too big"
    );
    assert_eq!(
        ReadStop::TooLong(usize::MAX).text(),
        format!("invalid message len size. {} is too big", usize::MAX)
    );
    assert_eq!(ReadStop::Malformed("why".to_string()).text(), "why");
    assert_eq!(ReadStop::NeedMore(1).text(), "incomplete message");
}

#[test]
fn lines_may_end_in_carriage_returns() {
    let head = b"HTTP/1.0 200 OK\r\nServer: gws\r\n\r\n";
    let mut stream = head.to_vec();
    stream.extend(b"body");
    assert_eq!(wait_for_body(&crlf2(), &stream), Some(head.len()));
    // A blank line within the head ends it early.
    assert_eq!(wait_for_body(&crlf2(), b"a\r\n\r\nb\r\n\r\n"), Some(5));
    // A wait goes on where it stopped.
    let mut wait = BodyWait::new(crlf2());
    assert!(b"a\r\n\r".iter().all(|b| !wait.feed(*b)));
    assert!(wait.feed(b'\n'));
}

#[test]
fn a_body_that_is_no_message_is_malformed() {
    assert_eq!(
        read_client_message(&[4, 0, 0, 0, 0, 0, 0, 0, 200, 0, 0, 0]),
        Err(ReadStop::Malformed(
            "invalid value: integer `200`, expected variant index 0 <= i < 9".to_string()
        ))
    );
    assert_eq!(
        read_server_message(&[0, 0, 0, 0, 0, 0, 0, 0]),
        Err(ReadStop::Malformed(
            bincode::deserialize::<u32>(&[]).unwrap_err().to_string()
        ))
    );
}

#[test]
fn the_body_begins_behind_the_separator() {
    let stream = b"HTTP/1.0 200 OK\nServer: gws\r\n\r\nbody";
    assert_eq!(
        wait_for_body(&crlf2(), stream),
        Some(stream.len() - "body".len())
    );
    assert_eq!(wait_for_body(&crlf2(), b"\r\n\r\n"), Some(4));
    assert_eq!(wait_for_body(&crlf2(), b"\r\n\r"), None);
    assert_eq!(wait_for_body(&crlf2(), b""), None);
}

#[test]
fn a_mismatch_starts_over_with_the_next_byte() {
    // The second carriage return is consumed by the mismatch.
    assert_eq!(wait_for_body(&crlf2(), b"\r\r\n\r\n"), None);
    assert_eq!(wait_for_body(&crlf2(), b"\r\r\n\r\n\r\n"), Some(7));
    assert_eq!(wait_for_body(&vec!['a', 'b'], b"aab"), None);
    assert_eq!(wait_for_body(&vec!['a', 'b'], b"acab"), Some(4));
}

#[test]
fn bytes_stand_for_the_characters_of_their_number() {
    assert_eq!(wait_for_body(&vec!['\u{e9}'], &[0xc3, 0xe9]), Some(2));
    // Beyond one byte nothing matches.
    assert_eq!(wait_for_body(&vec!['\u{20ac}'], "\u{20ac}".as_bytes()), None);
}

#[test]
fn a_wait_can_be_used_again() {
    let mut wait = BodyWait::new(vec!['a', 'b']);
    let fed: Vec<bool> = b"xabab".iter().map(|b| wait.feed(*b)).collect();
    assert_eq!(fed, vec![false, false, true, false, true]);
}
