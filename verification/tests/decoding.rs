use kv_cache::command::{
    Command, ConnectionClosedError, DecodeError, GetCommand, ParseError, StorageCommand,
};
use kv_cache::decoder::{find, split_once, ConnectionBuffer, Decoder};
use kv_cache::session::respond;
use kv_cache::store::{Database, Timestamp};

fn now() -> Timestamp {
    Timestamp { secs: 1_000, nanos: 0 }
}

fn storage(key: &str, flags: u16, exptime: i128, payload: &str) -> StorageCommand {
    StorageCommand {
        key: key.to_string(),
        flags,
        exptime,
        byte_count: payload.len(),
        no_reply: false,
        payload: payload.to_string(),
    }
}

fn invalid(detail: &str) -> DecodeError {
    DecodeError::ParseError(ParseError::InvalidFormat(detail.to_string()))
}

fn fed(bytes: &[u8]) -> Decoder {
    let mut decoder = Decoder::new();
    assert_eq!(decoder.receive(bytes), Ok(()));
    decoder
}

#[test]
fn find_gives_the_first_place() {
    assert_eq!(find(b"abcabc", b"bc"), Some(1));
    assert_eq!(find(b"abcabc", b"abcabc"), Some(0));
    assert_eq!(find(b"abcabc", b"cb"), None);
    assert_eq!(find(b"ab", b"abc"), None);
    assert_eq!(find(b"abc", b""), Some(0));
    assert_eq!(find(b"", b""), Some(0));
    assert_eq!(find(b"aab", b"ab"), Some(1));
    assert_eq!(find(b"\r\r\n", b"\r\n"), Some(1));
}

#[test]
fn split_once_splits_at_the_first_delimiter() {
    assert_eq!(split_once(b"get foo\r\nrest\r\n", b"\r\n"), (b"get foo".to_vec(), b"rest\r\n".to_vec()));
    assert_eq!(split_once(b"\r\n", b"\r\n"), (Vec::new(), Vec::new()));
    assert_eq!(split_once(b"abc", b""), (Vec::new(), b"abc".to_vec()));
    assert_eq!(split_once(b"a--b--c", b"--"), (b"a".to_vec(), b"b--c".to_vec()));
}

#[test]
fn a_read_of_no_bytes_closes_the_connection() {
    let mut buffer = ConnectionBuffer::new();
    assert_eq!(buffer.fill(b""), Err(ConnectionClosedError {}));
    assert_eq!(buffer.fill(b"x"), Ok(()));
    let mut decoder = Decoder::new();
    assert_eq!(decoder.receive(b""), Err(DecodeError::ConnectionClosed));
    assert_eq!(decoder.receive(b"get f"), Ok(()));
    assert_eq!(decoder.receive(b""), Err(DecodeError::ConnectionClosed));
}

#[test]
fn the_buffer_gives_lines_and_keeps_the_rest() {
    let mut buffer = ConnectionBuffer::new();
    assert_eq!(buffer.read_header(), None);
    buffer.fill(b"get f").unwrap();
    assert_eq!(buffer.read_header(), None);
    buffer.fill(b"oo\r").unwrap();
    assert_eq!(buffer.read_until_delimeter(), None);
    buffer.fill(b"\nget bar\r\nge").unwrap();
    assert_eq!(buffer.read_header(), Some(b"get foo".to_vec()));
    assert_eq!(buffer.read_until_delimeter(), Some(b"get bar".to_vec()));
    assert_eq!(buffer.read_header(), None);
    buffer.fill(b"t\r\n").unwrap();
    assert_eq!(buffer.read_header(), Some(b"get".to_vec()));
}

#[test]
fn the_buffer_gives_frames_of_the_byte_count_and_two() {
    let mut buffer = ConnectionBuffer::new();
    buffer.fill(b"bar\r").unwrap();
    assert_eq!(buffer.read_payload(3), None);
    buffer.fill(b"\nnext").unwrap();
    assert_eq!(buffer.read_payload(3), Some(b"bar\r\n".to_vec()));
    assert_eq!(buffer.read_payload(2), Some(b"next".to_vec()));
    assert_eq!(buffer.read_payload(0), None);
    assert_eq!(buffer.read_payload(usize::MAX), None);
    assert_eq!(buffer.read_payload(usize::MAX - 1), None);
}

#[test]
fn a_get_is_decoded_from_its_line() {
    let mut decoder = fed(b"get foo\r\n");
    assert_eq!(decoder.decode(), Some(Ok(Command::Get(GetCommand { key: "foo".to_string() }))));
    assert_eq!(decoder.decode(), None);
}

#[test]
fn a_storage_command_is_decoded_with_its_payload() {
    let mut decoder = fed(b"set foo 5 0 3\r\nbar\r\n");
    assert_eq!(decoder.decode(), Some(Ok(Command::SetValue(storage("foo", 5, 0, "bar")))));
    assert_eq!(decoder.decode(), None);
}

#[test]
fn a_payload_may_hold_line_ends_and_longer_characters() {
    let mut decoder = fed("append k 0 0 11\r\na\r\nb h\u{e9}llo\r\n".as_bytes());
    assert_eq!(decoder.decode(), Some(Ok(Command::Append(storage("k", 0, 0, "a\r\nb h\u{e9}llo")))));
}

#[test]
fn decoded_storage_commands_are_well_formed() {
    let mut decoder = fed("add k 0 0 6\r\nh\u{e9}llo\r\n".as_bytes());
    match decoder.decode() {
        Some(Ok(command)) => assert!(command.is_well_formed()),
        other => panic!("no command: {:?}", other),
    }
}

#[test]
fn a_command_may_come_in_pieces() {
    let mut decoder = Decoder::new();
    let wire = b"replace foo 1 2 6\r\nbarbaz\r\nget foo\r\n";
    let mut decoded = Vec::new();
    for byte in wire.iter() {
        assert_eq!(decoder.receive(&[*byte]), Ok(()));
        if let Some(result) = decoder.decode() {
            decoded.push(result);
        }
    }
    assert_eq!(
        decoded,
        vec![
            Ok(Command::Replace(storage("foo", 1, 2, "barbaz"))),
            Ok(Command::Get(GetCommand { key: "foo".to_string() })),
        ]
    );
}

#[test]
fn the_header_waits_for_its_payload() {
    let mut decoder = fed(b"prepend foo 0 0 4\r\nba");
    assert_eq!(decoder.decode(), None);
    assert_eq!(decoder.decode(), None);
    assert_eq!(decoder.receive(b"rs\r"), Ok(()));
    assert_eq!(decoder.decode(), None);
    assert_eq!(decoder.receive(b"\n"), Ok(()));
    assert_eq!(decoder.decode(), Some(Ok(Command::Prepend(storage("foo", 0, 0, "bars")))));
}

#[test]
fn several_commands_come_out_in_order() {
    let mut decoder = fed(b"set a 0 0 1\r\nx\r\nget a\r\nadd b 1 2 2\r\nyz\r\n");
    assert_eq!(decoder.decode(), Some(Ok(Command::SetValue(storage("a", 0, 0, "x")))));
    assert_eq!(decoder.decode(), Some(Ok(Command::Get(GetCommand { key: "a".to_string() }))));
    assert_eq!(decoder.decode(), Some(Ok(Command::Add(storage("b", 1, 2, "yz")))));
    assert_eq!(decoder.decode(), None);
}

#[test]
fn a_malformed_header_is_a_client_error() {
    let mut decoder = fed(b"set\r\n");
    assert_eq!(decoder.decode(), Some(Err(invalid("Missing key"))));
    let mut db = Database::new();
    assert_eq!(
        respond(Err(invalid("Missing key")), &mut db, now()),
        Some("CLIENT_ERROR Missing key\r\n".to_string())
    );
}

#[test]
fn an_unknown_command_is_an_error() {
    let mut decoder = fed(b"foo bar\r\n");
    let decoded = decoder.decode().unwrap();
    assert_eq!(decoded, Err(DecodeError::ParseError(ParseError::UnknownCommand("foo".to_string()))));
    let mut db = Database::new();
    assert_eq!(respond(decoded, &mut db, now()), Some("ERROR\r\n".to_string()));
}

#[test]
fn a_rejected_header_takes_its_line_only() {
    let mut decoder = fed(b"set foo x 0 3\r\nget foo\r\n");
    assert_eq!(decoder.decode(), Some(Err(invalid("Expected a valid flags value"))));
    assert_eq!(decoder.decode(), Some(Ok(Command::Get(GetCommand { key: "foo".to_string() }))));
}

#[test]
fn a_payload_with_a_misplaced_delimiter_is_a_client_error_and_framing_goes_on() {
    let mut decoder = fed(b"set foo 0 0 3\r\nbarXYget foo\r\n");
    assert_eq!(decoder.decode(), Some(Err(invalid("Expected \r\n at the end of string"))));
    assert_eq!(decoder.decode(), Some(Ok(Command::Get(GetCommand { key: "foo".to_string() }))));
    assert_eq!(decoder.decode(), None);
}

#[test]
fn a_payload_longer_than_declared_is_a_client_error() {
    let mut decoder = fed(b"set foo 0 0 3\r\nbarbaz\r\n");
    assert_eq!(decoder.decode(), Some(Err(invalid("Expected \r\n at the end of string"))));
    assert_eq!(
        decoder.decode(),
        Some(Err(DecodeError::ParseError(ParseError::InvalidFormat("Missing key".to_string()))))
    );
    assert_eq!(decoder.decode(), None);
}

#[test]
fn a_payload_shorter_than_declared_waits_for_more() {
    let mut decoder = fed(b"set foo 0 0 5\r\nbar\r\n");
    assert_eq!(decoder.decode(), None);
    assert_eq!(decoder.receive(b"\r\n"), Ok(()));
    assert_eq!(decoder.decode(), Some(Ok(Command::SetValue(storage("foo", 0, 0, "bar\r\n")))));
}

#[test]
fn a_header_that_is_no_text_is_fatal() {
    let mut decoder = fed(b"get \xff\xfe\r\n");
    assert_eq!(decoder.decode(), Some(Err(DecodeError::InvalidUtf8)));
    let mut db = Database::new();
    assert_eq!(respond(Err(DecodeError::InvalidUtf8), &mut db, now()), None);
}

#[test]
fn a_payload_that_is_no_text_is_fatal() {
    let mut decoder = fed(b"set foo 0 0 2\r\n\xc3\x28\r\n");
    assert_eq!(decoder.decode(), Some(Err(DecodeError::InvalidUtf8)));
}

#[test]
fn a_frame_that_ends_inside_a_character_is_fatal() {
    let mut decoder = fed("set foo 0 0 0\r\n\u{4e16}\r\n".as_bytes());
    assert_eq!(decoder.decode(), Some(Err(DecodeError::InvalidUtf8)));
}

#[test]
fn a_frame_of_one_whole_character_is_a_client_error() {
    let mut decoder = fed("set foo 0 0 1\r\n\u{4e16}\r\n".as_bytes());
    assert_eq!(decoder.decode(), Some(Err(invalid("Expected \r\n at the end of string"))));
}

#[test]
fn a_closed_connection_ends_the_session_without_a_reply() {
    let mut db = Database::new();
    assert_eq!(respond(Err(DecodeError::ConnectionClosed), &mut db, now()), None);
}

#[test]
fn set_then_get_from_end_to_end() {
    let mut db = Database::new();
    let mut decoder = Decoder::new();
    assert_eq!(decoder.receive(b"set foo 0 0 3\r\nbar\r\n"), Ok(()));
    let decoded = decoder.decode().unwrap();
    assert_eq!(respond(decoded, &mut db, now()), Some("STORED\r\n".to_string()));
    assert_eq!(decoder.decode(), None);
    assert_eq!(decoder.receive(b"get foo\r\n"), Ok(()));
    let decoded = decoder.decode().unwrap();
    assert_eq!(
        respond(decoded, &mut db, now()),
        Some("VALUE foo 0 3\r\nbar\r\nEND\r\n".to_string())
    );
}

#[test]
fn a_session_answers_every_command_in_order() {
    let mut db = Database::new();
    let mut decoder = fed(
        b"get k\r\nadd k 3 0 2\r\nhi\r\nbogus k\r\nappend k 0 0 1\r\n!\r\nset\r\nget k\r\n",
    );
    let mut replies = String::new();
    while let Some(decoded) = decoder.decode() {
        match respond(decoded, &mut db, now()) {
            Some(reply) => replies.push_str(&reply),
            None => break,
        }
    }
    assert_eq!(
        replies,
        "END\r\nSTORED\r\nERROR\r\nSTORED\r\nCLIENT_ERROR Missing key\r\nVALUE k 3 3\r\nhi!\r\nEND\r\n"
    );
}
