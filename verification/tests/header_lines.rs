use kv_cache::command::{Command, GetCommand, Keyword, ParseError, StorageCommand, Verb};
use kv_cache::header::{
    parse_field, parse_header, parse_keyword, parse_payload, parse_storage_command,
};

fn storage(key: &str, flags: u16, exptime: i128, byte_count: usize, no_reply: bool) -> StorageCommand {
    StorageCommand {
        key: key.to_string(),
        flags,
        exptime,
        byte_count,
        no_reply,
        payload: String::new(),
    }
}

fn invalid(detail: &str) -> ParseError {
    ParseError::InvalidFormat(detail.to_string())
}

#[test]
fn get_needs_a_key_only() {
    assert_eq!(
        parse_header("get foo"),
        Ok(Command::Get(GetCommand { key: "foo".to_string() }))
    );
    assert_eq!(
        parse_header("get foo bar baz"),
        Ok(Command::Get(GetCommand { key: "foo".to_string() }))
    );
}

#[test]
fn each_storage_command_is_read() {
    assert_eq!(parse_header("set foo 1 2 3"), Ok(Command::SetValue(storage("foo", 1, 2, 3, false))));
    assert_eq!(parse_header("add foo 1 2 3"), Ok(Command::Add(storage("foo", 1, 2, 3, false))));
    assert_eq!(
        parse_header("replace foo 1 2 3"),
        Ok(Command::Replace(storage("foo", 1, 2, 3, false)))
    );
    assert_eq!(
        parse_header("append foo 1 2 3"),
        Ok(Command::Append(storage("foo", 1, 2, 3, false)))
    );
    assert_eq!(
        parse_header("prepend foo 1 2 3"),
        Ok(Command::Prepend(storage("foo", 1, 2, 3, false)))
    );
}

#[test]
fn command_names_ignore_case() {
    assert_eq!(parse_header("GET foo"), Ok(Command::Get(GetCommand { key: "foo".to_string() })));
    assert_eq!(parse_header("SeT foo 0 0 1"), Ok(Command::SetValue(storage("foo", 0, 0, 1, false))));
    assert_eq!(
        parse_header("PREPEND Foo 0 0 1"),
        Ok(Command::Prepend(storage("Foo", 0, 0, 1, false)))
    );
}

#[test]
fn keywords_are_the_six_names() {
    assert_eq!(parse_keyword("get"), Some(Keyword::Get));
    assert_eq!(parse_keyword("set"), Some(Keyword::Store(Verb::SetValue)));
    assert_eq!(parse_keyword("add"), Some(Keyword::Store(Verb::Add)));
    assert_eq!(parse_keyword("replace"), Some(Keyword::Store(Verb::Replace)));
    assert_eq!(parse_keyword("append"), Some(Keyword::Store(Verb::Append)));
    assert_eq!(parse_keyword("prepend"), Some(Keyword::Store(Verb::Prepend)));
    assert_eq!(parse_keyword("APPEND"), Some(Keyword::Store(Verb::Append)));
    assert_eq!(parse_keyword("gets"), None);
    assert_eq!(parse_keyword("ge"), None);
    assert_eq!(parse_keyword(""), None);
    assert_eq!(parse_keyword("delete"), None);
    assert_eq!(parse_keyword("g\u{45}t"), Some(Keyword::Get));
    assert_eq!(parse_keyword("g\u{395}t"), None);
}

#[test]
fn a_sixth_word_sets_no_reply() {
    assert_eq!(
        parse_header("set foo 0 0 3 noreply"),
        Ok(Command::SetValue(storage("foo", 0, 0, 3, true)))
    );
    assert_eq!(
        parse_header("set foo 0 0 3 anything at all"),
        Ok(Command::SetValue(storage("foo", 0, 0, 3, true)))
    );
}

#[test]
fn expiration_time_may_be_negative() {
    assert_eq!(
        parse_header("set foo 7 -5 3"),
        Ok(Command::SetValue(storage("foo", 7, -5, 3, false)))
    );
}

#[test]
fn a_line_without_words_misses_its_command() {
    assert_eq!(parse_header(""), Err(invalid("Missing command")));
    assert_eq!(parse_header("   \t "), Err(invalid("Missing command")));
}

#[test]
fn a_line_of_one_word_misses_its_key() {
    assert_eq!(parse_header("set"), Err(invalid("Missing key")));
    assert_eq!(parse_header("get"), Err(invalid("Missing key")));
    assert_eq!(parse_header("nonsense"), Err(invalid("Missing key")));
}

#[test]
fn an_unknown_first_word_is_an_unknown_command() {
    assert_eq!(parse_header("foo bar"), Err(ParseError::UnknownCommand("foo".to_string())));
    assert_eq!(
        parse_header("DELETE bar 0 0 1"),
        Err(ParseError::UnknownCommand("DELETE".to_string()))
    );
}

#[test]
fn missing_fields_are_named() {
    assert_eq!(parse_header("set foo"), Err(invalid("flags is missing")));
    assert_eq!(parse_header("set foo 0"), Err(invalid("exptime is missing")));
    assert_eq!(parse_header("set foo 0 0"), Err(invalid("byte count is missing")));
}

#[test]
fn malformed_fields_are_named() {
    assert_eq!(parse_header("set foo x 0 3"), Err(invalid("Expected a valid flags value")));
    assert_eq!(parse_header("set foo 65536 0 3"), Err(invalid("Expected a valid flags value")));
    assert_eq!(parse_header("set foo -1 0 3"), Err(invalid("Expected a valid flags value")));
    assert_eq!(parse_header("set foo 0 1.5 3"), Err(invalid("Expected a valid exptime value")));
    assert_eq!(parse_header("set foo 0 0 -3"), Err(invalid("Expected a valid byte count value")));
    assert_eq!(parse_header("set foo 0 0 three"), Err(invalid("Expected a valid byte count value")));
}

#[test]
fn the_first_field_that_fails_decides() {
    assert_eq!(parse_header("set foo x y z"), Err(invalid("Expected a valid flags value")));
    assert_eq!(parse_header("set foo 0 y"), Err(invalid("Expected a valid exptime value")));
    assert_eq!(parse_header("set foo x"), Err(invalid("Expected a valid flags value")));
}

#[test]
fn fields_are_read_by_position() {
    let keywords = ["set", "foo", "12", "-34", "56"];
    assert_eq!(parse_field::<u16>(&keywords, 2, "flags"), Ok(12));
    assert_eq!(parse_field::<i128>(&keywords, 3, "exptime"), Ok(-34));
    assert_eq!(parse_field::<usize>(&keywords, 4, "byte count"), Ok(56));
    assert_eq!(parse_field::<u16>(&keywords, 3, "flags"), Err(invalid("Expected a valid flags value")));
    assert_eq!(parse_field::<u16>(&keywords, 5, "flags"), Err(invalid("flags is missing")));
    assert_eq!(parse_field::<usize>(&keywords, 9, "weight"), Err(invalid("weight is missing")));
    assert_eq!(parse_field::<usize>(&keywords, 0, "weight"), Err(invalid("Expected a valid weight value")));
}

#[test]
fn storage_fields_come_from_words_three_to_five() {
    assert_eq!(
        parse_storage_command(&["x", "y", "1", "2", "3"], "k".to_string()),
        Ok(storage("k", 1, 2, 3, false))
    );
    assert_eq!(
        parse_storage_command(&["x", "y", "1", "2", "3", "z"], "k".to_string()),
        Ok(storage("k", 1, 2, 3, true))
    );
    assert_eq!(
        parse_storage_command(&["x", "y"], "k".to_string()),
        Err(invalid("flags is missing"))
    );
}

#[test]
fn a_payload_loses_its_delimiter() {
    assert_eq!(parse_payload("bar\r\n".to_string(), 3), Ok("bar".to_string()));
    assert_eq!(parse_payload("\r\n".to_string(), 0), Ok(String::new()));
    assert_eq!(parse_payload("h\u{e9}llo\r\n".to_string(), 6), Ok("h\u{e9}llo".to_string()));
}

#[test]
fn a_payload_without_delimiter_is_refused() {
    let refused = Err(invalid("Expected \r\n at the end of string"));
    assert_eq!(parse_payload("barba".to_string(), 3), refused);
    assert_eq!(parse_payload("bar\n\r".to_string(), 3), refused);
    assert_eq!(parse_payload("bar\r".to_string(), 2), refused);
    assert_eq!(parse_payload("".to_string(), 0), refused);
    assert_eq!(parse_payload("\n".to_string(), 0), refused);
}

#[test]
fn a_payload_is_cut_to_the_byte_count() {
    assert_eq!(parse_payload("bar\r\n".to_string(), 1), Ok("b".to_string()));
    assert_eq!(parse_payload("bar\r\n".to_string(), 5), Ok("bar\r\n".to_string()));
    assert_eq!(parse_payload("bar\r\n".to_string(), 50), Ok("bar\r\n".to_string()));
}

#[test]
fn a_storage_command_goes_under_its_verb() {
    let fields = || storage("k", 1, 2, 3, false);
    assert_eq!(Command::storage(Verb::SetValue, fields()), Command::SetValue(fields()));
    assert_eq!(Command::storage(Verb::Add, fields()), Command::Add(fields()));
    assert_eq!(Command::storage(Verb::Replace, fields()), Command::Replace(fields()));
    assert_eq!(Command::storage(Verb::Append, fields()), Command::Append(fields()));
    assert_eq!(Command::storage(Verb::Prepend, fields()), Command::Prepend(fields()));
}
