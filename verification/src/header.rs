//! The grammar of a header line and of a payload frame.

use crate::command::{
    Command, CommandModel, GetCommand, Keyword, ParseError, ParseErrorModel, StorageCommand,
    StorageModel, Verb,
};
use crate::number::Decimal;
use crate::text::{leading_words, to_chars, words};
use vstd::prelude::*;
use vstd::string::*;
use vstd::utf8::*;

verus! {

/// A character with the capital letters of ASCII made small.
pub open spec fn folded(c: char) -> u32 {
    let n = c as u32;
    if 0x41 <= n <= 0x5A {
        (n + 0x20) as u32
    } else {
        n
    }
}

/// `word` is `name` but for the case of its letters, where `name` is in
/// small letters.
pub open spec fn spells(word: Seq<char>, name: Seq<char>) -> bool {
    &&& word.len() == name.len()
    &&& forall|i: int| 0 <= i < word.len() ==> folded(#[trigger] word[i]) == name[i] as u32
}

/// The command that `word` names.
pub open spec fn keyword_of(word: Seq<char>) -> Option<Keyword> {
    if spells(word, "get"@) {
        Some(Keyword::Get)
    } else if spells(word, "set"@) {
        Some(Keyword::Store(Verb::SetValue))
    } else if spells(word, "add"@) {
        Some(Keyword::Store(Verb::Add))
    } else if spells(word, "replace"@) {
        Some(Keyword::Store(Verb::Replace))
    } else if spells(word, "append"@) {
        Some(Keyword::Store(Verb::Append))
    } else if spells(word, "prepend"@) {
        Some(Keyword::Store(Verb::Prepend))
    } else {
        None
    }
}

/// What a client reads when the field `name` is not there.
pub open spec fn missing(name: Seq<char>) -> Seq<char> {
    name + " is missing"@
}

/// What a client reads when the field `name` is no number of its type.
pub open spec fn invalid(name: Seq<char>) -> Seq<char> {
    "Expected a valid "@ + name + " value"@
}

/// The words as plain text.
pub open spec fn texts(keywords: Seq<&str>) -> Seq<Seq<char>> {
    keywords.map_values(|word: &str| word@)
}

/// The number in the word at `index`, the field called `name`.
pub open spec fn field_of<T: Decimal>(words: Seq<Seq<char>>, index: int, name: Seq<char>) -> Result<
    T,
    ParseErrorModel,
> {
    if index < 0 || index >= words.len() {
        Err(ParseErrorModel::InvalidFormat(missing(name)))
    } else {
        match T::denoted(words[index]) {
            Some(value) => Ok(value),
            None => Err(ParseErrorModel::InvalidFormat(invalid(name))),
        }
    }
}

/// The storage command in the words of a header: flags, expiration time and
/// byte count in the third, fourth and fifth word, and `no_reply` for a sixth
/// word, whatever it is. The first field that fails decides the error.
pub open spec fn storage_command_of(words: Seq<Seq<char>>, key: Seq<char>) -> Result<
    StorageModel,
    ParseErrorModel,
> {
    match field_of::<u16>(words, 2, "flags"@) {
        Err(error) => Err(error),
        Ok(flags) => match field_of::<i128>(words, 3, "exptime"@) {
            Err(error) => Err(error),
            Ok(exptime) => match field_of::<usize>(words, 4, "byte count"@) {
                Err(error) => Err(error),
                Ok(byte_count) => Ok(
                    StorageModel {
                        key,
                        flags,
                        exptime,
                        byte_count,
                        no_reply: words.len() > 5,
                        payload: Seq::empty(),
                    },
                ),
            },
        },
    }
}

/// The command in a header line. The line needs a command word and a key
/// before the command word is looked at.
pub open spec fn header_command(header: Seq<char>) -> Result<CommandModel, ParseErrorModel> {
    let words = words(header);
    if words.len() < 1 {
        Err(ParseErrorModel::InvalidFormat("Missing command"@))
    } else if words.len() < 2 {
        Err(ParseErrorModel::InvalidFormat("Missing key"@))
    } else {
        match keyword_of(words[0]) {
            None => Err(ParseErrorModel::UnknownCommand(words[0])),
            Some(Keyword::Get) => Ok(CommandModel::Get { key: words[1] }),
            Some(Keyword::Store(verb)) => match storage_command_of(words, words[1]) {
                Err(error) => Err(error),
                Ok(command) => Ok(CommandModel::Store { verb, command }),
            },
        }
    }
}

/// The last two bytes are a carriage return and a line feed.
pub open spec fn ends_with_delimiter(bytes: Seq<u8>) -> bool {
    bytes.len() >= 2 && bytes[bytes.len() - 2] == 13 && bytes[bytes.len() - 1] == 10
}

/// The payload in a frame of `text`: its first `byte_count` bytes (all of it
/// where it is shorter), if the frame ends with the delimiter.
pub open spec fn payload_of(text: Seq<char>, byte_count: usize) -> Result<
    Seq<char>,
    ParseErrorModel,
> {
    let bytes = encode_utf8(text);
    if !ends_with_delimiter(bytes) {
        Err(ParseErrorModel::InvalidFormat("Expected \r\n at the end of string"@))
    } else if byte_count >= bytes.len() {
        Ok(text)
    } else {
        Ok(decode_utf8(bytes.take(byte_count as int)))
    }
}

pub open spec fn command_view(result: Result<Command, ParseError>) -> Result<
    CommandModel,
    ParseErrorModel,
> {
    match result {
        Ok(command) => Ok(command@),
        Err(error) => Err(error@),
    }
}

pub open spec fn storage_view(result: Result<StorageCommand, ParseError>) -> Result<
    StorageModel,
    ParseErrorModel,
> {
    match result {
        Ok(command) => Ok(command@),
        Err(error) => Err(error@),
    }
}

pub open spec fn text_view(result: Result<String, ParseError>) -> Result<
    Seq<char>,
    ParseErrorModel,
> {
    match result {
        Ok(text) => Ok(text@),
        Err(error) => Err(error@),
    }
}

pub open spec fn field_view<T>(result: Result<T, ParseError>) -> Result<T, ParseErrorModel> {
    match result {
        Ok(value) => Ok(value),
        Err(error) => Err(error@),
    }
}

/// Tells whether `word` is `name` but for the case of its letters.
fn is_name(word: &[char], name: &str) -> (b: bool)
    ensures
        b == spells(word@, name@),
{
    let letters = to_chars(name);
    if word.len() != letters.len() {
        return false;
    }
    let mut i: usize = 0;
    while i < word.len()
        invariant
            i <= word@.len(),
            word@.len() == letters@.len(),
            letters@ == name@,
            forall|k: int| 0 <= k < i ==> folded(#[trigger] word@[k]) == name@[k] as u32,
        decreases word@.len() - i,
    {
        let n: u32 = word[i] as u32;
        let small: u32 = if 0x41 <= n && n <= 0x5A {
            n + 0x20
        } else {
            n
        };
        if small != letters[i] as u32 {
            return false;
        }
        i += 1;
    }
    true
}

/// Finds the command that `word` names.
pub fn parse_keyword(word: &str) -> (keyword: Option<Keyword>)
    ensures
        keyword == keyword_of(word@),
{
    let letters = to_chars(word);
    if is_name(letters.as_slice(), "get") {
        Some(Keyword::Get)
    } else if is_name(letters.as_slice(), "set") {
        Some(Keyword::Store(Verb::SetValue))
    } else if is_name(letters.as_slice(), "add") {
        Some(Keyword::Store(Verb::Add))
    } else if is_name(letters.as_slice(), "replace") {
        Some(Keyword::Store(Verb::Replace))
    } else if is_name(letters.as_slice(), "append") {
        Some(Keyword::Store(Verb::Append))
    } else if is_name(letters.as_slice(), "prepend") {
        Some(Keyword::Store(Verb::Prepend))
    } else {
        None
    }
}

/// Reads the number in the word at `index`, the field called `field_name`.
pub fn parse_field<T: Decimal>(keywords: &[&str], index: usize, field_name: &str) -> (result:
    Result<T, ParseError>)
    ensures
        field_view(result) == field_of::<T>(texts(keywords@), index as int, field_name@),
{
    if index >= keywords.len() {
        let mut detail = field_name.to_owned();
        detail.append(" is missing");
        return Err(ParseError::InvalidFormat(detail));
    }
    match T::parse(keywords[index]) {
        Some(value) => Ok(value),
        None => {
            let mut detail = "Expected a valid ".to_owned();
            detail.append(field_name);
            detail.append(" value");
            Err(ParseError::InvalidFormat(detail))
        },
    }
}

/// Reads the fields of a storage command from the words of its header.
pub fn parse_storage_command(keywords: &[&str], key: String) -> (result: Result<
    StorageCommand,
    ParseError,
>)
    ensures
        storage_view(result) == storage_command_of(texts(keywords@), key@),
{
    let flags = match parse_field::<u16>(keywords, 2, "flags") {
        Ok(value) => value,
        Err(error) => { return Err(error); },
    };
    let exptime = match parse_field::<i128>(keywords, 3, "exptime") {
        Ok(value) => value,
        Err(error) => { return Err(error); },
    };
    let byte_count = match parse_field::<usize>(keywords, 4, "byte count") {
        Ok(value) => value,
        Err(error) => { return Err(error); },
    };
    let no_reply = keywords.len() > 5;
    Ok(StorageCommand { key, flags, exptime, byte_count, no_reply, payload: String::new() })
}

/// Reads a header line: the command, its key, and for a storage command its
/// three numbers.
pub fn parse_header(header: &str) -> (result: Result<Command, ParseError>)
    ensures
        command_view(result) == header_command(header@),
{
    let chars = to_chars(header);
    let spans = leading_words(chars.as_slice(), 6);
    let mut keywords: Vec<&str> = Vec::new();
    let mut k: usize = 0;
    while k < spans.len()
        invariant
            k <= spans.len(),
            keywords.len() == k,
            chars@ == header@,
            forall|j: int|
                #![trigger spans[j]]
                0 <= j < spans.len() ==> {
                    &&& spans[j].0 <= spans[j].1 <= chars@.len()
                    &&& chars@.subrange(spans[j].0 as int, spans[j].1 as int) == words(chars@)[j]
                },
            forall|j: int| 0 <= j < k ==> (#[trigger] keywords[j])@ == words(header@)[j],
        decreases spans.len() - k,
    {
        let span = spans[k];
        keywords.push(header.substring_char(span.0, span.1));
        k += 1;
    }
    let ghost all = words(header@);
    let ghost seen = texts(keywords@);
    assert(seen.len() == keywords.len());
    assert(forall|j: int| 0 <= j < seen.len() ==> seen[j] == all[j]);
    if keywords.len() < 1 {
        return Err(ParseError::InvalidFormat("Missing command".to_owned()));
    }
    if keywords.len() < 2 {
        return Err(ParseError::InvalidFormat("Missing key".to_owned()));
    }
    let key = keywords[1].to_owned();
    let verb = match parse_keyword(keywords[0]) {
        None => { return Err(ParseError::UnknownCommand(keywords[0].to_owned())); },
        Some(Keyword::Get) => { return Ok(Command::Get(GetCommand { key })); },
        Some(Keyword::Store(verb)) => verb,
    };
    assert(storage_command_of(seen, key@) == storage_command_of(all, key@));
    match parse_storage_command(keywords.as_slice(), key) {
        Ok(command) => Ok(Command::storage(verb, command)),
        Err(error) => Err(error),
    }
}

/// Checks the end of a payload frame and cuts the frame down to the payload.
pub fn parse_payload(payload: String, byte_count: usize) -> (result: Result<String, ParseError>)
    requires
        ends_with_delimiter(encode_utf8(payload@)) && byte_count < encode_utf8(payload@).len()
            ==> is_char_boundary(encode_utf8(payload@), byte_count as int),
    ensures
        text_view(result) == payload_of(payload@, byte_count),
{
    let bytes = payload.as_str().as_bytes();
    let n = bytes.len();
    if n < 2 || bytes[n - 2] != 13 || bytes[n - 1] != 10 {
        return Err(ParseError::InvalidFormat("Expected \r\n at the end of string".to_owned()));
    }
    if byte_count >= n {
        return Ok(payload);
    }
    let (head, _) = payload.as_str().split_at(byte_count);
    proof {
        encode_utf8_decode_utf8(head@);
    }
    Ok(head.to_owned())
}

} // verus!
