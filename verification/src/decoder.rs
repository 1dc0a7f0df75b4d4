//! Framing: from the bytes of a connection to header lines, payload frames
//! and commands.

use crate::command::{
    Command, CommandModel, ConnectionClosedError, DecodeError, DecodeErrorModel, StorageCommand,
    StorageModel, Verb,
};
use crate::header::{ends_with_delimiter, header_command, parse_header, parse_payload, payload_of};
use vstd::prelude::*;
use vstd::slice::{slice_subrange, slice_to_vec};
use vstd::utf8::*;

verus! {

/// What ends a header line and a payload: a carriage return and a line feed.
pub open spec fn delimiter() -> Seq<u8> {
    seq![13u8, 10u8]
}

/// `pat` stands in `s` at position `i`.
pub open spec fn occurs_at(s: Seq<u8>, pat: Seq<u8>, i: int) -> bool {
    0 <= i && i + pat.len() <= s.len() && s.subrange(i, i + pat.len()) == pat
}

/// `pat` stands somewhere in `s`.
pub open spec fn occurs(s: Seq<u8>, pat: Seq<u8>) -> bool {
    exists|i: int| occurs_at(s, pat, i)
}

/// `pat` stands in `s` at position `i` and nowhere before.
pub open spec fn first_at(s: Seq<u8>, pat: Seq<u8>, i: int) -> bool {
    occurs_at(s, pat, i) && forall|j: int| 0 <= j < i ==> !occurs_at(s, pat, j)
}

/// The first position at which `pat` stands in `s`, where it stands in `s`.
pub open spec fn first_occurrence(s: Seq<u8>, pat: Seq<u8>) -> int {
    choose|i: int| first_at(s, pat, i)
}

/// Only one position is the first.
pub proof fn lemma_first_occurrence(s: Seq<u8>, pat: Seq<u8>, i: int)
    requires
        first_at(s, pat, i),
    ensures
        first_occurrence(s, pat) == i,
        occurs(s, pat),
{
    let j = first_occurrence(s, pat);
    assert(first_at(s, pat, j));
    if j < i {
        assert(!occurs_at(s, pat, j));
    }
    if i < j {
        assert(!occurs_at(s, pat, i));
    }
}

/// Tells whether `pat` stands in `s` at position `i`.
fn matches_at(s: &[u8], pat: &[u8], i: usize) -> (b: bool)
    requires
        i + pat@.len() <= s@.len(),
    ensures
        b == occurs_at(s@, pat@, i as int),
{
    let mut k: usize = 0;
    while k < pat.len()
        invariant
            k <= pat@.len(),
            i + pat@.len() <= s.len(),
            forall|j: int| 0 <= j < k ==> s@[i + j] == pat@[j],
        decreases pat@.len() - k,
    {
        if s[i + k] != pat[k] {
            assert(s@.subrange(i as int, i + pat@.len())[k as int] == s@[i + k]);
            return false;
        }
        k += 1;
    }
    assert(s@.subrange(i as int, i + pat@.len()) =~= pat@);
    true
}

/// Finds the first position at which `pat` stands in `s`.
pub fn find(s: &[u8], pat: &[u8]) -> (at: Option<usize>)
    ensures
        match at {
            Some(i) => first_at(s@, pat@, i as int),
            None => !occurs(s@, pat@),
        },
{
    if pat.len() > s.len() {
        return None;
    }
    let last: usize = s.len() - pat.len();
    let mut i: usize = 0;
    loop
        invariant
            i <= last,
            last == s@.len() - pat@.len(),
            forall|j: int| 0 <= j < i ==> !occurs_at(s@, pat@, j),
        decreases last - i,
    {
        if matches_at(s, pat, i) {
            return Some(i);
        }
        if i == last {
            return None;
        }
        i += 1;
    }
}

/// Splits `in_string` at the first place where `pat` stands in it: what is
/// before `pat`, and what is behind it.
pub fn split_once(in_string: &[u8], pat: &[u8]) -> (parts: (Vec<u8>, Vec<u8>))
    requires
        occurs(in_string@, pat@),
    ensures
        first_at(in_string@, pat@, parts.0@.len() as int),
        parts.0@ == in_string@.take(parts.0@.len() as int),
        parts.1@ == in_string@.skip((parts.0@.len() + pat@.len()) as int),
{
    match find(in_string, pat) {
        Some(i) => {
            assert(i + pat@.len() <= in_string.len());
            let first = slice_to_vec(slice_subrange(in_string, 0, i));
            let second = slice_to_vec(slice_subrange(in_string, i + pat.len(), in_string.len()));
            (first, second)
        },
        None => (Vec::new(), Vec::new()),
    }
}

/// The bytes that have come over a connection and that no frame has taken.
pub struct ConnectionBuffer {
    buffer: Vec<u8>,
}

impl View for ConnectionBuffer {
    type V = Seq<u8>;

    closed spec fn view(&self) -> Seq<u8> {
        self.buffer@
    }
}

impl ConnectionBuffer {
    /// A buffer that holds nothing.
    pub fn new() -> (connection: ConnectionBuffer)
        ensures
            connection@ == Seq::<u8>::empty(),
    {
        ConnectionBuffer { buffer: Vec::new() }
    }

    /// Takes what one read of the connection returned. A read of no bytes
    /// means that the peer has closed the connection.
    pub fn fill(&mut self, data: &[u8]) -> (result: Result<(), ConnectionClosedError>)
        ensures
            data@.len() == 0 ==> result is Err && final(self)@ == old(self)@,
            data@.len() > 0 ==> result is Ok && final(self)@ == old(self)@ + data@,
    {
        if data.len() == 0 {
            return Err(ConnectionClosedError {  });
        }
        self.buffer.extend_from_slice(data);
        assert(self.buffer@ =~= old(self).buffer@ + data@);
        Ok(())
    }

    /// Takes the next header line out of the buffer, without its delimiter.
    /// `None`: the line is not complete yet.
    pub fn read_header(&mut self) -> (line: Option<Vec<u8>>)
        ensures
            match line {
                Some(line) => {
                    &&& first_at(old(self)@, delimiter(), line@.len() as int)
                    &&& line@ == old(self)@.take(line@.len() as int)
                    &&& final(self)@ == old(self)@.skip(line@.len() as int + 2)
                },
                None => !occurs(old(self)@, delimiter()) && final(self)@ == old(self)@,
            },
    {
        self.read_until_delimeter()
    }

    /// Takes what stands before the first delimiter out of the buffer, and
    /// the delimiter with it. `None`: the buffer holds no delimiter yet.
    pub fn read_until_delimeter(&mut self) -> (line: Option<Vec<u8>>)
        ensures
            match line {
                Some(line) => {
                    &&& first_at(old(self)@, delimiter(), line@.len() as int)
                    &&& line@ == old(self)@.take(line@.len() as int)
                    &&& final(self)@ == old(self)@.skip(line@.len() as int + 2)
                },
                None => !occurs(old(self)@, delimiter()) && final(self)@ == old(self)@,
            },
    {
        let pat: Vec<u8> = vec![13u8, 10u8];
        assert(pat@ =~= delimiter());
        if find(self.buffer.as_slice(), pat.as_slice()).is_none() {
            return None;
        }
        let (header, rest) = split_once(self.buffer.as_slice(), pat.as_slice());
        self.buffer = rest;
        Some(header)
    }

    /// Takes a payload frame out of the buffer: `byte_count` bytes and the
    /// two of the delimiter. `None`: the frame is not complete yet.
    pub fn read_payload(&mut self, byte_count: usize) -> (frame: Option<Vec<u8>>)
        ensures
            match frame {
                Some(frame) => {
                    &&& old(self)@.len() >= byte_count + 2
                    &&& frame@ == old(self)@.take(byte_count + 2)
                    &&& final(self)@ == old(self)@.skip(byte_count + 2)
                },
                None => old(self)@.len() < byte_count + 2 && final(self)@ == old(self)@,
            },
    {
        let held = self.buffer.len();
        if byte_count > usize::MAX - 2 || held < byte_count + 2 {
            return None;
        }
        let mut frame = self.buffer.split_off(byte_count + 2);
        std::mem::swap(&mut frame, &mut self.buffer);
        Some(frame)
    }
}

/// The state of a decoder as plain values.
pub struct DecoderModel {
    /// The bytes that no frame has taken.
    pub buffer: Seq<u8>,
    /// The storage command whose header was read and whose payload has not
    /// come yet.
    pub pending: Option<(Verb, StorageModel)>,
}

/// What one call of the decoder does: its result, `None` where it needs
/// more bytes, and the state it leaves.
pub struct Step {
    pub result: Option<Result<CommandModel, DecodeErrorModel>>,
    pub state: DecoderModel,
}

/// The state between two commands, with `buffer` left.
pub open spec fn idle(buffer: Seq<u8>) -> DecoderModel {
    DecoderModel { buffer, pending: None }
}

/// The step of a decoder that waits for a header. It takes the line before
/// the first delimiter, if there is one; a storage command goes on to its
/// payload at once.
pub open spec fn header_step(buffer: Seq<u8>) -> Step {
    if !occurs(buffer, delimiter()) {
        Step { result: None, state: idle(buffer) }
    } else {
        let at = first_occurrence(buffer, delimiter());
        let line = buffer.take(at);
        let rest = buffer.skip(at + 2);
        if !valid_utf8(line) {
            Step { result: Some(Err(DecodeErrorModel::InvalidUtf8)), state: idle(rest) }
        } else {
            match header_command(decode_utf8(line)) {
                Err(error) => Step {
                    result: Some(Err(DecodeErrorModel::ParseError(error))),
                    state: idle(rest),
                },
                Ok(CommandModel::Get { key }) => Step {
                    result: Some(Ok(CommandModel::Get { key })),
                    state: idle(rest),
                },
                Ok(CommandModel::Store { verb, command }) => payload_step(rest, verb, command),
            }
        }
    }
}

/// The step of a decoder that waits for the payload of `command`. It takes
/// the byte count and two bytes more, once the buffer holds them, whatever
/// they are.
pub open spec fn payload_step(buffer: Seq<u8>, verb: Verb, command: StorageModel) -> Step {
    let length = command.byte_count + 2;
    if buffer.len() < length {
        Step { result: None, state: DecoderModel { buffer, pending: Some((verb, command)) } }
    } else {
        let frame = buffer.take(length);
        let rest = buffer.skip(length);
        if !valid_utf8(frame) {
            Step { result: Some(Err(DecodeErrorModel::InvalidUtf8)), state: idle(rest) }
        } else {
            match payload_of(decode_utf8(frame), command.byte_count) {
                Err(error) => Step {
                    result: Some(Err(DecodeErrorModel::ParseError(error))),
                    state: idle(rest),
                },
                Ok(payload) => Step {
                    result: Some(
                        Ok(
                            CommandModel::Store {
                                verb,
                                command: StorageModel {
                                    key: command.key,
                                    flags: command.flags,
                                    exptime: command.exptime,
                                    byte_count: command.byte_count,
                                    no_reply: command.no_reply,
                                    payload,
                                },
                            },
                        ),
                    ),
                    state: idle(rest),
                },
            }
        }
    }
}

/// One step of a decoder in the state `state`.
pub open spec fn step(state: DecoderModel) -> Step {
    match state.pending {
        Some((verb, command)) => payload_step(state.buffer, verb, command),
        None => header_step(state.buffer),
    }
}

pub open spec fn decode_view(result: Option<Result<Command, DecodeError>>) -> Option<
    Result<CommandModel, DecodeErrorModel>,
> {
    match result {
        None => None,
        Some(Ok(command)) => Some(Ok(command@)),
        Some(Err(error)) => Some(Err(error@)),
    }
}

/// `String::from_utf8`: the text that `bytes` hold. There is text exactly
/// where the bytes are valid UTF-8, and its encoding is then these bytes.
#[verifier::external_body]
fn text_of(bytes: Vec<u8>) -> (text: Option<String>)
    ensures
        text is Some <==> valid_utf8(bytes@),
        text matches Some(t) ==> encode_utf8(t@) == bytes@,
{
    String::from_utf8(bytes).ok()
}

/// Turns the bytes of a connection into commands, one frame at a time.
pub struct Decoder {
    connection: ConnectionBuffer,
    pending: Option<(Verb, StorageCommand)>,
}

impl View for Decoder {
    type V = DecoderModel;

    closed spec fn view(&self) -> DecoderModel {
        DecoderModel {
            buffer: self.connection@,
            pending: match self.pending {
                Some((verb, command)) => Some((verb, command@)),
                None => None,
            },
        }
    }
}

impl Decoder {
    /// A decoder that has received nothing.
    pub fn new() -> (decoder: Decoder)
        ensures
            decoder@ == idle(Seq::empty()),
    {
        Decoder { connection: ConnectionBuffer::new(), pending: None }
    }

    /// Takes what one read of the connection returned. A read of no bytes
    /// means that the peer has closed the connection.
    pub fn receive(&mut self, data: &[u8]) -> (result: Result<(), DecodeError>)
        ensures
            data@.len() == 0 ==> (result matches Err(DecodeError::ConnectionClosed)),
            data@.len() == 0 ==> final(self)@ == old(self)@,
            data@.len() > 0 ==> result is Ok && final(self)@ == (DecoderModel {
                buffer: old(self)@.buffer + data@,
                pending: old(self)@.pending,
            }),
    {
        match self.connection.fill(data) {
            Ok(()) => Ok(()),
            Err(_) => Err(DecodeError::ConnectionClosed),
        }
    }

    /// Decodes the next command from the bytes received. `None`: the command
    /// is not complete yet, and the decoder needs more bytes.
    pub fn decode(&mut self) -> (result: Option<Result<Command, DecodeError>>)
        ensures
            decode_view(result) == step(old(self)@).result,
            final(self)@ == step(old(self)@).state,
            result matches Some(Ok(command)) ==> command@.well_formed(),
    {
        let (verb, command) = match self.pending.take() {
            Some(pending) => pending,
            None => {
                let line = match self.connection.read_header() {
                    Some(line) => line,
                    None => { return None; },
                };
                proof {
                    lemma_first_occurrence(old(self)@.buffer, delimiter(), line@.len() as int);
                }
                let header = match text_of(line) {
                    Some(text) => text,
                    None => { return Some(Err(DecodeError::InvalidUtf8)); },
                };
                proof {
                    encode_utf8_decode_utf8(header@);
                }
                match parse_header(header.as_str()) {
                    Err(error) => { return Some(Err(DecodeError::ParseError(error))); },
                    Ok(Command::Get(get)) => { return Some(Ok(Command::Get(get))); },
                    Ok(Command::SetValue(command)) => (Verb::SetValue, command),
                    Ok(Command::Add(command)) => (Verb::Add, command),
                    Ok(Command::Replace(command)) => (Verb::Replace, command),
                    Ok(Command::Prepend(command)) => (Verb::Prepend, command),
                    Ok(Command::Append(command)) => (Verb::Append, command),
                }
            },
        };
        self.parse_storage_command_payload(verb, command)
    }

    /// Decodes the payload of `command`, whose header has been read.
    fn parse_storage_command_payload(&mut self, verb: Verb, command: StorageCommand) -> (result:
        Option<Result<Command, DecodeError>>)
        requires
            old(self).pending is None,
        ensures
            decode_view(result) == payload_step(old(self)@.buffer, verb, command@).result,
            final(self)@ == payload_step(old(self)@.buffer, verb, command@).state,
            result matches Some(Ok(command)) ==> command@.well_formed(),
    {
        let byte_count = command.byte_count;
        let frame = match self.connection.read_payload(byte_count) {
            Some(frame) => frame,
            None => {
                self.pending = Some((verb, command));
                return None;
            },
        };
        let ghost bytes = frame@;
        let text = match text_of(frame) {
            Some(text) => text,
            None => { return Some(Err(DecodeError::InvalidUtf8)); },
        };
        proof {
            encode_utf8_decode_utf8(text@);
            if ends_with_delimiter(bytes) {
                is_char_boundary_iff_not_is_continuation_byte(bytes, byte_count as int);
                valid_utf8_split(bytes, byte_count as int);
                decode_utf8_encode_utf8(bytes.take(byte_count as int));
            }
        }
        match parse_payload(text, byte_count) {
            Err(error) => Some(Err(DecodeError::ParseError(error))),
            Ok(payload) => Some(
                Ok(
                    Command::storage(
                        verb,
                        StorageCommand {
                            key: command.key,
                            flags: command.flags,
                            exptime: command.exptime,
                            byte_count,
                            no_reply: command.no_reply,
                            payload,
                        },
                    ),
                ),
            ),
        }
    }
}

} // verus!
