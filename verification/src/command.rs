//! The commands of the protocol, the errors of decoding them, and their
//! models in plain values.

use vstd::prelude::*;
use vstd::utf8::encode_utf8;

verus! {

/// A command of the cache protocol, as a connection delivers it.
#[derive(Debug, PartialEq, Eq)]
pub enum Command {
    Get(GetCommand),
    /// The command `set`.
    SetValue(StorageCommand),
    Add(StorageCommand),
    Replace(StorageCommand),
    Prepend(StorageCommand),
    Append(StorageCommand),
}

/// What `set`, `add`, `replace`, `append` and `prepend` carry.
#[derive(Debug, PartialEq, Eq)]
pub struct StorageCommand {
    pub key: String,
    pub flags: u16,
    /// Seconds until the entry expires; 0 for never, negative for at once.
    pub exptime: i128,
    /// The length of the payload in bytes.
    pub byte_count: usize,
    /// Read from the header; it changes nothing.
    pub no_reply: bool,
    pub payload: String,
}

#[derive(Debug, PartialEq, Eq)]
pub struct GetCommand {
    pub key: String,
}

/// Why a header or a payload was not accepted.
#[derive(Debug, PartialEq, Eq)]
pub enum ParseError {
    /// A field is missing or malformed; the text says which.
    InvalidFormat(String),
    /// The first word names no command; the text is that word.
    UnknownCommand(String),
}

/// The peer closed the connection while more bytes were needed.
#[derive(Debug, PartialEq, Eq)]
pub struct ConnectionClosedError {}

/// Why no command came out of the decoder.
#[derive(Debug, PartialEq, Eq)]
pub enum DecodeError {
    ConnectionClosed,
    ParseError(ParseError),
    /// A frame held bytes that are not UTF-8 text: the connection cannot go on.
    InvalidUtf8,
}

/// The five commands that store.
#[derive(Debug, Clone, Copy, PartialEq, Eq, Structural)]
pub enum Verb {
    SetValue,
    Add,
    Replace,
    Prepend,
    Append,
}

/// What the first word of a header can name.
#[derive(Debug, Clone, Copy, PartialEq, Eq, Structural)]
pub enum Keyword {
    Get,
    Store(Verb),
}

/// A storage command as plain values.
pub struct StorageModel {
    pub key: Seq<char>,
    pub flags: u16,
    pub exptime: i128,
    pub byte_count: usize,
    pub no_reply: bool,
    pub payload: Seq<char>,
}

/// A command as plain values.
pub enum CommandModel {
    Get { key: Seq<char> },
    Store { verb: Verb, command: StorageModel },
}

pub enum ParseErrorModel {
    InvalidFormat(Seq<char>),
    UnknownCommand(Seq<char>),
}

pub enum DecodeErrorModel {
    ConnectionClosed,
    ParseError(ParseErrorModel),
    InvalidUtf8,
}

impl StorageModel {
    /// The byte count is the length of the payload as it travels: in UTF-8.
    pub open spec fn well_formed(self) -> bool {
        self.byte_count == encode_utf8(self.payload).len()
    }
}

impl CommandModel {
    pub open spec fn well_formed(self) -> bool {
        match self {
            CommandModel::Get { .. } => true,
            CommandModel::Store { command, .. } => command.well_formed(),
        }
    }
}

impl View for StorageCommand {
    type V = StorageModel;

    open spec fn view(&self) -> StorageModel {
        StorageModel {
            key: self.key@,
            flags: self.flags,
            exptime: self.exptime,
            byte_count: self.byte_count,
            no_reply: self.no_reply,
            payload: self.payload@,
        }
    }
}

impl View for GetCommand {
    type V = Seq<char>;

    open spec fn view(&self) -> Seq<char> {
        self.key@
    }
}

impl View for Command {
    type V = CommandModel;

    open spec fn view(&self) -> CommandModel {
        match self {
            Command::Get(get) => CommandModel::Get { key: get.key@ },
            Command::SetValue(command) => CommandModel::Store {
                verb: Verb::SetValue,
                command: command@,
            },
            Command::Add(command) => CommandModel::Store { verb: Verb::Add, command: command@ },
            Command::Replace(command) => CommandModel::Store {
                verb: Verb::Replace,
                command: command@,
            },
            Command::Prepend(command) => CommandModel::Store {
                verb: Verb::Prepend,
                command: command@,
            },
            Command::Append(command) => CommandModel::Store {
                verb: Verb::Append,
                command: command@,
            },
        }
    }
}

impl View for ParseError {
    type V = ParseErrorModel;

    open spec fn view(&self) -> ParseErrorModel {
        match self {
            ParseError::InvalidFormat(detail) => ParseErrorModel::InvalidFormat(detail@),
            ParseError::UnknownCommand(name) => ParseErrorModel::UnknownCommand(name@),
        }
    }
}

impl View for DecodeError {
    type V = DecodeErrorModel;

    open spec fn view(&self) -> DecodeErrorModel {
        match self {
            DecodeError::ConnectionClosed => DecodeErrorModel::ConnectionClosed,
            DecodeError::ParseError(error) => DecodeErrorModel::ParseError(error@),
            DecodeError::InvalidUtf8 => DecodeErrorModel::InvalidUtf8,
        }
    }
}

impl Command {
    /// The storage command `command` under the name `verb`.
    pub fn storage(verb: Verb, command: StorageCommand) -> (made: Command)
        ensures
            made@ == (CommandModel::Store { verb, command: command@ }),
    {
        match verb {
            Verb::SetValue => Command::SetValue(command),
            Verb::Add => Command::Add(command),
            Verb::Replace => Command::Replace(command),
            Verb::Prepend => Command::Prepend(command),
            Verb::Append => Command::Append(command),
        }
    }

    /// Tells whether the byte count of the command is the length of its payload.
    pub fn is_well_formed(&self) -> (b: bool)
        ensures
            b == self@.well_formed(),
    {
        match self {
            Command::Get(_) => true,
            Command::SetValue(command) => command.is_well_formed(),
            Command::Add(command) => command.is_well_formed(),
            Command::Replace(command) => command.is_well_formed(),
            Command::Prepend(command) => command.is_well_formed(),
            Command::Append(command) => command.is_well_formed(),
        }
    }
}

impl StorageCommand {
    /// Tells whether the byte count is the length of the payload.
    pub fn is_well_formed(&self) -> (b: bool)
        ensures
            b == self@.well_formed(),
    {
        self.payload.as_str().as_bytes().len() == self.byte_count
    }
}

} // verus!
