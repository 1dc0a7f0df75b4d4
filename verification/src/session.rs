//! What a session answers to each result of its decoder.

use crate::command::{
    Command, CommandModel, DecodeError, DecodeErrorModel, ParseError, ParseErrorModel,
};
use crate::store::{execute_command, outcome, Database, Entries, Timestamp};
use vstd::prelude::*;
use vstd::string::*;

verus! {

/// What a client reads when its command was malformed.
pub open spec fn client_error_reply(detail: Seq<char>) -> Seq<char> {
    "CLIENT_ERROR "@ + detail + "\r\n"@
}

/// What a client reads when its command is not known.
pub open spec fn error_reply() -> Seq<char> {
    "ERROR\r\n"@
}

/// What the session does with one result of the decoder: the reply that it
/// sends before it decodes again, or no reply where it ends; and the entries
/// of the store afterwards.
pub struct Turn {
    pub reply: Option<Seq<char>>,
    pub entries: Entries,
}

/// A command goes to the store; a malformed one and an unknown one are
/// answered and the session goes on; a closed connection and bytes that are
/// no text end it.
pub open spec fn turn(
    entries: Entries,
    decoded: Result<CommandModel, DecodeErrorModel>,
    now: Timestamp,
) -> Turn {
    match decoded {
        Ok(command) => Turn {
            reply: Some(outcome(entries, command, now).reply),
            entries: outcome(entries, command, now).entries,
        },
        Err(DecodeErrorModel::ParseError(ParseErrorModel::InvalidFormat(detail))) => Turn {
            reply: Some(client_error_reply(detail)),
            entries,
        },
        Err(DecodeErrorModel::ParseError(ParseErrorModel::UnknownCommand(_))) => Turn {
            reply: Some(error_reply()),
            entries,
        },
        Err(DecodeErrorModel::ConnectionClosed) => Turn { reply: None, entries },
        Err(DecodeErrorModel::InvalidUtf8) => Turn { reply: None, entries },
    }
}

pub open spec fn decoded_view(decoded: Result<Command, DecodeError>) -> Result<
    CommandModel,
    DecodeErrorModel,
> {
    match decoded {
        Ok(command) => Ok(command@),
        Err(error) => Err(error@),
    }
}

pub open spec fn reply_view(reply: Option<String>) -> Option<Seq<char>> {
    match reply {
        Some(text) => Some(text@),
        None => None,
    }
}

/// Answers one result of the decoder at the moment `now`: carries out a
/// command on the store, and puts an error into words. `None`: the session
/// is over, and nothing is sent.
pub fn respond(decoded: Result<Command, DecodeError>, db: &mut Database, now: Timestamp) -> (reply:
    Option<String>)
    requires
        old(db).well_formed(),
        decoded matches Ok(command) ==> command@.well_formed(),
    ensures
        reply_view(reply) == turn(old(db)@, decoded_view(decoded), now).reply,
        final(db)@ == turn(old(db)@, decoded_view(decoded), now).entries,
        final(db).well_formed(),
{
    match decoded {
        Ok(command) => Some(execute_command(command, db, now)),
        Err(DecodeError::ParseError(ParseError::InvalidFormat(client_error))) => {
            let mut reply = "CLIENT_ERROR ".to_owned();
            reply.append(client_error.as_str());
            reply.append("\r\n");
            Some(reply)
        },
        Err(DecodeError::ParseError(ParseError::UnknownCommand(_))) => Some("ERROR\r\n".to_owned()),
        Err(DecodeError::ConnectionClosed) => None,
        Err(DecodeError::InvalidUtf8) => None,
    }
}

} // verus!
