//! What holds of the store's commands, one after another, and of the
//! decoder as the bytes of a connection come in.

use crate::command::{CommandModel, StorageModel, Verb};
use crate::decoder::{
    delimiter, first_at, first_occurrence, idle, lemma_first_occurrence, occurs, occurs_at,
    payload_step, step, DecoderModel, Step,
};
use crate::header::header_command;
use crate::store::{
    add_outcome, counts_hold, deadline, end_reply, entry_of, extend_outcome, extended,
    get_outcome, is_live, lemma_encode_concat, not_stored_reply, outcome, replace_outcome,
    set_outcome, stored_reply, value_reply, Entries, EntryModel, Timestamp,
};
use vstd::prelude::*;
use vstd::utf8::{decode_utf8, encode_utf8, valid_utf8};

verus! {

/// What is set without an expiration time is what `get` returns at any
/// later moment: the value, the flags and the length of the value in bytes.
/// The read changes nothing.
pub proof fn set_then_get(
    entries: Entries,
    command: StorageModel,
    set_at: Timestamp,
    get_at: Timestamp,
)
    requires
        command.exptime == 0,
        command.well_formed(),
    ensures
        get_outcome(set_outcome(entries, command, set_at).entries, command.key, get_at).reply
            == value_reply(
            command.key,
            EntryModel {
                value: command.payload,
                flags: command.flags,
                byte_count: encode_utf8(command.payload).len(),
                valid_until: None,
            },
        ),
        get_outcome(set_outcome(entries, command, set_at).entries, command.key, get_at).entries
            == set_outcome(entries, command, set_at).entries,
{
}

/// What is set with an expiration time is what `get` returns at every
/// moment before the deadline.
pub proof fn set_then_get_in_time(
    entries: Entries,
    command: StorageModel,
    set_at: Timestamp,
    get_at: Timestamp,
)
    requires
        command.exptime > 0,
        get_at.before(deadline(command.exptime, set_at)->0),
    ensures
        get_outcome(set_outcome(entries, command, set_at).entries, command.key, get_at).reply
            == value_reply(command.key, entry_of(command, set_at)),
{
}

/// `add` on a live key is refused and leaves the store as it was.
pub proof fn add_on_live_key(entries: Entries, command: StorageModel, now: Timestamp)
    requires
        is_live(entries, command.key, now),
    ensures
        add_outcome(entries, command, now).reply == not_stored_reply(),
        add_outcome(entries, command, now).entries == entries,
{
}

/// `add` after `set` of the same key, while what was set is valid, is
/// refused, and `get` still returns what was set.
pub proof fn add_after_set(
    entries: Entries,
    first: StorageModel,
    set_at: Timestamp,
    second: StorageModel,
    add_at: Timestamp,
)
    requires
        first.key == second.key,
        first.exptime >= 0,
        first.exptime > 0 ==> add_at.before(deadline(first.exptime, set_at)->0),
    ensures
        add_outcome(set_outcome(entries, first, set_at).entries, second, add_at).reply
            == not_stored_reply(),
        add_outcome(set_outcome(entries, first, set_at).entries, second, add_at).entries
            == set_outcome(entries, first, set_at).entries,
        set_outcome(entries, first, set_at).entries[first.key] == entry_of(first, set_at),
{
}

/// `replace` on a key that the store does not hold is refused and changes
/// nothing.
pub proof fn replace_on_absent_key(entries: Entries, command: StorageModel, now: Timestamp)
    requires
        !entries.contains_key(command.key),
    ensures
        replace_outcome(entries, command, now).reply == not_stored_reply(),
        replace_outcome(entries, command, now).entries == entries,
{
    assert(entries.remove(command.key) =~= entries);
}

/// `replace` on a live key puts its own value, flags and byte count in
/// place of the old ones, where its expiration time is not negative.
pub proof fn replace_on_live_key(entries: Entries, command: StorageModel, now: Timestamp)
    requires
        is_live(entries, command.key, now),
        command.exptime >= 0,
    ensures
        replace_outcome(entries, command, now).reply == stored_reply(),
        replace_outcome(entries, command, now).entries == entries.insert(
            command.key,
            entry_of(command, now),
        ),
        replace_outcome(entries, command, now).entries[command.key].value == command.payload,
        replace_outcome(entries, command, now).entries[command.key].flags == command.flags,
        replace_outcome(entries, command, now).entries[command.key].byte_count
            == command.byte_count,
{
}

/// `append` on a live key puts the payload behind the value and adds the
/// length of the payload to the byte count; flags and deadline stay.
pub proof fn append_on_live_key(entries: Entries, command: StorageModel, now: Timestamp)
    requires
        is_live(entries, command.key, now),
        command.well_formed(),
    ensures
        extend_outcome(entries, command, true, now).reply == stored_reply(),
        extend_outcome(entries, command, true, now).entries[command.key] == (EntryModel {
            value: entries[command.key].value + command.payload,
            flags: entries[command.key].flags,
            byte_count: entries[command.key].byte_count + encode_utf8(command.payload).len(),
            valid_until: entries[command.key].valid_until,
        }),
{
}

/// `prepend` on a live key puts the payload before the value and adds the
/// length of the payload to the byte count; flags and deadline stay.
pub proof fn prepend_on_live_key(entries: Entries, command: StorageModel, now: Timestamp)
    requires
        is_live(entries, command.key, now),
        command.well_formed(),
    ensures
        extend_outcome(entries, command, false, now).reply == stored_reply(),
        extend_outcome(entries, command, false, now).entries[command.key] == (EntryModel {
            value: command.payload + entries[command.key].value,
            flags: entries[command.key].flags,
            byte_count: entries[command.key].byte_count + encode_utf8(command.payload).len(),
            valid_until: entries[command.key].valid_until,
        }),
{
}

/// `append` and `prepend` on a key that is not live are refused, and the
/// store then holds nothing under the key.
pub proof fn extend_on_dead_key(
    entries: Entries,
    command: StorageModel,
    at_end: bool,
    now: Timestamp,
)
    requires
        !is_live(entries, command.key, now),
    ensures
        extend_outcome(entries, command, at_end, now).reply == not_stored_reply(),
        extend_outcome(entries, command, at_end, now).entries == entries.remove(command.key),
{
}

/// Once the deadline of what was set has come, `get` finds nothing and
/// takes the entry away, and `add` of the same key then stores.
pub proof fn expired_entry_goes(
    entries: Entries,
    first: StorageModel,
    set_at: Timestamp,
    get_at: Timestamp,
    second: StorageModel,
    add_at: Timestamp,
)
    requires
        first.exptime > 0,
        !get_at.before(deadline(first.exptime, set_at)->0),
        second.key == first.key,
    ensures
        ({
            let after_set = set_outcome(entries, first, set_at).entries;
            let read = get_outcome(after_set, first.key, get_at);
            &&& read.reply == end_reply()
            &&& !read.entries.contains_key(first.key)
            &&& add_outcome(read.entries, second, add_at).reply == stored_reply()
            &&& add_outcome(read.entries, second, add_at).entries == if second.exptime < 0 {
                read.entries
            } else {
                read.entries.insert(second.key, entry_of(second, add_at))
            }
        }),
{
    let after_set = set_outcome(entries, first, set_at).entries;
    let read = get_outcome(after_set, first.key, get_at);
    assert(read.entries.remove(first.key) =~= read.entries);
}

/// `set` with a negative expiration time is answered as stored and stores
/// nothing: a key that was not live is not live afterwards, and `get` finds
/// nothing.
pub proof fn set_already_expired(
    entries: Entries,
    command: StorageModel,
    set_at: Timestamp,
    get_at: Timestamp,
)
    requires
        command.exptime < 0,
        !is_live(entries, command.key, get_at),
    ensures
        set_outcome(entries, command, set_at).reply == stored_reply(),
        set_outcome(entries, command, set_at).entries == entries,
        get_outcome(set_outcome(entries, command, set_at).entries, command.key, get_at).reply
            == end_reply(),
{
}

/// Every command keeps the byte counts right: where each entry has the byte
/// count of its value and the command that of its payload, each entry has
/// the byte count of its value afterwards.
pub proof fn counts_stay(entries: Entries, command: CommandModel, now: Timestamp)
    requires
        counts_hold(entries),
        command.well_formed(),
    ensures
        counts_hold(outcome(entries, command, now).entries),
{
    match command {
        CommandModel::Get { .. } => {},
        CommandModel::Store { verb, command } => {
            match verb {
                Verb::Append => {
                    if is_live(entries, command.key, now) {
                        lemma_encode_concat(entries[command.key].value, command.payload);
                        assert(extended(entries[command.key], command, true).well_formed());
                    }
                },
                Verb::Prepend => {
                    if is_live(entries, command.key, now) {
                        lemma_encode_concat(command.payload, entries[command.key].value);
                        assert(extended(entries[command.key], command, false).well_formed());
                    }
                },
                _ => {},
            }
        },
    }
}

/// Expired entries go when they are found: after a command other than `set`
/// the store holds under the command's key either nothing or an entry that
/// is valid at that moment.
pub proof fn touched_key_is_live_or_gone(entries: Entries, command: CommandModel, now: Timestamp)
    requires
        !(command matches CommandModel::Store { verb: Verb::SetValue, .. }),
    ensures
        ({
            let key = match command {
                CommandModel::Get { key } => key,
                CommandModel::Store { command, .. } => command.key,
            };
            let left = outcome(entries, command, now).entries;
            left.contains_key(key) ==> left[key].valid_at(now)
        }),
{
}

/// A command changes nothing under another key than its own.
pub proof fn other_keys_stay(
    entries: Entries,
    command: CommandModel,
    now: Timestamp,
    other: Seq<char>,
)
    requires
        other != match command {
            CommandModel::Get { key } => key,
            CommandModel::Store { command, .. } => command.key,
        },
    ensures
        outcome(entries, command, now).entries.contains_key(other) == entries.contains_key(other),
        entries.contains_key(other) ==> outcome(entries, command, now).entries[other]
            == entries[other],
{
}

/// The state `state` once `more` bytes have come.
pub open spec fn fed(state: DecoderModel, more: Seq<u8>) -> DecoderModel {
    DecoderModel { buffer: state.buffer + more, pending: state.pending }
}

/// Where `pat` stands first in `s`, it stands first in `s` with more behind.
pub proof fn first_occurrence_stays(s: Seq<u8>, pat: Seq<u8>, more: Seq<u8>)
    requires
        occurs(s, pat),
    ensures
        occurs(s + more, pat),
        first_occurrence(s + more, pat) == first_occurrence(s, pat),
        0 <= first_occurrence(s, pat) <= s.len() - pat.len(),
{
    let witness = choose|i: int| occurs_at(s, pat, i);
    let i = least_occurrence(s, pat, witness);
    lemma_first_occurrence(s, pat, i);
    assert((s + more).subrange(i, i + pat.len()) =~= s.subrange(i, i + pat.len()));
    assert forall|j: int| 0 <= j < i implies !occurs_at(s + more, pat, j) by {
        assert(!occurs_at(s, pat, j));
        assert((s + more).subrange(j, j + pat.len()) =~= s.subrange(j, j + pat.len()));
    }
    lemma_first_occurrence(s + more, pat, i);
}

/// The first place at which `pat` stands in `s`, given one place.
proof fn least_occurrence(s: Seq<u8>, pat: Seq<u8>, at: int) -> (first: int)
    requires
        occurs_at(s, pat, at),
    ensures
        first_at(s, pat, first),
        first <= at,
    decreases at,
{
    if exists|j: int| 0 <= j < at && occurs_at(s, pat, j) {
        let j = choose|j: int| 0 <= j < at && occurs_at(s, pat, j);
        least_occurrence(s, pat, j)
    } else {
        at
    }
}

/// A payload frame is taken whole, accepted or not: once the buffer holds
/// the byte count and two bytes more, exactly these leave it, and the next
/// header starts behind them.
pub proof fn payload_takes_its_frame(buffer: Seq<u8>, verb: Verb, command: StorageModel)
    requires
        buffer.len() >= command.byte_count + 2,
    ensures
        payload_step(buffer, verb, command).result is Some,
        payload_step(buffer, verb, command).state == idle(buffer.skip(command.byte_count + 2)),
{
}

/// A payload that is complete is decoded the same with more bytes behind
/// it, and these bytes are left.
pub proof fn payload_is_stable(
    buffer: Seq<u8>,
    verb: Verb,
    command: StorageModel,
    more: Seq<u8>,
)
    requires
        payload_step(buffer, verb, command).result is Some,
    ensures
        payload_step(buffer + more, verb, command) == (Step {
            result: payload_step(buffer, verb, command).result,
            state: idle(payload_step(buffer, verb, command).state.buffer + more),
        }),
{
    let length = command.byte_count + 2;
    assert((buffer + more).take(length) =~= buffer.take(length));
    assert((buffer + more).skip(length) =~= buffer.skip(length) + more);
}

/// A command that is complete is decoded the same with more bytes behind
/// it, and these bytes are left for the next command.
pub proof fn decode_is_stable(state: DecoderModel, more: Seq<u8>)
    requires
        step(state).result is Some,
    ensures
        step(fed(state, more)) == (Step {
            result: step(state).result,
            state: idle(step(state).state.buffer + more),
        }),
{
    match state.pending {
        Some((verb, command)) => {
            payload_is_stable(state.buffer, verb, command, more);
        },
        None => {
            let buffer = state.buffer;
            first_occurrence_stays(buffer, delimiter(), more);
            let at = first_occurrence(buffer, delimiter());
            assert((buffer + more).take(at) =~= buffer.take(at));
            assert((buffer + more).skip(at + 2) =~= buffer.skip(at + 2) + more);
            if valid_utf8(buffer.take(at)) {
                match header_command(decode_utf8(buffer.take(at))) {
                    Ok(CommandModel::Store { verb, command }) => {
                        payload_is_stable(buffer.skip(at + 2), verb, command, more);
                    },
                    _ => {},
                }
            }
        },
    }
}

/// No byte is lost between two reads: a decoder that needed more bytes
/// and then got them does what it would have done with all the bytes at once.
pub proof fn decode_resumes(state: DecoderModel, more: Seq<u8>)
    requires
        step(state).result is None,
    ensures
        step(fed(step(state).state, more)) == step(fed(state, more)),
{
    match state.pending {
        Some((verb, command)) => {},
        None => {
            let buffer = state.buffer;
            if occurs(buffer, delimiter()) {
                first_occurrence_stays(buffer, delimiter(), more);
                let at = first_occurrence(buffer, delimiter());
                assert((buffer + more).take(at) =~= buffer.take(at));
                assert((buffer + more).skip(at + 2) =~= buffer.skip(at + 2) + more);
            }
        },
    }
}

} // verus!
