//! The store: entries by key, with expiration on access, and the commands
//! that read and change it.

use crate::command::{Command, CommandModel, GetCommand, StorageCommand, StorageModel, Verb};
use crate::number::{append_decimal, decimal_text};
use vstd::hash_map::StringHashMap;
use vstd::prelude::*;
use vstd::string::*;
use vstd::utf8::encode_utf8;

verus! {

/// A reading of the clock: whole seconds since the epoch, and the
/// nanoseconds of the second that has begun.
#[derive(Debug, Clone, Copy, PartialEq, Eq)]
pub struct Timestamp {
    pub secs: u64,
    pub nanos: u32,
}

/// The moment from which an entry is no longer valid, counted as a
/// `Timestamp` is. It can lie further ahead than any clock will read.
#[derive(Debug, Clone, Copy, PartialEq, Eq)]
pub struct Deadline {
    pub secs: u128,
    pub nanos: u32,
}

/// What the store keeps under a key.
#[derive(Debug, PartialEq, Eq)]
pub struct DbEntry {
    pub value: String,
    pub flags: u16,
    pub byte_count: usize,
    pub valid_until: Option<Deadline>,
}

/// An entry as plain values.
pub struct EntryModel {
    pub value: Seq<char>,
    pub flags: u16,
    pub byte_count: nat,
    pub valid_until: Option<Deadline>,
}

/// The entries of a store, by key.
pub type Entries = Map<Seq<char>, EntryModel>;

/// The store: entries by key. An entry that has expired stays until a
/// command touches its key.
pub struct Database {
    map: StringHashMap<DbEntry>,
}

/// What a command leaves behind: the reply to the client and the entries.
pub struct Outcome {
    pub reply: Seq<char>,
    pub entries: Entries,
}

impl Timestamp {
    /// This moment lies before the deadline.
    pub open spec fn before(self, deadline: Deadline) -> bool {
        self.secs < deadline.secs || (self.secs == deadline.secs && self.nanos < deadline.nanos)
    }

    /// Tells whether this moment lies before the deadline.
    pub fn is_before(&self, deadline: &Deadline) -> (b: bool)
        ensures
            b == self.before(*deadline),
    {
        let secs: u128 = self.secs as u128;
        secs < deadline.secs || (secs == deadline.secs && self.nanos < deadline.nanos)
    }
}

impl EntryModel {
    /// The byte count is the length of the value in UTF-8.
    pub open spec fn well_formed(self) -> bool {
        self.byte_count == encode_utf8(self.value).len()
    }

    /// The entry is valid at the moment `now`.
    pub open spec fn valid_at(self, now: Timestamp) -> bool {
        match self.valid_until {
            None => true,
            Some(deadline) => now.before(deadline),
        }
    }
}

impl View for DbEntry {
    type V = EntryModel;

    open spec fn view(&self) -> EntryModel {
        EntryModel {
            value: self.value@,
            flags: self.flags,
            byte_count: self.byte_count as nat,
            valid_until: self.valid_until,
        }
    }
}

impl View for Database {
    type V = Entries;

    closed spec fn view(&self) -> Entries {
        self.map@.map_values(|entry: DbEntry| entry@)
    }
}

/// The key has an entry that is valid at the moment `now`.
pub open spec fn is_live(entries: Entries, key: Seq<char>, now: Timestamp) -> bool {
    entries.contains_key(key) && entries[key].valid_at(now)
}

/// The entries once a command has touched `key`: an entry under `key` that has
/// expired is gone.
pub open spec fn swept(entries: Entries, key: Seq<char>, now: Timestamp) -> Entries {
    if is_live(entries, key, now) {
        entries
    } else {
        entries.remove(key)
    }
}

/// When an entry stored at the moment `now` expires: never for 0, else
/// `exptime` seconds later.
pub open spec fn deadline(exptime: i128, now: Timestamp) -> Option<Deadline> {
    if exptime > 0 {
        Some(Deadline { secs: (now.secs + exptime) as u128, nanos: now.nanos })
    } else {
        None
    }
}

/// The entry that a storage command stores at the moment `now`.
pub open spec fn entry_of(command: StorageModel, now: Timestamp) -> EntryModel {
    EntryModel {
        value: command.payload,
        flags: command.flags,
        byte_count: command.byte_count as nat,
        valid_until: deadline(command.exptime, now),
    }
}

/// The entries with the command's entry under its key. A command with a
/// negative expiration time stores nothing.
pub open spec fn inserted(entries: Entries, command: StorageModel, now: Timestamp) -> Entries {
    if command.exptime < 0 {
        entries
    } else {
        entries.insert(command.key, entry_of(command, now))
    }
}

/// The entry with `payload` behind its value (`at_end`) or before it.
pub open spec fn extended(entry: EntryModel, command: StorageModel, at_end: bool) -> EntryModel {
    EntryModel {
        value: if at_end {
            entry.value + command.payload
        } else {
            command.payload + entry.value
        },
        flags: entry.flags,
        byte_count: entry.byte_count + command.byte_count as nat,
        valid_until: entry.valid_until,
    }
}

pub open spec fn stored_reply() -> Seq<char> {
    "STORED\r\n"@
}

pub open spec fn not_stored_reply() -> Seq<char> {
    "NOT_STORED\r\n"@
}

pub open spec fn end_reply() -> Seq<char> {
    "END\r\n"@
}

/// The reply to `get` for a key that is live.
pub open spec fn value_reply(key: Seq<char>, entry: EntryModel) -> Seq<char> {
    "VALUE "@ + key + " "@ + decimal_text(entry.flags as nat) + " "@ + decimal_text(
        entry.byte_count,
    ) + "\r\n"@ + entry.value + "\r\nEND\r\n"@
}

/// `set` stores whatever was there.
pub open spec fn set_outcome(entries: Entries, command: StorageModel, now: Timestamp) -> Outcome {
    Outcome { reply: stored_reply(), entries: inserted(entries, command, now) }
}

/// `add` stores only where the key is not live.
pub open spec fn add_outcome(entries: Entries, command: StorageModel, now: Timestamp) -> Outcome {
    if is_live(entries, command.key, now) {
        Outcome { reply: not_stored_reply(), entries }
    } else {
        Outcome {
            reply: stored_reply(),
            entries: inserted(swept(entries, command.key, now), command, now),
        }
    }
}

/// `replace` stores only where the key is live.
pub open spec fn replace_outcome(
    entries: Entries,
    command: StorageModel,
    now: Timestamp,
) -> Outcome {
    if is_live(entries, command.key, now) {
        Outcome { reply: stored_reply(), entries: inserted(entries, command, now) }
    } else {
        Outcome { reply: not_stored_reply(), entries: swept(entries, command.key, now) }
    }
}

/// `append` (`at_end`) and `prepend` lengthen the value of a live key.
pub open spec fn extend_outcome(
    entries: Entries,
    command: StorageModel,
    at_end: bool,
    now: Timestamp,
) -> Outcome {
    if is_live(entries, command.key, now) {
        Outcome {
            reply: stored_reply(),
            entries: entries.insert(command.key, extended(entries[command.key], command, at_end)),
        }
    } else {
        Outcome { reply: not_stored_reply(), entries: swept(entries, command.key, now) }
    }
}

/// `get` reads the entry of a live key.
pub open spec fn get_outcome(entries: Entries, key: Seq<char>, now: Timestamp) -> Outcome {
    if is_live(entries, key, now) {
        Outcome { reply: value_reply(key, entries[key]), entries }
    } else {
        Outcome { reply: end_reply(), entries: swept(entries, key, now) }
    }
}

/// What `command` leaves behind when it reaches the store at the moment `now`.
pub open spec fn outcome(entries: Entries, command: CommandModel, now: Timestamp) -> Outcome {
    match command {
        CommandModel::Get { key } => get_outcome(entries, key, now),
        CommandModel::Store { verb, command } => match verb {
            Verb::SetValue => set_outcome(entries, command, now),
            Verb::Add => add_outcome(entries, command, now),
            Verb::Replace => replace_outcome(entries, command, now),
            Verb::Append => extend_outcome(entries, command, true, now),
            Verb::Prepend => extend_outcome(entries, command, false, now),
        },
    }
}

/// Text put together is as long in UTF-8 as its parts.
pub proof fn lemma_encode_concat(a: Seq<char>, b: Seq<char>)
    ensures
        encode_utf8(a + b) == encode_utf8(a) + encode_utf8(b),
    decreases a.len(),
{
    if a.len() == 0 {
        assert(a + b == b);
    } else {
        assert((a + b).drop_first() == a.drop_first() + b);
        lemma_encode_concat(a.drop_first(), b);
    }
}

/// Every entry has the byte count of its value.
pub open spec fn counts_hold(entries: Entries) -> bool {
    forall|key: Seq<char>| #[trigger]
        entries.contains_key(key) ==> entries[key].well_formed()
}

impl Database {
    /// The store is in order: every entry has the byte count of its value.
    pub open spec fn well_formed(&self) -> bool {
        counts_hold(self@)
    }

    /// A store without entries.
    pub fn new() -> (db: Database)
        ensures
            db@ == Map::<Seq<char>, EntryModel>::empty(),
            db.well_formed(),
    {
        let db = Database { map: StringHashMap::new() };
        assert(db@ =~= Map::<Seq<char>, EntryModel>::empty());
        db
    }

    /// Looks up the entry under `key`, expired or not.
    pub fn entry(&self, key: &str) -> (found: Option<&DbEntry>)
        ensures
            match found {
                Some(entry) => self@.contains_key(key@) && self@[key@] == entry@,
                None => !self@.contains_key(key@),
            },
    {
        self.map.get(key)
    }

    /// Puts `entry` under `key`, in place of what was there.
    fn put(&mut self, key: String, entry: DbEntry)
        ensures
            final(self)@ == old(self)@.insert(key@, entry@),
    {
        self.map.insert(key, entry);
        assert(self@ =~= old(self)@.insert(key@, entry@));
    }

    /// Takes away what is under `key`.
    fn discard(&mut self, key: &str)
        ensures
            final(self)@ == old(self)@.remove(key@),
    {
        self.map.remove(key);
        assert(self@ =~= old(self)@.remove(key@));
    }
}

/// Tells whether `key` is live at the moment `now`. An entry under `key` that
/// has expired is taken away.
pub fn is_key_valid(key: &str, db: &mut Database, now: Timestamp) -> (live: bool)
    ensures
        live == is_live(old(db)@, key@, now),
        final(db)@ == swept(old(db)@, key@, now),
        old(db).well_formed() ==> final(db).well_formed(),
{
    let live = match db.entry(key) {
        Some(entry) => match &entry.valid_until {
            None => true,
            Some(deadline) => now.is_before(deadline),
        },
        None => false,
    };
    if !live {
        db.discard(key);
    }
    live
}

/// The deadline of an entry stored at the moment `now`.
pub fn calculate_valid_until(exptime: i128, now: Timestamp) -> (valid_until: Option<Deadline>)
    ensures
        valid_until == deadline(exptime, now),
{
    if exptime > 0 {
        Some(Deadline { secs: now.secs as u128 + exptime as u128, nanos: now.nanos })
    } else {
        None
    }
}

/// Stores an entry under `key`, unless the expiration time is negative.
pub fn insert_entry(
    key: String,
    payload: String,
    flags: u16,
    byte_count: usize,
    exptime: i128,
    db: &mut Database,
    now: Timestamp,
)
    ensures
        exptime < 0 ==> final(db)@ == old(db)@,
        exptime >= 0 ==> final(db)@ == old(db)@.insert(
            key@,
            EntryModel {
                value: payload@,
                flags,
                byte_count: byte_count as nat,
                valid_until: deadline(exptime, now),
            },
        ),
        old(db).well_formed() && byte_count == encode_utf8(payload@).len()
            ==> final(db).well_formed(),
{
    if exptime < 0 {
        return ;
    }
    let valid_until = calculate_valid_until(exptime, now);
    let entry = DbEntry { value: payload, flags, byte_count, valid_until };
    db.put(key, entry);
}

/// `set`: stores the entry, whatever was there.
pub fn handle_set(command: StorageCommand, db: &mut Database, now: Timestamp) -> (reply: String)
    ensures
        reply@ == set_outcome(old(db)@, command@, now).reply,
        final(db)@ == set_outcome(old(db)@, command@, now).entries,
        old(db).well_formed() && command@.well_formed() ==> final(db).well_formed(),
{
    insert_entry(
        command.key,
        command.payload,
        command.flags,
        command.byte_count,
        command.exptime,
        db,
        now,
    );
    "STORED\r\n".to_owned()
}

/// `add`: stores the entry where the key is not live.
pub fn handle_add(command: StorageCommand, db: &mut Database, now: Timestamp) -> (reply: String)
    ensures
        reply@ == add_outcome(old(db)@, command@, now).reply,
        final(db)@ == add_outcome(old(db)@, command@, now).entries,
        old(db).well_formed() && command@.well_formed() ==> final(db).well_formed(),
{
    if is_key_valid(command.key.as_str(), db, now) {
        return "NOT_STORED\r\n".to_owned();
    }
    insert_entry(
        command.key,
        command.payload,
        command.flags,
        command.byte_count,
        command.exptime,
        db,
        now,
    );
    "STORED\r\n".to_owned()
}

/// `replace`: stores the entry where the key is live.
pub fn handle_replace(command: StorageCommand, db: &mut Database, now: Timestamp) -> (reply: String)
    ensures
        reply@ == replace_outcome(old(db)@, command@, now).reply,
        final(db)@ == replace_outcome(old(db)@, command@, now).entries,
        old(db).well_formed() && command@.well_formed() ==> final(db).well_formed(),
{
    if is_key_valid(command.key.as_str(), db, now) {
        insert_entry(
            command.key,
            command.payload,
            command.flags,
            command.byte_count,
            command.exptime,
            db,
            now,
        );
        return "STORED\r\n".to_owned();
    }
    "NOT_STORED\r\n".to_owned()
}

/// Puts the payload behind (`at_end`) or before the value of a live key.
fn extend(command: StorageCommand, at_end: bool, db: &mut Database, now: Timestamp) -> (reply:
    String)
    requires
        old(db).well_formed(),
        command@.well_formed(),
    ensures
        reply@ == extend_outcome(old(db)@, command@, at_end, now).reply,
        final(db)@ == extend_outcome(old(db)@, command@, at_end, now).entries,
        final(db).well_formed(),
{
    if !is_key_valid(command.key.as_str(), db, now) {
        return "NOT_STORED\r\n".to_owned();
    }
    let updated = match db.entry(command.key.as_str()) {
        Some(entry) => {
            let value = if at_end {
                let mut value = entry.value.clone();
                value.append(command.payload.as_str());
                proof {
                    lemma_encode_concat(entry.value@, command.payload@);
                }
                value
            } else {
                let mut value = command.payload.clone();
                value.append(entry.value.as_str());
                proof {
                    lemma_encode_concat(command.payload@, entry.value@);
                }
                value
            };
            let byte_count = value.as_str().as_bytes().len();
            DbEntry { value, flags: entry.flags, byte_count, valid_until: entry.valid_until }
        },
        None => { return "NOT_STORED\r\n".to_owned(); },
    };
    db.put(command.key, updated);
    "STORED\r\n".to_owned()
}

/// `append`: puts the payload behind the value of a live key.
pub fn handle_append(command: StorageCommand, db: &mut Database, now: Timestamp) -> (reply: String)
    requires
        old(db).well_formed(),
        command@.well_formed(),
    ensures
        reply@ == extend_outcome(old(db)@, command@, true, now).reply,
        final(db)@ == extend_outcome(old(db)@, command@, true, now).entries,
        final(db).well_formed(),
{
    extend(command, true, db, now)
}

/// `prepend`: puts the payload before the value of a live key.
pub fn handle_prepend(command: StorageCommand, db: &mut Database, now: Timestamp) -> (reply: String)
    requires
        old(db).well_formed(),
        command@.well_formed(),
    ensures
        reply@ == extend_outcome(old(db)@, command@, false, now).reply,
        final(db)@ == extend_outcome(old(db)@, command@, false, now).entries,
        final(db).well_formed(),
{
    extend(command, false, db, now)
}

/// `get`: reads the entry of a live key.
pub fn handle_get(command: GetCommand, db: &mut Database, now: Timestamp) -> (reply: String)
    ensures
        reply@ == get_outcome(old(db)@, command@, now).reply,
        final(db)@ == get_outcome(old(db)@, command@, now).entries,
        old(db).well_formed() ==> final(db).well_formed(),
{
    if !is_key_valid(command.key.as_str(), db, now) {
        return "END\r\n".to_owned();
    }
    match db.entry(command.key.as_str()) {
        Some(entry) => {
            let mut reply = "VALUE ".to_owned();
            reply.append(command.key.as_str());
            reply.append(" ");
            append_decimal(&mut reply, entry.flags as usize);
            reply.append(" ");
            append_decimal(&mut reply, entry.byte_count);
            reply.append("\r\n");
            reply.append(entry.value.as_str());
            reply.append("\r\nEND\r\n");
            reply
        },
        None => "END\r\n".to_owned(),
    }
}

/// Carries out `command` on the store at the moment `now` and gives the
/// reply for the client.
pub fn execute_command(command: Command, db: &mut Database, now: Timestamp) -> (reply: String)
    requires
        old(db).well_formed(),
        command@.well_formed(),
    ensures
        reply@ == outcome(old(db)@, command@, now).reply,
        final(db)@ == outcome(old(db)@, command@, now).entries,
        final(db).well_formed(),
{
    match command {
        Command::SetValue(set_command) => handle_set(set_command, db, now),
        Command::Get(get_command) => handle_get(get_command, db, now),
        Command::Add(add_command) => handle_add(add_command, db, now),
        Command::Replace(replace_command) => handle_replace(replace_command, db, now),
        Command::Prepend(prepend_command) => handle_prepend(prepend_command, db, now),
        Command::Append(append_command) => handle_append(append_command, db, now),
    }
}

} // verus!
