//! The broker's data model and the command groups that publish file
//! changes to it.
//!
//! Every file `P` has a content key `content:P` (compressed bytes), a hash
//! key `hash:P` (decimal text of the content hash), and membership of `P`
//! in the set `all_files`. Each change is one transaction: the commands
//! that update the three entries, then the event on the `file_event`
//! channel.
use vstd::prelude::*;
use vstd::utf8::*;
use crate::codec::{encode_view, push_bytes, utf8_text, PayloadView, RedisPublishPayload};
use crate::decimal::{decimal_digits, format_decimal, parse_decimal, parsed_decimal};
use crate::local_fs_store::{snappy_decoded, snappy_decompress, content_hash_of};

verus! {

broadcast use {encode_utf8_decode_utf8, decode_utf8_encode_utf8};

/// `hash:` in ASCII.
pub open spec fn hash_prefix() -> Seq<u8> {
    seq![104u8, 97, 115, 104, 58]
}

/// `content:` in ASCII.
pub open spec fn content_prefix() -> Seq<u8> {
    seq![99u8, 111, 110, 116, 101, 110, 116, 58]
}

/// `all_files` in ASCII: the set of every synchronized path.
pub open spec fn all_files_name() -> Seq<u8> {
    seq![97u8, 108, 108, 95, 102, 105, 108, 101, 115]
}

/// `file_event` in ASCII: the channel of the event payloads.
pub open spec fn file_event_channel() -> Seq<u8> {
    seq![102u8, 105, 108, 101, 95, 101, 118, 101, 110, 116]
}

pub open spec fn hash_key(path: Seq<u8>) -> Seq<u8> {
    hash_prefix() + path
}

pub open spec fn content_key(path: Seq<u8>) -> Seq<u8> {
    content_prefix() + path
}

/// One broker command.
#[derive(Debug, Clone, PartialEq, Eq)]
pub enum RedisCommand {
    /// `SET key value`
    SetKey(Vec<u8>, Vec<u8>),
    /// `RENAME old_key new_key`
    Rename(Vec<u8>, Vec<u8>),
    /// `DEL key`
    Del(Vec<u8>),
    /// `SADD set member`
    Sadd(Vec<u8>, Vec<u8>),
    /// `SREM set member`
    Srem(Vec<u8>, Vec<u8>),
    /// `PUBLISH channel message`
    Publish(Vec<u8>, Vec<u8>),
}

pub enum CommandView {
    SetKey(Seq<u8>, Seq<u8>),
    Rename(Seq<u8>, Seq<u8>),
    Del(Seq<u8>),
    Sadd(Seq<u8>, Seq<u8>),
    Srem(Seq<u8>, Seq<u8>),
    Publish(Seq<u8>, Seq<u8>),
}

impl View for RedisCommand {
    type V = CommandView;

    open spec fn view(&self) -> CommandView {
        match self {
            RedisCommand::SetKey(k, v) => CommandView::SetKey(k@, v@),
            RedisCommand::Rename(o, n) => CommandView::Rename(o@, n@),
            RedisCommand::Del(k) => CommandView::Del(k@),
            RedisCommand::Sadd(s, m) => CommandView::Sadd(s@, m@),
            RedisCommand::Srem(s, m) => CommandView::Srem(s@, m@),
            RedisCommand::Publish(c, m) => CommandView::Publish(c@, m@),
        }
    }
}

pub open spec fn commands_view(cmds: Seq<RedisCommand>) -> Seq<CommandView> {
    cmds.map_values(|c: RedisCommand| c@)
}

/// What the broker holds: string keys, set keys, and the messages
/// published so far (channel, message), oldest first.
pub struct BrokerView {
    pub strings: Map<Seq<u8>, Seq<u8>>,
    pub sets: Map<Seq<u8>, Set<Seq<u8>>>,
    pub published: Seq<(Seq<u8>, Seq<u8>)>,
}

pub open spec fn members(s: BrokerView, set: Seq<u8>) -> Set<Seq<u8>> {
    if s.sets.contains_key(set) {
        s.sets[set]
    } else {
        Set::empty()
    }
}

/// The paths the broker lists as synchronized.
pub open spec fn all_files(s: BrokerView) -> Set<Seq<u8>> {
    members(s, all_files_name())
}

/// The effect of one command; `None` where the broker answers with an
/// error (a `RENAME` of a missing key).
pub open spec fn apply_command(s: BrokerView, c: CommandView) -> Option<BrokerView> {
    match c {
        CommandView::SetKey(k, v) => Some(BrokerView { strings: s.strings.insert(k, v), ..s }),
        CommandView::Rename(o, n) => if s.strings.contains_key(o) {
            Some(BrokerView { strings: s.strings.remove(o).insert(n, s.strings[o]), ..s })
        } else {
            None
        },
        CommandView::Del(k) => Some(BrokerView { strings: s.strings.remove(k), ..s }),
        CommandView::Sadd(set, m) => Some(
            BrokerView { sets: s.sets.insert(set, members(s, set).insert(m)), ..s },
        ),
        CommandView::Srem(set, m) => Some(
            BrokerView { sets: s.sets.insert(set, members(s, set).remove(m)), ..s },
        ),
        CommandView::Publish(ch, m) => Some(BrokerView { published: s.published.push((ch, m)), ..s }),
    }
}

/// The effect of a transaction: every command in order, or, where one of
/// them fails, none at all (`None`, the broker left as it was).
pub open spec fn apply_transaction(s: BrokerView, cmds: Seq<CommandView>) -> Option<BrokerView>
    decreases cmds.len(),
{
    if cmds.len() == 0 {
        Some(s)
    } else {
        match apply_command(s, cmds[0]) {
            Some(t) => apply_transaction(t, cmds.subrange(1, cmds.len() as int)),
            None => None,
        }
    }
}

/// All three entries of a path exist.
pub open spec fn record_complete(s: BrokerView, p: Seq<u8>) -> bool {
    &&& s.strings.contains_key(content_key(p))
    &&& s.strings.contains_key(hash_key(p))
    &&& all_files(s).contains(p)
}

/// None of the three entries of a path exists.
pub open spec fn record_absent(s: BrokerView, p: Seq<u8>) -> bool {
    &&& !s.strings.contains_key(content_key(p))
    &&& !s.strings.contains_key(hash_key(p))
    &&& !all_files(s).contains(p)
}

/// Every path has all three entries or none.
pub open spec fn records_atomic(s: BrokerView) -> bool {
    forall|p: Seq<u8>|
        #![trigger s.strings.contains_key(content_key(p))]
        #![trigger s.strings.contains_key(hash_key(p))]
        #![trigger all_files(s).contains(p)]
        record_complete(s, p) || record_absent(s, p)
}

/// Every listed path has a content key that decompresses to bytes whose
/// hash is the one written under its hash key.
pub open spec fn hashes_consistent(s: BrokerView) -> bool {
    forall|p: Seq<u8>| #[trigger]
        all_files(s).contains(p) ==> {
            &&& s.strings.contains_key(content_key(p))
            &&& s.strings.contains_key(hash_key(p))
            &&& snappy_decoded(s.strings[content_key(p)]) is Some
            &&& s.strings[hash_key(p)] == decimal_digits(
                content_hash_of(snappy_decoded(s.strings[content_key(p)])->0) as nat,
            )
        }
}

/// The commands that publish a new file.
pub open spec fn new_file_commands(emitter: u64, path: Seq<u8>, content: Seq<u8>, hash: u64) -> Seq<
    CommandView,
> {
    seq![
        CommandView::SetKey(hash_key(path), decimal_digits(hash as nat)),
        CommandView::SetKey(content_key(path), content),
        CommandView::Sadd(all_files_name(), path),
        CommandView::Publish(
            file_event_channel(),
            encode_view(PayloadView::NewFile(emitter, hash, decode_utf8(path))),
        ),
    ]
}

/// The commands that publish a new content of a listed file.
pub open spec fn modified_file_commands(
    emitter: u64,
    path: Seq<u8>,
    content: Seq<u8>,
    hash: u64,
) -> Seq<CommandView> {
    seq![
        CommandView::SetKey(hash_key(path), decimal_digits(hash as nat)),
        CommandView::SetKey(content_key(path), content),
        CommandView::Publish(
            file_event_channel(),
            encode_view(PayloadView::ModifiedFile(emitter, hash, decode_utf8(path))),
        ),
    ]
}

/// The commands that publish the removal of a file.
pub open spec fn removed_file_commands(emitter: u64, path: Seq<u8>) -> Seq<CommandView> {
    seq![
        CommandView::Del(hash_key(path)),
        CommandView::Del(content_key(path)),
        CommandView::Srem(all_files_name(), path),
        CommandView::Publish(
            file_event_channel(),
            encode_view(PayloadView::RemovedFile(emitter, decode_utf8(path))),
        ),
    ]
}

/// The commands that publish a move of a file: both keys are renamed and
/// the membership passes from the old path to the new one.
pub open spec fn renamed_file_commands(emitter: u64, old: Seq<u8>, new: Seq<u8>) -> Seq<
    CommandView,
> {
    seq![
        CommandView::Rename(hash_key(old), hash_key(new)),
        CommandView::Rename(content_key(old), content_key(new)),
        CommandView::Srem(all_files_name(), old),
        CommandView::Sadd(all_files_name(), new),
        CommandView::Publish(
            file_event_channel(),
            encode_view(PayloadView::RenamedFile(emitter, decode_utf8(old), decode_utf8(new))),
        ),
    ]
}

/// Why the store refused to publish a change.
#[derive(Debug, Clone, Copy, PartialEq, Eq, Structural)]
pub enum StoreError {
    /// A path is not valid UTF-8: nothing is written for it.
    InvalidPath,
    /// The stored content is not a valid compressed stream.
    CorruptContent,
    /// The stored hash is not the decimal text of a 64-bit number.
    InvalidHash,
}

fn prefixed(prefix: Vec<u8>, path: &[u8]) -> (r: Vec<u8>)
    ensures
        r@ == prefix@ + path@,
{
    let mut out = prefix;
    push_bytes(&mut out, path);
    out
}

/// The path as text, or `InvalidPath` where its bytes are not UTF-8.
fn path_text(path: &[u8]) -> (r: Result<String, StoreError>)
    ensures
        match r {
            Ok(t) => valid_utf8(path@) && t@ == decode_utf8(path@),
            Err(e) => !valid_utf8(path@) && e == StoreError::InvalidPath,
        },
{
    match utf8_text(path) {
        Some(t) => {
            proof {
                encode_utf8_valid_utf8(t@);
            }
            Ok(t.to_owned())
        },
        None => Err(StoreError::InvalidPath),
    }
}

/// The typed facade over the broker: it turns each file change into the
/// transaction that records it, and reads back stored values.
#[derive(Debug, Clone, Copy)]
pub struct RedisStore;

impl RedisStore {
    pub fn new() -> RedisStore {
        RedisStore
    }

    /// The key that holds the decimal hash of a path's content.
    pub fn to_hash_key(&self, path: &[u8]) -> (r: Vec<u8>)
        ensures
            r@ == hash_key(path@),
    {
        let r = prefixed(vec![104u8, 97, 115, 104, 58], path);
        assert(r@ =~= hash_key(path@));
        r
    }

    /// The key that holds a path's compressed content.
    pub fn to_content_key(&self, path: &[u8]) -> (r: Vec<u8>)
        ensures
            r@ == content_key(path@),
    {
        let r = prefixed(vec![99u8, 111, 110, 116, 101, 110, 116, 58], path);
        assert(r@ =~= content_key(path@));
        r
    }

    /// The name of the set of every synchronized path.
    pub fn all_files_set(&self) -> (r: Vec<u8>)
        ensures
            r@ == all_files_name(),
    {
        let r = vec![97u8, 108, 108, 95, 102, 105, 108, 101, 115];
        assert(r@ =~= all_files_name());
        r
    }

    /// The name of the channel of file events.
    pub fn file_event_channel(&self) -> (r: Vec<u8>)
        ensures
            r@ == file_event_channel(),
    {
        let r = vec![102u8, 105, 108, 101, 95, 101, 118, 101, 110, 116];
        assert(r@ =~= file_event_channel());
        r
    }

    /// The transaction that records a new file: its hash, its compressed
    /// content, its membership, then the `NewFile` event. A path that is
    /// not UTF-8 is refused and nothing is written.
    pub fn new_file(&self, emitter_id: u64, path: &[u8], content: &[u8], hash: u64) -> (r: Result<
        Vec<RedisCommand>,
        StoreError,
    >)
        ensures
            match r {
                Ok(cmds) => valid_utf8(path@) && commands_view(cmds@) == new_file_commands(
                    emitter_id,
                    path@,
                    content@,
                    hash,
                ),
                Err(e) => !valid_utf8(path@) && e == StoreError::InvalidPath,
            },
    {
        let text = path_text(path)?;
        let event = RedisPublishPayload::NewFile(emitter_id, hash, text);
        let mut cmds: Vec<RedisCommand> = Vec::new();
        cmds.push(RedisCommand::SetKey(self.to_hash_key(path), format_decimal(hash)));
        cmds.push(RedisCommand::SetKey(self.to_content_key(path), vstd::slice::slice_to_vec(content)));
        cmds.push(RedisCommand::Sadd(self.all_files_set(), vstd::slice::slice_to_vec(path)));
        cmds.push(RedisCommand::Publish(self.file_event_channel(), event.encode()));
        assert(commands_view(cmds@) =~= new_file_commands(emitter_id, path@, content@, hash));
        Ok(cmds)
    }

    /// The transaction that records a new content of a listed file: its
    /// hash, its compressed content, then the `ModifiedFile` event. The
    /// membership is not touched. A path that is not UTF-8 is refused.
    pub fn modified_file(&self, emitter_id: u64, path: &[u8], content: &[u8], hash: u64) -> (r:
        Result<Vec<RedisCommand>, StoreError>)
        ensures
            match r {
                Ok(cmds) => valid_utf8(path@) && commands_view(cmds@) == modified_file_commands(
                    emitter_id,
                    path@,
                    content@,
                    hash,
                ),
                Err(e) => !valid_utf8(path@) && e == StoreError::InvalidPath,
            },
    {
        let text = path_text(path)?;
        let event = RedisPublishPayload::ModifiedFile(emitter_id, hash, text);
        let mut cmds: Vec<RedisCommand> = Vec::new();
        cmds.push(RedisCommand::SetKey(self.to_hash_key(path), format_decimal(hash)));
        cmds.push(RedisCommand::SetKey(self.to_content_key(path), vstd::slice::slice_to_vec(content)));
        cmds.push(RedisCommand::Publish(self.file_event_channel(), event.encode()));
        assert(commands_view(cmds@) =~= modified_file_commands(emitter_id, path@, content@, hash));
        Ok(cmds)
    }

    /// The transaction that moves a file: both keys renamed, membership
    /// moved, then the `RenamedFile` event. Refused where either path is
    /// not UTF-8.
    pub fn renamed_file(&self, emitter_id: u64, old_path: &[u8], new_path: &[u8]) -> (r: Result<
        Vec<RedisCommand>,
        StoreError,
    >)
        ensures
            match r {
                Ok(cmds) => valid_utf8(old_path@) && valid_utf8(new_path@) && commands_view(cmds@)
                    == renamed_file_commands(emitter_id, old_path@, new_path@),
                Err(e) => !(valid_utf8(old_path@) && valid_utf8(new_path@)) && e
                    == StoreError::InvalidPath,
            },
    {
        let old_text = path_text(old_path)?;
        let new_text = path_text(new_path)?;
        let event = RedisPublishPayload::RenamedFile(emitter_id, old_text, new_text);
        let mut cmds: Vec<RedisCommand> = Vec::new();
        cmds.push(RedisCommand::Rename(self.to_hash_key(old_path), self.to_hash_key(new_path)));
        cmds.push(
            RedisCommand::Rename(self.to_content_key(old_path), self.to_content_key(new_path)),
        );
        cmds.push(RedisCommand::Srem(self.all_files_set(), vstd::slice::slice_to_vec(old_path)));
        cmds.push(RedisCommand::Sadd(self.all_files_set(), vstd::slice::slice_to_vec(new_path)));
        cmds.push(RedisCommand::Publish(self.file_event_channel(), event.encode()));
        assert(commands_view(cmds@) =~= renamed_file_commands(emitter_id, old_path@, new_path@));
        Ok(cmds)
    }

    /// The transaction that forgets a file: both keys deleted, membership
    /// removed, then the `RemovedFile` event. A path that is not UTF-8 is
    /// refused.
    pub fn removed_file(&self, emitter_id: u64, path: &[u8]) -> (r: Result<
        Vec<RedisCommand>,
        StoreError,
    >)
        ensures
            match r {
                Ok(cmds) => valid_utf8(path@) && commands_view(cmds@) == removed_file_commands(
                    emitter_id,
                    path@,
                ),
                Err(e) => !valid_utf8(path@) && e == StoreError::InvalidPath,
            },
    {
        let text = path_text(path)?;
        let event = RedisPublishPayload::RemovedFile(emitter_id, text);
        let mut cmds: Vec<RedisCommand> = Vec::new();
        cmds.push(RedisCommand::Del(self.to_hash_key(path)));
        cmds.push(RedisCommand::Del(self.to_content_key(path)));
        cmds.push(RedisCommand::Srem(self.all_files_set(), vstd::slice::slice_to_vec(path)));
        cmds.push(RedisCommand::Publish(self.file_event_channel(), event.encode()));
        assert(commands_view(cmds@) =~= removed_file_commands(emitter_id, path@));
        Ok(cmds)
    }

    /// The file's bytes out of the value stored under its content key.
    pub fn get_remote_file_content(&self, compressed: &[u8]) -> (r: Result<Vec<u8>, StoreError>)
        ensures
            match r {
                Ok(v) => snappy_decoded(compressed@) == Some(v@),
                Err(e) => snappy_decoded(compressed@) is None && e == StoreError::CorruptContent,
            },
    {
        match snappy_decompress(compressed) {
            Some(v) => Ok(v),
            None => Err(StoreError::CorruptContent),
        }
    }

    /// The hash out of the value stored under a hash key: its decimal text.
    pub fn get_remote_file_hash(&self, raw: &[u8]) -> (r: Result<u64, StoreError>)
        ensures
            match parsed_decimal(raw@) {
                Some(n) => r == Ok::<u64, StoreError>(n),
                None => r == Err::<u64, StoreError>(StoreError::InvalidHash),
            },
    {
        match parse_decimal(raw) {
            Some(n) => Ok(n),
            None => Err(StoreError::InvalidHash),
        }
    }
}

} // verus!
