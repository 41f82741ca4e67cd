//! The subscriber's decisions on the events of the other nodes, and the
//! start-up reconciliation against the broker.
use vstd::prelude::*;
use crate::codec::{
    decode_view, encode_view, lemma_round_trip, payload_fits, PayloadView, RedisPublishPayload,
};
use crate::local_fs_store::content_hash_of;
use vstd::utf8::encode_utf8;
use crate::decimal::parsed_decimal;
use crate::file_events::{event_of, is_file_event_channel, FileEventView, FileEvents};
use crate::redis_store::RedisStore;

verus! {

/// Why a received message is not applied.
#[derive(Debug, Clone, Copy, PartialEq, Eq, Structural)]
pub enum SkipReason {
    /// The message is not the encoding of any payload.
    Undecodable,
    /// This node emitted the event itself.
    OwnEvent,
    /// The message came on another channel than the file events'.
    UnexpectedChannel,
}

/// What the subscriber does with a received message.
#[derive(Debug, Clone, PartialEq, Eq)]
pub enum RemoteAction {
    Skip(SkipReason),
    /// Compare the local file's hash with this one; fetch and write the
    /// stored content where they differ.
    CompareHash(String, u64),
    /// Delete the local file.
    RemoveLocal(String),
    /// Move the local file, creating the new parent directories.
    RenameLocal(String, String),
}

pub enum RemoteActionView {
    Skip(SkipReason),
    CompareHash(Seq<char>, u64),
    RemoveLocal(Seq<char>),
    RenameLocal(Seq<char>, Seq<char>),
}

impl View for RemoteAction {
    type V = RemoteActionView;

    open spec fn view(&self) -> RemoteActionView {
        match self {
            RemoteAction::Skip(r) => RemoteActionView::Skip(*r),
            RemoteAction::CompareHash(p, h) => RemoteActionView::CompareHash(p@, *h),
            RemoteAction::RemoveLocal(p) => RemoteActionView::RemoveLocal(p@),
            RemoteAction::RenameLocal(o, n) => RemoteActionView::RenameLocal(o@, n@),
        }
    }
}

/// The action of node `node_id` on `message` received on `channel`:
/// decode, drop its own events, check the channel, then dispatch on the
/// kind of change.
pub open spec fn remote_action(node_id: u64, channel: Seq<char>, message: Seq<u8>) -> RemoteActionView {
    match decode_view(message) {
        None => RemoteActionView::Skip(SkipReason::Undecodable),
        Some(p) => if p.emitter() == node_id {
            RemoteActionView::Skip(SkipReason::OwnEvent)
        } else if !is_file_event_channel(channel) {
            RemoteActionView::Skip(SkipReason::UnexpectedChannel)
        } else {
            match event_of(p) {
                FileEventView::New(path, h) => RemoteActionView::CompareHash(path, h),
                FileEventView::Modified(path, h) => RemoteActionView::CompareHash(path, h),
                FileEventView::Removed(path) => RemoteActionView::RemoveLocal(path),
                FileEventView::Renamed(o, n) => RemoteActionView::RenameLocal(o, n),
            }
        },
    }
}

/// Whether the stored content must be fetched and written: the local file
/// is missing (`None`) or has another hash.
pub open spec fn content_needed(local_hash: Option<u64>, remote_hash: u64) -> bool {
    local_hash != Some(remote_hash)
}

/// Whether reconciliation must fetch a listed file: unless the stored
/// hash text reads as a number equal to the local file's hash, it must.
pub open spec fn download_needed(remote_hash: Option<Seq<u8>>, local_hash: Option<u64>) -> bool {
    match (remote_hash, local_hash) {
        (Some(r), Some(l)) => parsed_decimal(r) != Some(l),
        _ => true,
    }
}

/// What reconciliation knows of one listed path: the value under its hash
/// key (`None` where it could not be read) and the hash of the local file
/// (`None` where it could not be read, e.g. it is absent).
#[derive(Debug, Clone, PartialEq, Eq)]
pub struct RemoteFileState {
    pub path: Vec<u8>,
    pub remote_hash: Option<Vec<u8>>,
    pub local_hash: Option<u64>,
}

pub struct RemoteFileStateView {
    pub path: Seq<u8>,
    pub remote_hash: Option<Seq<u8>>,
    pub local_hash: Option<u64>,
}

impl View for RemoteFileState {
    type V = RemoteFileStateView;

    open spec fn view(&self) -> RemoteFileStateView {
        RemoteFileStateView {
            path: self.path@,
            remote_hash: match self.remote_hash {
                Some(r) => Some(r@),
                None => None,
            },
            local_hash: self.local_hash,
        }
    }
}

/// The paths to fetch and write, in the order listed.
pub open spec fn downloads(files: Seq<RemoteFileStateView>) -> Seq<Seq<u8>>
    decreases files.len(),
{
    if files.len() == 0 {
        Seq::empty()
    } else {
        let f = files.last();
        if download_needed(f.remote_hash, f.local_hash) {
            downloads(files.drop_last()).push(f.path)
        } else {
            downloads(files.drop_last())
        }
    }
}

/// The id the subscriber filters on: the node's own id, or, where event
/// deduplication is disabled for testing, a different one, so that the
/// node applies its own events too.
pub fn subscriber_node_id(unique_id: u64, disable_event_dedup: bool) -> (r: u64)
    ensures
        !disable_event_dedup ==> r == unique_id,
        disable_event_dedup ==> r == (if unique_id == u64::MAX { 0 } else { unique_id + 1 }),
        disable_event_dedup ==> r != unique_id,
{
    if disable_event_dedup {
        unique_id.wrapping_add(1)
    } else {
        unique_id
    }
}

/// The subscriber of one node.
pub struct RemoteFilesEventHandler {
    pub store: RedisStore,
    pub unique_id: u64,
}

impl RemoteFilesEventHandler {
    pub fn new(store: RedisStore, unique_id: u64) -> (r: RemoteFilesEventHandler)
        ensures
            r.unique_id == unique_id,
    {
        RemoteFilesEventHandler { store, unique_id }
    }

    /// What to do with a message received on `channel`.
    pub fn handle_message(&self, channel: &str, message: &[u8]) -> (r: RemoteAction)
        ensures
            r@ == remote_action(self.unique_id, channel@, message@),
    {
        let payload = match RedisPublishPayload::decode(message) {
            Ok(p) => p,
            Err(_) => return RemoteAction::Skip(SkipReason::Undecodable),
        };
        if payload.get_emitter_id() == self.unique_id {
            return RemoteAction::Skip(SkipReason::OwnEvent);
        }
        match FileEvents::from_str_and_payload(channel, payload) {
            Err(_) => RemoteAction::Skip(SkipReason::UnexpectedChannel),
            Ok(FileEvents::New(p, h)) => RemoteAction::CompareHash(p, h),
            Ok(FileEvents::Modified(p, h)) => RemoteAction::CompareHash(p, h),
            Ok(FileEvents::Removed(p)) => RemoteAction::RemoveLocal(p),
            Ok(FileEvents::Renamed(o, n)) => RemoteAction::RenameLocal(o, n),
        }
    }

    /// Whether a new or modified file must be fetched and written, given
    /// the local file's hash (`None` where it is missing or unreadable).
    pub fn remote_content_needed(local_hash: Option<u64>, remote_hash: u64) -> (r: bool)
        ensures
            r == content_needed(local_hash, remote_hash),
    {
        match local_hash {
            Some(l) => l != remote_hash,
            None => true,
        }
    }

    /// Whether reconciliation must fetch one listed file.
    pub fn reconcile_needed(&self, remote_hash: &Option<Vec<u8>>, local_hash: Option<u64>) -> (r:
        bool)
        ensures
            r == download_needed(
                match remote_hash {
                    Some(v) => Some(v@),
                    None => None,
                },
                local_hash,
            ),
    {
        match (remote_hash, local_hash) {
            (Some(raw), Some(l)) => match self.store.get_remote_file_hash(raw.as_slice()) {
                Ok(h) => h != l,
                Err(_) => true,
            },
            _ => true,
        }
    }

    /// The listed paths that reconciliation must fetch and write, in order:
    /// those whose stored hash does not read as the local file's hash.
    pub fn synchronize_local_files_with_remote(&self, files: &Vec<RemoteFileState>) -> (r: Vec<
        Vec<u8>,
    >)
        ensures
            r@.map_values(|p: Vec<u8>| p@) == downloads(files@.map_values(|f: RemoteFileState| f@)),
    {
        let ghost fv = files@.map_values(|f: RemoteFileState| f@);
        let mut out: Vec<Vec<u8>> = Vec::new();
        let mut i: usize = 0;
        while i < files.len()
            invariant
                i <= files@.len(),
                fv == files@.map_values(|f: RemoteFileState| f@),
                out@.map_values(|p: Vec<u8>| p@) == downloads(fv.subrange(0, i as int)),
            decreases files@.len() - i,
        {
            let f = &files[i];
            let ghost before = out@;
            proof {
                let pre = fv.subrange(0, i + 1);
                assert(pre.drop_last() =~= fv.subrange(0, i as int));
                assert(pre.last() == f@);
            }
            if self.reconcile_needed(&f.remote_hash, f.local_hash) {
                out.push(vstd::slice::slice_to_vec(f.path.as_slice()));
                proof {
                    assert(out@.map_values(|p: Vec<u8>| p@) =~= before.map_values(|p: Vec<u8>| p@).push(f.path@));
                }
            }
            i = i + 1;
        }
        assert(fv.subrange(0, i as int) =~= fv);
        out
    }
}

/// A node never applies an event that it emitted itself: the message that
/// encodes a payload carrying the node's own id is skipped, whatever the
/// channel.
pub proof fn lemma_own_events_skipped(node_id: u64, channel: Seq<char>, v: PayloadView)
    requires
        payload_fits(v),
        v.emitter() == node_id,
    ensures
        remote_action(node_id, channel, encode_view(v)) == RemoteActionView::Skip(
            SkipReason::OwnEvent,
        ),
{
    lemma_round_trip(v);
}

/// A write does not bounce back: when another node publishes a new or
/// modified file with the hash of bytes `c`, a node whose local file
/// already holds `c` compares the hashes and writes nothing.
pub proof fn lemma_loopback_terminates(
    node_id: u64,
    emitter: u64,
    channel: Seq<char>,
    path: Seq<char>,
    c: Seq<u8>,
)
    requires
        node_id != emitter,
        is_file_event_channel(channel),
        encode_utf8(path).len() <= u64::MAX,
    ensures
        remote_action(
            node_id,
            channel,
            encode_view(PayloadView::ModifiedFile(emitter, content_hash_of(c), path)),
        ) == RemoteActionView::CompareHash(path, content_hash_of(c)),
        remote_action(
            node_id,
            channel,
            encode_view(PayloadView::NewFile(emitter, content_hash_of(c), path)),
        ) == RemoteActionView::CompareHash(path, content_hash_of(c)),
        !content_needed(Some(content_hash_of(c)), content_hash_of(c)),
{
    lemma_round_trip(PayloadView::ModifiedFile(emitter, content_hash_of(c), path));
    lemma_round_trip(PayloadView::NewFile(emitter, content_hash_of(c), path));
}

} // verus!
