//! The watcher's decisions on local filesystem events.
use vstd::prelude::*;
use vstd::utf8::*;
use crate::local_fs_store::{content_hash_of, snappy_decoded, snappy_frame_of, LocalFSStore};
use crate::redis_store::{
    commands_view, modified_file_commands, new_file_commands, removed_file_commands,
    renamed_file_commands, RedisCommand, RedisStore, StoreError,
};

verus! {

/// A debounced event of the recursive watch. Paths are the raw bytes the
/// operating system gave; the flag tells whether the path is a directory.
#[derive(Debug, Clone, PartialEq, Eq)]
pub enum LocalEvent {
    Create(Vec<u8>, bool),
    Write(Vec<u8>, bool),
    Remove(Vec<u8>),
    Rename(Vec<u8>, Vec<u8>),
    NoticeWrite(Vec<u8>),
    NoticeRemove(Vec<u8>),
    Chmod(Vec<u8>),
    Rescan,
    /// The watcher's error message, and the path it concerns if any.
    Error(String, Option<Vec<u8>>),
}

pub enum LocalEventView {
    Create(Seq<u8>, bool),
    Write(Seq<u8>, bool),
    Remove(Seq<u8>),
    Rename(Seq<u8>, Seq<u8>),
    NoticeWrite(Seq<u8>),
    NoticeRemove(Seq<u8>),
    Chmod(Seq<u8>),
    Rescan,
    Error,
}

impl View for LocalEvent {
    type V = LocalEventView;

    open spec fn view(&self) -> LocalEventView {
        match self {
            LocalEvent::Create(p, d) => LocalEventView::Create(p@, *d),
            LocalEvent::Write(p, d) => LocalEventView::Write(p@, *d),
            LocalEvent::Remove(p) => LocalEventView::Remove(p@),
            LocalEvent::Rename(o, n) => LocalEventView::Rename(o@, n@),
            LocalEvent::NoticeWrite(p) => LocalEventView::NoticeWrite(p@),
            LocalEvent::NoticeRemove(p) => LocalEventView::NoticeRemove(p@),
            LocalEvent::Chmod(p) => LocalEventView::Chmod(p@),
            LocalEvent::Rescan => LocalEventView::Rescan,
            LocalEvent::Error(_, _) => LocalEventView::Error,
        }
    }
}

/// What the watcher does with an event.
#[derive(Debug, PartialEq, Eq)]
pub enum WatchAction {
    /// Nothing to publish.
    Ignore,
    /// The watch was rescanned: log it.
    Rescan,
    /// The watch reported an error: log it and go on.
    ReportError(String, Option<Vec<u8>>),
    /// Read the file (path, whether it was just created), then hand its
    /// bytes to `publish_file`.
    ReadFile(Vec<u8>, bool),
    /// Run this transaction, or log why there is none.
    Publish(Result<Vec<RedisCommand>, StoreError>),
}

/// The outcome of building a transaction matches the commands given.
pub open spec fn publishes(r: Result<Vec<RedisCommand>, StoreError>, valid: bool, cmds: Seq<crate::redis_store::CommandView>) -> bool {
    match r {
        Ok(c) => valid && commands_view(c@) == cmds,
        Err(e) => !valid && e == StoreError::InvalidPath,
    }
}

/// The watcher of one node.
pub struct LocalFilesEventHandler {
    pub event_bounce_ms: u64,
    pub unique_id: u64,
    pub paths_to_watch: Vec<String>,
    pub store: RedisStore,
}

impl LocalFilesEventHandler {
    pub fn new(
        store: RedisStore,
        unique_id: u64,
        paths_to_watch: Vec<String>,
        event_bounce_ms: u64,
    ) -> (r: LocalFilesEventHandler)
        ensures
            r.unique_id == unique_id,
            r.event_bounce_ms == event_bounce_ms,
            r.paths_to_watch@ == paths_to_watch@,
    {
        LocalFilesEventHandler { event_bounce_ms, unique_id, paths_to_watch, store }
    }

    /// The decision on one event: directories and notices are ignored,
    /// created or written files are to be read, removals and moves are
    /// published at once.
    pub fn handle_event(&self, event: LocalEvent) -> (r: WatchAction)
        ensures
            match event@ {
                LocalEventView::Create(p, dir) => if dir {
                    r is Ignore
                } else {
                    r matches WatchAction::ReadFile(q, created) && q@ == p && created
                },
                LocalEventView::Write(p, dir) => if dir {
                    r is Ignore
                } else {
                    r matches WatchAction::ReadFile(q, created) && q@ == p && !created
                },
                LocalEventView::Remove(p) => r matches WatchAction::Publish(res) && publishes(
                    res,
                    valid_utf8(p),
                    removed_file_commands(self.unique_id, p),
                ),
                LocalEventView::Rename(o, n) => r matches WatchAction::Publish(res) && publishes(
                    res,
                    valid_utf8(o) && valid_utf8(n),
                    renamed_file_commands(self.unique_id, o, n),
                ),
                LocalEventView::Rescan => r is Rescan,
                LocalEventView::Error => r is ReportError,
                _ => r is Ignore,
            },
    {
        match event {
            LocalEvent::Create(p, dir) => if dir {
                WatchAction::Ignore
            } else {
                WatchAction::ReadFile(p, true)
            },
            LocalEvent::Write(p, dir) => if dir {
                WatchAction::Ignore
            } else {
                WatchAction::ReadFile(p, false)
            },
            LocalEvent::Remove(p) => WatchAction::Publish(
                self.store.removed_file(self.unique_id, p.as_slice()),
            ),
            LocalEvent::Rename(o, n) => WatchAction::Publish(
                self.store.renamed_file(self.unique_id, o.as_slice(), n.as_slice()),
            ),
            LocalEvent::NoticeWrite(_) => WatchAction::Ignore,
            LocalEvent::NoticeRemove(_) => WatchAction::Ignore,
            LocalEvent::Chmod(_) => WatchAction::Ignore,
            LocalEvent::Rescan => WatchAction::Rescan,
            LocalEvent::Error(message, path) => WatchAction::ReportError(message, path),
        }
    }

    /// The transaction that publishes a file just read: its compressed
    /// bytes and content hash, as a new file or as a new content.
    pub fn publish_file(&self, path: &[u8], created: bool, contents: &[u8]) -> (r: Result<
        Vec<RedisCommand>,
        StoreError,
    >)
        ensures
            snappy_decoded(snappy_frame_of(contents@)) == Some(contents@),
            publishes(
                r,
                valid_utf8(path@),
                if created {
                    new_file_commands(
                        self.unique_id,
                        path@,
                        snappy_frame_of(contents@),
                        content_hash_of(contents@),
                    )
                } else {
                    modified_file_commands(
                        self.unique_id,
                        path@,
                        snappy_frame_of(contents@),
                        content_hash_of(contents@),
                    )
                },
            ),
    {
        let (compressed, hash) = LocalFSStore::local_file_content_compressed(contents);
        if created {
            self.store.new_file(self.unique_id, path, compressed.as_slice(), hash)
        } else {
            self.store.modified_file(self.unique_id, path, compressed.as_slice(), hash)
        }
    }
}

} // verus!
