//! File events as the subscriber applies them.
use vstd::prelude::*;
use vstd::utf8::*;
use crate::codec::{PayloadView, RedisPublishPayload};
use crate::redis_store::{file_event_channel, RedisStore};

verus! {

/// A change to apply to the local tree.
#[derive(Debug, Clone, PartialEq, Eq)]
pub enum FileEvents {
    /// Path, hash of the new content.
    New(String, u64),
    /// Path, hash of the new content.
    Modified(String, u64),
    /// Path.
    Removed(String),
    /// Old path, new path.
    Renamed(String, String),
}

pub enum FileEventView {
    New(Seq<char>, u64),
    Modified(Seq<char>, u64),
    Removed(Seq<char>),
    Renamed(Seq<char>, Seq<char>),
}

impl View for FileEvents {
    type V = FileEventView;

    open spec fn view(&self) -> FileEventView {
        match self {
            FileEvents::New(p, h) => FileEventView::New(p@, *h),
            FileEvents::Modified(p, h) => FileEventView::Modified(p@, *h),
            FileEvents::Removed(p) => FileEventView::Removed(p@),
            FileEvents::Renamed(o, n) => FileEventView::Renamed(o@, n@),
        }
    }
}

/// The change that a payload announces.
pub open spec fn event_of(p: PayloadView) -> FileEventView {
    match p {
        PayloadView::NewFile(_, h, path) => FileEventView::New(path, h),
        PayloadView::ModifiedFile(_, h, path) => FileEventView::Modified(path, h),
        PayloadView::RemovedFile(_, path) => FileEventView::Removed(path),
        PayloadView::RenamedFile(_, o, n) => FileEventView::Renamed(o, n),
    }
}

/// The name of the kind of a change.
pub open spec fn kind_name(e: FileEventView) -> Seq<char> {
    match e {
        FileEventView::New(_, _) => "files:new"@,
        FileEventView::Modified(_, _) => "files:modified"@,
        FileEventView::Removed(_) => "files:removed"@,
        FileEventView::Renamed(_, _) => "files:renamed"@,
    }
}

/// The text names the channel that carries the file events.
pub open spec fn is_file_event_channel(kind: Seq<char>) -> bool {
    encode_utf8(kind) == file_event_channel()
}

/// A message that arrived on another channel than the file events'.
#[derive(Debug, Clone, Copy, PartialEq, Eq, Structural)]
pub struct InvalidEventKind;

fn bytes_equal(a: &[u8], b: &[u8]) -> (r: bool)
    ensures
        r == (a@ == b@),
{
    if a.len() != b.len() {
        return false;
    }
    let mut i: usize = 0;
    while i < a.len()
        invariant
            i <= a@.len(),
            a@.len() == b@.len(),
            forall|k: int| 0 <= k < i ==> a@[k] == b@[k],
        decreases a@.len() - i,
    {
        if a[i] != b[i] {
            return false;
        }
        i = i + 1;
    }
    assert(a@ =~= b@);
    true
}

impl FileEvents {
    /// The name of the kind of this change, for the logs.
    pub fn kind_as_str(&self) -> (r: &'static str)
        ensures
            r@ == kind_name(self@),
    {
        match self {
            FileEvents::New(_, _) => "files:new",
            FileEvents::Modified(_, _) => "files:modified",
            FileEvents::Removed(_) => "files:removed",
            FileEvents::Renamed(_, _) => "files:renamed",
        }
    }

    /// The change announced by a payload received on the channel `kind`;
    /// refused unless `kind` is the file-event channel.
    pub fn from_str_and_payload(kind: &str, payload: RedisPublishPayload) -> (r: Result<
        FileEvents,
        InvalidEventKind,
    >)
        ensures
            match r {
                Ok(e) => is_file_event_channel(kind@) && e@ == event_of(payload@),
                Err(_) => !is_file_event_channel(kind@),
            },
    {
        let channel = RedisStore::new().file_event_channel();
        if !bytes_equal(kind.as_bytes(), channel.as_slice()) {
            return Err(InvalidEventKind);
        }
        let event = match payload {
            RedisPublishPayload::NewFile(_, h, p) => FileEvents::New(p, h),
            RedisPublishPayload::ModifiedFile(_, h, p) => FileEvents::Modified(p, h),
            RedisPublishPayload::RemovedFile(_, p) => FileEvents::Removed(p),
            RedisPublishPayload::RenamedFile(_, o, n) => FileEvents::Renamed(o, n),
        };
        Ok(event)
    }
}

} // verus!
