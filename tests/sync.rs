use fs_synchronizer::codec::RedisPublishPayload;
use fs_synchronizer::file_events::{FileEvents, InvalidEventKind};
use fs_synchronizer::local_files_event_handler::{LocalEvent, LocalFilesEventHandler, WatchAction};
use fs_synchronizer::local_fs_store::LocalFSStore;
use fs_synchronizer::redis_store::{RedisCommand, RedisStore, StoreError};
use fs_synchronizer::remote_files_event_handler::{
    subscriber_node_id, RemoteAction, RemoteFileState, RemoteFilesEventHandler, SkipReason,
};

fn watcher(id: u64) -> LocalFilesEventHandler {
    LocalFilesEventHandler::new(RedisStore::new(), id, vec![String::from("/w")], 100)
}

fn subscriber(id: u64) -> RemoteFilesEventHandler {
    RemoteFilesEventHandler::new(RedisStore::new(), id)
}

fn decompress(bytes: &[u8]) -> Vec<u8> {
    RedisStore::new().get_remote_file_content(bytes).expect("valid stream")
}

#[test]
fn single_node_create() {
    let w = watcher(1);
    let path = b"/watch/a.txt".to_vec();
    let action = w.handle_event(LocalEvent::Create(path.clone(), false));
    assert_eq!(action, WatchAction::ReadFile(path.clone(), true));
    let cmds = w.publish_file(&path, true, b"hello").expect("utf-8 path");
    let hash = LocalFSStore::hash_content(b"hello");
    assert_eq!(cmds.len(), 4);
    assert_eq!(
        cmds[0],
        RedisCommand::SetKey(b"hash:/watch/a.txt".to_vec(), hash.to_string().into_bytes())
    );
    match &cmds[1] {
        RedisCommand::SetKey(key, value) => {
            assert_eq!(key, &b"content:/watch/a.txt".to_vec());
            assert_ne!(value, &b"hello".to_vec());
            assert_eq!(decompress(value), b"hello".to_vec());
        }
        other => panic!("unexpected {:?}", other),
    }
    assert_eq!(cmds[2], RedisCommand::Sadd(b"all_files".to_vec(), path.clone()));
    let event = RedisPublishPayload::NewFile(1, hash, String::from("/watch/a.txt")).encode();
    assert_eq!(cmds[3], RedisCommand::Publish(b"file_event".to_vec(), event));
}

#[test]
fn two_node_propagate() {
    let a = watcher(7);
    let b = subscriber(11);
    let cmds = a.publish_file(b"/w/x", true, b"abc").expect("utf-8 path");
    let (channel, message) = match &cmds[3] {
        RedisCommand::Publish(c, m) => (String::from_utf8(c.clone()).unwrap(), m.clone()),
        other => panic!("unexpected {:?}", other),
    };
    let hash = LocalFSStore::hash_content(b"abc");
    let action = b.handle_message(&channel, &message);
    assert_eq!(action, RemoteAction::CompareHash(String::from("/w/x"), hash));
    // B has no such file yet: it fetches the stored content.
    assert!(RemoteFilesEventHandler::remote_content_needed(None, hash));
    let content = match &cmds[1] {
        RedisCommand::SetKey(_, v) => decompress(v),
        other => panic!("unexpected {:?}", other),
    };
    assert_eq!(content, b"abc".to_vec());
    // The echo of A's own event reaches A and is skipped.
    let echo = subscriber(7).handle_message(&channel, &message);
    assert_eq!(echo, RemoteAction::Skip(SkipReason::OwnEvent));
}

#[test]
fn rename_moves_keys_and_membership() {
    let a = watcher(7);
    let action = a.handle_event(LocalEvent::Rename(b"/w/x".to_vec(), b"/w/y/z".to_vec()));
    let cmds = match action {
        WatchAction::Publish(Ok(cmds)) => cmds,
        other => panic!("unexpected {:?}", other),
    };
    assert_eq!(
        cmds[0],
        RedisCommand::Rename(b"hash:/w/x".to_vec(), b"hash:/w/y/z".to_vec())
    );
    assert_eq!(
        cmds[1],
        RedisCommand::Rename(b"content:/w/x".to_vec(), b"content:/w/y/z".to_vec())
    );
    assert_eq!(cmds[2], RedisCommand::Srem(b"all_files".to_vec(), b"/w/x".to_vec()));
    assert_eq!(cmds[3], RedisCommand::Sadd(b"all_files".to_vec(), b"/w/y/z".to_vec()));
    let message = match &cmds[4] {
        RedisCommand::Publish(_, m) => m.clone(),
        other => panic!("unexpected {:?}", other),
    };
    let action = subscriber(11).handle_message("file_event", &message);
    assert_eq!(
        action,
        RemoteAction::RenameLocal(String::from("/w/x"), String::from("/w/y/z"))
    );
}

#[test]
fn reconciler_fetches_missing_file() {
    let c = subscriber(5);
    let h = LocalFSStore::hash_content(b"abc");
    let files = vec![RemoteFileState {
        path: b"/w/x".to_vec(),
        remote_hash: Some(h.to_string().into_bytes()),
        local_hash: None,
    }];
    assert_eq!(c.synchronize_local_files_with_remote(&files), vec![b"/w/x".to_vec()]);
}

#[test]
fn reconciler_skips_matching_and_fetches_the_rest() {
    let c = subscriber(5);
    let h = LocalFSStore::hash_content(b"abc");
    let files = vec![
        RemoteFileState {
            path: b"/w/same".to_vec(),
            remote_hash: Some(h.to_string().into_bytes()),
            local_hash: Some(h),
        },
        RemoteFileState {
            path: b"/w/garbage".to_vec(),
            remote_hash: Some(b"not a number".to_vec()),
            local_hash: Some(0),
        },
        RemoteFileState { path: b"/w/unread".to_vec(), remote_hash: None, local_hash: Some(1) },
        RemoteFileState {
            path: b"/w/other".to_vec(),
            remote_hash: Some(b"12".to_vec()),
            local_hash: Some(13),
        },
    ];
    assert_eq!(
        c.synchronize_local_files_with_remote(&files),
        vec![b"/w/garbage".to_vec(), b"/w/unread".to_vec(), b"/w/other".to_vec()]
    );
    assert!(!c.reconcile_needed(&Some(b"12".to_vec()), Some(12)));
    assert!(c.reconcile_needed(&Some(b"0".to_vec()), None));
}

#[test]
fn hash_match_is_a_no_op() {
    let a = subscriber(7);
    let h = LocalFSStore::hash_content(b"abc");
    let message = RedisPublishPayload::ModifiedFile(11, h, String::from("/w/x")).encode();
    let action = a.handle_message("file_event", &message);
    assert_eq!(action, RemoteAction::CompareHash(String::from("/w/x"), h));
    assert!(!RemoteFilesEventHandler::remote_content_needed(Some(h), h));
    assert!(RemoteFilesEventHandler::remote_content_needed(Some(h.wrapping_add(1)), h));
}

#[test]
fn bad_path_publishes_nothing() {
    let w = watcher(1);
    let path: Vec<u8> = vec![b'/', b'w', b'/', 0xff, 0xfe];
    assert_eq!(w.publish_file(&path, true, b"x"), Err(StoreError::InvalidPath));
    assert_eq!(w.publish_file(&path, false, b"x"), Err(StoreError::InvalidPath));
    assert_eq!(
        w.handle_event(LocalEvent::Remove(path.clone())),
        WatchAction::Publish(Err(StoreError::InvalidPath))
    );
    assert_eq!(
        w.handle_event(LocalEvent::Rename(b"/w/ok".to_vec(), path.clone())),
        WatchAction::Publish(Err(StoreError::InvalidPath))
    );
}

#[test]
fn directory_events_are_ignored() {
    let w = watcher(1);
    assert_eq!(w.handle_event(LocalEvent::Create(b"/w/d".to_vec(), true)), WatchAction::Ignore);
    assert_eq!(w.handle_event(LocalEvent::Write(b"/w/d".to_vec(), true)), WatchAction::Ignore);
}

#[test]
fn notices_and_rescan() {
    let w = watcher(1);
    assert_eq!(w.handle_event(LocalEvent::NoticeWrite(b"/w/a".to_vec())), WatchAction::Ignore);
    assert_eq!(w.handle_event(LocalEvent::NoticeRemove(b"/w/a".to_vec())), WatchAction::Ignore);
    assert_eq!(w.handle_event(LocalEvent::Chmod(b"/w/a".to_vec())), WatchAction::Ignore);
    assert_eq!(w.handle_event(LocalEvent::Rescan), WatchAction::Rescan);
    assert_eq!(
        w.handle_event(LocalEvent::Error(String::from("boom"), None)),
        WatchAction::ReportError(String::from("boom"), None)
    );
    assert_eq!(
        w.handle_event(LocalEvent::Write(b"/w/a".to_vec(), false)),
        WatchAction::ReadFile(b"/w/a".to_vec(), false)
    );
}

#[test]
fn removal_transaction() {
    let w = watcher(9);
    let cmds = match w.handle_event(LocalEvent::Remove(b"/w/a".to_vec())) {
        WatchAction::Publish(Ok(cmds)) => cmds,
        other => panic!("unexpected {:?}", other),
    };
    let event = RedisPublishPayload::RemovedFile(9, String::from("/w/a")).encode();
    assert_eq!(
        cmds,
        vec![
            RedisCommand::Del(b"hash:/w/a".to_vec()),
            RedisCommand::Del(b"content:/w/a".to_vec()),
            RedisCommand::Srem(b"all_files".to_vec(), b"/w/a".to_vec()),
            RedisCommand::Publish(b"file_event".to_vec(), event),
        ]
    );
}

#[test]
fn modified_transaction_keeps_membership() {
    let w = watcher(9);
    let cmds = w.publish_file(b"/w/a", false, b"data").unwrap();
    assert_eq!(cmds.len(), 3);
    assert!(!cmds.iter().any(|c| matches!(c, RedisCommand::Sadd(_, _))));
    let h = LocalFSStore::hash_content(b"data");
    let event = RedisPublishPayload::ModifiedFile(9, h, String::from("/w/a")).encode();
    assert_eq!(cmds[2], RedisCommand::Publish(b"file_event".to_vec(), event));
}

#[test]
fn own_events_are_skipped() {
    let n = subscriber(42);
    for payload in [
        RedisPublishPayload::NewFile(42, 1, String::from("/a")),
        RedisPublishPayload::RemovedFile(42, String::from("/a")),
        RedisPublishPayload::RenamedFile(42, String::from("/a"), String::from("/b")),
    ] {
        let action = n.handle_message("file_event", &payload.encode());
        assert_eq!(action, RemoteAction::Skip(SkipReason::OwnEvent));
    }
}

#[test]
fn undecodable_and_foreign_channel_messages_are_skipped() {
    let n = subscriber(42);
    assert_eq!(
        n.handle_message("file_event", &[9, 9, 9]),
        RemoteAction::Skip(SkipReason::Undecodable)
    );
    let message = RedisPublishPayload::RemovedFile(1, String::from("/a")).encode();
    assert_eq!(
        n.handle_message("files:removed", &message),
        RemoteAction::Skip(SkipReason::UnexpectedChannel)
    );
    assert_eq!(
        n.handle_message("file_event", &message),
        RemoteAction::RemoveLocal(String::from("/a"))
    );
}

#[test]
fn event_kinds_and_channel_check() {
    let payload = RedisPublishPayload::NewFile(1, 2, String::from("/p"));
    let event = FileEvents::from_str_and_payload("file_event", payload.clone()).unwrap();
    assert_eq!(event, FileEvents::New(String::from("/p"), 2));
    assert_eq!(event.kind_as_str(), "files:new");
    assert_eq!(FileEvents::Modified(String::new(), 0).kind_as_str(), "files:modified");
    assert_eq!(FileEvents::Removed(String::new()).kind_as_str(), "files:removed");
    assert_eq!(
        FileEvents::Renamed(String::new(), String::new()).kind_as_str(),
        "files:renamed"
    );
    assert_eq!(FileEvents::from_str_and_payload("other", payload), Err(InvalidEventKind));
}

#[test]
fn dedup_switch_changes_subscriber_id() {
    assert_eq!(subscriber_node_id(5, false), 5);
    assert_eq!(subscriber_node_id(5, true), 6);
    assert_eq!(subscriber_node_id(u64::MAX, true), 0);
}

#[test]
fn stored_values_read_back() {
    let store = RedisStore::new();
    assert_eq!(store.get_remote_file_hash(b"123"), Ok(123));
    assert_eq!(store.get_remote_file_hash(b""), Err(StoreError::InvalidHash));
    assert_eq!(store.get_remote_file_content(b"garbage"), Err(StoreError::CorruptContent));
    let (compressed, h) = LocalFSStore::local_file_content_compressed(b"");
    assert_eq!(decompress(&compressed), Vec::<u8>::new());
    assert_eq!(h, LocalFSStore::hash_content(b""));
    assert_ne!(LocalFSStore::hash_content(b"a"), LocalFSStore::hash_content(b"b"));
    assert_eq!(store.to_hash_key(b"a:b"), b"hash:a:b".to_vec());
    assert_eq!(store.to_content_key(b"a:b"), b"content:a:b".to_vec());
}
