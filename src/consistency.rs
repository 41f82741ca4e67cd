//! What the publishing transactions do to the broker's records.
use vstd::prelude::*;
use crate::decimal::decimal_digits;
use crate::local_fs_store::{content_hash_of, snappy_decoded};
use crate::redis_store::{
    all_files, all_files_name, apply_command, apply_transaction, content_key, hash_key,
    hashes_consistent, modified_file_commands, new_file_commands, record_absent, record_complete,
    records_atomic, removed_file_commands, renamed_file_commands, BrokerView, CommandView,
};

verus! {

proof fn lemma_keys_distinct(p: Seq<u8>, q: Seq<u8>)
    ensures
        hash_key(p) != content_key(q),
        (hash_key(p) == hash_key(q)) == (p == q),
        (content_key(p) == content_key(q)) == (p == q),
{
    assert(hash_key(p)[0] != content_key(q)[0]);
    if hash_key(p) == hash_key(q) {
        assert(p =~= hash_key(p).subrange(5, hash_key(p).len() as int));
        assert(q =~= hash_key(q).subrange(5, hash_key(q).len() as int));
    }
    if content_key(p) == content_key(q) {
        assert(p =~= content_key(p).subrange(8, content_key(p).len() as int));
        assert(q =~= content_key(q).subrange(8, content_key(q).len() as int));
    }
}

proof fn lemma_apply_step(s: BrokerView, cmds: Seq<CommandView>)
    requires
        cmds.len() > 0,
    ensures
        apply_transaction(s, cmds) == match apply_command(s, cmds[0]) {
            Some(t) => apply_transaction(t, cmds.drop_first()),
            None => None,
        },
{
    assert(cmds.drop_first() =~= cmds.subrange(1, cmds.len() as int));
}

proof fn lemma_apply_empty(s: BrokerView)
    ensures
        apply_transaction(s, Seq::<CommandView>::empty()) == Some(s),
{
}

/// The (channel, message) pair of a `PUBLISH` command.
pub open spec fn published_message(c: CommandView) -> (Seq<u8>, Seq<u8>) {
    (c->Publish_0, c->Publish_1)
}

/// The broker after a new file is published.
spec fn after_new_file(s: BrokerView, emitter: u64, path: Seq<u8>, content: Seq<u8>, hash: u64) -> BrokerView {
    BrokerView {
        strings: s.strings.insert(hash_key(path), decimal_digits(hash as nat)).insert(
            content_key(path),
            content,
        ),
        sets: s.sets.insert(all_files_name(), all_files(s).insert(path)),
        published: s.published.push(published_message(new_file_commands(emitter, path, content, hash).last())),
    }
}

proof fn lemma_apply_new_file(s: BrokerView, emitter: u64, path: Seq<u8>, content: Seq<u8>, hash: u64)
    ensures
        apply_transaction(s, new_file_commands(emitter, path, content, hash)) == Some(
            after_new_file(s, emitter, path, content, hash),
        ),
{
    let c = new_file_commands(emitter, path, content, hash);
    let t1 = apply_command(s, c[0])->0;
    let t2 = apply_command(t1, c[1])->0;
    let t3 = apply_command(t2, c[2])->0;
    let t4 = apply_command(t3, c[3])->0;
    lemma_apply_step(s, c);
    lemma_apply_step(t1, c.drop_first());
    lemma_apply_step(t2, c.drop_first().drop_first());
    lemma_apply_step(t3, c.drop_first().drop_first().drop_first());
    assert(c.drop_first().drop_first().drop_first().drop_first() =~= Seq::<CommandView>::empty());
    lemma_apply_empty(t4);
    assert(t4 == after_new_file(s, emitter, path, content, hash));
}

/// Publishing a new file always succeeds and leaves all three entries of
/// its path in place, holding the given content and the decimal text of
/// the given hash.
pub proof fn lemma_new_file_complete(
    s: BrokerView,
    emitter: u64,
    path: Seq<u8>,
    content: Seq<u8>,
    hash: u64,
)
    ensures
        apply_transaction(s, new_file_commands(emitter, path, content, hash)) matches Some(t) && {
            &&& record_complete(t, path)
            &&& t.strings[content_key(path)] == content
            &&& t.strings[hash_key(path)] == decimal_digits(hash as nat)
        },
{
    lemma_apply_new_file(s, emitter, path, content, hash);
    lemma_keys_distinct(path, path);
}

/// Publishing a new file whose stored content decompresses to bytes of
/// the given hash keeps every record whole and every hash consistent.
pub proof fn lemma_new_file_keeps_store_consistent(
    s: BrokerView,
    emitter: u64,
    path: Seq<u8>,
    content: Seq<u8>,
    hash: u64,
)
    requires
        records_atomic(s),
        hashes_consistent(s),
        snappy_decoded(content) is Some,
        hash == content_hash_of(snappy_decoded(content)->0),
    ensures
        apply_transaction(s, new_file_commands(emitter, path, content, hash)) matches Some(t) && records_atomic(t) && hashes_consistent(t),
{
    lemma_apply_new_file(s, emitter, path, content, hash);
    let t = after_new_file(s, emitter, path, content, hash);
    assert(all_files(t) == all_files(s).insert(path));
    assert forall|p: Seq<u8>| record_complete(t, p) || record_absent(t, p) by {
        lemma_keys_distinct(p, path);
        lemma_keys_distinct(path, p);
        assert(record_complete(s, p) || record_absent(s, p));
    }
    assert forall|p: Seq<u8>| #[trigger] all_files(t).contains(p) implies {
        &&& t.strings.contains_key(content_key(p))
        &&& t.strings.contains_key(hash_key(p))
        &&& snappy_decoded(t.strings[content_key(p)]) is Some
        &&& t.strings[hash_key(p)] == decimal_digits(
            content_hash_of(snappy_decoded(t.strings[content_key(p)])->0) as nat,
        )
    } by {
        lemma_keys_distinct(p, path);
        lemma_keys_distinct(path, p);
        if p != path {
            assert(all_files(s).contains(p));
        }
    }
}

spec fn after_modified_file(
    s: BrokerView,
    emitter: u64,
    path: Seq<u8>,
    content: Seq<u8>,
    hash: u64,
) -> BrokerView {
    BrokerView {
        strings: s.strings.insert(hash_key(path), decimal_digits(hash as nat)).insert(
            content_key(path),
            content,
        ),
        sets: s.sets,
        published: s.published.push(
            published_message(modified_file_commands(emitter, path, content, hash).last()),
        ),
    }
}

proof fn lemma_apply_modified_file(
    s: BrokerView,
    emitter: u64,
    path: Seq<u8>,
    content: Seq<u8>,
    hash: u64,
)
    ensures
        apply_transaction(s, modified_file_commands(emitter, path, content, hash)) == Some(
            after_modified_file(s, emitter, path, content, hash),
        ),
{
    let c = modified_file_commands(emitter, path, content, hash);
    let t1 = apply_command(s, c[0])->0;
    let t2 = apply_command(t1, c[1])->0;
    let t3 = apply_command(t2, c[2])->0;
    lemma_apply_step(s, c);
    lemma_apply_step(t1, c.drop_first());
    lemma_apply_step(t2, c.drop_first().drop_first());
    assert(c.drop_first().drop_first().drop_first() =~= Seq::<CommandView>::empty());
    lemma_apply_empty(t3);
    assert(t3 == after_modified_file(s, emitter, path, content, hash));
}

/// Publishing a new content of a listed file always succeeds and leaves
/// all three entries of its path in place, holding the given content and
/// the decimal text of the given hash.
pub proof fn lemma_modified_file_complete(
    s: BrokerView,
    emitter: u64,
    path: Seq<u8>,
    content: Seq<u8>,
    hash: u64,
)
    requires
        records_atomic(s),
        all_files(s).contains(path),
    ensures
        apply_transaction(s, modified_file_commands(emitter, path, content, hash)) matches Some(t)
            && {
            &&& record_complete(t, path)
            &&& t.strings[content_key(path)] == content
            &&& t.strings[hash_key(path)] == decimal_digits(hash as nat)
        },
{
    lemma_apply_modified_file(s, emitter, path, content, hash);
    lemma_keys_distinct(path, path);
    assert(record_complete(s, path) || record_absent(s, path));
}

/// Publishing a new content of a listed file, whose stored content
/// decompresses to bytes of the given hash, keeps every record whole and
/// every hash consistent.
pub proof fn lemma_modified_file_keeps_store_consistent(
    s: BrokerView,
    emitter: u64,
    path: Seq<u8>,
    content: Seq<u8>,
    hash: u64,
)
    requires
        records_atomic(s),
        hashes_consistent(s),
        all_files(s).contains(path),
        snappy_decoded(content) is Some,
        hash == content_hash_of(snappy_decoded(content)->0),
    ensures
        apply_transaction(s, modified_file_commands(emitter, path, content, hash)) matches Some(t)
            && records_atomic(t) && hashes_consistent(t),
{
    lemma_apply_modified_file(s, emitter, path, content, hash);
    let t = after_modified_file(s, emitter, path, content, hash);
    assert(all_files(t) == all_files(s));
    assert(record_complete(s, path) || record_absent(s, path));
    assert forall|p: Seq<u8>| record_complete(t, p) || record_absent(t, p) by {
        lemma_keys_distinct(p, path);
        lemma_keys_distinct(path, p);
        assert(record_complete(s, p) || record_absent(s, p));
    }
    assert forall|p: Seq<u8>| #[trigger] all_files(t).contains(p) implies {
        &&& t.strings.contains_key(content_key(p))
        &&& t.strings.contains_key(hash_key(p))
        &&& snappy_decoded(t.strings[content_key(p)]) is Some
        &&& t.strings[hash_key(p)] == decimal_digits(
            content_hash_of(snappy_decoded(t.strings[content_key(p)])->0) as nat,
        )
    } by {
        lemma_keys_distinct(p, path);
        lemma_keys_distinct(path, p);
        assert(all_files(s).contains(p));
    }
}

spec fn after_removed_file(s: BrokerView, emitter: u64, path: Seq<u8>) -> BrokerView {
    BrokerView {
        strings: s.strings.remove(hash_key(path)).remove(content_key(path)),
        sets: s.sets.insert(all_files_name(), all_files(s).remove(path)),
        published: s.published.push(
            published_message(removed_file_commands(emitter, path).last()),
        ),
    }
}

proof fn lemma_apply_removed_file(s: BrokerView, emitter: u64, path: Seq<u8>)
    ensures
        apply_transaction(s, removed_file_commands(emitter, path)) == Some(
            after_removed_file(s, emitter, path),
        ),
{
    let c = removed_file_commands(emitter, path);
    let t1 = apply_command(s, c[0])->0;
    let t2 = apply_command(t1, c[1])->0;
    let t3 = apply_command(t2, c[2])->0;
    let t4 = apply_command(t3, c[3])->0;
    lemma_apply_step(s, c);
    lemma_apply_step(t1, c.drop_first());
    lemma_apply_step(t2, c.drop_first().drop_first());
    lemma_apply_step(t3, c.drop_first().drop_first().drop_first());
    assert(c.drop_first().drop_first().drop_first().drop_first() =~= Seq::<CommandView>::empty());
    lemma_apply_empty(t4);
    assert(t4 == after_removed_file(s, emitter, path));
}

/// Publishing the removal of a file always succeeds, leaves none of the
/// three entries of its path, and keeps every other record whole and
/// every hash consistent.
pub proof fn lemma_removed_file_consistent(s: BrokerView, emitter: u64, path: Seq<u8>)
    ensures
        apply_transaction(s, removed_file_commands(emitter, path)) matches Some(t) && {
            &&& record_absent(t, path)
            &&& records_atomic(s) ==> records_atomic(t)
            &&& hashes_consistent(s) ==> hashes_consistent(t)
        },
{
    lemma_apply_removed_file(s, emitter, path);
    let t = after_removed_file(s, emitter, path);
    assert(all_files(t) == all_files(s).remove(path));
    lemma_keys_distinct(path, path);
    if records_atomic(s) {
        assert forall|p: Seq<u8>| record_complete(t, p) || record_absent(t, p) by {
            lemma_keys_distinct(p, path);
            lemma_keys_distinct(path, p);
            assert(record_complete(s, p) || record_absent(s, p));
        }
    }
    if hashes_consistent(s) {
        assert forall|p: Seq<u8>| #[trigger] all_files(t).contains(p) implies {
            &&& t.strings.contains_key(content_key(p))
            &&& t.strings.contains_key(hash_key(p))
            &&& snappy_decoded(t.strings[content_key(p)]) is Some
            &&& t.strings[hash_key(p)] == decimal_digits(
                content_hash_of(snappy_decoded(t.strings[content_key(p)])->0) as nat,
            )
        } by {
            lemma_keys_distinct(p, path);
            lemma_keys_distinct(path, p);
            assert(all_files(s).contains(p));
        }
    }
}

spec fn after_renamed_file(s: BrokerView, emitter: u64, old: Seq<u8>, new: Seq<u8>) -> BrokerView {
    let s1 = s.strings.remove(hash_key(old)).insert(hash_key(new), s.strings[hash_key(old)]);
    BrokerView {
        strings: s1.remove(content_key(old)).insert(content_key(new), s1[content_key(old)]),
        sets: s.sets.insert(all_files_name(), all_files(s).remove(old).insert(new)),
        published: s.published.push(
            published_message(renamed_file_commands(emitter, old, new).last()),
        ),
    }
}

proof fn lemma_apply_renamed_file(s: BrokerView, emitter: u64, old: Seq<u8>, new: Seq<u8>)
    requires
        record_complete(s, old),
    ensures
        apply_transaction(s, renamed_file_commands(emitter, old, new)) == Some(
            after_renamed_file(s, emitter, old, new),
        ),
{
    let c = renamed_file_commands(emitter, old, new);
    lemma_keys_distinct(old, new);
    lemma_keys_distinct(new, old);
    lemma_keys_distinct(old, old);
    assert(c[0] == CommandView::Rename(hash_key(old), hash_key(new)));
    let t1 = apply_command(s, c[0])->0;
    let t2 = apply_command(t1, c[1])->0;
    let t3 = apply_command(t2, c[2])->0;
    let t4 = apply_command(t3, c[3])->0;
    let t5 = apply_command(t4, c[4])->0;
    lemma_apply_step(s, c);
    lemma_apply_step(t1, c.drop_first());
    lemma_apply_step(t2, c.drop_first().drop_first());
    lemma_apply_step(t3, c.drop_first().drop_first().drop_first());
    lemma_apply_step(t4, c.drop_first().drop_first().drop_first().drop_first());
    assert(c.drop_first().drop_first().drop_first().drop_first().drop_first()
        =~= Seq::<CommandView>::empty());
    lemma_apply_empty(t5);
    assert(t1.strings.contains_key(content_key(old)));
    assert(all_files(t3) =~= all_files(s).remove(old));
    let a = after_renamed_file(s, emitter, old, new);
    assert(t5.strings =~= a.strings);
    assert(t5.sets =~= a.sets);
    assert(t5 == a);
}

/// Publishing a move of a file whose record is whole succeeds: the new
/// path then has all three entries, holding what the old path held, and
/// the old path (when it differs) has none. On a broker where every record
/// is whole, the move of a path without a record fails as a whole and
/// changes nothing.
pub proof fn lemma_renamed_file_moves_record(
    s: BrokerView,
    emitter: u64,
    old: Seq<u8>,
    new: Seq<u8>,
)
    requires
        records_atomic(s),
    ensures
        record_complete(s, old) ==> (apply_transaction(s, renamed_file_commands(emitter, old, new)) matches Some(t) && {
            &&& record_complete(t, new)
            &&& t.strings[content_key(new)] == s.strings[content_key(old)]
            &&& t.strings[hash_key(new)] == s.strings[hash_key(old)]
            &&& old != new ==> record_absent(t, old)
        }),
        !record_complete(s, old) ==> apply_transaction(s, renamed_file_commands(emitter, old, new))
            is None,
{
    lemma_keys_distinct(old, new);
    lemma_keys_distinct(new, old);
    lemma_keys_distinct(old, old);
    lemma_keys_distinct(new, new);
    let c = renamed_file_commands(emitter, old, new);
    if record_complete(s, old) {
        lemma_apply_renamed_file(s, emitter, old, new);
        let t = after_renamed_file(s, emitter, old, new);
        assert(all_files(t) == all_files(s).remove(old).insert(new));
    } else {
        assert(record_absent(s, old));
        lemma_apply_step(s, c);
    }
}

/// Publishing a move keeps every record whole and every hash consistent,
/// whether it succeeds or fails.
pub proof fn lemma_renamed_file_keeps_store_consistent(
    s: BrokerView,
    emitter: u64,
    old: Seq<u8>,
    new: Seq<u8>,
)
    requires
        records_atomic(s),
        hashes_consistent(s),
    ensures
        apply_transaction(s, renamed_file_commands(emitter, old, new)) matches Some(t) ==> records_atomic(t)
            && hashes_consistent(t),
{
    lemma_renamed_file_moves_record(s, emitter, old, new);
    if record_complete(s, old) {
        lemma_apply_renamed_file(s, emitter, old, new);
        let t = after_renamed_file(s, emitter, old, new);
        assert(all_files(t) == all_files(s).remove(old).insert(new));
        assert forall|p: Seq<u8>| record_complete(t, p) || record_absent(t, p) by {
            lemma_keys_distinct(p, old);
            lemma_keys_distinct(old, p);
            lemma_keys_distinct(p, new);
            lemma_keys_distinct(new, p);
            assert(record_complete(s, p) || record_absent(s, p));
        }
        assert forall|p: Seq<u8>| #[trigger] all_files(t).contains(p) implies {
            &&& t.strings.contains_key(content_key(p))
            &&& t.strings.contains_key(hash_key(p))
            &&& snappy_decoded(t.strings[content_key(p)]) is Some
            &&& t.strings[hash_key(p)] == decimal_digits(
                content_hash_of(snappy_decoded(t.strings[content_key(p)])->0) as nat,
            )
        } by {
            lemma_keys_distinct(p, old);
            lemma_keys_distinct(old, p);
            lemma_keys_distinct(p, new);
            lemma_keys_distinct(new, p);
            assert(all_files(s).contains(old));
            if p != new {
                assert(all_files(s).contains(p));
            }
        }
    }
}

} // verus!
