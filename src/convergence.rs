//! Start-up reconciliation brings every node to the broker's files.
use vstd::prelude::*;
use crate::decimal::lemma_decimal_round_trip;
use crate::local_fs_store::{content_hash_of, snappy_decoded};
use crate::redis_store::{all_files, content_key, hash_key, hashes_consistent, BrokerView};
use crate::remote_files_event_handler::{download_needed, RemoteFileStateView};

verus! {

/// What reconciliation knows of path `p` on a node whose local tree maps
/// paths to file bytes.
pub open spec fn file_state_of(s: BrokerView, tree: Map<Seq<u8>, Seq<u8>>, p: Seq<u8>) -> RemoteFileStateView {
    RemoteFileStateView {
        path: p,
        remote_hash: if s.strings.contains_key(hash_key(p)) {
            Some(s.strings[hash_key(p)])
        } else {
            None
        },
        local_hash: if tree.contains_key(p) {
            Some(content_hash_of(tree[p]))
        } else {
            None
        },
    }
}

/// The local tree after reconciliation: each listed path that must be
/// downloaded now holds the decompressed stored content.
pub open spec fn reconciled_tree(s: BrokerView, tree: Map<Seq<u8>, Seq<u8>>) -> Map<Seq<u8>, Seq<u8>> {
    Map::new(
        |p: Seq<u8>| tree.contains_key(p) || all_files(s).contains(p),
        |p: Seq<u8>|
            if all_files(s).contains(p) && download_needed(
                file_state_of(s, tree, p).remote_hash,
                file_state_of(s, tree, p).local_hash,
            ) {
                snappy_decoded(s.strings[content_key(p)])->0
            } else {
                tree[p]
            },
    )
}

/// The (path, content hash) pairs of a tree.
pub open spec fn hash_pairs(tree: Map<Seq<u8>, Seq<u8>>) -> Map<Seq<u8>, u64> {
    Map::new(|p: Seq<u8>| tree.contains_key(p), |p: Seq<u8>| content_hash_of(tree[p]))
}

proof fn lemma_reconciled_hash(s: BrokerView, tree: Map<Seq<u8>, Seq<u8>>, p: Seq<u8>)
    requires
        hashes_consistent(s),
        all_files(s).contains(p),
    ensures
        reconciled_tree(s, tree).contains_key(p),
        content_hash_of(reconciled_tree(s, tree)[p]) == content_hash_of(
            snappy_decoded(s.strings[content_key(p)])->0,
        ),
{
    let h = content_hash_of(snappy_decoded(s.strings[content_key(p)])->0);
    lemma_decimal_round_trip(h);
}

/// Once the events have drained, two nodes whose files are all listed on
/// the broker, and whose stored hashes are consistent, hold the same
/// (path, content hash) pairs after each has run reconciliation.
pub proof fn lemma_convergence(
    s: BrokerView,
    tree1: Map<Seq<u8>, Seq<u8>>,
    tree2: Map<Seq<u8>, Seq<u8>>,
)
    requires
        hashes_consistent(s),
        tree1.dom().subset_of(all_files(s)),
        tree2.dom().subset_of(all_files(s)),
    ensures
        hash_pairs(reconciled_tree(s, tree1)) == hash_pairs(reconciled_tree(s, tree2)),
        hash_pairs(reconciled_tree(s, tree1)).dom() == all_files(s),
{
    let r1 = reconciled_tree(s, tree1);
    let r2 = reconciled_tree(s, tree2);
    assert forall|p: Seq<u8>| #[trigger] hash_pairs(r1).contains_key(p) == all_files(s).contains(p) && hash_pairs(r2).contains_key(p) == all_files(s).contains(p) by {
        if tree1.contains_key(p) {
            assert(all_files(s).contains(p));
        }
        if tree2.contains_key(p) {
            assert(all_files(s).contains(p));
        }
    }
    assert forall|p: Seq<u8>| #[trigger] all_files(s).contains(p) implies hash_pairs(r1)[p] == hash_pairs(r2)[p] by {
        lemma_reconciled_hash(s, tree1, p);
        lemma_reconciled_hash(s, tree2, p);
    }
    assert(hash_pairs(r1) =~= hash_pairs(r2));
    assert(hash_pairs(r1).dom() =~= all_files(s));
}

} // verus!
