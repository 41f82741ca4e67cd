//! File contents as the synchronizer stores and compares them: compressed
//! with the Snappy frame format, and identified by a 64-bit hash of the
//! uncompressed bytes that every node computes alike.
use vstd::prelude::*;

verus! {

/// The 64-bit digest that std's `DefaultHasher`, made by `default`, gives
/// for a byte string fed to it in one `write`.
pub uninterp spec fn content_hash_of(data: Seq<u8>) -> u64;

/// The Snappy frame-format stream that `snap`'s frame encoder writes for
/// a byte string.
pub uninterp spec fn snappy_frame_of(data: Seq<u8>) -> Seq<u8>;

/// What `snap`'s frame decoder reads out of a byte string: the
/// decompressed bytes, or `None` where the stream is not valid.
pub uninterp spec fn snappy_decoded(data: Seq<u8>) -> Option<Seq<u8>>;

/// Relies on std's `DefaultHasher`: made by `default` it always starts
/// from the same fixed keys, so its digest depends on the bytes alone.
#[verifier::external_body]
fn default_hasher_digest(data: &[u8]) -> (r: u64)
    ensures
        r == content_hash_of(data@),
{
    let mut hasher = std::collections::hash_map::DefaultHasher::default();
    std::hash::Hasher::write(&mut hasher, data);
    std::hash::Hasher::finish(&hasher)
}

/// Relies on `snap::write::FrameEncoder` writing into a `Vec` (which never
/// fails): the Snappy frame stream of the bytes, which the frame decoder
/// reads back to the same bytes.
#[verifier::external_body]
fn snappy_compress(data: &[u8]) -> (r: Vec<u8>)
    ensures
        r@ == snappy_frame_of(data@),
        snappy_decoded(r@) == Some(data@),
{
    let mut encoder = snap::write::FrameEncoder::new(Vec::new());
    let _ = std::io::Write::write_all(&mut encoder, data);
    match encoder.into_inner() {
        Ok(v) => v,
        Err(e) => e.into_inner().get_ref().clone(),
    }
}

/// Relies on `snap::read::FrameDecoder` read to its end: the decompressed
/// bytes of a Snappy frame stream, or `None` on a malformed stream.
#[verifier::external_body]
pub(crate) fn snappy_decompress(data: &[u8]) -> (r: Option<Vec<u8>>)
    ensures
        match r {
            Some(v) => snappy_decoded(data@) == Some(v@),
            None => snappy_decoded(data@) is None,
        },
{
    let mut out = Vec::new();
    match std::io::Read::read_to_end(&mut snap::read::FrameDecoder::new(data), &mut out) {
        Ok(_) => Some(out),
        Err(_) => None,
    }
}

/// Content operations of the local filesystem side that involve no I/O.
pub struct LocalFSStore;

impl LocalFSStore {
    /// The content hash of a file's bytes.
    pub fn hash_content(content: &[u8]) -> (r: u64)
        ensures
            r == content_hash_of(content@),
    {
        default_hasher_digest(content)
    }

    /// The compressed form and the content hash of a file's bytes, as they
    /// are stored under the file's content and hash keys.
    pub fn local_file_content_compressed(contents: &[u8]) -> (r: (Vec<u8>, u64))
        ensures
            r.0@ == snappy_frame_of(contents@),
            snappy_decoded(r.0@) == Some(contents@),
            r.1 == content_hash_of(contents@),
    {
        let compressed = snappy_compress(contents);
        let hash = LocalFSStore::hash_content(contents);
        (compressed, hash)
    }
}

} // verus!
