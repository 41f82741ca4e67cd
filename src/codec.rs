//! Binary wire format of the event payloads published on the broker.
//!
//! Layout, integers big-endian on 8 bytes, text as an 8-byte byte length
//! followed by its UTF-8 bytes:
//! - `NewFile`:      `0`, emitter, hash, path
//! - `ModifiedFile`: `1`, emitter, hash, path
//! - `RemovedFile`:  `2`, emitter, path
//! - `RenamedFile`:  `3`, emitter, old path, new path
//!
//! A message decodes only when it is exactly the encoding of some payload.
use vstd::prelude::*;
use vstd::utf8::*;
use vstd::string::*;

verus! {

broadcast use {encode_utf8_decode_utf8, decode_utf8_encode_utf8, encode_utf8_valid_utf8};

/// An event about one watched file, tagged with the id of the node that emitted it.
#[derive(Debug, Clone, PartialEq, Eq)]
pub enum RedisPublishPayload {
    /// Emitter id, content hash, path.
    NewFile(u64, u64, String),
    /// Emitter id, content hash, path.
    ModifiedFile(u64, u64, String),
    /// Emitter id, path.
    RemovedFile(u64, String),
    /// Emitter id, old path, new path.
    RenamedFile(u64, String, String),
}

/// Mathematical value of a payload.
pub enum PayloadView {
    NewFile(u64, u64, Seq<char>),
    ModifiedFile(u64, u64, Seq<char>),
    RemovedFile(u64, Seq<char>),
    RenamedFile(u64, Seq<char>, Seq<char>),
}

impl View for RedisPublishPayload {
    type V = PayloadView;

    open spec fn view(&self) -> PayloadView {
        match self {
            RedisPublishPayload::NewFile(e, h, p) => PayloadView::NewFile(*e, *h, p@),
            RedisPublishPayload::ModifiedFile(e, h, p) => PayloadView::ModifiedFile(*e, *h, p@),
            RedisPublishPayload::RemovedFile(e, p) => PayloadView::RemovedFile(*e, p@),
            RedisPublishPayload::RenamedFile(e, o, n) => PayloadView::RenamedFile(*e, o@, n@),
        }
    }
}

impl PayloadView {
    pub open spec fn emitter(self) -> u64 {
        match self {
            PayloadView::NewFile(e, _, _) => e,
            PayloadView::ModifiedFile(e, _, _) => e,
            PayloadView::RemovedFile(e, _) => e,
            PayloadView::RenamedFile(e, _, _) => e,
        }
    }
}

/// The error of a message that is not the encoding of any payload: an
/// unknown variant tag, a truncated or overlong input, or path bytes that
/// are not UTF-8.
#[derive(Debug, Clone, Copy, PartialEq, Eq, Structural)]
pub struct DecodeError;

/// `n` as 8 bytes, most significant first.
pub open spec fn be_bytes(n: u64) -> Seq<u8> {
    seq![
        (n >> 56u64) as u8,
        (n >> 48u64) as u8,
        (n >> 40u64) as u8,
        (n >> 32u64) as u8,
        (n >> 24u64) as u8,
        (n >> 16u64) as u8,
        (n >> 8u64) as u8,
        n as u8,
    ]
}

/// The number that 8 bytes, most significant first, stand for.
pub open spec fn be_value(s: Seq<u8>) -> u64 {
    (s[0] as u64) << 56u64 | (s[1] as u64) << 48u64 | (s[2] as u64) << 40u64 | (s[3] as u64)
        << 32u64 | (s[4] as u64) << 24u64 | (s[5] as u64) << 16u64 | (s[6] as u64) << 8u64 | (
    s[7] as u64)
}

/// A text field: its UTF-8 byte length, then those bytes.
pub open spec fn text_field(t: Seq<char>) -> Seq<u8> {
    be_bytes(encode_utf8(t).len() as u64) + encode_utf8(t)
}

/// The bytes that encode a payload.
pub open spec fn encode_view(v: PayloadView) -> Seq<u8> {
    match v {
        PayloadView::NewFile(e, h, p) => seq![0u8] + be_bytes(e) + be_bytes(h) + text_field(p),
        PayloadView::ModifiedFile(e, h, p) => seq![1u8] + be_bytes(e) + be_bytes(h) + text_field(
            p,
        ),
        PayloadView::RemovedFile(e, p) => seq![2u8] + be_bytes(e) + text_field(p),
        PayloadView::RenamedFile(e, o, n) => seq![3u8] + be_bytes(e) + text_field(o) + text_field(
            n,
        ),
    }
}

/// Every text of the payload has a byte length that fits in 64 bits, as
/// every text held in memory does.
pub open spec fn payload_fits(v: PayloadView) -> bool {
    match v {
        PayloadView::NewFile(_, _, p) => encode_utf8(p).len() <= u64::MAX,
        PayloadView::ModifiedFile(_, _, p) => encode_utf8(p).len() <= u64::MAX,
        PayloadView::RemovedFile(_, p) => encode_utf8(p).len() <= u64::MAX,
        PayloadView::RenamedFile(_, o, n) => encode_utf8(o).len() <= u64::MAX && encode_utf8(
            n,
        ).len() <= u64::MAX,
    }
}

/// The payload whose encoding is exactly `b`, if there is one.
pub open spec fn decode_view(b: Seq<u8>) -> Option<PayloadView> {
    if exists|v: PayloadView| payload_fits(v) && encode_view(v) == b {
        Some(choose|v: PayloadView| payload_fits(v) && encode_view(v) == b)
    } else {
        None
    }
}

spec fn parse_u64(b: Seq<u8>, pos: int) -> Option<u64> {
    if 0 <= pos && pos + 8 <= b.len() {
        Some(be_value(b.subrange(pos, pos + 8)))
    } else {
        None
    }
}

spec fn parse_text(b: Seq<u8>, pos: int) -> Option<(Seq<char>, int)> {
    if 0 <= pos && pos + 8 <= b.len() {
        let n = be_value(b.subrange(pos, pos + 8));
        let end = pos + 8 + n;
        if end <= b.len() && valid_utf8(b.subrange(pos + 8, end)) {
            Some((decode_utf8(b.subrange(pos + 8, end)), end))
        } else {
            None
        }
    } else {
        None
    }
}

/// The format read field by field: the proof device behind `decode_view`.
spec fn parse_view(b: Seq<u8>) -> Option<PayloadView> {
    if b.len() == 0 {
        None
    } else if b[0] == 0 || b[0] == 1 {
        match (parse_u64(b, 1), parse_u64(b, 9), parse_text(b, 17)) {
            (Some(e), Some(h), Some((p, end))) => if end == b.len() {
                if b[0] == 0 {
                    Some(PayloadView::NewFile(e, h, p))
                } else {
                    Some(PayloadView::ModifiedFile(e, h, p))
                }
            } else {
                None
            },
            _ => None,
        }
    } else if b[0] == 2 {
        match (parse_u64(b, 1), parse_text(b, 9)) {
            (Some(e), Some((p, end))) => if end == b.len() {
                Some(PayloadView::RemovedFile(e, p))
            } else {
                None
            },
            _ => None,
        }
    } else if b[0] == 3 {
        match (parse_u64(b, 1), parse_text(b, 9)) {
            (Some(e), Some((o, mid))) => match parse_text(b, mid) {
                Some((n, end)) => if end == b.len() {
                    Some(PayloadView::RenamedFile(e, o, n))
                } else {
                    None
                },
                None => None,
            },
            _ => None,
        }
    } else {
        None
    }
}

proof fn lemma_be_value_of_bytes(n: u64)
    ensures
        be_value(be_bytes(n)) == n,
{
    let s = be_bytes(n);
    assert(be_value(s) == ((n >> 56u64) as u8 as u64) << 56u64 | ((n >> 48u64) as u8 as u64)
        << 48u64 | ((n >> 40u64) as u8 as u64) << 40u64 | ((n >> 32u64) as u8 as u64) << 32u64 | (
    (n >> 24u64) as u8 as u64) << 24u64 | ((n >> 16u64) as u8 as u64) << 16u64 | ((n >> 8u64) as u8
        as u64) << 8u64 | (n as u8 as u64));
    assert(((n >> 56u64) as u8 as u64) << 56u64 | ((n >> 48u64) as u8 as u64) << 48u64 | ((n
        >> 40u64) as u8 as u64) << 40u64 | ((n >> 32u64) as u8 as u64) << 32u64 | ((n >> 24u64) as u8
        as u64) << 24u64 | ((n >> 16u64) as u8 as u64) << 16u64 | ((n >> 8u64) as u8 as u64) << 8u64
        | (n as u8 as u64) == n) by (bit_vector);
}

proof fn lemma_bytes_of_be_value(s: Seq<u8>)
    requires
        s.len() == 8,
    ensures
        be_bytes(be_value(s)) == s,
{
    let (b0, b1, b2, b3, b4, b5, b6, b7) = (s[0], s[1], s[2], s[3], s[4], s[5], s[6], s[7]);
    let n = be_value(s);
    assert(n == (b0 as u64) << 56u64 | (b1 as u64) << 48u64 | (b2 as u64) << 40u64 | (b3 as u64)
        << 32u64 | (b4 as u64) << 24u64 | (b5 as u64) << 16u64 | (b6 as u64) << 8u64 | (b7 as u64));
    assert((n >> 56u64) as u8 == b0 && (n >> 48u64) as u8 == b1 && (n >> 40u64) as u8 == b2 && (n
        >> 32u64) as u8 == b3 && (n >> 24u64) as u8 == b4 && (n >> 16u64) as u8 == b5 && (n
        >> 8u64) as u8 == b6 && n as u8 == b7) by (bit_vector)
        requires
            n == (b0 as u64) << 56u64 | (b1 as u64) << 48u64 | (b2 as u64) << 40u64 | (b3 as u64)
                << 32u64 | (b4 as u64) << 24u64 | (b5 as u64) << 16u64 | (b6 as u64) << 8u64 | (
            b7 as u64),
    ;
    assert(be_bytes(n) =~= s);
}

proof fn lemma_parse_u64_at(b: Seq<u8>, pos: int, n: u64)
    requires
        0 <= pos,
        pos + 8 <= b.len(),
        b.subrange(pos, pos + 8) == be_bytes(n),
    ensures
        parse_u64(b, pos) == Some(n),
{
    lemma_be_value_of_bytes(n);
}

proof fn lemma_parse_text_at(b: Seq<u8>, pos: int, t: Seq<char>)
    requires
        0 <= pos,
        pos + text_field(t).len() <= b.len(),
        b.subrange(pos, pos + text_field(t).len()) == text_field(t),
        encode_utf8(t).len() <= u64::MAX,
    ensures
        parse_text(b, pos) == Some((t, pos + text_field(t).len())),
{
    let f = text_field(t);
    let l = encode_utf8(t).len() as int;
    assert(b.subrange(pos, pos + 8) =~= f.subrange(0, 8));
    assert(f.subrange(0, 8) =~= be_bytes(l as u64));
    lemma_be_value_of_bytes(l as u64);
    assert(b.subrange(pos + 8, pos + 8 + l) =~= f.subrange(8, 8 + l));
    assert(f.subrange(8, 8 + l) =~= encode_utf8(t));
}

proof fn lemma_parsed_text_is_field(b: Seq<u8>, pos: int)
    requires
        parse_text(b, pos) is Some,
    ensures
        ({
            let (t, end) = parse_text(b, pos)->0;
            &&& pos + text_field(t).len() == end
            &&& end <= b.len()
            &&& b.subrange(pos, end) == text_field(t)
            &&& encode_utf8(t).len() <= u64::MAX
        }),
{
    let (t, end) = parse_text(b, pos)->0;
    let head = b.subrange(pos, pos + 8);
    let bytes = b.subrange(pos + 8, end);
    lemma_bytes_of_be_value(head);
    assert(encode_utf8(t) == bytes);
    assert(b.subrange(pos, end) =~= head + bytes);
}

proof fn lemma_parsed_u64_is_field(b: Seq<u8>, pos: int)
    requires
        parse_u64(b, pos) is Some,
    ensures
        b.subrange(pos, pos + 8) == be_bytes(parse_u64(b, pos)->0),
{
    lemma_bytes_of_be_value(b.subrange(pos, pos + 8));
}

proof fn lemma_parse_encoding_two_numbers(b: Seq<u8>, tag: u8, e: u64, h: u64, p: Seq<char>)
    requires
        tag <= 1,
        b == seq![tag] + be_bytes(e) + be_bytes(h) + text_field(p),
        encode_utf8(p).len() <= u64::MAX,
    ensures
        parse_u64(b, 1) == Some(e),
        parse_u64(b, 9) == Some(h),
        parse_text(b, 17) == Some((p, b.len() as int)),
{
    assert(b.subrange(1, 9) =~= be_bytes(e));
    assert(b.subrange(9, 17) =~= be_bytes(h));
    assert(b.subrange(17, b.len() as int) =~= text_field(p));
    lemma_parse_u64_at(b, 1, e);
    lemma_parse_u64_at(b, 9, h);
    lemma_parse_text_at(b, 17, p);
}

proof fn lemma_parse_encoding_removed(b: Seq<u8>, e: u64, p: Seq<char>)
    requires
        b == seq![2u8] + be_bytes(e) + text_field(p),
        encode_utf8(p).len() <= u64::MAX,
    ensures
        parse_view(b) == Some(PayloadView::RemovedFile(e, p)),
{
    assert(b.subrange(1, 9) =~= be_bytes(e));
    assert(b.subrange(9, b.len() as int) =~= text_field(p));
    lemma_parse_u64_at(b, 1, e);
    lemma_parse_text_at(b, 9, p);
}

proof fn lemma_parse_encoding_renamed(b: Seq<u8>, e: u64, o: Seq<char>, n: Seq<char>)
    requires
        b == seq![3u8] + be_bytes(e) + text_field(o) + text_field(n),
        encode_utf8(o).len() <= u64::MAX,
        encode_utf8(n).len() <= u64::MAX,
    ensures
        parse_view(b) == Some(PayloadView::RenamedFile(e, o, n)),
{
    let mid = 9 + text_field(o).len() as int;
    assert(b.subrange(1, 9) =~= be_bytes(e));
    assert(b.subrange(9, mid) =~= text_field(o));
    assert(b.subrange(mid, b.len() as int) =~= text_field(n));
    lemma_parse_u64_at(b, 1, e);
    lemma_parse_text_at(b, 9, o);
    lemma_parse_text_at(b, mid, n);
}

/// Reading the encoding of a payload field by field gives the payload.
proof fn lemma_parse_encoding(v: PayloadView)
    requires
        payload_fits(v),
    ensures
        parse_view(encode_view(v)) == Some(v),
{
    let b = encode_view(v);
    match v {
        PayloadView::NewFile(e, h, p) => {
            lemma_parse_encoding_two_numbers(b, 0, e, h, p);
        },
        PayloadView::ModifiedFile(e, h, p) => {
            lemma_parse_encoding_two_numbers(b, 1, e, h, p);
        },
        PayloadView::RemovedFile(e, p) => {
            lemma_parse_encoding_removed(b, e, p);
        },
        PayloadView::RenamedFile(e, o, n) => {
            lemma_parse_encoding_renamed(b, e, o, n);
        },
    }
}

/// What is read field by field is encoded back to the same bytes.
proof fn lemma_parse_canonical(b: Seq<u8>)
    requires
        parse_view(b) is Some,
    ensures
        payload_fits(parse_view(b)->0),
        encode_view(parse_view(b)->0) == b,
{
    let v = parse_view(b)->0;
    lemma_parsed_u64_is_field(b, 1);
    if b[0] == 0 || b[0] == 1 {
        lemma_parsed_u64_is_field(b, 9);
        lemma_parsed_text_is_field(b, 17);
        assert(b =~= seq![b[0]] + b.subrange(1, 9) + b.subrange(9, 17) + b.subrange(
            17,
            b.len() as int,
        ));
    } else if b[0] == 2 {
        lemma_parsed_text_is_field(b, 9);
        assert(b =~= seq![b[0]] + b.subrange(1, 9) + b.subrange(9, b.len() as int));
    } else {
        lemma_parsed_text_is_field(b, 9);
        let (_, mid) = parse_text(b, 9)->0;
        lemma_parsed_text_is_field(b, mid);
        assert(b =~= seq![b[0]] + b.subrange(1, 9) + b.subrange(9, mid) + b.subrange(
            mid,
            b.len() as int,
        ));
    }
}

proof fn lemma_decode_view_is_parse(b: Seq<u8>)
    ensures
        decode_view(b) == parse_view(b),
{
    if parse_view(b) is Some {
        lemma_parse_canonical(b);
        let v = parse_view(b)->0;
        assert(payload_fits(v) && encode_view(v) == b);
        let w = choose|w: PayloadView| payload_fits(w) && encode_view(w) == b;
        lemma_parse_encoding(w);
    } else {
        if exists|v: PayloadView| payload_fits(v) && encode_view(v) == b {
            let w = choose|w: PayloadView| payload_fits(w) && encode_view(w) == b;
            lemma_parse_encoding(w);
        }
    }
}

/// Decoding the encoding of any payload gives that payload back.
pub proof fn lemma_round_trip(v: PayloadView)
    requires
        payload_fits(v),
    ensures
        decode_view(encode_view(v)) == Some(v),
{
    lemma_parse_encoding(v);
    lemma_decode_view_is_parse(encode_view(v));
}

/// Relies on `std::str::from_utf8`: it accepts exactly the byte sequences
/// that are valid UTF-8, and then reads the same bytes as text.
#[verifier::external_body]
pub(crate) fn utf8_text(b: &[u8]) -> (r: Option<&str>)
    ensures
        match r {
            Some(t) => t.spec_bytes() == b@,
            None => !valid_utf8(b@),
        },
{
    std::str::from_utf8(b).ok()
}

fn push_be(out: &mut Vec<u8>, n: u64)
    ensures
        final(out)@ == old(out)@ + be_bytes(n),
{
    out.push((n >> 56u64) as u8);
    out.push((n >> 48u64) as u8);
    out.push((n >> 40u64) as u8);
    out.push((n >> 32u64) as u8);
    out.push((n >> 24u64) as u8);
    out.push((n >> 16u64) as u8);
    out.push((n >> 8u64) as u8);
    out.push(n as u8);
    assert(final(out)@ =~= old(out)@ + be_bytes(n));
}

pub(crate) fn push_bytes(out: &mut Vec<u8>, b: &[u8])
    ensures
        final(out)@ == old(out)@ + b@,
{
    let ghost start = out@;
    let mut i: usize = 0;
    while i < b.len()
        invariant
            i <= b@.len(),
            out@ == start + b@.subrange(0, i as int),
        decreases b@.len() - i,
    {
        out.push(b[i]);
        i = i + 1;
        assert(out@ =~= start + b@.subrange(0, i as int));
    }
    assert(b@.subrange(0, i as int) =~= b@);
}

fn push_text(out: &mut Vec<u8>, t: &str)
    ensures
        final(out)@ == old(out)@ + text_field(t@),
        encode_utf8(t@).len() <= u64::MAX,
{
    let bytes = t.as_bytes();
    let len: usize = bytes.len();
    push_be(out, len as u64);
    push_bytes(out, bytes);
    assert(final(out)@ =~= old(out)@ + text_field(t@));
}

fn read_u64(b: &[u8], pos: usize) -> (r: Option<u64>)
    ensures
        r == parse_u64(b@, pos as int),
{
    if pos > b.len() || b.len() - pos < 8 {
        return None;
    }
    let n: u64 = (b[pos] as u64) << 56u64 | (b[pos + 1] as u64) << 48u64 | (b[pos + 2] as u64)
        << 40u64 | (b[pos + 3] as u64) << 32u64 | (b[pos + 4] as u64) << 24u64 | (b[pos
        + 5] as u64) << 16u64 | (b[pos + 6] as u64) << 8u64 | (b[pos + 7] as u64);
    let ghost s = b@.subrange(pos as int, pos + 8);
    assert(s[0] == b@[pos as int] && s[1] == b@[pos + 1] && s[2] == b@[pos + 2] && s[3] == b@[pos
        + 3] && s[4] == b@[pos + 4] && s[5] == b@[pos + 5] && s[6] == b@[pos + 6] && s[7] == b@[pos
        + 7]);
    Some(n)
}

fn read_text(b: &[u8], pos: usize) -> (r: Option<(String, usize)>)
    ensures
        match r {
            Some((t, end)) => parse_text(b@, pos as int) == Some((t@, end as int)),
            None => parse_text(b@, pos as int) is None,
        },
{
    let n = match read_u64(b, pos) {
        Some(n) => n,
        None => return None,
    };
    let len = b.len();
    assert(pos + 8 <= len);
    let start = pos + 8;
    if n > (len - start) as u64 {
        return None;
    }
    let end = start + n as usize;
    let bytes = vstd::slice::slice_subrange(b, start, end);
    match utf8_text(bytes) {
        Some(t) => {
            let text = t.to_owned();
            Some((text, end))
        },
        None => None,
    }
}

impl RedisPublishPayload {
    /// The id of the node that emitted the event.
    pub fn get_emitter_id(&self) -> (r: u64)
        ensures
            r == self@.emitter(),
    {
        match self {
            RedisPublishPayload::NewFile(e, _, _) => *e,
            RedisPublishPayload::ModifiedFile(e, _, _) => *e,
            RedisPublishPayload::RemovedFile(e, _) => *e,
            RedisPublishPayload::RenamedFile(e, _, _) => *e,
        }
    }

    /// The wire bytes of the payload.
    pub fn encode(&self) -> (r: Vec<u8>)
        ensures
            r@ == encode_view(self@),
            payload_fits(self@),
    {
        let mut out: Vec<u8> = Vec::new();
        match self {
            RedisPublishPayload::NewFile(e, h, p) => {
                out.push(0u8);
                push_be(&mut out, *e);
                push_be(&mut out, *h);
                push_text(&mut out, p.as_str());
            },
            RedisPublishPayload::ModifiedFile(e, h, p) => {
                out.push(1u8);
                push_be(&mut out, *e);
                push_be(&mut out, *h);
                push_text(&mut out, p.as_str());
            },
            RedisPublishPayload::RemovedFile(e, p) => {
                out.push(2u8);
                push_be(&mut out, *e);
                push_text(&mut out, p.as_str());
            },
            RedisPublishPayload::RenamedFile(e, o, n) => {
                out.push(3u8);
                push_be(&mut out, *e);
                push_text(&mut out, o.as_str());
                push_text(&mut out, n.as_str());
            },
        }
        assert(out@ =~= encode_view(self@));
        out
    }

    /// The payload whose wire bytes are exactly `b`; `DecodeError` when
    /// `b` encodes no payload.
    pub fn decode(b: &[u8]) -> (r: Result<RedisPublishPayload, DecodeError>)
        ensures
            match r {
                Ok(p) => decode_view(b@) == Some(p@),
                Err(_) => decode_view(b@) is None,
            },
    {
        proof {
            lemma_decode_view_is_parse(b@);
        }
        let len = b.len();
        if len == 0 {
            return Err(DecodeError);
        }
        let tag = b[0];
        if tag <= 1 {
            let e = match read_u64(b, 1) {
                Some(e) => e,
                None => return Err(DecodeError),
            };
            let h = match read_u64(b, 9) {
                Some(h) => h,
                None => return Err(DecodeError),
            };
            let (p, end) = match read_text(b, 17) {
                Some(x) => x,
                None => return Err(DecodeError),
            };
            if end != len {
                return Err(DecodeError);
            }
            if tag == 0 {
                Ok(RedisPublishPayload::NewFile(e, h, p))
            } else {
                Ok(RedisPublishPayload::ModifiedFile(e, h, p))
            }
        } else if tag == 2 {
            let e = match read_u64(b, 1) {
                Some(e) => e,
                None => return Err(DecodeError),
            };
            let (p, end) = match read_text(b, 9) {
                Some(x) => x,
                None => return Err(DecodeError),
            };
            if end != len {
                return Err(DecodeError);
            }
            Ok(RedisPublishPayload::RemovedFile(e, p))
        } else if tag == 3 {
            let e = match read_u64(b, 1) {
                Some(e) => e,
                None => return Err(DecodeError),
            };
            let (o, mid) = match read_text(b, 9) {
                Some(x) => x,
                None => return Err(DecodeError),
            };
            let (n, end) = match read_text(b, mid) {
                Some(x) => x,
                None => return Err(DecodeError),
            };
            if end != len {
                return Err(DecodeError);
            }
            Ok(RedisPublishPayload::RenamedFile(e, o, n))
        } else {
            Err(DecodeError)
        }
    }
}

} // verus!
