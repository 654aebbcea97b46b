//! Blocks and headers, modeled as plain values: 32-byte roots, a block
//! number, the ordered digest log, and the extrinsic list, with digest items
//! and extrinsics kept as opaque byte strings.

use crate::codec::{
    dec_byteslist, dec_compact, decode_byteslist, decode_compact_u32, encode_byteslist_into,
    encode_compact_u32_into, items_encodable, lemma_byteslist_round_trip,
    lemma_compact_round_trip, push_all, spec_compact_u32, spec_encode_byteslist,
};
use vstd::prelude::*;

verus! {

/// A block header.
#[derive(Debug, Clone)]
pub struct Header {
    pub parent_hash: Vec<u8>,
    pub number: u32,
    pub state_root: Vec<u8>,
    pub extrinsics_root: Vec<u8>,
    /// The digest log, each item an opaque encoded byte string. The last
    /// item of a sealed block is the entry the execution engine itself
    /// appends while processing the block.
    pub digest: Vec<Vec<u8>>,
}

/// The mathematical model of a header.
#[verifier::ext_equal]
pub struct HeaderView {
    pub parent_hash: Seq<u8>,
    pub number: u32,
    pub state_root: Seq<u8>,
    pub extrinsics_root: Seq<u8>,
    pub digest: Seq<Seq<u8>>,
}

impl View for Header {
    type V = HeaderView;

    open spec fn view(&self) -> HeaderView {
        HeaderView {
            parent_hash: self.parent_hash@,
            number: self.number,
            state_root: self.state_root@,
            extrinsics_root: self.extrinsics_root@,
            digest: self.digest.deep_view(),
        }
    }
}

impl HeaderView {
    /// Every root is exactly 32 bytes and the digest log is encodable.
    pub open spec fn wf(self) -> bool {
        &&& self.parent_hash.len() == 32
        &&& self.state_root.len() == 32
        &&& self.extrinsics_root.len() == 32
        &&& items_encodable(self.digest)
    }
}

/// A full block: a header and its ordered extrinsics, each opaque.
#[derive(Debug, Clone)]
pub struct Block {
    pub header: Header,
    pub extrinsics: Vec<Vec<u8>>,
}

/// The mathematical model of a block.
#[verifier::ext_equal]
pub struct BlockView {
    pub header: HeaderView,
    pub extrinsics: Seq<Seq<u8>>,
}

impl View for Block {
    type V = BlockView;

    open spec fn view(&self) -> BlockView {
        BlockView { header: self.header@, extrinsics: self.extrinsics.deep_view() }
    }
}

impl BlockView {
    /// The header is well formed and the extrinsic list is encodable.
    pub open spec fn wf(self) -> bool {
        &&& self.header.wf()
        &&& items_encodable(self.extrinsics)
    }
}

/// What normalization does to a block's model: the last digest item goes,
/// everything else stays.
pub open spec fn spec_normalize(b: BlockView) -> BlockView {
    BlockView {
        header: HeaderView {
            digest: if b.header.digest.len() >= 1 {
                b.header.digest.drop_last()
            } else {
                b.header.digest
            },
            ..b.header
        },
        extrinsics: b.extrinsics,
    }
}

/// Removes the last digest item from the block's header, leaving every other
/// header field and the extrinsics unchanged. The execution engine appends
/// exactly one digest entry while processing a block, so a finalized block
/// must shed that entry for a replay to reproduce it rather than double it.
pub fn normalize_block(block: Block) -> (r: Block)
    ensures
        r@ == spec_normalize(block@),
        r@.header.digest == if block@.header.digest.len() >= 1 {
            block@.header.digest.drop_last()
        } else {
            block@.header.digest
        },
        r@.header.parent_hash == block@.header.parent_hash,
        r@.header.number == block@.header.number,
        r@.header.state_root == block@.header.state_root,
        r@.header.extrinsics_root == block@.header.extrinsics_root,
        r@.extrinsics == block@.extrinsics,
{
    let ghost given = block@;
    let mut block = block;
    let ghost before = block.header.digest.deep_view();
    if block.header.digest.len() > 0 {
        block.header.digest.pop();
        assert(block.header.digest.deep_view() =~~= before.drop_last());
    }
    assert(block@ =~~= spec_normalize(given));
    block
}

// ---- wire format ----

/// A header encodes as the raw parent hash, the compact block number, the
/// two raw roots, and the count-prefixed digest log.
pub open spec fn spec_encode_header(h: HeaderView) -> Seq<u8> {
    h.parent_hash + spec_compact_u32(h.number) + h.state_root + h.extrinsics_root
        + spec_encode_byteslist(h.digest)
}

/// A block encodes as its header followed by the count-prefixed extrinsics.
pub open spec fn spec_encode_block(b: BlockView) -> Seq<u8> {
    spec_encode_header(b.header) + spec_encode_byteslist(b.extrinsics)
}

/// Decodes 32 raw bytes from the front of `s`.
pub open spec fn dec_fixed32(s: Seq<u8>) -> Option<(Seq<u8>, Seq<u8>)> {
    if s.len() >= 32 {
        Some((s.take(32), s.skip(32)))
    } else {
        None
    }
}

/// Decodes a header from the front of `s`.
pub open spec fn dec_header(s: Seq<u8>) -> Option<(HeaderView, Seq<u8>)> {
    match dec_fixed32(s) {
        Some((ph, s1)) => match dec_compact(s1) {
            Some((num, s2)) => match dec_fixed32(s2) {
                Some((sr, s3)) => match dec_fixed32(s3) {
                    Some((er, s4)) => match dec_byteslist(s4) {
                        Some((dg, s5)) => Some(
                            (
                                HeaderView {
                                    parent_hash: ph,
                                    number: num,
                                    state_root: sr,
                                    extrinsics_root: er,
                                    digest: dg,
                                },
                                s5,
                            ),
                        ),
                        None => None,
                    },
                    None => None,
                },
                None => None,
            },
            None => None,
        },
        None => None,
    }
}

/// Decodes a block from the front of `s`.
pub open spec fn dec_block(s: Seq<u8>) -> Option<(BlockView, Seq<u8>)> {
    match dec_header(s) {
        Some((h, s1)) => match dec_byteslist(s1) {
            Some((xs, s2)) => Some((BlockView { header: h, extrinsics: xs }, s2)),
            None => None,
        },
        None => None,
    }
}

/// Appends the encoding of `h` to `dst`.
pub fn encode_header_into(dst: &mut Vec<u8>, h: &Header)
    requires
        h@.wf(),
    ensures
        final(dst)@ == old(dst)@ + spec_encode_header(h@),
{
    push_all(dst, &h.parent_hash);
    encode_compact_u32_into(dst, h.number);
    push_all(dst, &h.state_root);
    push_all(dst, &h.extrinsics_root);
    encode_byteslist_into(dst, &h.digest);
    assert(dst@ == old(dst)@ + spec_encode_header(h@));
}

/// Appends the encoding of `b` to `dst`.
pub fn encode_block_into(dst: &mut Vec<u8>, b: &Block)
    requires
        b@.wf(),
    ensures
        final(dst)@ == old(dst)@ + spec_encode_block(b@),
{
    encode_header_into(dst, &b.header);
    encode_byteslist_into(dst, &b.extrinsics);
    assert(dst@ == old(dst)@ + spec_encode_block(b@));
}

/// Decoding inverts the header encoding, for every well-formed header and
/// every suffix.
pub proof fn lemma_header_round_trip(h: HeaderView, tail: Seq<u8>)
    requires
        h.wf(),
    ensures
        dec_header(spec_encode_header(h) + tail) == Some((h, tail)),
{
    let s1 = spec_compact_u32(h.number) + (h.state_root + (h.extrinsics_root
        + (spec_encode_byteslist(h.digest) + tail)));
    let s = spec_encode_header(h) + tail;
    assert(s =~= h.parent_hash + s1);
    assert((h.parent_hash + s1).take(32) =~= h.parent_hash);
    assert((h.parent_hash + s1).skip(32) =~= s1);
    lemma_compact_round_trip(h.number, h.state_root + (h.extrinsics_root + (spec_encode_byteslist(
        h.digest,
    ) + tail)));
    let s2 = h.state_root + (h.extrinsics_root + (spec_encode_byteslist(h.digest) + tail));
    assert(s2.take(32) =~= h.state_root);
    assert(s2.skip(32) =~= h.extrinsics_root + (spec_encode_byteslist(h.digest) + tail));
    let s3 = h.extrinsics_root + (spec_encode_byteslist(h.digest) + tail);
    assert(s3.take(32) =~= h.extrinsics_root);
    assert(s3.skip(32) =~= spec_encode_byteslist(h.digest) + tail);
    lemma_byteslist_round_trip(h.digest, tail);
}

/// Decoding inverts the block encoding, for every well-formed block and
/// every suffix.
pub proof fn lemma_block_round_trip(b: BlockView, tail: Seq<u8>)
    requires
        b.wf(),
    ensures
        dec_block(spec_encode_block(b) + tail) == Some((b, tail)),
{
    assert(spec_encode_block(b) + tail =~= spec_encode_header(b.header) + (spec_encode_byteslist(
        b.extrinsics,
    ) + tail));
    lemma_header_round_trip(b.header, spec_encode_byteslist(b.extrinsics) + tail);
    lemma_byteslist_round_trip(b.extrinsics, tail);
}

/// Decodes 32 raw bytes at position `pos` of `v`.
pub fn decode_fixed32(v: &Vec<u8>, pos: usize) -> (r: Option<(Vec<u8>, usize)>)
    requires
        pos <= v@.len(),
    ensures
        match r {
            Some(t) => pos <= t.1 <= v@.len() && dec_fixed32(v@.skip(pos as int)) == Some(
                (t.0@, v@.skip(t.1 as int)),
            ),
            None => dec_fixed32(v@.skip(pos as int)) is None,
        },
{
    if v.len() - pos < 32 {
        return None;
    }
    let mut out: Vec<u8> = Vec::new();
    let mut i: usize = 0;
    while i < 32
        invariant
            i <= 32,
            pos + 32 <= v@.len(),
            v@.len() <= usize::MAX,
            out@ == v@.subrange(pos as int, pos + i),
        decreases 32 - i,
    {
        out.push(v[pos + i]);
        assert(v@.subrange(pos as int, pos + i + 1) =~= v@.subrange(pos as int, pos + i).push(
            v@[pos + i],
        ));
        i += 1;
    }
    assert(v@.skip(pos as int).take(32) =~= v@.subrange(pos as int, pos + 32));
    assert(v@.skip(pos as int).skip(32) =~= v@.skip(pos + 32));
    Some((out, pos + 32))
}

/// Decodes a header at position `pos` of `v`.
pub fn decode_header(v: &Vec<u8>, pos: usize) -> (r: Option<(Header, usize)>)
    requires
        pos <= v@.len(),
    ensures
        match r {
            Some(t) => pos <= t.1 <= v@.len() && dec_header(v@.skip(pos as int)) == Some(
                (t.0@, v@.skip(t.1 as int)),
            ),
            None => dec_header(v@.skip(pos as int)) is None,
        },
{
    let (parent_hash, p1) = match decode_fixed32(v, pos) {
        Some(t) => t,
        None => {
            return None;
        },
    };
    let (number, p2) = match decode_compact_u32(v, p1) {
        Some(t) => t,
        None => {
            return None;
        },
    };
    let (state_root, p3) = match decode_fixed32(v, p2) {
        Some(t) => t,
        None => {
            return None;
        },
    };
    let (extrinsics_root, p4) = match decode_fixed32(v, p3) {
        Some(t) => t,
        None => {
            return None;
        },
    };
    let (digest, p5) = match decode_byteslist(v, p4) {
        Some(t) => t,
        None => {
            return None;
        },
    };
    Some((Header { parent_hash, number, state_root, extrinsics_root, digest }, p5))
}

/// Decodes a block at position `pos` of `v`.
pub fn decode_block(v: &Vec<u8>, pos: usize) -> (r: Option<(Block, usize)>)
    requires
        pos <= v@.len(),
    ensures
        match r {
            Some(t) => pos <= t.1 <= v@.len() && dec_block(v@.skip(pos as int)) == Some(
                (t.0@, v@.skip(t.1 as int)),
            ),
            None => dec_block(v@.skip(pos as int)) is None,
        },
{
    let (header, p1) = match decode_header(v, pos) {
        Some(t) => t,
        None => {
            return None;
        },
    };
    let (extrinsics, p2) = match decode_byteslist(v, p1) {
        Some(t) => t,
        None => {
            return None;
        },
    };
    Some((Block { header, extrinsics }, p2))
}

} // verus!
