//! Segment splitter: one coalesced receive slot becomes an ordered run of
//! discrete datagrams, each at most one stride long, without copying.

use vstd::prelude::*;

use crate::bytebuf::{bytes_as_slice, bytes_slice, bytes_view};
use crate::net::{Network, PacketMeta};
use vstd::arithmetic::div_mod::{lemma_basic_div, lemma_div_plus_one};

verus! {

/// One discrete datagram after splitting, tagged with the family it
/// arrived through and its own copy of the receive metadata.
pub struct QueuedPacket {
    pub packet: bytes::Bytes,
    pub network: Network,
    pub meta: PacketMeta,
}

/// The chunk views that splitting bytes `data` with stride `stride`
/// yields: `stride` bytes at a time, the last chunk possibly shorter,
/// first byte to last.
pub open spec fn split_views(data: Seq<u8>, stride: nat) -> Seq<Seq<u8>>
    decreases data.len(),
    when stride > 0 || data.len() == 0
{
    if data.len() == 0 {
        Seq::empty()
    } else {
        let take: int = if stride < data.len() { stride as int } else { data.len() as int };
        seq![data.take(take)] + split_views(data.skip(take), stride)
    }
}

/// `pkts` is exactly the split of a slot holding `data`: the chunk views
/// in order, each packet's length and stride rewritten to its own size,
/// every other metadata field copied unchanged, family tag `network`.
pub open spec fn is_split_of(
    pkts: Seq<QueuedPacket>,
    data: Seq<u8>,
    network: Network,
    meta: PacketMeta,
) -> bool {
    let views = split_views(data, meta.stride as nat);
    &&& pkts.len() == views.len()
    &&& forall|i: int|
        0 <= i < pkts.len() ==> {
            let p = #[trigger] pkts[i];
            &&& bytes_view(p.packet) == views[i]
            &&& p.network == network
            &&& p.meta.len == views[i].len()
            &&& p.meta.stride == p.meta.len
            &&& p.meta.addr == meta.addr
            &&& p.meta.ecn == meta.ecn
            &&& p.meta.dst_ip == meta.dst_ip
        }
}

/// Split one receive slot into discrete packets: emit `min(stride,
/// remaining)` bytes at a time until none remain. Each emitted packet is a
/// zero-copy sub-view of the slot; its length and stride are its own size,
/// and the remaining metadata is inherited from the slot.
pub fn split_slot(data: bytes::Bytes, network: Network, meta: PacketMeta) -> (out: Vec<
    QueuedPacket,
>)
    requires
        meta.stride > 0 || bytes_view(data).len() == 0,
        meta.len == bytes_view(data).len(),
    ensures
        is_split_of(out@, bytes_view(data), network, meta),
{
    let ghost v = bytes_view(data);
    let ghost stride_n = meta.stride as nat;
    let len: usize = bytes_as_slice(&data).len();
    let mut out: Vec<QueuedPacket> = Vec::new();
    let mut off: usize = 0;
    proof {
        assert(v.skip(0) =~= v);
        assert(split_views(v, stride_n).skip(0) =~= split_views(v, stride_n));
    }
    while off < len
        invariant
            len == v.len(),
            off <= len,
            meta.stride > 0 || len == 0,
            stride_n == meta.stride as nat,
            v == bytes_view(data),
            out@.len() + split_views(v.skip(off as int), stride_n).len() == split_views(
                v,
                stride_n,
            ).len(),
            split_views(v.skip(off as int), stride_n) == split_views(v, stride_n).skip(
                out@.len() as int,
            ),
            forall|i: int|
                0 <= i < out@.len() ==> {
                    let p = #[trigger] out@[i];
                    &&& bytes_view(p.packet) == split_views(v, stride_n)[i]
                    &&& p.network == network
                    &&& p.meta.len == split_views(v, stride_n)[i].len()
                    &&& p.meta.stride == p.meta.len
                    &&& p.meta.addr == meta.addr
                    &&& p.meta.ecn == meta.ecn
                    &&& p.meta.dst_ip == meta.dst_ip
                },
        decreases len - off,
    {
        let take: usize = if meta.stride < len - off {
            meta.stride
        } else {
            len - off
        };
        let ghost k = out@.len() as int;
        let ghost rest = v.skip(off as int);
        let ghost chunk = v.subrange(off as int, off + take);
        proof {
            // Unfold one step of the split of the remaining bytes.
            assert(rest.len() == len - off);
            assert(rest.take(take as int) =~= chunk);
            assert(rest.skip(take as int) =~= v.skip(off + take));
            assert(split_views(rest, stride_n) == seq![chunk] + split_views(
                v.skip(off + take),
                stride_n,
            ));
            // The chunk is the next element of the full split.
            assert(split_views(v, stride_n).skip(k)[0] == split_views(v, stride_n)[k]);
            assert(split_views(v, stride_n)[k] == chunk);
            assert(split_views(v, stride_n).skip(k + 1) =~= split_views(rest, stride_n).skip(1));
            assert(split_views(rest, stride_n).skip(1) =~= split_views(
                v.skip(off + take),
                stride_n,
            ));
        }
        let piece: bytes::Bytes = bytes_slice(&data, off, off + take);
        let sub_meta = PacketMeta {
            addr: meta.addr,
            len: take,
            stride: take,
            ecn: meta.ecn,
            dst_ip: meta.dst_ip,
        };
        out.push(QueuedPacket { packet: piece, network, meta: sub_meta });
        off = off + take;
    }
    proof {
        assert(v.skip(len as int) =~= Seq::<u8>::empty());
        assert(split_views(v.skip(len as int), stride_n) =~= Seq::<Seq<u8>>::empty());
    }
    out
}

/// Splitting a slot of length `L` with stride `S > 0` yields exactly
/// `ceil(L / S)`, that is `(L + S - 1) / S`, chunks; when `S >= L` and the
/// slot is non-empty, exactly one.
pub proof fn lemma_split_count(data: Seq<u8>, stride: nat)
    requires
        stride > 0,
    ensures
        split_views(data, stride).len() == (data.len() + stride - 1) as int / (stride as int),
        stride >= data.len() && data.len() > 0 ==> split_views(data, stride).len() == 1,
    decreases data.len(),
{
    let len = data.len() as int;
    let s = stride as int;
    if data.len() == 0 {
        lemma_basic_div(s - 1, s);
    } else if data.len() <= stride {
        assert(data.skip(len) =~= Seq::<u8>::empty());
        assert(split_views(Seq::<u8>::empty(), stride) =~= Seq::<Seq<u8>>::empty());
        assert(split_views(data, stride).len() == 1);
        lemma_basic_div(len - 1, s);
        lemma_div_plus_one(len - 1, s);
    } else {
        lemma_split_count(data.skip(s), stride);
        assert(split_views(data, stride).len() == 1 + split_views(data.skip(s), stride).len());
        lemma_div_plus_one(len - 1 - s + s, s);
    }
}

/// The lengths of a run of chunks, summed.
pub open spec fn total_len(chunks: Seq<Seq<u8>>) -> nat
    decreases chunks.len(),
{
    if chunks.len() == 0 {
        0
    } else {
        chunks[0].len() + total_len(chunks.drop_first())
    }
}

/// The lengths of the split chunks sum to exactly the slot's length.
pub proof fn lemma_split_total_len(data: Seq<u8>, stride: nat)
    requires
        stride > 0 || data.len() == 0,
    ensures
        total_len(split_views(data, stride)) == data.len(),
    decreases data.len(),
{
    if data.len() == 0 {
    } else {
        let take: int = if stride < data.len() { stride as int } else { data.len() as int };
        let chunks = split_views(data, stride);
        lemma_split_total_len(data.skip(take), stride);
        assert(chunks.drop_first() =~= split_views(data.skip(take), stride));
        assert(chunks[0].len() == take);
    }
}

/// Every split chunk is non-empty and at most `stride` long.
pub proof fn lemma_split_chunk_bounds(data: Seq<u8>, stride: nat, i: int)
    requires
        stride > 0,
        0 <= i < split_views(data, stride).len(),
    ensures
        0 < split_views(data, stride)[i].len() <= stride,
    decreases data.len(),
{
    let take: int = if stride < data.len() { stride as int } else { data.len() as int };
    if i == 0 {
        assert(split_views(data, stride)[0] == data.take(take));
    } else {
        lemma_split_chunk_bounds(data.skip(take), stride, i - 1);
        assert(split_views(data, stride)[i] == split_views(data.skip(take), stride)[i - 1]);
    }
}

/// Chunk `i` of the split is exactly the slot's bytes from `i * stride` up
/// to the next stride boundary or the end of the slot, whichever comes
/// first: splitting preserves content and order.
pub proof fn lemma_split_index(data: Seq<u8>, stride: nat, i: int)
    requires
        stride > 0,
        0 <= i < split_views(data, stride).len(),
    ensures
        i * stride < data.len(),
        split_views(data, stride)[i] == data.subrange(
            i * stride,
            if (i + 1) * stride <= data.len() {
                (i + 1) * stride
            } else {
                data.len() as int
            },
        ),
    decreases data.len(),
{
    let s = stride as int;
    let len = data.len() as int;
    let take: int = if stride < data.len() { s } else { len };
    assert(len > 0);
    if i == 0 {
        assert(split_views(data, stride)[0] == data.take(take));
        assert((0 + 1) * s == s) by (nonlinear_arith);
        assert(0 * s == 0) by (nonlinear_arith);
        assert(data.take(take) =~= data.subrange(
            0,
            if s <= len {
                s
            } else {
                len
            },
        ));
    } else {
        if data.len() <= stride {
            assert(data.skip(take) =~= Seq::<u8>::empty());
            assert(split_views(Seq::<u8>::empty(), stride) =~= Seq::<Seq<u8>>::empty());
            assert(split_views(data, stride).len() == 1);
        }
        assert(len > s);
        lemma_split_index(data.skip(s), stride, i - 1);
        assert(split_views(data, stride)[i] == split_views(data.skip(s), stride)[i - 1]);
        assert((i - 1) * s == i * s - s) by (nonlinear_arith);
        assert((i + 1) * s == i * s + s) by (nonlinear_arith);
        assert(((i - 1) + 1) * s == i * s) by (nonlinear_arith);
        // From the inner call: (i - 1) * s < len - s, so i * s < len.
        assert(i * s < len);
        let lo: int = (i - 1) * s;
        let hi: int = if i * s <= len - s {
            i * s
        } else {
            len - s
        };
        assert(split_views(data.skip(s), stride)[i - 1] == data.skip(s).subrange(lo, hi));
        assert(data.skip(s).subrange(lo, hi) =~= data.subrange(s + lo, s + hi));
        assert(s + lo == i * s);
        assert(s + hi == if (i + 1) * s <= len {
            (i + 1) * s
        } else {
            len
        });
    }
}

} // verus!
