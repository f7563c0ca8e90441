//! The receive actor's owned storage and the output pipeline's pull
//! contract: closure check first, then the buffered FIFO, and only then a
//! fresh batched read.

use std::collections::VecDeque;

use vstd::prelude::*;

use crate::bytebuf::bytes_view;
use crate::net::{Network, PacketMeta};
use crate::split::{is_split_of, split_slot, split_views, QueuedPacket};

verus! {

/// What one pull from the output pipeline yields before any fresh read is
/// attempted.
pub enum PullStatus {
    /// The owning connection is closed: end of stream.
    EndOfStream,
    /// The front of the buffered FIFO.
    Item(QueuedPacket),
    /// Nothing buffered: the caller must attempt a fresh batched read.
    NeedRead,
}

/// The receive actor's owned storage: one pre-sized receive buffer pool,
/// reused every poll cycle, and the FIFO of packets split out of the last
/// batched read, drained before any new read is issued.
pub struct UdpActor {
    /// One contiguous buffer, partitioned by the caller into equal
    /// fixed-size chunks, one per batch slot.
    pub recv_buf: Vec<u8>,
    out_buffer: VecDeque<QueuedPacket>,
}

impl UdpActor {
    /// The pending packets, front of the FIFO first.
    pub closed spec fn queue(&self) -> Seq<QueuedPacket> {
        self.out_buffer@
    }

    /// The bytes of the receive buffer pool.
    pub closed spec fn buf(&self) -> Seq<u8> {
        self.recv_buf@
    }

    /// A fresh actor: a zeroed buffer pool of one maximum-coalesced
    /// receive (link MTU times the kernel's coalescing factor) per batch
    /// slot, and an empty output queue.
    pub fn new(gro_segments: usize, batch_size: usize) -> (r: Self)
        requires
            batch_size >= 1,
            1480 * gro_segments * batch_size <= usize::MAX,
        ensures
            r.buf().len() == 1480 * gro_segments * batch_size,
            forall|i: int| 0 <= i < r.buf().len() ==> r.buf()[i] == 0,
            r.queue() == Seq::<QueuedPacket>::empty(),
    {
        proof {
            assert(1480 * gro_segments <= 1480 * gro_segments * batch_size) by (nonlinear_arith)
                requires
                    batch_size >= 1,
            ;
        }
        let target_recv_buf_len: usize = 1480 * gro_segments * batch_size;
        let mut recv_buf: Vec<u8> = Vec::new();
        while recv_buf.len() < target_recv_buf_len
            invariant
                recv_buf@.len() <= target_recv_buf_len,
                forall|i: int| 0 <= i < recv_buf@.len() ==> recv_buf@[i] == 0,
            decreases target_recv_buf_len - recv_buf@.len(),
        {
            recv_buf.push(0u8);
        }
        UdpActor { recv_buf, out_buffer: VecDeque::new() }
    }

    /// The size of one batch slot's chunk of the buffer pool.
    pub fn chunk_size(&self, batch_size: usize) -> (r: usize)
        requires
            batch_size >= 1,
        ensures
            r == self.buf().len() as int / batch_size as int,
    {
        self.recv_buf.len() / batch_size
    }

    /// Append one split packet to the back of the output queue.
    pub fn handle_packet(&mut self, packet: QueuedPacket)
        ensures
            final(self).buf() == old(self).buf(),
            final(self).queue() == old(self).queue().push(packet),
    {
        self.out_buffer.push_back(packet);
    }

    /// Pop the front of the output queue, if any.
    pub fn pop_front(&mut self) -> (r: Option<QueuedPacket>)
        ensures
            final(self).buf() == old(self).buf(),
            old(self).queue().len() == 0 ==> r is None && final(self).queue() == old(
                self,
            ).queue(),
            old(self).queue().len() > 0 ==> {
                &&& r == Some(old(self).queue()[0])
                &&& final(self).queue() == old(self).queue().drop_first()
            },
    {
        self.out_buffer.pop_front()
    }

    /// One pull from the output pipeline, before any fresh read: a closed
    /// connection ends the stream at once, even while the queue still
    /// holds buffered items; otherwise the front buffered item is
    /// returned; otherwise the caller must attempt a batched read.
    pub fn poll_pull(&mut self, is_closed: bool) -> (r: PullStatus)
        ensures
            final(self).buf() == old(self).buf(),
            is_closed ==> r is EndOfStream && final(self).queue() == old(self).queue(),
            !is_closed && old(self).queue().len() > 0 ==> {
                &&& r matches PullStatus::Item(p) && p == old(self).queue()[0]
                &&& final(self).queue() == old(self).queue().drop_first()
            },
            !is_closed && old(self).queue().len() == 0 ==> r is NeedRead && final(self).queue()
                == old(self).queue(),
    {
        if is_closed {
            return PullStatus::EndOfStream;
        }
        match self.out_buffer.pop_front() {
            Some(p) => PullStatus::Item(p),
            None => PullStatus::NeedRead,
        }
    }

    /// Split one ready receive slot and append every resulting packet, in
    /// order, to the back of the output queue.
    pub fn ingest_slot(&mut self, data: bytes::Bytes, network: Network, meta: PacketMeta)
        requires
            meta.stride > 0 || bytes_view(data).len() == 0,
            meta.len == bytes_view(data).len(),
        ensures
            final(self).buf() == old(self).buf(),
            final(self).queue().len() == old(self).queue().len() + split_views(
                bytes_view(data),
                meta.stride as nat,
            ).len(),
            final(self).queue().subrange(0, old(self).queue().len() as int) == old(self).queue(),
            is_split_of(
                final(self).queue().skip(old(self).queue().len() as int),
                bytes_view(data),
                network,
                meta,
            ),
    {
        let ghost v = bytes_view(data);
        let mut pkts: Vec<QueuedPacket> = split_slot(data, network, meta);
        let ghost emitted = pkts@;
        while pkts.len() > 0
            invariant
                pkts@.len() <= emitted.len(),
                pkts@ == emitted.skip(emitted.len() - pkts@.len()),
                self.buf() == old(self).buf(),
                self.queue() == old(self).queue() + emitted.take(
                    emitted.len() - pkts@.len(),
                ),
            decreases pkts@.len(),
        {
            let ghost done = emitted.len() - pkts@.len();
            let p = pkts.remove(0);
            proof {
                assert(p == emitted[done]);
            }
            self.handle_packet(p);
            proof {
                assert(pkts@ =~= emitted.skip(emitted.len() - pkts@.len()));
                assert(emitted.take(done + 1) =~= emitted.take(done).push(emitted[done]));
                assert(self.queue() =~= old(self).queue() + emitted.take(
                    emitted.len() - pkts@.len(),
                ));
            }
        }
        proof {
            assert(emitted.take(emitted.len() as int) =~= emitted);
            assert(self.queue().subrange(0, old(self).queue().len() as int) =~= old(
                self,
            ).queue());
            assert(self.queue().skip(old(self).queue().len() as int) =~= emitted);
        }
    }
}

} // verus!
