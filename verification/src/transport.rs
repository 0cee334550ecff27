//! The duplex byte transport at the bottom of a handler chain.
//!
//! A transport is modeled as two queues of byte chunks — what it will
//! deliver to the pipeline (inbound) and what the pipeline has written
//! through it (outbound) — together with an open/closed flag. Once closed,
//! every read and write fails with a terminal error.

use vstd::prelude::*;

verus! {

/// Why a transport operation did not produce data.
#[derive(Clone, Copy, Debug, PartialEq, Eq, Structural)]
pub enum TransportError {
    /// The transport is closed; no later call will ever succeed.
    Closed,
    /// No data is available right now; the caller should yield and retry.
    WouldBlock,
}

/// How many bytes a read with a `cap`-byte buffer takes from the front chunk.
pub open spec fn read_len(chunks: Seq<Seq<u8>>, cap: nat) -> nat
    recommends
        chunks.len() > 0,
{
    if cap < chunks[0].len() {
        cap
    } else {
        chunks[0].len()
    }
}

/// The bytes such a read delivers: the front chunk, truncated to the buffer.
pub open spec fn read_chunk(chunks: Seq<Seq<u8>>, cap: nat) -> Seq<u8>
    recommends
        chunks.len() > 0,
{
    chunks[0].take(read_len(chunks, cap) as int)
}

/// The queue such a read leaves behind: the front chunk is dequeued when it
/// was consumed whole, and otherwise its unread remainder stays at the front,
/// so partial reads never drop bytes.
pub open spec fn read_rest(chunks: Seq<Seq<u8>>, cap: nat) -> Seq<Seq<u8>>
    recommends
        chunks.len() > 0,
{
    if read_len(chunks, cap) == chunks[0].len() {
        chunks.drop_first()
    } else {
        chunks.update(0, chunks[0].skip(read_len(chunks, cap) as int))
    }
}

/// The inbound queue after `k` reads, each with a `cap`-byte buffer.
pub open spec fn after_reads(chunks: Seq<Seq<u8>>, cap: nat, k: nat) -> Seq<Seq<u8>>
    decreases k,
{
    if k == 0 {
        chunks
    } else {
        read_rest(after_reads(chunks, cap, (k - 1) as nat), cap)
    }
}

/// A duplex byte-stream endpoint: blocking-free chunk reads and writes over
/// two independent queues, plus an open/closed state.
///
/// The read side and the write side touch disjoint queues, so driving one
/// direction never disturbs the other's data.
pub trait Transport {
    /// The chunks this transport will deliver to the pipeline, in order.
    spec fn inbound(&self) -> Seq<Seq<u8>>;

    /// The chunks the pipeline has written through this transport, in order.
    spec fn outbound(&self) -> Seq<Seq<u8>>;

    /// Whether the transport is still open.
    spec fn is_open(&self) -> bool;

    /// Copy the front inbound chunk (or as much of it as fits) into the
    /// start of `buf`, leaving the rest of `buf` untouched, and retain any
    /// unread remainder of the chunk for the next call.
    ///
    /// Fails with `Closed` once the transport is closed, and with
    /// `WouldBlock` while no chunk is queued; neither failure changes state.
    fn read(&mut self, buf: &mut Vec<u8>) -> (r: Result<usize, TransportError>)
        ensures
            final(self).outbound() == old(self).outbound(),
            final(self).is_open() == old(self).is_open(),
            final(buf)@.len() == old(buf)@.len(),
            match r {
                Ok(n) => {
                    &&& old(self).is_open()
                    &&& old(self).inbound().len() > 0
                    &&& n == read_len(old(self).inbound(), old(buf)@.len())
                    &&& final(buf)@ == read_chunk(old(self).inbound(), old(buf)@.len())
                        + old(buf)@.skip(n as int)
                    &&& final(self).inbound() == read_rest(old(self).inbound(), old(buf)@.len())
                },
                Err(TransportError::Closed) => {
                    &&& !old(self).is_open()
                    &&& final(self).inbound() == old(self).inbound()
                    &&& final(buf)@ == old(buf)@
                },
                Err(TransportError::WouldBlock) => {
                    &&& old(self).is_open()
                    &&& old(self).inbound().len() == 0
                    &&& final(self).inbound() == old(self).inbound()
                    &&& final(buf)@ == old(buf)@
                },
            },
    ;

    /// Enqueue the whole buffer as one outbound chunk. Every write call
    /// delivers exactly one chunk, the same boundary `recv` observes, so
    /// round trips are deterministic. Fails only once the transport is
    /// closed, without changing state.
    fn write(&mut self, buf: &Vec<u8>) -> (r: Result<usize, TransportError>)
        ensures
            final(self).inbound() == old(self).inbound(),
            final(self).is_open() == old(self).is_open(),
            match r {
                Ok(n) => {
                    &&& old(self).is_open()
                    &&& n == buf@.len()
                    &&& final(self).outbound() == old(self).outbound().push(buf@)
                },
                Err(e) => {
                    &&& !old(self).is_open()
                    &&& e == TransportError::Closed
                    &&& final(self).outbound() == old(self).outbound()
                },
            },
    ;

    /// Push buffered data onward. Writes here already hand over whole
    /// chunks, so this changes nothing; it still reports a closed transport.
    fn flush(&mut self) -> (r: Result<(), TransportError>)
        ensures
            final(self).inbound() == old(self).inbound(),
            final(self).outbound() == old(self).outbound(),
            final(self).is_open() == old(self).is_open(),
            match r {
                Ok(()) => old(self).is_open(),
                Err(e) => !old(self).is_open() && e == TransportError::Closed,
            },
    ;

    /// Close the transport. Queued data stays readable by the test
    /// interface, but every later read or write fails with `Closed`.
    fn close(&mut self)
        ensures
            !final(self).is_open(),
            final(self).inbound() == old(self).inbound(),
            final(self).outbound() == old(self).outbound(),
    ;
}

/// Law: the transport never reorders or interleaves messages. When every
/// queued chunk fits the caller's buffer, the `k`-th read delivers exactly
/// the `k`-th chunk that was sent, and leaves precisely the later chunks
/// queued.
pub proof fn lemma_reads_preserve_order(chunks: Seq<Seq<u8>>, cap: nat, k: nat)
    requires
        forall|j: int| 0 <= j < chunks.len() ==> (#[trigger] chunks[j]).len() <= cap,
        k < chunks.len(),
    ensures
        after_reads(chunks, cap, k) == chunks.skip(k as int),
        read_chunk(after_reads(chunks, cap, k), cap) == chunks[k as int],
    decreases k,
{
    if k == 0 {
        assert(after_reads(chunks, cap, 0) =~= chunks.skip(0));
    } else {
        lemma_reads_preserve_order(chunks, cap, (k - 1) as nat);
        let prev = after_reads(chunks, cap, (k - 1) as nat);
        assert(prev[0] == chunks[k - 1]);
        assert(read_len(prev, cap) == prev[0].len());
        assert(read_rest(prev, cap) =~= chunks.skip(k as int));
    }
    let now = after_reads(chunks, cap, k);
    assert(now[0] == chunks[k as int]);
    assert(read_chunk(now, cap) =~= chunks[k as int]);
}

} // verus!
