//! A simulated network for deterministic conformance testing.
//!
//! Everything is named from the perspective of the network, not the
//! pipeline: the inbound queue holds chunks the network will deliver to the
//! pipeline, the outbound queue holds chunks the pipeline has written.

use crate::transport::{read_chunk, read_len, read_rest, Transport, TransportError};
use vstd::prelude::*;

verus! {

/// An in-memory stand-in for a real network connection: two independent
/// unbounded queues of byte chunks, one per direction, and an open flag.
///
/// The test interface (`send`, `recv`) plays the far side of the wire; the
/// `Transport` impl is what a pipeline drives. One chunk is delivered per
/// `read` (with its remainder retained when the caller's buffer is smaller)
/// and one chunk is enqueued per `write`, so round trips are deterministic.
pub struct FakeNetwork {
    /// Chunks the network will deliver to the pipeline, oldest first.
    pub in_chunks: Vec<Vec<u8>>,
    /// Chunks the pipeline has written to the network, oldest first.
    pub out_chunks: Vec<Vec<u8>>,
    /// Whether the connection is still open.
    pub open: bool,
}

/// The chunk queues as the transport model sees them.
pub open spec fn chunks_view(chunks: Seq<Vec<u8>>) -> Seq<Seq<u8>> {
    chunks.map_values(|c: Vec<u8>| c@)
}

impl FakeNetwork {
    pub fn new() -> (net: FakeNetwork)
        ensures
            net.inbound() == Seq::<Seq<u8>>::empty(),
            net.outbound() == Seq::<Seq<u8>>::empty(),
            net.is_open(),
    {
        let net = FakeNetwork { in_chunks: Vec::new(), out_chunks: Vec::new(), open: true };
        proof {
            assert(net.inbound() =~= Seq::<Seq<u8>>::empty());
            assert(net.outbound() =~= Seq::<Seq<u8>>::empty());
        }
        net
    }

    /// Enqueue a chunk the pipeline will next read, as if it had just
    /// arrived from the wire.
    pub fn send(&mut self, msg_in: Vec<u8>)
        ensures
            final(self).inbound() == old(self).inbound().push(msg_in@),
            final(self).outbound() == old(self).outbound(),
            final(self).is_open() == old(self).is_open(),
    {
        self.in_chunks.push(msg_in);
        proof {
            assert(final(self).inbound() =~= old(self).inbound().push(msg_in@));
        }
    }

    /// Dequeue the oldest complete chunk the pipeline has written, for
    /// assertion in tests; `WouldBlock` while none has been written yet.
    pub fn recv(&mut self) -> (r: Result<Vec<u8>, TransportError>)
        ensures
            final(self).inbound() == old(self).inbound(),
            final(self).is_open() == old(self).is_open(),
            match r {
                Ok(chunk) => {
                    &&& old(self).outbound().len() > 0
                    &&& chunk@ == old(self).outbound()[0]
                    &&& final(self).outbound() == old(self).outbound().drop_first()
                },
                Err(e) => {
                    &&& old(self).outbound().len() == 0
                    &&& e == TransportError::WouldBlock
                    &&& final(self).outbound() == old(self).outbound()
                },
            },
    {
        if self.out_chunks.len() == 0 {
            return Err(TransportError::WouldBlock);
        }
        let chunk = self.out_chunks.remove(0);
        proof {
            assert(final(self).outbound() =~= old(self).outbound().drop_first());
        }
        Ok(chunk)
    }
}

/// Copy a byte vector; the duplicate holds exactly the same bytes.
fn copy_bytes(src: &Vec<u8>) -> (r: Vec<u8>)
    ensures
        r@ == src@,
{
    let mut r: Vec<u8> = Vec::with_capacity(src.len());
    let mut i: usize = 0;
    while i < src.len()
        invariant
            i <= src@.len(),
            r@ == src@.take(i as int),
        decreases src@.len() - i,
    {
        r.push(src[i]);
        proof {
            assert(r@ =~= src@.take(i + 1));
        }
        i = i + 1;
    }
    proof {
        assert(src@.take(src@.len() as int) =~= src@);
    }
    r
}

impl Transport for FakeNetwork {
    open spec fn inbound(&self) -> Seq<Seq<u8>> {
        chunks_view(self.in_chunks@)
    }

    open spec fn outbound(&self) -> Seq<Seq<u8>> {
        chunks_view(self.out_chunks@)
    }

    open spec fn is_open(&self) -> bool {
        self.open
    }

    fn read(&mut self, buf: &mut Vec<u8>) -> (r: Result<usize, TransportError>) {
        if !self.open {
            return Err(TransportError::Closed);
        }
        if self.in_chunks.len() == 0 {
            return Err(TransportError::WouldBlock);
        }
        let chunk = self.in_chunks.remove(0);
        let cap = buf.len();
        let n: usize = if cap < chunk.len() {
            cap
        } else {
            chunk.len()
        };
        let mut j: usize = 0;
        while j < n
            invariant
                j <= n,
                n <= chunk@.len(),
                n <= buf@.len(),
                buf@.len() == old(buf)@.len(),
                forall|k: int| 0 <= k < j ==> buf@[k] == chunk@[k],
                forall|k: int| j <= k < buf@.len() ==> buf@[k] == old(buf)@[k],
            decreases n - j,
        {
            let b = chunk[j];
            buf.set(j, b);
            j = j + 1;
        }
        if n < chunk.len() {
            // The caller's buffer was smaller than the chunk: keep the
            // unread remainder at the front of the queue for the next read.
            let mut rem: Vec<u8> = Vec::with_capacity(chunk.len() - n);
            let mut k: usize = n;
            while k < chunk.len()
                invariant
                    n <= k <= chunk@.len(),
                    rem@ == chunk@.subrange(n as int, k as int),
                decreases chunk@.len() - k,
            {
                rem.push(chunk[k]);
                proof {
                    assert(rem@ =~= chunk@.subrange(n as int, k + 1));
                }
                k = k + 1;
            }
            proof {
                assert(rem@ == chunk@.skip(n as int));
            }
            self.in_chunks.insert(0, rem);
        }
        proof {
            let cap0 = old(buf)@.len();
            assert(old(self).inbound()[0] == chunk@);
            assert(n == read_len(old(self).inbound(), cap0));
            assert(buf@ =~= read_chunk(old(self).inbound(), cap0) + old(buf)@.skip(n as int));
            if n == chunk@.len() {
                assert(final(self).inbound() =~= old(self).inbound().drop_first());
            } else {
                assert(final(self).inbound() =~= old(self).inbound().update(
                    0,
                    chunk@.skip(n as int),
                ));
            }
        }
        Ok(n)
    }

    fn write(&mut self, buf: &Vec<u8>) -> (r: Result<usize, TransportError>) {
        if !self.open {
            return Err(TransportError::Closed);
        }
        let chunk = copy_bytes(buf);
        self.out_chunks.push(chunk);
        proof {
            assert(final(self).outbound() =~= old(self).outbound().push(buf@));
        }
        Ok(buf.len())
    }

    fn flush(&mut self) -> (r: Result<(), TransportError>) {
        if !self.open {
            return Err(TransportError::Closed);
        }
        Ok(())
    }

    fn close(&mut self) {
        self.open = false;
    }
}

} // verus!
