//! The pipeline: an ordered chain of handlers driving one transport.
//!
//! Handlers are kept transport-end first. Outbound traffic enters at the
//! application end (the back of the chain) and is translated handler by
//! handler until raw bytes reach the transport; inbound chunks travel the
//! opposite way. Adjacent handlers must agree on the shape they exchange,
//! checked when a handler is inserted, never at traffic time.

use crate::handler::{Handler, LayerTranslatorError, MsgType};
use crate::transport::{read_chunk, read_rest, Transport, TransportError};
use vstd::prelude::*;

verus! {

/// Why a pipeline operation failed.
#[derive(Clone, Copy, Debug, PartialEq, Eq, Structural)]
pub enum PipelineError {
    /// A handler could not translate the value it was given; the value
    /// itself comes back untouched beside this error.
    Translation(LayerTranslatorError),
    /// The transport failed; terminal for the pipeline.
    Transport(TransportError),
    /// A handler insertion broke the chain's shape-matching invariant or
    /// came after traffic had already started.
    Configuration,
    /// No inbound data is available yet; yield and retry later.
    NotReady,
}

/// The life of a pipeline: handlers may be added only before the first
/// traffic call; once the transport reports closed, the pipeline is done.
#[derive(Clone, Copy, Debug, PartialEq, Eq, Structural)]
pub enum PipelineState {
    /// Handlers are still being added; no traffic has flowed.
    Uninitialized,
    /// Traffic has started; the chain is frozen.
    Active,
    /// Terminal: every further traffic call fails.
    Closed,
}

/// The outcome of driving a value through a chain of handlers: either the
/// fully translated bytes, or the exact input that the failing handler
/// received, preserved for retry.
pub enum ChainOutcome {
    Done { bytes: Seq<u8> },
    Stuck { input: Seq<u8> },
}

/// The outbound traversal: apply each handler's `write`, application end
/// (the back of the chain) first, until bytes for the transport emerge or
/// a handler fails.
pub open spec fn chain_write<H: Handler>(handlers: Seq<H>, data: Seq<u8>) -> ChainOutcome
    decreases handlers.len(),
{
    if handlers.len() == 0 {
        ChainOutcome::Done { bytes: data }
    } else {
        match handlers.last().write_spec(data) {
            Some(next) => chain_write(handlers.drop_last(), next),
            None => ChainOutcome::Stuck { input: data },
        }
    }
}

/// The inbound traversal: apply each handler's `read`, transport end (the
/// front of the chain) first, until the application-facing value emerges or
/// a handler fails.
pub open spec fn chain_read<H: Handler>(handlers: Seq<H>, data: Seq<u8>) -> ChainOutcome
    decreases handlers.len(),
{
    if handlers.len() == 0 {
        ChainOutcome::Done { bytes: data }
    } else {
        match handlers[0].read_spec(data) {
            Some(next) => chain_read(handlers.drop_first(), next),
            None => ChainOutcome::Stuck { input: data },
        }
    }
}

/// Whether `h` may become the new transport-end handler of `handlers`.
pub open spec fn fits_first<H: Handler>(handlers: Seq<H>, h: H) -> bool {
    &&& h.down_type() == MsgType::Bytes
    &&& (handlers.len() > 0 ==> h.up_type() == handlers[0].down_type())
}

/// Whether `h` may become the new application-end handler of `handlers`.
pub open spec fn fits_last<H: Handler>(handlers: Seq<H>, h: H) -> bool {
    if handlers.len() == 0 {
        h.down_type() == MsgType::Bytes
    } else {
        h.down_type() == handlers.last().up_type()
    }
}

/// One connection's protocol stack: the ordered handler chain plus the
/// transport it drives. Created per connection and destroyed with it.
pub struct Pipeline<T: Transport, H: Handler> {
    /// The chain, transport end first, application end last.
    pub handlers: Vec<H>,
    /// The duplex endpoint under the chain, shared by both directions.
    pub transport: T,
    /// Where in its life this pipeline stands.
    pub state: PipelineState,
}

impl<T: Transport, H: Handler> Pipeline<T, H> {
    /// The chain type-matches end to end: the transport-end handler speaks
    /// raw bytes downward, and every adjacent pair agrees on the shape it
    /// exchanges. Constructors establish this and every operation keeps it.
    pub open spec fn wf(self) -> bool {
        &&& (self.handlers@.len() > 0 ==> self.handlers@[0].down_type() == MsgType::Bytes)
        &&& (forall|k: int|
            0 <= k && k + 1 < self.handlers@.len() ==> (#[trigger] self.handlers@[k].up_type())
                == self.handlers@[k + 1].down_type())
    }

    /// A fresh pipeline around `transport`, with no handlers yet.
    /// `capacity` is a sizing hint for the chain, not a limit.
    pub fn new(capacity: usize, transport: T) -> (p: Pipeline<T, H>)
        ensures
            p.wf(),
            p.handlers@ == Seq::<H>::empty(),
            p.transport == transport,
            p.state == PipelineState::Uninitialized,
    {
        Pipeline {
            handlers: Vec::with_capacity(capacity),
            transport,
            state: PipelineState::Uninitialized,
        }
    }

    /// Insert a handler at the transport end of the chain.
    ///
    /// Succeeds exactly when no traffic has flowed yet and the handler's
    /// declared shapes fit: raw bytes downward, and its upstream shape equal
    /// to what the old transport-end handler speaks downward. On rejection
    /// the handler comes back with a configuration error and the chain is
    /// unchanged.
    pub fn handler_add_first(&mut self, handler: H) -> (r: Result<(), (H, PipelineError)>)
        requires
            old(self).wf(),
        ensures
            final(self).wf(),
            final(self).transport == old(self).transport,
            final(self).state == old(self).state,
            if old(self).state == PipelineState::Uninitialized && fits_first(
                old(self).handlers@,
                handler,
            ) {
                r is Ok && final(self).handlers@ == old(self).handlers@.insert(0, handler)
            } else {
                (r matches Err((ret, e)) && ret == handler && e == PipelineError::Configuration)
                    && final(self).handlers@ == old(self).handlers@
            },
    {
        if !(self.state == PipelineState::Uninitialized) {
            return Err((handler, PipelineError::Configuration));
        }
        if !(handler.declared_down() == MsgType::Bytes) {
            return Err((handler, PipelineError::Configuration));
        }
        if self.handlers.len() > 0 {
            let neighbor_down = self.handlers[0].declared_down();
            if !(handler.declared_up() == neighbor_down) {
                return Err((handler, PipelineError::Configuration));
            }
        }
        self.handlers.insert(0, handler);
        Ok(())
    }

    /// Insert a handler at the application end of the chain.
    ///
    /// Succeeds exactly when no traffic has flowed yet and the handler's
    /// downstream shape equals what the old application-end handler speaks
    /// upward (raw bytes when the chain is empty). On rejection the handler
    /// comes back with a configuration error and the chain is unchanged.
    pub fn handler_add_last(&mut self, handler: H) -> (r: Result<(), (H, PipelineError)>)
        requires
            old(self).wf(),
        ensures
            final(self).wf(),
            final(self).transport == old(self).transport,
            final(self).state == old(self).state,
            if old(self).state == PipelineState::Uninitialized && fits_last(
                old(self).handlers@,
                handler,
            ) {
                r is Ok && final(self).handlers@ == old(self).handlers@.push(handler)
            } else {
                (r matches Err((ret, e)) && ret == handler && e == PipelineError::Configuration)
                    && final(self).handlers@ == old(self).handlers@
            },
    {
        if !(self.state == PipelineState::Uninitialized) {
            return Err((handler, PipelineError::Configuration));
        }
        let fits = if self.handlers.len() == 0 {
            handler.declared_down() == MsgType::Bytes
        } else {
            let neighbor_up = self.handlers[self.handlers.len() - 1].declared_up();
            handler.declared_down() == neighbor_up
        };
        if !fits {
            return Err((handler, PipelineError::Configuration));
        }
        self.handlers.push(handler);
        Ok(())
    }

    /// Whether the chain type-matches end to end, as a runtime check for
    /// unverified callers that must meet `wf` before driving traffic.
    pub fn well_formed(&self) -> (b: bool)
        ensures
            b == self.wf(),
    {
        let n = self.handlers.len();
        if n == 0 {
            return true;
        }
        if !(self.handlers[0].declared_down() == MsgType::Bytes) {
            return false;
        }
        let mut i: usize = 0;
        while i + 1 < n
            invariant
                n == self.handlers@.len(),
                i < n,
                self.handlers@[0].down_type() == MsgType::Bytes,
                forall|k: int|
                    0 <= k < i ==> (#[trigger] self.handlers@[k].up_type())
                        == self.handlers@[k + 1].down_type(),
            decreases n - i,
        {
            let up = self.handlers[i].declared_up();
            let down = self.handlers[i + 1].declared_down();
            if !(up == down) {
                return false;
            }
            i = i + 1;
        }
        true
    }

    /// Drive an application value out through the chain and onto the
    /// transport.
    ///
    /// The value passes the handlers application end first; the bytes that
    /// emerge are written to the transport as one chunk. The first traffic
    /// call ends the configuration phase, whatever its outcome. If a
    /// handler fails, traversal stops and the exact value that handler
    /// received comes back beside the error; if the transport reports
    /// closed, the pipeline becomes terminally closed and the bytes that
    /// were about to be written come back beside the error.
    pub fn write(&mut self, data: Vec<u8>) -> (r: Result<(), (Vec<u8>, PipelineError)>)
        requires
            old(self).wf(),
        ensures
            final(self).wf(),
            final(self).handlers@ == old(self).handlers@,
            final(self).transport.inbound() == old(self).transport.inbound(),
            old(self).state == PipelineState::Closed ==> {
                &&& r matches Err((v, e)) && v@ == data@ && e == PipelineError::Transport(
                    TransportError::Closed,
                )
                &&& final(self).state == PipelineState::Closed
                &&& final(self).transport == old(self).transport
            },
            old(self).state != PipelineState::Closed ==> match chain_write(
                old(self).handlers@,
                data@,
            ) {
                ChainOutcome::Done { bytes } => {
                    if old(self).transport.is_open() {
                        &&& r is Ok
                        &&& final(self).state == PipelineState::Active
                        &&& final(self).transport.is_open()
                        &&& final(self).transport.outbound() == old(
                            self,
                        ).transport.outbound().push(bytes)
                    } else {
                        &&& r matches Err((v, e)) && v@ == bytes && e == PipelineError::Transport(
                            TransportError::Closed,
                        )
                        &&& final(self).state == PipelineState::Closed
                        &&& final(self).transport.outbound() == old(self).transport.outbound()
                    }
                },
                ChainOutcome::Stuck { input } => {
                    &&& (r matches Err((v, e)) && v@ == input
                        && e matches PipelineError::Translation(_))
                    &&& final(self).state == PipelineState::Active
                    &&& final(self).transport == old(self).transport
                },
            },
    {
        if self.state == PipelineState::Closed {
            return Err((data, PipelineError::Transport(TransportError::Closed)));
        }
        self.state = PipelineState::Active;
        let ghost handlers0 = self.handlers@;
        let ghost target = chain_write(handlers0, data@);
        proof {
            assert(handlers0.take(handlers0.len() as int) =~= handlers0);
        }
        let mut v = data;
        let mut i: usize = self.handlers.len();
        while i > 0
            invariant
                i <= self.handlers@.len(),
                self.handlers@ == handlers0,
                handlers0 == old(self).handlers@,
                old(self).wf(),
                old(self).state != PipelineState::Closed,
                self.state == PipelineState::Active,
                self.transport == old(self).transport,
                target == chain_write(old(self).handlers@, data@),
                chain_write(handlers0.take(i as int), v@) == target,
            decreases i,
        {
            i = i - 1;
            proof {
                assert(handlers0.take(i + 1).last() == handlers0[i as int]);
                assert(handlers0.take(i + 1).drop_last() =~= handlers0.take(i as int));
            }
            let h = &self.handlers[i];
            match h.write(v) {
                Ok(next) => {
                    v = next;
                },
                Err((orig, e)) => {
                    return Err((orig, PipelineError::Translation(e)));
                },
            }
        }
        proof {
            assert(handlers0.take(0) =~= Seq::<H>::empty());
        }
        match self.transport.write(&v) {
            Ok(_written) => Ok(()),
            Err(e) => {
                self.state = PipelineState::Closed;
                Err((v, PipelineError::Transport(e)))
            },
        }
    }

    /// Deliver one inbound chunk up through the chain to the application.
    ///
    /// At most `buf_len` bytes of the transport's front chunk are read (its
    /// remainder stays queued) and passed through the handlers transport
    /// end first. The first traffic call ends the configuration phase,
    /// whatever its outcome. If a handler fails, the exact value it
    /// received comes back beside the error; a closed transport closes the
    /// pipeline terminally; while no chunk is queued the call reports
    /// not-ready and changes nothing.
    pub fn read(&mut self, buf_len: usize) -> (r: Result<Vec<u8>, (Vec<u8>, PipelineError)>)
        requires
            old(self).wf(),
        ensures
            final(self).wf(),
            final(self).handlers@ == old(self).handlers@,
            final(self).transport.outbound() == old(self).transport.outbound(),
            old(self).state == PipelineState::Closed ==> {
                &&& r matches Err((v, e)) && v@ == Seq::<u8>::empty() && e
                    == PipelineError::Transport(TransportError::Closed)
                &&& final(self).state == PipelineState::Closed
                &&& final(self).transport == old(self).transport
            },
            old(self).state != PipelineState::Closed ==> (if !old(self).transport.is_open() {
                &&& r matches Err((v, e)) && v@ == Seq::<u8>::empty() && e
                    == PipelineError::Transport(TransportError::Closed)
                &&& final(self).state == PipelineState::Closed
                &&& final(self).transport.inbound() == old(self).transport.inbound()
            } else if old(self).transport.inbound().len() == 0 {
                &&& r matches Err((v, e)) && v@ == Seq::<u8>::empty() && e
                    == PipelineError::NotReady
                &&& final(self).state == PipelineState::Active
                &&& final(self).transport.inbound() == old(self).transport.inbound()
                &&& final(self).transport.is_open()
            } else {
                &&& final(self).state == PipelineState::Active
                &&& final(self).transport.is_open()
                &&& final(self).transport.inbound() == read_rest(
                    old(self).transport.inbound(),
                    buf_len as nat,
                )
                &&& match chain_read(
                    old(self).handlers@,
                    read_chunk(old(self).transport.inbound(), buf_len as nat),
                ) {
                    ChainOutcome::Done { bytes } => r matches Ok(v) && v@ == bytes,
                    ChainOutcome::Stuck { input } => (r matches Err((v, e)) && v@ == input
                        && e matches PipelineError::Translation(_)),
                }
            }),
    {
        if self.state == PipelineState::Closed {
            return Err((Vec::new(), PipelineError::Transport(TransportError::Closed)));
        }
        self.state = PipelineState::Active;
        let mut buf: Vec<u8> = Vec::with_capacity(buf_len);
        let mut z: usize = 0;
        while z < buf_len
            invariant
                z <= buf_len,
                buf@.len() == z,
            decreases buf_len - z,
        {
            buf.push(0u8);
            z = z + 1;
        }
        match self.transport.read(&mut buf) {
            Err(TransportError::Closed) => {
                self.state = PipelineState::Closed;
                Err((Vec::new(), PipelineError::Transport(TransportError::Closed)))
            },
            Err(TransportError::WouldBlock) => {
                Err((Vec::new(), PipelineError::NotReady))
            },
            Ok(n) => {
                let ghost raw = read_chunk(old(self).transport.inbound(), buf_len as nat);
                buf.truncate(n);
                proof {
                    assert(buf@ =~= raw);
                }
                let ghost handlers0 = self.handlers@;
                let ghost target = chain_read(handlers0, raw);
                let ghost mid = self.transport;
                proof {
                    assert(handlers0.skip(0) =~= handlers0);
                }
                let mut v = buf;
                let mut i: usize = 0;
                while i < self.handlers.len()
                    invariant
                        i <= self.handlers@.len(),
                        self.handlers@ == handlers0,
                        handlers0 == old(self).handlers@,
                        old(self).wf(),
                        old(self).state != PipelineState::Closed,
                        old(self).transport.is_open(),
                        old(self).transport.inbound().len() > 0,
                        self.state == PipelineState::Active,
                        self.transport == mid,
                        mid.is_open(),
                        mid.outbound() == old(self).transport.outbound(),
                        mid.inbound() == read_rest(
                            old(self).transport.inbound(),
                            buf_len as nat,
                        ),
                        target == chain_read(
                            old(self).handlers@,
                            read_chunk(old(self).transport.inbound(), buf_len as nat),
                        ),
                        chain_read(handlers0.skip(i as int), v@) == target,
                    decreases self.handlers@.len() - i,
                {
                    proof {
                        assert(handlers0.skip(i as int)[0] == handlers0[i as int]);
                        assert(handlers0.skip(i as int).drop_first() =~= handlers0.skip(i + 1));
                    }
                    let h = &self.handlers[i];
                    match h.read(v) {
                        Ok(next) => {
                            v = next;
                            i = i + 1;
                        },
                        Err((orig, e)) => {
                            return Err((orig, PipelineError::Translation(e)));
                        },
                    }
                }
                proof {
                    assert(handlers0.skip(handlers0.len() as int) =~= Seq::<H>::empty());
                }
                Ok(v)
            },
        }
    }
}

/// Law: a pipeline with zero handlers is the identity in both directions.
/// The bytes an application writes are exactly the bytes handed to the
/// transport, and the bytes the transport delivers are exactly what the
/// application reads back.
pub proof fn lemma_empty_chain_identity<H: Handler>(handlers: Seq<H>, b: Seq<u8>)
    requires
        handlers.len() == 0,
    ensures
        chain_write(handlers, b) == (ChainOutcome::Done { bytes: b }),
        chain_read(handlers, b) == (ChainOutcome::Done { bytes: b }),
{
}

} // verus!
