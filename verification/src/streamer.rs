use vstd::prelude::*;
use crate::ring::RingBuffer;
use crate::ring::ring_bytes;
use crate::ring::ring_capacity;

verus! {

/// Why one drain step did not fully succeed.
#[derive(Clone, Copy, Debug, PartialEq, Eq, Structural)]
pub enum WriteError {
    /// Backpressure: the first count of bytes was moved, the second was
    /// unavoidably dropped.  Expected and recoverable; the loop continues.
    BufferOverfilled(usize, usize),
    /// Unrecoverable transport failure, with the OS error code where one is
    /// known.  Always fatal: it terminates the session.
    Io(Option<i32>),
}

/// What the transport did with the bytes staged for one send.
#[derive(Clone, Copy, Debug, PartialEq, Eq, Structural)]
pub enum SendStatus {
    /// The socket accepted this many bytes: all of them for a datagram,
    /// possibly fewer (a short write) for a stream.
    Sent(usize),
    /// The send failed but cost no more than this one chunk; the socket is
    /// still usable.
    Dropped,
    /// The socket reported an unrecoverable error.
    Fatal(Option<i32>),
}

/// The two transports a streamer can drain onto.
#[derive(Clone, Copy, Debug, PartialEq, Eq, Structural)]
pub enum TransportKind {
    Udp,
    Tcp,
}

/// Where a streamer stands: ready to drain, waiting for the result of one
/// send, or shut down for good by a fatal error.
#[derive(Clone, Copy, Debug, PartialEq, Eq, Structural)]
pub enum Phase {
    Idle,
    InFlight,
    Terminated,
}

/// How many of the available bytes one drain step takes: all of them, up to
/// the step's limit.
pub open spec fn drain_count(limit: nat, avail: nat) -> nat {
    if avail <= limit {
        avail
    } else {
        limit
    }
}

/// The outcome one drain step reports once the transport has answered, as a
/// function of the transport kind, the staged bytes, the bytes already
/// discarded at staging, and the transport's answer.
pub open spec fn settle_outcome(
    kind: TransportKind,
    staged: Seq<u8>,
    discarded: nat,
    status: SendStatus,
) -> Result<usize, WriteError> {
    match status {
        SendStatus::Sent(n) => match kind {
            TransportKind::Tcp => Ok(n),
            TransportKind::Udp => {
                let lost = (staged.len() - n) + discarded;
                if lost == 0 {
                    Ok(n)
                } else {
                    Err(WriteError::BufferOverfilled(n, lost as usize))
                }
            },
        },
        SendStatus::Dropped => match kind {
            TransportKind::Tcp => Ok(0),
            TransportKind::Udp => {
                let lost = staged.len() + discarded;
                if lost == 0 {
                    Ok(0)
                } else {
                    Err(WriteError::BufferOverfilled(0, lost as usize))
                }
            },
        },
        SendStatus::Fatal(cause) => Err(WriteError::Io(cause)),
    }
}

/// The bytes still staged after one drain step settles: a stream keeps the
/// unwritten remainder for the next step, a datagram transport keeps nothing.
pub open spec fn settle_pending(kind: TransportKind, staged: Seq<u8>, status: SendStatus) -> Seq<
    u8,
> {
    match status {
        SendStatus::Sent(n) => match kind {
            TransportKind::Tcp => staged.skip(n as int),
            TransportKind::Udp => Seq::<u8>::empty(),
        },
        SendStatus::Dropped => match kind {
            TransportKind::Tcp => staged,
            TransportKind::Udp => Seq::<u8>::empty(),
        },
        SendStatus::Fatal(_) => staged,
    }
}

/// One streaming transport endpoint, selected once at startup: the state
/// machine behind "drain the consumer side and deliver it somewhere": the
/// part of a drain step that decides what goes on the wire and how the result
/// is accounted.  The socket itself lives with the caller, which performs one
/// bounded send between `stage` and `settle`.
///
/// Construction corresponds to an established transport: a streamer exists
/// only once its socket is bound or connected, and is ready to drain at once.
pub struct Streamer {
    /// Which transport this streamer drains onto; fixed for its lifetime.
    pub kind: TransportKind,
    /// UDP: the largest datagram payload; TCP: the most bytes drained per step.
    pub chunk_limit: usize,
    /// Bytes drained from the buffer and owed to the wire: the staged chunk
    /// while a send is in flight, and for TCP also the remainder that a short
    /// write left for the next step.
    pub pending: Vec<u8>,
    /// Bytes discarded at the last staging because they exceeded one datagram
    /// payload; counted as lost when the step settles.
    pub discarded: usize,
    /// Where the streamer stands in its life.
    pub phase: Phase,
}

impl Streamer {
    /// The streamer's bookkeeping stays within machine bounds, only the
    /// datagram transport ever discards at staging, and a datagram transport
    /// holds nothing between steps: what one step staged, settling that step
    /// accounts in full.
    pub open spec fn wf(&self) -> bool {
        &&& self.chunk_limit >= 1
        &&& self.pending@.len() + self.discarded <= usize::MAX
        &&& (self.kind == TransportKind::Tcp ==> self.discarded == 0)
        &&& (self.kind == TransportKind::Udp && self.phase == Phase::Idle
            ==> self.pending@.len() == 0 && self.discarded == 0)
    }

    /// A new streamer for an established transport: nothing staged, nothing
    /// discarded, ready for its first drain step.
    pub fn new(kind: TransportKind, chunk_limit: usize) -> (s: Streamer)
        requires
            chunk_limit >= 1,
        ensures
            s.wf(),
            s.kind == kind,
            s.chunk_limit == chunk_limit,
            s.pending@ == Seq::<u8>::empty(),
            s.discarded == 0,
            s.phase == Phase::Idle,
    {
        Streamer {
            kind,
            chunk_limit,
            pending: Vec::new(),
            discarded: 0,
            phase: Phase::Idle,
        }
    }

    /// First half of one drain step: takes bytes from the consumer side of
    /// the ring buffer and stages what should go onto the wire.
    ///
    /// UDP drains everything available, stages at most one datagram payload,
    /// and discards the rest now rather than send stale audio later.  TCP
    /// retries the remainder of a short write before anything new is drained,
    /// and otherwise drains up to its limit; nothing is discarded.
    pub fn stage(&mut self, rb: &mut RingBuffer) -> (wire: Vec<u8>)
        requires
            old(self).wf(),
            old(self).phase == Phase::Idle,
        ensures
            final(self).wf(),
            final(self).kind == old(self).kind,
            final(self).chunk_limit == old(self).chunk_limit,
            final(self).phase == Phase::InFlight,
            wire@ == final(self).pending@,
            ring_capacity(*final(rb)) == ring_capacity(*old(rb)),
            match old(self).kind {
                TransportKind::Udp => {
                    &&& final(self).pending@ == ring_bytes(*old(rb)).take(
                        drain_count(
                            old(self).chunk_limit as nat,
                            ring_bytes(*old(rb)).len(),
                        ) as int,
                    )
                    &&& final(self).pending@.len() + final(self).discarded == ring_bytes(
                        *old(rb),
                    ).len()
                    &&& ring_bytes(*final(rb)) == Seq::<u8>::empty()
                },
                TransportKind::Tcp => {
                    &&& final(self).discarded == 0
                    &&& if old(self).pending@.len() > 0 {
                        &&& final(self).pending@ == old(self).pending@
                        &&& ring_bytes(*final(rb)) == ring_bytes(*old(rb))
                    } else {
                        let k = drain_count(
                            old(self).chunk_limit as nat,
                            ring_bytes(*old(rb)).len(),
                        ) as int;
                        &&& final(self).pending@ == ring_bytes(*old(rb)).take(k)
                        &&& ring_bytes(*final(rb)) == ring_bytes(*old(rb)).skip(k)
                    }
                },
            },
    {
        match self.kind {
            TransportKind::Udp => {
                let avail = rb.available();
                let mut drained = rb.read(avail);
                proof {
                    assert(ring_bytes(*old(rb)).take(avail as int) =~= ring_bytes(*old(rb)));
                    assert(ring_bytes(*final(rb)) =~= Seq::<u8>::empty());
                }
                if drained.len() > self.chunk_limit {
                    let excess = drained.split_off(self.chunk_limit);
                    self.discarded = excess.len();
                } else {
                    self.discarded = 0;
                }
                proof {
                    assert(drained@ =~= ring_bytes(*old(rb)).take(
                        drain_count(self.chunk_limit as nat, ring_bytes(*old(rb)).len()) as int,
                    ));
                }
                self.pending = drained;
            },
            TransportKind::Tcp => {
                if self.pending.len() == 0 {
                    self.pending = rb.read(self.chunk_limit);
                }
            },
        }
        self.phase = Phase::InFlight;
        let wire = self.pending.clone();
        proof {
            assert(wire@ =~= self.pending@);
        }
        wire
    }

    /// Second half of one drain step: folds the transport's answer into the
    /// streamer and classifies the outcome.  Full success is `Ok` with the
    /// bytes moved; bytes that had to be dropped come back as
    /// `BufferOverfilled`; an unrecoverable socket error comes back as `Io`
    /// and terminates the streamer, after which no further step is valid.
    pub fn settle(&mut self, status: SendStatus) -> (r: Result<usize, WriteError>)
        requires
            old(self).wf(),
            old(self).phase == Phase::InFlight,
            status matches SendStatus::Sent(n) ==> n <= old(self).pending@.len(),
        ensures
            final(self).wf(),
            final(self).kind == old(self).kind,
            final(self).chunk_limit == old(self).chunk_limit,
            r == settle_outcome(
                old(self).kind,
                old(self).pending@,
                old(self).discarded as nat,
                status,
            ),
            final(self).pending@ == settle_pending(old(self).kind, old(self).pending@, status),
            final(self).discarded == (if status matches SendStatus::Fatal(_) {
                old(self).discarded
            } else {
                0
            }),
            final(self).phase == (if status matches SendStatus::Fatal(_) {
                Phase::Terminated
            } else {
                Phase::Idle
            }),
    {
        match status {
            SendStatus::Sent(n) => match self.kind {
                TransportKind::Tcp => {
                    let rest = self.pending.split_off(n);
                    self.pending = rest;
                    self.phase = Phase::Idle;
                    Ok(n)
                },
                TransportKind::Udp => {
                    let lost = (self.pending.len() - n) + self.discarded;
                    self.pending = Vec::new();
                    self.discarded = 0;
                    self.phase = Phase::Idle;
                    if lost == 0 {
                        Ok(n)
                    } else {
                        Err(WriteError::BufferOverfilled(n, lost))
                    }
                },
            },
            SendStatus::Dropped => match self.kind {
                TransportKind::Tcp => {
                    self.phase = Phase::Idle;
                    Ok(0)
                },
                TransportKind::Udp => {
                    let lost = self.pending.len() + self.discarded;
                    self.pending = Vec::new();
                    self.discarded = 0;
                    self.phase = Phase::Idle;
                    if lost == 0 {
                        Ok(0)
                    } else {
                        Err(WriteError::BufferOverfilled(0, lost))
                    }
                },
            },
            SendStatus::Fatal(cause) => {
                self.phase = Phase::Terminated;
                Err(WriteError::Io(cause))
            },
        }
    }
}

/// Law: a drain step that found nothing to send succeeds with zero bytes
/// moved and never errors.  By the contract of `stage`, an empty buffer and
/// nothing pending stage an empty wire with nothing discarded; settling that
/// step reports `Ok(0)` and leaves nothing pending, whatever the transport.
pub proof fn lemma_empty_consumer_step_is_ok_zero(kind: TransportKind, limit: nat)
    ensures
        Seq::<u8>::empty().take(drain_count(limit, 0) as int) == Seq::<u8>::empty(),
        settle_outcome(kind, Seq::<u8>::empty(), 0, SendStatus::Sent(0)) == Ok::<
            usize,
            WriteError,
        >(0),
        settle_pending(kind, Seq::<u8>::empty(), SendStatus::Sent(0)) == Seq::<u8>::empty(),
{
    assert(Seq::<u8>::empty().take(0) =~= Seq::<u8>::empty());
    assert(Seq::<u8>::empty().skip(0) =~= Seq::<u8>::empty());
}

/// Law: for the TCP transport a short write is not loss.  A send that moved
/// only `n` of the staged bytes settles as `Ok(n)` and keeps exactly the
/// unwritten remainder staged; when a later step sends that remainder in
/// full, it settles as `Ok` of the rest and leaves nothing staged.  Across
/// the two steps every staged byte is reported moved and none lost.
pub proof fn lemma_tcp_short_write_is_not_loss(staged: Seq<u8>, n: usize)
    requires
        n <= staged.len(),
        staged.len() <= usize::MAX,
    ensures
        settle_outcome(TransportKind::Tcp, staged, 0, SendStatus::Sent(n)) == Ok::<
            usize,
            WriteError,
        >(n),
        settle_pending(TransportKind::Tcp, staged, SendStatus::Sent(n)) == staged.skip(n as int),
        settle_outcome(
            TransportKind::Tcp,
            staged.skip(n as int),
            0,
            SendStatus::Sent((staged.len() - n) as usize),
        ) == Ok::<usize, WriteError>((staged.len() - n) as usize),
        settle_pending(
            TransportKind::Tcp,
            staged.skip(n as int),
            SendStatus::Sent((staged.len() - n) as usize),
        ) == Seq::<u8>::empty(),
        n + (staged.len() - n) == staged.len(),
{
    let rest = staged.skip(n as int);
    assert(rest.skip(rest.len() as int) =~= Seq::<u8>::empty());
}

/// Law: a failed UDP send loses exactly the bytes of that one step: the
/// staged chunk plus what staging had already discarded, and nothing else.
/// The streamer comes back with nothing staged, so steps before and after
/// are untouched.
pub proof fn lemma_udp_dropped_send_loses_exactly_one_chunk(staged: Seq<u8>, discarded: nat)
    requires
        0 < staged.len() + discarded <= usize::MAX,
    ensures
        settle_outcome(TransportKind::Udp, staged, discarded, SendStatus::Dropped) == Err::<
            usize,
            WriteError,
        >(WriteError::BufferOverfilled(0, (staged.len() + discarded) as usize)),
        settle_pending(TransportKind::Udp, staged, SendStatus::Dropped) == Seq::<u8>::empty(),
{
}

} // verus!
