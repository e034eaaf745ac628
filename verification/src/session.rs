use vstd::prelude::*;
use crate::encode::encode_block;
use crate::encode::encoded;
use crate::encode::lemma_encoded_len;
use crate::ring::RingBuffer;
use crate::ring::accept_count;
use crate::ring::ring_bytes;
use crate::ring::ring_capacity;
use crate::streamer::Phase;
use crate::streamer::SendStatus;
use crate::streamer::Streamer;
use crate::streamer::TransportKind;
use crate::streamer::WriteError;
use crate::streamer::drain_count;
use crate::streamer::settle_outcome;
use crate::streamer::settle_pending;

verus! {

/// Session counters: how many drive-loop iterations completed, and how many
/// bytes were moved onto the wire versus unavoidably dropped.  Mutated only
/// by the drive loop, read for the final report.
pub struct SessionStats {
    pub iterations: u64,
    pub moved: u64,
    pub lost: u64,
}

impl SessionStats {
    /// Counters start the session at zero.
    pub fn new() -> (s: SessionStats)
        ensures
            s.iterations == 0,
            s.moved == 0,
            s.lost == 0,
    {
        SessionStats { iterations: 0, moved: 0, lost: 0 }
    }

    /// Folds the outcome of one drain step into the counters, as the drive
    /// loop does: moved bytes are added on success, moved and lost bytes on
    /// backpressure, and a fatal error changes nothing but stops the loop.
    /// An iteration is counted whenever the loop goes on.
    pub fn record(&mut self, outcome: &Result<usize, WriteError>) -> (stop: bool)
        requires
            *outcome matches Ok(m) ==> old(self).moved + m <= u64::MAX,
            *outcome matches Err(WriteError::BufferOverfilled(m, l)) ==> old(self).moved + m
                <= u64::MAX && old(self).lost + l <= u64::MAX,
        ensures
            match *outcome {
                Ok(m) => {
                    &&& !stop
                    &&& final(self).moved == old(self).moved + m
                    &&& final(self).lost == old(self).lost
                },
                Err(WriteError::BufferOverfilled(m, l)) => {
                    &&& !stop
                    &&& final(self).moved == old(self).moved + m
                    &&& final(self).lost == old(self).lost + l
                },
                Err(WriteError::Io(_)) => {
                    &&& stop
                    &&& final(self).moved == old(self).moved
                    &&& final(self).lost == old(self).lost
                },
            },
            final(self).iterations == (if stop {
                old(self).iterations as int
            } else if old(self).iterations < u64::MAX {
                old(self).iterations + 1
            } else {
                u64::MAX as int
            }),
    {
        match outcome {
            Ok(m) => {
                self.moved = self.moved + (*m as u64);
                self.iterations = self.iterations.saturating_add(1);
                false
            },
            Err(WriteError::BufferOverfilled(m, l)) => {
                self.moved = self.moved + (*m as u64);
                self.lost = self.lost + (*l as u64);
                self.iterations = self.iterations.saturating_add(1);
                false
            },
            Err(WriteError::Io(_)) => true,
        }
    }

    /// Average bytes moved per completed iteration, rounded down; zero when
    /// no iteration completed, so the report never divides by zero.
    pub fn avg_moved_per_iteration(&self) -> (q: u64)
        ensures
            self.iterations > 0 ==> q == self.moved as int / self.iterations as int,
            self.iterations == 0 ==> q == 0,
    {
        if self.iterations == 0 {
            0
        } else {
            self.moved / self.iterations
        }
    }

    /// Average bytes lost per completed iteration, rounded down; zero when
    /// no iteration completed.
    pub fn avg_lost_per_iteration(&self) -> (q: u64)
        ensures
            self.iterations > 0 ==> q == self.lost as int / self.iterations as int,
            self.iterations == 0 ==> q == 0,
    {
        if self.iterations == 0 {
            0
        } else {
            self.lost / self.iterations
        }
    }

    /// Success ratio in whole percent: moved out of everything accounted,
    /// rounded down.  When nothing was accounted at all the ratio is 100 by
    /// convention, never a division by zero.
    pub fn success_percent(&self) -> (p: u64)
        ensures
            self.moved + self.lost == 0 ==> p == 100,
            self.moved + self.lost > 0 ==> p == self.moved * 100 / (self.moved + self.lost),
            p <= 100,
    {
        let total: u128 = self.moved as u128 + self.lost as u128;
        if total == 0 {
            100
        } else {
            let ratio: u128 = (self.moved as u128) * 100 / total;
            proof {
                assert((self.moved as int) * 100 / (total as int) <= 100) by (nonlinear_arith)
                    requires
                        0 < total as int,
                        0 <= self.moved as int <= total as int,
                ;
            }
            ratio as u64
        }
    }
}

/// One streaming session: the ring buffer between the capture side and the
/// network side, the streamer draining it, the counters, and the running
/// total of bytes the producer has enqueued.  Everything the drive loop owns.
pub struct Session {
    pub ring: RingBuffer,
    pub streamer: Streamer,
    pub stats: SessionStats,
    /// Total bytes accepted into the ring buffer since the session started.
    pub enqueued: u64,
}

impl Session {
    /// Loss accounting invariant: every byte the producer ever enqueued is
    /// accounted exactly once: as moved, as lost, as still waiting in the
    /// ring buffer, or as held by the streamer (staged or discarded but not
    /// yet settled).  The counters never double-count and never lose track.
    pub open spec fn inv(&self) -> bool {
        &&& self.streamer.wf()
        &&& self.stats.moved + self.stats.lost + ring_bytes(self.ring).len()
            + self.streamer.pending@.len() + self.streamer.discarded == self.enqueued
        &&& ring_bytes(self.ring).len() <= ring_capacity(self.ring)
        &&& ring_capacity(self.ring) <= usize::MAX
    }

    /// A fresh session: an empty ring buffer of the given capacity, a
    /// streamer for an established transport, and counters at zero.
    pub fn new(capacity: usize, kind: TransportKind, chunk_limit: usize) -> (s: Session)
        requires
            chunk_limit >= 1,
        ensures
            s.inv(),
            s.enqueued == 0,
            s.stats.iterations == 0 && s.stats.moved == 0 && s.stats.lost == 0,
            s.streamer.kind == kind,
            s.streamer.chunk_limit == chunk_limit,
            s.streamer.phase == Phase::Idle,
            s.streamer.pending@ == Seq::<u8>::empty(),
            ring_bytes(s.ring) == Seq::<u8>::empty(),
            ring_capacity(s.ring) == capacity as nat,
    {
        Session {
            ring: RingBuffer::new(capacity),
            streamer: Streamer::new(kind, chunk_limit),
            stats: SessionStats::new(),
            enqueued: 0,
        }
    }

    /// Producer boundary: offers bytes to the ring buffer without blocking.
    /// What fits is appended in order; the excess is dropped at the source,
    /// which is the producer-side half of backpressure.
    pub fn feed(&mut self, bytes: &[u8]) -> (n: usize)
        requires
            old(self).inv(),
            old(self).enqueued + bytes@.len() <= u64::MAX,
        ensures
            final(self).inv(),
            n as nat == accept_count(
                ring_capacity(old(self).ring),
                ring_bytes(old(self).ring).len(),
                bytes@.len(),
            ),
            ring_bytes(final(self).ring) == ring_bytes(old(self).ring) + bytes@.take(n as int),
            ring_capacity(final(self).ring) == ring_capacity(old(self).ring),
            final(self).enqueued == old(self).enqueued + n,
            final(self).streamer == old(self).streamer,
            final(self).stats == old(self).stats,
    {
        let n = self.ring.write(bytes);
        self.enqueued = self.enqueued + (n as u64);
        n
    }

    /// Audio capture adapter: encodes one block of samples to little-endian
    /// bytes and offers them to the ring buffer, dropping the excess at the
    /// source.  Never blocks and never retries within the callback.
    pub fn feed_samples(&mut self, samples: &[i16]) -> (n: usize)
        requires
            old(self).inv(),
            old(self).enqueued + 2 * samples@.len() <= u64::MAX,
        ensures
            final(self).inv(),
            n as nat == accept_count(
                ring_capacity(old(self).ring),
                ring_bytes(old(self).ring).len(),
                encoded(samples@).len(),
            ),
            ring_bytes(final(self).ring) == ring_bytes(old(self).ring) + encoded(
                samples@,
            ).take(n as int),
            ring_capacity(final(self).ring) == ring_capacity(old(self).ring),
            final(self).enqueued == old(self).enqueued + n,
            final(self).streamer == old(self).streamer,
            final(self).stats == old(self).stats,
    {
        proof {
            lemma_encoded_len(samples@);
        }
        let bytes = encode_block(samples);
        self.feed(bytes.as_slice())
    }

    /// Drive loop, first half of one iteration: stages bytes for one send,
    /// draining the ring buffer as the streamer's transport prescribes.  The
    /// caller performs the one bounded send and reports back through
    /// `finish_step`.
    pub fn begin_step(&mut self) -> (wire: Vec<u8>)
        requires
            old(self).inv(),
            old(self).streamer.phase == Phase::Idle,
        ensures
            final(self).inv(),
            final(self).streamer.phase == Phase::InFlight,
            final(self).streamer.kind == old(self).streamer.kind,
            final(self).streamer.chunk_limit == old(self).streamer.chunk_limit,
            wire@ == final(self).streamer.pending@,
            final(self).stats == old(self).stats,
            final(self).enqueued == old(self).enqueued,
            ring_capacity(final(self).ring) == ring_capacity(old(self).ring),
            match old(self).streamer.kind {
                TransportKind::Udp => {
                    &&& final(self).streamer.pending@ == ring_bytes(old(self).ring).take(
                        drain_count(
                            old(self).streamer.chunk_limit as nat,
                            ring_bytes(old(self).ring).len(),
                        ) as int,
                    )
                    &&& final(self).streamer.pending@.len() + final(self).streamer.discarded
                        == ring_bytes(old(self).ring).len()
                    &&& ring_bytes(final(self).ring) == Seq::<u8>::empty()
                },
                TransportKind::Tcp => {
                    &&& final(self).streamer.discarded == 0
                    &&& if old(self).streamer.pending@.len() > 0 {
                        &&& final(self).streamer.pending@ == old(self).streamer.pending@
                        &&& ring_bytes(final(self).ring) == ring_bytes(old(self).ring)
                    } else {
                        let k = drain_count(
                            old(self).streamer.chunk_limit as nat,
                            ring_bytes(old(self).ring).len(),
                        ) as int;
                        &&& final(self).streamer.pending@ == ring_bytes(old(self).ring).take(k)
                        &&& ring_bytes(final(self).ring) == ring_bytes(old(self).ring).skip(k)
                    }
                },
            },
            ring_bytes(old(self).ring).len() == 0 && old(self).streamer.pending@.len() == 0
                ==> wire@.len() == 0 && final(self).streamer.discarded == 0,
    {
        let wire = self.streamer.stage(&mut self.ring);
        wire
    }

    /// Drive loop, second half of one iteration: settles the send, folds the
    /// outcome into the counters, and says whether the loop must stop.  The
    /// loss accounting invariant is preserved: settling moves every staged or
    /// discarded byte into exactly one of the counters, or keeps it staged.
    pub fn finish_step(&mut self, status: SendStatus) -> (stop: bool)
        requires
            old(self).inv(),
            old(self).streamer.phase == Phase::InFlight,
            status matches SendStatus::Sent(n) ==> n <= old(self).streamer.pending@.len(),
        ensures
            final(self).inv(),
            final(self).enqueued == old(self).enqueued,
            ring_bytes(final(self).ring) == ring_bytes(old(self).ring),
            ({
                let r = settle_outcome(
                    old(self).streamer.kind,
                    old(self).streamer.pending@,
                    old(self).streamer.discarded as nat,
                    status,
                );
                match r {
                    Ok(m) => {
                        &&& !stop
                        &&& final(self).stats.moved == old(self).stats.moved + m
                        &&& final(self).stats.lost == old(self).stats.lost
                        &&& final(self).streamer.phase == Phase::Idle
                    },
                    Err(WriteError::BufferOverfilled(m, l)) => {
                        &&& !stop
                        &&& final(self).stats.moved == old(self).stats.moved + m
                        &&& final(self).stats.lost == old(self).stats.lost + l
                        &&& final(self).streamer.phase == Phase::Idle
                    },
                    Err(WriteError::Io(_)) => {
                        &&& stop
                        &&& final(self).stats.moved == old(self).stats.moved
                        &&& final(self).stats.lost == old(self).stats.lost
                        &&& final(self).streamer.phase == Phase::Terminated
                    },
                }
            }),
            final(self).streamer.pending@ == settle_pending(
                old(self).streamer.kind,
                old(self).streamer.pending@,
                status,
            ),
            final(self).stats.iterations == (if stop {
                old(self).stats.iterations as int
            } else if old(self).stats.iterations < u64::MAX {
                old(self).stats.iterations + 1
            } else {
                u64::MAX as int
            }),
    {
        let outcome = self.streamer.settle(status);
        let stop = self.stats.record(&outcome);
        stop
    }
}

} // verus!
