use vstd::prelude::*;

verus! {

/// How many offered bytes a queue of capacity `cap` that already holds `have`
/// bytes accepts: all of them when they fit, otherwise only up to capacity,
/// and none when the queue is already full.
pub open spec fn accept_count(cap: nat, have: nat, offered: nat) -> nat {
    if have + offered <= cap {
        offered
    } else if have <= cap {
        (cap - have) as nat
    } else {
        0
    }
}

/// The bytes the ring buffer currently holds, oldest first.
pub uninterp spec fn ring_bytes(rb: RingBuffer) -> Seq<u8>;

/// The fixed capacity the ring buffer was created with.
pub uninterp spec fn ring_capacity(rb: RingBuffer) -> nat;

/// Fixed-capacity byte queue backed by an `rtrb` single-producer,
/// single-consumer ring buffer.
///
/// This handle owns both endpoints of the underlying buffer, so every access
/// through it is sequential, and each operation sees exactly the bytes left
/// behind by the one before it.  Writes never block and never grow the buffer
/// beyond its capacity; what does not fit is rejected, not queued.
#[verifier::external_body]
pub struct RingBuffer {
    producer: rtrb::Producer<u8>,
    consumer: rtrb::Consumer<u8>,
}

impl RingBuffer {
    /// Relies on `rtrb::RingBuffer::new`: a queue with exactly `capacity`
    /// slots, holding nothing at first.
    #[verifier::external_body]
    pub fn new(capacity: usize) -> (rb: RingBuffer)
        ensures
            ring_bytes(rb) == Seq::<u8>::empty(),
            ring_capacity(rb) == capacity as nat,
    {
        let (producer, consumer) = rtrb::RingBuffer::new(capacity);
        RingBuffer { producer, consumer }
    }

    /// Relies on `rtrb::RingBuffer::capacity`: the size the buffer was
    /// created with.
    #[verifier::external_body]
    pub fn capacity(&self) -> (c: usize)
        ensures
            c as nat == ring_capacity(*self),
    {
        self.producer.buffer().capacity()
    }

    /// Relies on `rtrb::Consumer::slots`: the number of bytes ready to be
    /// read.
    #[verifier::external_body]
    pub fn available(&self) -> (n: usize)
        ensures
            n as nat == ring_bytes(*self).len(),
    {
        self.consumer.slots()
    }

    /// Relies on `rtrb::Producer::push_partial_slice`: appends as many of the
    /// offered bytes as there are free slots, in order, and reports how many
    /// were accepted.  The call never blocks; rejected bytes are not retained.
    #[verifier::external_body]
    pub fn write(&mut self, bytes: &[u8]) -> (n: usize)
        ensures
            ring_capacity(*final(self)) == ring_capacity(*old(self)),
            n as nat == accept_count(
                ring_capacity(*old(self)),
                ring_bytes(*old(self)).len(),
                bytes@.len(),
            ),
            ring_bytes(*final(self)) == ring_bytes(*old(self)) + bytes@.take(n as int),
    {
        let (pushed, _) = self.producer.push_partial_slice(bytes);
        pushed.len()
    }

    /// Relies on `rtrb::Consumer::pop_partial_slice`: removes the oldest
    /// bytes, at most `max` of them, and hands them out in queue order.  The
    /// call never blocks; an empty buffer yields an empty result.
    #[verifier::external_body]
    pub fn read(&mut self, max: usize) -> (out: Vec<u8>)
        ensures
            ring_capacity(*final(self)) == ring_capacity(*old(self)),
            out@.len() == (if max as int <= ring_bytes(*old(self)).len() {
                max as int
            } else {
                ring_bytes(*old(self)).len() as int
            }),
            out@ == ring_bytes(*old(self)).take(out@.len() as int),
            ring_bytes(*final(self)) == ring_bytes(*old(self)).skip(out@.len() as int),
    {
        let mut buf = vec![0u8; max];
        let (popped, _) = self.consumer.pop_partial_slice(&mut buf);
        let n = popped.len();
        buf.truncate(n);
        buf
    }
}

/// The queue model after one write: the held bytes followed by the accepted
/// prefix of the offered bytes.
pub open spec fn write_model(cap: nat, held: Seq<u8>, offered: Seq<u8>) -> Seq<u8> {
    held + offered.take(accept_count(cap, held.len(), offered.len()) as int)
}

/// The queue model after a whole sequence of writes, first write first.
pub open spec fn writes_model(cap: nat, held: Seq<u8>, writes: Seq<Seq<u8>>) -> Seq<u8>
    decreases writes.len(),
{
    if writes.len() == 0 {
        held
    } else {
        writes_model(cap, write_model(cap, held, writes[0]), writes.skip(1))
    }
}

/// The total number of bytes offered across a sequence of writes.
pub open spec fn total_offered(writes: Seq<Seq<u8>>) -> nat
    decreases writes.len(),
{
    if writes.len() == 0 {
        0
    } else {
        writes[0].len() + total_offered(writes.skip(1))
    }
}

/// All the offered bytes laid end to end, first write first.
pub open spec fn all_offered(writes: Seq<Seq<u8>>) -> Seq<u8>
    decreases writes.len(),
{
    if writes.len() == 0 {
        Seq::<u8>::empty()
    } else {
        writes[0] + all_offered(writes.skip(1))
    }
}

/// For a sequence of writes whose total size fits into the free space of the
/// queue, every offered byte is kept, in offer order, exactly once: the queue
/// afterwards holds what it held before followed by all the offered bytes.
/// Together with the contract of `read`, which removes and returns the oldest
/// held bytes in order, every such byte is later read back exactly once.
pub proof fn lemma_writes_within_capacity_keep_everything(
    cap: nat,
    held: Seq<u8>,
    writes: Seq<Seq<u8>>,
)
    requires
        held.len() + total_offered(writes) <= cap,
    ensures
        writes_model(cap, held, writes) == held + all_offered(writes),
    decreases writes.len(),
{
    if writes.len() == 0 {
        assert(writes_model(cap, held, writes) =~= held + all_offered(writes));
    } else {
        let first = writes[0];
        assert(accept_count(cap, held.len(), first.len()) == first.len());
        assert(first.take(first.len() as int) =~= first);
        assert(write_model(cap, held, first) =~= held + first);
        lemma_writes_within_capacity_keep_everything(cap, held + first, writes.skip(1));
        assert((held + first) + all_offered(writes.skip(1)) =~= held + all_offered(writes));
    }
}

/// A write never brings the queue above its capacity, never blocks for room,
/// and does not retain the rejected suffix of the offered bytes: the queue
/// afterwards holds exactly the old bytes plus the accepted prefix.
pub proof fn lemma_write_never_exceeds_capacity(cap: nat, held: Seq<u8>, offered: Seq<u8>)
    requires
        held.len() <= cap,
    ensures
        accept_count(cap, held.len(), offered.len()) <= offered.len(),
        write_model(cap, held, offered).len() <= cap,
        write_model(cap, held, offered) == held + offered.take(
            accept_count(cap, held.len(), offered.len()) as int,
        ),
{
}

/// Reading splits the held bytes cleanly: what one read returns, followed by
/// what the queue still holds, is exactly what the queue held before, so no
/// byte is duplicated or dropped by draining.
pub proof fn lemma_read_conserves_bytes(held: Seq<u8>, k: int)
    requires
        0 <= k <= held.len(),
    ensures
        held.take(k) + held.skip(k) == held,
{
    assert(held.take(k) + held.skip(k) =~= held);
}

/// Everything a sequence of reads returns, laid end to end: each read takes
/// the oldest bytes still held, at most its own count of them, as the
/// contract of `read` says.
pub open spec fn reads_output(held: Seq<u8>, counts: Seq<nat>) -> Seq<u8>
    decreases counts.len(),
{
    if counts.len() == 0 {
        Seq::<u8>::empty()
    } else {
        let k = (if counts[0] <= held.len() {
            counts[0]
        } else {
            held.len()
        }) as int;
        held.take(k) + reads_output(held.skip(k), counts.skip(1))
    }
}

/// The total number of bytes a sequence of reads asks for.
pub open spec fn total_requested(counts: Seq<nat>) -> nat
    decreases counts.len(),
{
    if counts.len() == 0 {
        0
    } else {
        counts[0] + total_requested(counts.skip(1))
    }
}

/// However a drain is split into reads, the reads together return exactly the
/// oldest bytes, in order and each byte once: the longest prefix of the held
/// bytes that the requested counts cover.  In particular, reads asking for at
/// least everything held return exactly the held bytes.
pub proof fn lemma_reads_drain_in_order(held: Seq<u8>, counts: Seq<nat>)
    ensures
        reads_output(held, counts) == held.take(
            if total_requested(counts) <= held.len() {
                total_requested(counts) as int
            } else {
                held.len() as int
            },
        ),
        total_requested(counts) >= held.len() ==> reads_output(held, counts) == held,
    decreases counts.len(),
{
    if counts.len() == 0 {
        assert(reads_output(held, counts) =~= held.take(0));
        if held.len() == 0 {
            assert(held.take(0) =~= held);
        }
    } else {
        let k = (if counts[0] <= held.len() {
            counts[0]
        } else {
            held.len()
        }) as int;
        let rest = held.skip(k);
        lemma_reads_drain_in_order(rest, counts.skip(1));
        let r = (if total_requested(counts.skip(1)) <= rest.len() {
            total_requested(counts.skip(1)) as int
        } else {
            rest.len() as int
        });
        assert(held.take(k) + rest.take(r) =~= held.take(k + r));
        let whole = (if total_requested(counts) <= held.len() {
            total_requested(counts) as int
        } else {
            held.len() as int
        });
        assert(k + r == whole);
        if total_requested(counts) >= held.len() {
            assert(held.take(held.len() as int) =~= held);
        }
    }
}

/// All the offered bytes laid end to end are as many as were offered.
pub proof fn lemma_all_offered_len(writes: Seq<Seq<u8>>)
    ensures
        all_offered(writes).len() == total_offered(writes),
    decreases writes.len(),
{
    if writes.len() > 0 {
        lemma_all_offered_len(writes.skip(1));
    }
}

/// Law: the queue is first-in-first-out with no loss within capacity.  If a
/// queue starts empty, takes any sequence of writes whose total size is at
/// most its capacity, and is then drained by any sequence of reads that
/// together ask for at least that total, the reads return exactly the offered
/// bytes, in offer order, each byte once.
pub proof fn lemma_round_trip_within_capacity(cap: nat, writes: Seq<Seq<u8>>, counts: Seq<nat>)
    requires
        total_offered(writes) <= cap,
        total_requested(counts) >= total_offered(writes),
    ensures
        reads_output(writes_model(cap, Seq::<u8>::empty(), writes), counts) == all_offered(
            writes,
        ),
{
    lemma_writes_within_capacity_keep_everything(cap, Seq::<u8>::empty(), writes);
    assert(Seq::<u8>::empty() + all_offered(writes) =~= all_offered(writes));
    lemma_all_offered_len(writes);
    lemma_reads_drain_in_order(all_offered(writes), counts);
}

} // verus!
