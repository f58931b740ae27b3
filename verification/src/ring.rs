//! The lock-free sample buffers between the media thread and the audio tasks.
//!
//! A buffer has a writing half and a reading half, each used by one thread. What
//! the other half does meanwhile is unknown, so each half is described by its
//! own history: the samples that the writing half has accepted, and those that
//! the reading half has handed out. Both are leading parts of one stream, the
//! samples that pass the buffer in the course of its life. Of the other half, a
//! reading half knows how many samples had arrived when it last looked, and a writing
//! half how many places had been freed.

use ringbuf::traits::{Consumer, Observer, Producer, Split};
use vstd::prelude::*;

verus! {

/// The largest number of samples a buffer is made for.
pub const MAX_CAPACITY: usize = 0x3fff_ffff;

/// The writing half of a buffer.
#[verifier::external_body]
pub struct SampleProducer {
    inner: ringbuf::HeapProd<i16>,
}

/// The reading half of a buffer.
#[verifier::external_body]
pub struct SampleConsumer {
    inner: ringbuf::HeapCons<i16>,
}

/// The samples that a writing half has accepted, in order.
pub uninterp spec fn written(p: SampleProducer) -> Seq<i16>;

/// The samples that a reading half has handed out, in order.
pub uninterp spec fn consumed(c: SampleConsumer) -> Seq<i16>;

/// The samples that pass the buffer of a writing half in the course of its life, in
/// order. Past calls have put in the beginning; later calls decide how it goes on.
pub uninterp spec fn stream_in(p: SampleProducer) -> Seq<i16>;

/// The samples that pass the buffer of a reading half in the course of its life, in
/// order.
pub uninterp spec fn stream_out(c: SampleConsumer) -> Seq<i16>;

/// The number of samples, counted from the start, that had arrived when the reading
/// half last looked. It looks whenever it counts or reads.
pub uninterp spec fn arrived(c: SampleConsumer) -> nat;

/// The number of samples, counted from the start, whose places had been freed when the
/// writing half last looked. It looks whenever it writes.
pub uninterp spec fn freed(p: SampleProducer) -> nat;

/// The room that a writing half finds, given how much of what it wrote was freed.
pub open spec fn room(before: SampleProducer, after: SampleProducer) -> int {
    write_capacity(before) - (written(before).len() - freed(after))
}

/// The number of samples that a writing half accepts of so many: all that there is
/// room for.
pub open spec fn accepted(before: SampleProducer, after: SampleProducer, offered: nat) -> int {
    if room(before, after) < offered {
        room(before, after)
    } else {
        offered as int
    }
}

/// What a writing half has accepted is the beginning of its stream.
pub open spec fn writes_stream(p: SampleProducer) -> bool {
    written(p).is_prefix_of(stream_in(p))
}

/// What a reading half has handed out is the beginning of its stream.
pub open spec fn reads_stream(c: SampleConsumer) -> bool {
    consumed(c).is_prefix_of(stream_out(c))
}

/// The number of samples for which the buffer of a writing half was made.
pub uninterp spec fn write_capacity(p: SampleProducer) -> nat;

/// The number of samples for which the buffer of a reading half was made.
pub uninterp spec fn read_capacity(c: SampleConsumer) -> nat;

/// Makes a buffer with `ringbuf::HeapRb::new` and splits it with
/// `Split::split`. Neither half has been used, and what passes the one passes the
/// other. A capacity of zero is refused by the crate with a panic, and so is one
/// too large to allocate.
#[verifier::external_body]
pub(crate) fn sample_buffer(capacity: usize) -> (r: (SampleProducer, SampleConsumer))
    requires
        0 < capacity <= MAX_CAPACITY,
    ensures
        written(r.0) == Seq::<i16>::empty(),
        consumed(r.1) == Seq::<i16>::empty(),
        stream_in(r.0) == stream_out(r.1),
        arrived(r.1) == 0,
        freed(r.0) == 0,
        write_capacity(r.0) == capacity,
        read_capacity(r.1) == capacity,
{
    let (prod, cons) = ringbuf::HeapRb::<i16>::new(capacity).split();
    (SampleProducer { inner: prod }, SampleConsumer { inner: cons })
}

impl SampleProducer {
    /// Writes samples with `Producer::push_slice`, which looks at how far the reading
    /// half has come. A leading part is accepted, all that there is room for; the rest
    /// is dropped. Places are freed in order, and only where something was written.
    #[verifier::external_body]
    pub(crate) fn push_slice(&mut self, samples: &[i16]) -> (n: usize)
        ensures
            n <= samples@.len(),
            written(*final(self)) == written(*old(self)) + samples@.take(n as int),
            stream_in(*final(self)) == stream_in(*old(self)),
            writes_stream(*final(self)),
            write_capacity(*final(self)) == write_capacity(*old(self)),
            freed(*final(self)) >= freed(*old(self)),
            freed(*final(self)) <= written(*old(self)).len(),
            n == accepted(*old(self), *final(self), samples@.len()),
    {
        self.inner.push_slice(samples)
    }
}

impl SampleConsumer {
    /// Counts the waiting samples with `Observer::occupied_len`, which looks at how
    /// far the writing half has come. What has arrived and was not handed out is
    /// waiting. More may arrive at any moment.
    #[verifier::external_body]
    pub(crate) fn occupied_len(&mut self) -> (n: usize)
        ensures
            n <= read_capacity(*old(self)),
            arrived(*final(self)) == consumed(*old(self)).len() + n,
            arrived(*final(self)) >= arrived(*old(self)),
            consumed(*final(self)) == consumed(*old(self)),
            stream_out(*final(self)) == stream_out(*old(self)),
            read_capacity(*final(self)) == read_capacity(*old(self)),
    {
        self.inner.occupied_len()
    }

    /// Reads waiting samples into the front of a slice with
    /// `Consumer::pop_slice`, and leaves the rest of the slice alone. Samples come
    /// out in the order in which they went in. All that have arrived come out, as far
    /// as the slice holds them.
    #[verifier::external_body]
    pub(crate) fn pop_slice(&mut self, buf: &mut [i16]) -> (n: usize)
        ensures
            n <= old(buf)@.len(),
            final(buf)@.len() == old(buf)@.len(),
            final(buf)@.skip(n as int) == old(buf)@.skip(n as int),
            consumed(*final(self)) == consumed(*old(self)) + final(buf)@.take(n as int),
            stream_out(*final(self)) == stream_out(*old(self)),
            reads_stream(*final(self)),
            arrived(*final(self)) >= arrived(*old(self)),
            consumed(*final(self)).len() <= arrived(*final(self)),
            n < old(buf)@.len() ==> consumed(*final(self)).len() == arrived(*final(self)),
            read_capacity(*final(self)) == read_capacity(*old(self)),
    {
        self.inner.pop_slice(buf)
    }
}

/// The samples that come out of a buffer are those that went in, in the same order
/// and without gaps.
pub proof fn law_samples_come_out_as_they_went_in(p: SampleProducer, c: SampleConsumer, i: int)
    requires
        stream_in(p) == stream_out(c),
        writes_stream(p),
        reads_stream(c),
        0 <= i < written(p).len(),
        i < consumed(c).len(),
    ensures
        consumed(c)[i] == written(p)[i],
{
}

/// The samples that frames hold together, in order.
pub open spec fn joined_frames(frames: Seq<Seq<i16>>) -> Seq<i16>
    decreases frames.len(),
{
    if frames.len() == 0 {
        seq![]
    } else {
        joined_frames(frames.drop_last()) + frames.last()
    }
}

/// Frames that a reading half hands out one after the other, each as a whole, are
/// consecutive pieces of its stream: none overlaps another, and nothing is left out.
/// `halves` are the states of the half before, between and after the frames.
#[verifier::spinoff_prover]
pub proof fn law_frames_are_consecutive(
    halves: Seq<SampleConsumer>,
    frames: Seq<Seq<i16>>,
    size: nat,
    i: int,
)
    requires
        halves.len() == frames.len() + 1,
        forall|j: int| 0 <= j < frames.len() ==> (#[trigger] frames[j]).len() == size,
        forall|j: int|
            0 <= j < frames.len() ==> consumed(#[trigger] halves[j + 1]) == consumed(halves[j])
                + frames[j],
        reads_stream(halves.last()),
        0 <= i < frames.len(),
    ensures
        ({
            let start = consumed(halves[0]).len() + i * size;
            &&& 0 <= start
            &&& start + size <= stream_out(halves.last()).len()
            &&& stream_out(halves.last()).subrange(start, start + size) == frames[i]
        }),
        consumed(halves.last()) == consumed(halves[0]) + joined_frames(frames),
{
    lemma_frame_place(halves, frames, size, i);
    lemma_frames_join(halves, frames);
    let start = consumed(halves[0]).len() + i * size;
    lemma_piece_of_prefix(consumed(halves.last()), stream_out(halves.last()), start, start + size);
}

/// A piece of a beginning is the same piece of the whole.
proof fn lemma_piece_of_prefix(s: Seq<i16>, whole: Seq<i16>, from: int, to: int)
    requires
        s.is_prefix_of(whole),
        0 <= from <= to <= s.len(),
    ensures
        to <= whole.len(),
        whole.subrange(from, to) == s.subrange(from, to),
{
    assert(whole.subrange(0, s.len() as int) == s);
    assert(whole.subrange(from, to) =~= s.subrange(from, to));
}

#[verifier::spinoff_prover]
proof fn lemma_frames_join(halves: Seq<SampleConsumer>, frames: Seq<Seq<i16>>)
    requires
        halves.len() == frames.len() + 1,
        forall|j: int|
            0 <= j < frames.len() ==> consumed(#[trigger] halves[j + 1]) == consumed(halves[j])
                + frames[j],
    ensures
        consumed(halves.last()) == consumed(halves[0]) + joined_frames(frames),
    decreases frames.len(),
{
    if frames.len() == 0 {
        assert(consumed(halves[0]) + Seq::<i16>::empty() == consumed(halves[0]));
    } else {
        let (h, f) = (halves.drop_last(), frames.drop_last());
        let n = frames.len() - 1;
        assert forall|j: int| 0 <= j < f.len() implies consumed(#[trigger] h[j + 1]) == consumed(
            h[j],
        ) + f[j] by {
            assert(consumed(halves[j + 1]) == consumed(halves[j]) + frames[j]);
        }
        lemma_frames_join(h, f);
        assert(consumed(halves[n + 1]) == consumed(halves[n]) + frames[n]);
        assert(consumed(halves[0]) + joined_frames(f) + frames[n] == consumed(halves[0]) + (
        joined_frames(f) + frames[n]));
    }
}

#[verifier::spinoff_prover]
proof fn lemma_frame_place(
    halves: Seq<SampleConsumer>,
    frames: Seq<Seq<i16>>,
    size: nat,
    i: int,
)
    requires
        halves.len() == frames.len() + 1,
        forall|j: int| 0 <= j < frames.len() ==> (#[trigger] frames[j]).len() == size,
        forall|j: int|
            0 <= j < frames.len() ==> consumed(#[trigger] halves[j + 1]) == consumed(halves[j])
                + frames[j],
        0 <= i < frames.len(),
    ensures
        consumed(halves.last()).len() == consumed(halves[0]).len() + frames.len() * size,
        ({
            let start = consumed(halves[0]).len() + i * size;
            &&& 0 <= i * size
            &&& start + size <= consumed(halves.last()).len()
            &&& consumed(halves.last()).subrange(start, start + size) == frames[i]
        }),
    decreases frames.len(),
{
    let (h, f) = (halves.drop_last(), frames.drop_last());
    let n = frames.len() - 1;
    let start = consumed(halves[0]).len() + i * size;
    assert forall|j: int| 0 <= j < f.len() implies consumed(#[trigger] h[j + 1]) == consumed(h[j])
        + f[j] by {
        assert(consumed(halves[j + 1]) == consumed(halves[j]) + frames[j]);
    }
    assert forall|j: int| 0 <= j < f.len() implies (#[trigger] f[j]).len() == size by {
        assert(f[j] == frames[j]);
    }
    assert(consumed(halves[n + 1]) == consumed(halves[n]) + frames[n]);
    assert((n + 1) * size == n * size + size) by (nonlinear_arith);
    assert(0 <= i * size) by (nonlinear_arith)
        requires
            0 <= i,
    ;
    if n == 0 {
        assert(0 * size == 0) by (nonlinear_arith);
        assert(consumed(halves.last()).subrange(start, start + size) =~= frames[i]);
    } else if i < n {
        lemma_frame_place(h, f, size, i);
        assert(consumed(halves.last()).subrange(start, start + size) =~= consumed(
            h.last(),
        ).subrange(start, start + size));
    } else {
        lemma_frame_place(h, f, size, 0);
        assert(consumed(halves.last()).subrange(start, start + size) =~= frames[i]);
    }
}

} // verus!
