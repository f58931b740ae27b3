//! The media port through which the SIP stack exchanges audio with the bridge.

use crate::ring::{
    accepted, arrived, consumed, freed, read_capacity, reads_stream, sample_buffer, stream_in,
    stream_out, write_capacity, writes_stream, written, SampleConsumer, SampleProducer,
    MAX_CAPACITY,
};
use vstd::prelude::*;

verus! {

/// The buffers of one call, one per direction.
pub struct AudioBuffers {
    /// From the SIP caller to Mumble.
    pub sip_to_mumble_prod: SampleProducer,
    pub sip_to_mumble_cons: SampleConsumer,
    /// From Mumble to the SIP caller.
    pub mumble_to_sip_prod: SampleProducer,
    pub mumble_to_sip_cons: SampleConsumer,
}

/// What a frame of the media thread holds.
#[derive(Clone, Copy, Debug, PartialEq, Eq, Structural)]
pub enum FrameKind {
    /// Nothing to play.
    Silence,
    Audio,
    /// Anything else.
    Other,
}

/// Creates the buffers of a call, each for the given number of samples.
pub fn create_audio_buffers(capacity_samples: usize) -> (r: AudioBuffers)
    requires
        0 < capacity_samples <= MAX_CAPACITY,
    ensures
        write_capacity(r.sip_to_mumble_prod) == capacity_samples,
        read_capacity(r.sip_to_mumble_cons) == capacity_samples,
        write_capacity(r.mumble_to_sip_prod) == capacity_samples,
        read_capacity(r.mumble_to_sip_cons) == capacity_samples,
        written(r.sip_to_mumble_prod) == Seq::<i16>::empty(),
        consumed(r.sip_to_mumble_cons) == Seq::<i16>::empty(),
        written(r.mumble_to_sip_prod) == Seq::<i16>::empty(),
        consumed(r.mumble_to_sip_cons) == Seq::<i16>::empty(),
        arrived(r.sip_to_mumble_cons) == 0,
        arrived(r.mumble_to_sip_cons) == 0,
        freed(r.sip_to_mumble_prod) == 0,
        freed(r.mumble_to_sip_prod) == 0,
        stream_in(r.sip_to_mumble_prod) == stream_out(r.sip_to_mumble_cons),
        stream_in(r.mumble_to_sip_prod) == stream_out(r.mumble_to_sip_cons),
{
    let (sip_to_mumble_prod, sip_to_mumble_cons) = sample_buffer(capacity_samples);
    let (mumble_to_sip_prod, mumble_to_sip_cons) = sample_buffer(capacity_samples);
    AudioBuffers {
        sip_to_mumble_prod,
        sip_to_mumble_cons,
        mumble_to_sip_prod,
        mumble_to_sip_cons,
    }
}

/// The samples with everything from an index on replaced by silence.
pub open spec fn silenced_from(s: Seq<i16>, from: int) -> Seq<i16> {
    Seq::new(
        s.len(),
        |i: int|
            if i < from {
                s[i]
            } else {
                0
            },
    )
}

/// The number of samples that go into a frame: those that have arrived and were not
/// handed out, or as many of them as it holds.
pub open spec fn frame_share(before: SampleConsumer, after: SampleConsumer, size: nat) -> int {
    let waiting = arrived(after) - consumed(before).len();
    if waiting < size {
        waiting
    } else {
        size as int
    }
}

/// The kind of a frame that holds so many samples.
pub open spec fn kind_of(samples: int) -> FrameKind {
    if samples == 0 {
        FrameKind::Silence
    } else {
        FrameKind::Audio
    }
}

/// A reading half fills a frame: the frame holds its share of the waiting samples, in
/// order, and silence behind them.
pub open spec fn fills_frame(
    before: SampleConsumer,
    after: SampleConsumer,
    frame: Seq<i16>,
) -> bool {
    let n = frame_share(before, after, frame.len());
    &&& 0 <= n
    &&& consumed(after) == consumed(before) + frame.take(n)
    &&& frame == silenced_from(frame, n)
    &&& arrived(after) >= arrived(before)
    &&& stream_out(after) == stream_out(before)
    &&& reads_stream(after)
    &&& read_capacity(after) == read_capacity(before)
}

/// A writing half passes samples on: as many as there is room for, from the front.
pub open spec fn passes_on(
    before: SampleProducer,
    after: SampleProducer,
    samples: Seq<i16>,
    n: int,
) -> bool {
    &&& n == accepted(before, after, samples.len())
    &&& 0 <= n <= samples.len()
    &&& written(after) == written(before) + samples.take(n)
    &&& freed(before) <= freed(after) <= written(before).len()
    &&& stream_in(after) == stream_in(before)
    &&& writes_stream(after)
    &&& write_capacity(after) == write_capacity(before)
}

/// A frame of the caller is put: only audio is passed on.
pub open spec fn frame_put(
    before: SampleProducer,
    after: SampleProducer,
    kind: FrameKind,
    samples: Seq<i16>,
    n: int,
) -> bool {
    &&& !(kind is Audio) ==> n == 0 && after == before
    &&& kind is Audio ==> passes_on(before, after, samples, n)
}

/// Replaces everything from an index on by silence.
pub fn silence_from(buf: &mut [i16], from: usize)
    ensures
        final(buf)@ == silenced_from(old(buf)@, from as int),
{
    let len: usize = buf.len();
    let mut i: usize = from;
    while i < len
        invariant
            len == buf@.len(),
            len == old(buf)@.len(),
            from <= i,
            i <= len || i == from,
            forall|j: int|
                0 <= j < len ==> #[trigger] buf@[j] == (if from <= j < i {
                    0
                } else {
                    old(buf)@[j]
                }),
        decreases len - i,
    {
        buf[i] = 0;
        i += 1;
    }
    assert(buf@ == silenced_from(old(buf)@, from as int));
}

/// Completes a frame for the caller, of whose samples the given number were
/// available: the rest is silence, and a frame without any sample is none.
pub fn finish_frame(buf: &mut [i16], read: usize) -> (r: FrameKind)
    ensures
        final(buf)@ == silenced_from(old(buf)@, read as int),
        r == kind_of(read as int),
{
    silence_from(buf, read);
    if read == 0 {
        FrameKind::Silence
    } else {
        FrameKind::Audio
    }
}

/// Takes a frame from the caller. Only audio is used, and of that as much as there is
/// room for. The number of samples taken is returned.
pub fn put_frame(sip_to_mumble: &mut SampleProducer, kind: FrameKind, samples: &[i16]) -> (n: usize)
    ensures
        frame_put(*old(sip_to_mumble), *final(sip_to_mumble), kind, samples@, n as int),
{
    match kind {
        FrameKind::Audio => sip_to_mumble.push_slice(samples),
        _ => 0,
    }
}

/// Gives a frame to the caller. The samples that have arrived stand in front, in
/// order and as many as the frame holds, and silence behind them.
pub fn get_frame(mumble_to_sip: &mut SampleConsumer, buf: &mut [i16]) -> (r: FrameKind)
    ensures
        final(buf)@.len() == old(buf)@.len(),
        fills_frame(*old(mumble_to_sip), *final(mumble_to_sip), final(buf)@),
        r == kind_of(frame_share(*old(mumble_to_sip), *final(mumble_to_sip), final(buf)@.len())),
{
    let read: usize = mumble_to_sip.pop_slice(buf);
    let ghost popped = buf@;
    let r = finish_frame(buf, read);
    assert(buf@.take(read as int) == popped.take(read as int));
    assert(buf@ == silenced_from(buf@, read as int));
    r
}

/// A frame that is given to a caller holds the samples that come next in the stream, in
/// order. Where enough have arrived it holds nothing else; where too few have, all of them
/// are in it and silence follows. A frame without any is silence, and only such a one.
pub proof fn law_frames_hold_what_has_arrived(
    before: SampleConsumer,
    after: SampleConsumer,
    frame: Seq<i16>,
)
    requires
        fills_frame(before, after, frame),
    ensures
        ({
            let waiting = arrived(after) - consumed(before).len();
            let start = consumed(before).len() as int;
            &&& waiting >= frame.len() ==> consumed(after) == consumed(before) + frame
            &&& waiting < frame.len() ==> consumed(after).len() == arrived(after)
            &&& forall|i: int|
                0 <= i < frame.len() && i < waiting ==> start + i < stream_out(before).len()
                    && #[trigger] frame[i] == stream_out(before)[start + i]
            &&& forall|i: int|
                0 <= i < frame.len() && waiting <= i ==> #[trigger] frame[i] == 0
            &&& frame.len() > 0 ==> (kind_of(frame_share(before, after, frame.len())) is Silence
                <==> waiting == 0)
        }),
{
    let n = frame_share(before, after, frame.len());
    let start = consumed(before).len() as int;
    let all = stream_out(before);
    assert(frame.take(frame.len() as int) == frame);
    assert forall|i: int| 0 <= i < n implies start + i < all.len() && #[trigger] frame[i]
        == all[start + i] by {
        assert(consumed(after)[start + i] == frame.take(n)[i]);
        assert(all.subrange(0, consumed(after).len() as int)[start + i] == all[start + i]);
    }
    assert forall|i: int| 0 <= i < frame.len() && n <= i implies #[trigger] frame[i] == 0 by {
        assert(frame[i] == silenced_from(frame, n)[i]);
    }
}

/// Samples that are passed on are taken in order, from the first. Where any is dropped the
/// buffer is full; where there is room for all, none is.
pub proof fn law_samples_are_dropped_only_for_want_of_room(
    before: SampleProducer,
    after: SampleProducer,
    samples: Seq<i16>,
    n: int,
)
    requires
        passes_on(before, after, samples, n),
    ensures
        n < samples.len() ==> written(after).len() - freed(after) == write_capacity(after),
        written(before).len() - freed(after) + samples.len() <= write_capacity(before) ==> n
            == samples.len() && written(after) == written(before) + samples,
        forall|i: int|
            0 <= i < n ==> #[trigger] written(after)[written(before).len() + i] == samples[i],
        forall|i: int|
            0 <= i < written(before).len() ==> #[trigger] written(after)[i] == written(before)[i],
{
    assert(samples.take(samples.len() as int) == samples);
}

/// Silencing the end of a frame keeps its front and nothing else.
pub proof fn law_silencing_keeps_the_front(s: Seq<i16>, from: int)
    ensures
        silenced_from(s, from).len() == s.len(),
        forall|i: int|
            0 <= i < s.len() ==> #[trigger] silenced_from(s, from)[i] == (if i < from {
                s[i]
            } else {
                0
            }),
{
}

/// Of the frames of a caller, audio is passed on from its first sample, all of it where
/// there is room, and nothing else is passed on.
pub proof fn law_only_audio_is_passed_on(
    before: SampleProducer,
    after: SampleProducer,
    kind: FrameKind,
    samples: Seq<i16>,
    n: int,
)
    requires
        frame_put(before, after, kind, samples, n),
    ensures
        kind is Silence || kind is Other ==> written(after) == written(before) && n == 0,
        kind is Audio && written(before).len() - freed(after) + samples.len() <= write_capacity(
            before,
        ) ==> written(after) == written(before) + samples,
        kind is Audio && samples.len() > 0 && n == 0 ==> written(after).len() - freed(after)
            == write_capacity(after),
{
    if kind is Audio {
        law_samples_are_dropped_only_for_want_of_room(before, after, samples, n);
    }
}

} // verus!
