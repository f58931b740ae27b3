//! The audio bridge between the sample buffers and the Opus codec.

use crate::config::AudioSection;
use crate::media_port::{fills_frame, passes_on, silence_from, silenced_from};
use crate::ring::{
    arrived, consumed, read_capacity, reads_stream, stream_out, SampleConsumer, SampleProducer,
    MAX_CAPACITY,
};
use vstd::prelude::*;
use vstd::slice::slice_subrange;

verus! {

/// The duration of an Opus frame in milliseconds.
pub const FRAME_DURATION_MS: u32 = 10;

/// The samples of an Opus frame at 48 kHz mono.
pub const SAMPLES_PER_FRAME: usize = 480;

/// The largest encoded Opus frame in bytes.
pub const MAX_OPUS_FRAME_SIZE: usize = 4000;

/// The encoder looks for a full frame this often.
pub const ENCODER_POLL_MS: u64 = 5;

/// The bridge of one call.
pub struct AudioBridge;

/// The sizes of the audio path of one call.
#[derive(Clone, Copy, Debug, PartialEq, Eq, Structural)]
pub struct AudioPlan {
    pub samples_per_frame: u32,
    /// Frames held against jitter.
    pub jitter_frames: usize,
    /// Frames that may wait between two tasks.
    pub queue_capacity: usize,
    /// Samples held in each direction, about a fifth of a second.
    pub buffer_samples: usize,
}

/// The frames held against jitter: what the configured time amounts to, and two
/// at least.
pub open spec fn jitter_frames(jitter_buffer_ms: u32) -> nat {
    if jitter_buffer_ms / FRAME_DURATION_MS < 2 {
        2
    } else {
        (jitter_buffer_ms / FRAME_DURATION_MS) as nat
    }
}

/// The sizes of the audio path under the settings.
pub open spec fn planned(audio: AudioSection, max_concurrent_calls: u32, r: AudioPlan) -> bool {
    &&& r.samples_per_frame == audio.sample_rate * FRAME_DURATION_MS / 1000
    &&& r.jitter_frames == jitter_frames(audio.jitter_buffer_ms)
    &&& r.queue_capacity == jitter_frames(audio.jitter_buffer_ms) * max_concurrent_calls
    &&& r.buffer_samples == audio.sample_rate / 5
}

/// The next frame is taken, a whole one, as soon as one waits; until then nothing is.
pub open spec fn takes_frame(
    before: SampleConsumer,
    after: SampleConsumer,
    old_pcm: Seq<i16>,
    pcm: Seq<i16>,
    r: bool,
) -> bool {
    &&& read_capacity(after) == read_capacity(before)
    &&& stream_out(after) == stream_out(before)
    &&& arrived(after) >= arrived(before)
    &&& r == (arrived(after) >= consumed(before).len() + SAMPLES_PER_FRAME)
    &&& !r ==> consumed(after) == consumed(before) && pcm == old_pcm
    &&& r ==> consumed(after) == consumed(before) + pcm && reads_stream(after)
}

/// What follows an attempt to encode a frame under a number.
pub open spec fn encoding_followed(seq_num: u64, encoded: Option<usize>) -> EncodeStep {
    match encoded {
        Some(len) => EncodeStep::Send { seq_num, len },
        None => EncodeStep::Skip,
    }
}

/// The number that is due after a frame was sent, or could not be.
pub open spec fn next_number(seq_num: u64, delivered: bool) -> int {
    seq_num + (if delivered {
        1int
    } else {
        0
    })
}

/// What follows an attempt to encode a frame.
#[derive(Clone, Copy, Debug, PartialEq, Eq, Structural)]
pub enum EncodeStep {
    /// Send the first bytes of the encoder's output under a number.
    Send { seq_num: u64, len: usize },
    /// Drop the frame.
    Skip,
}

/// The numbering of the frames sent to Mumble. The server multiplies a frame's
/// number by the frame size for its own time stamps, so numbers are not skipped.
#[derive(Debug)]
pub struct EncoderState {
    pub seq_num: u64,
}

impl AudioBridge {
    /// The sizes of the audio path. The frame duration is fixed, whatever the
    /// configuration asks for.
    pub fn plan(audio: &AudioSection, max_concurrent_calls: u32) -> (r: AudioPlan)
        requires
            audio.sample_rate * FRAME_DURATION_MS <= u32::MAX,
            jitter_frames(audio.jitter_buffer_ms) * max_concurrent_calls <= usize::MAX,
        ensures
            planned(*audio, max_concurrent_calls, r),
            r.buffer_samples <= MAX_CAPACITY,
    {
        let wanted: u32 = audio.jitter_buffer_ms / FRAME_DURATION_MS;
        let frames: u32 = if wanted < 2 {
            2
        } else {
            wanted
        };
        AudioPlan {
            samples_per_frame: audio.sample_rate * FRAME_DURATION_MS / 1000,
            jitter_frames: frames as usize,
            queue_capacity: frames as usize * max_concurrent_calls as usize,
            buffer_samples: (audio.sample_rate / 5) as usize,
        }
    }

    /// Fills what is missing of a frame with silence, given how many of its
    /// samples were read.
    pub fn complete_frame(pcm: &mut Vec<i16>, read: usize)
        ensures
            final(pcm)@ == silenced_from(old(pcm)@, read as int),
    {
        silence_from(pcm.as_mut_slice(), read);
    }

    /// A frame can be taken once this many samples wait.
    pub fn frame_ready(occupied: usize) -> (r: bool)
        ensures
            r == (occupied >= SAMPLES_PER_FRAME),
    {
        occupied >= SAMPLES_PER_FRAME
    }

    /// Takes the next frame to encode: a whole one, as soon as one waits. Until then
    /// nothing is taken.
    pub fn take_frame(from: &mut SampleConsumer, pcm: &mut Vec<i16>) -> (r: bool)
        requires
            old(pcm)@.len() == SAMPLES_PER_FRAME,
        ensures
            final(pcm)@.len() == SAMPLES_PER_FRAME,
            takes_frame(*old(from), *final(from), old(pcm)@, final(pcm)@, r),
            read_capacity(*old(from)) < SAMPLES_PER_FRAME ==> !r,
    {
        let waiting: usize = from.occupied_len();
        let r = AudioBridge::take_waiting_frame(from, waiting, pcm);
        assert(pcm@.take(SAMPLES_PER_FRAME as int) == pcm@);
        r
    }

    /// Takes the next frame to encode, given how many samples were found waiting.
    /// The frame holds the samples that have arrived, as many as it can, in order,
    /// and silence behind them. Without a full frame waiting, nothing is taken.
    pub fn take_waiting_frame(from: &mut SampleConsumer, waiting: usize, pcm: &mut Vec<i16>) -> (r:
        bool)
        requires
            old(pcm)@.len() == SAMPLES_PER_FRAME,
        ensures
            r == (waiting >= SAMPLES_PER_FRAME),
            final(pcm)@.len() == SAMPLES_PER_FRAME,
            !r ==> *final(from) == *old(from) && final(pcm)@ == old(pcm)@,
            r ==> fills_frame(*old(from), *final(from), final(pcm)@),
    {
        if !AudioBridge::frame_ready(waiting) {
            return false;
        }
        let read: usize = from.pop_slice(pcm.as_mut_slice());
        let ghost popped = pcm@;
        AudioBridge::complete_frame(pcm, read);
        assert(pcm@.take(read as int) == popped.take(read as int));
        assert(pcm@ == silenced_from(pcm@, read as int));
        true
    }

    /// Hands the samples that were decoded into the front of a buffer on to the
    /// caller. As many as there is room for are taken, and their number is returned.
    pub fn deliver_frame(to: &mut SampleProducer, pcm: &[i16], decoded: usize) -> (n: usize)
        requires
            decoded <= pcm@.len(),
        ensures
            passes_on(*old(to), *final(to), pcm@.take(decoded as int), n as int),
    {
        let n: usize = to.push_slice(slice_subrange(pcm, 0, decoded));
        assert(pcm@.subrange(0, decoded as int) == pcm@.take(decoded as int));
        n
    }
}

impl EncoderState {
    /// The numbering starts at zero.
    pub fn new() -> (r: Self)
        ensures
            r.seq_num == 0,
    {
        EncoderState { seq_num: 0 }
    }

    /// Decides after an attempt to encode, given the length of the output or
    /// `None` where encoding failed.
    pub fn after_encode(&self, encoded: Option<usize>) -> (r: EncodeStep)
        ensures
            r == encoding_followed(self.seq_num, encoded),
    {
        match encoded {
            Some(len) => EncodeStep::Send { seq_num: self.seq_num, len },
            None => EncodeStep::Skip,
        }
    }

    /// Counts a frame that was delivered. The encoder stops once a frame cannot
    /// be delivered; the result tells whether it goes on.
    pub fn after_send(&mut self, delivered: bool) -> (r: bool)
        requires
            delivered ==> old(self).seq_num < u64::MAX,
        ensures
            r == delivered,
            final(self).seq_num == next_number(old(self).seq_num, delivered),
    {
        if delivered {
            self.seq_num += 1;
        }
        delivered
    }
}

/// The number of frames that were encoded among some attempts.
pub open spec fn encoded_frames(attempts: Seq<Option<usize>>) -> nat
    decreases attempts.len(),
{
    if attempts.len() == 0 {
        0
    } else {
        encoded_frames(attempts.drop_last()) + if attempts.last() is Some {
            1nat
        } else {
            0
        }
    }
}

/// As long as every encoded frame is delivered, frames are numbered from zero without a
/// gap or a repeat: each has for its number how many were sent before it, whatever
/// attempts to encode failed in between. `numbers` are the numbers due before, between
/// and after the attempts.
pub proof fn law_frames_are_numbered_without_gaps(
    numbers: Seq<EncoderState>,
    attempts: Seq<Option<usize>>,
)
    requires
        numbers.len() == attempts.len() + 1,
        numbers[0].seq_num == 0,
        forall|i: int|
            0 <= i < attempts.len() ==> (#[trigger] numbers[i + 1]).seq_num == numbers[i].seq_num + (
            if attempts[i] is Some {
                1int
            } else {
                0
            }),
    ensures
        numbers.last().seq_num == encoded_frames(attempts),
    decreases attempts.len(),
{
    if attempts.len() > 0 {
        let n = attempts.len() - 1;
        let (before, earlier) = (numbers.drop_last(), attempts.drop_last());
        assert forall|i: int| 0 <= i < earlier.len() implies (#[trigger] before[i + 1]).seq_num
            == before[i].seq_num + (if earlier[i] is Some {
            1int
        } else {
            0
        }) by {
            assert(numbers[i + 1].seq_num == numbers[i].seq_num + (if attempts[i] is Some {
                1int
            } else {
                0
            }));
        }
        law_frames_are_numbered_without_gaps(before, earlier);
        assert(numbers[n + 1].seq_num == numbers[n].seq_num + (if attempts[n] is Some {
            1int
        } else {
            0
        }));
    }
}

/// A hundred frames hold a second of audio, up to rounding, and a buffer a fifth of one.
/// The frames held against jitter last as long as is set, up to rounding, and twenty
/// milliseconds at least; each call may have so many of them queued.
pub proof fn law_plan_fits_the_settings(
    audio: AudioSection,
    max_concurrent_calls: u32,
    plan: AudioPlan,
)
    requires
        planned(audio, max_concurrent_calls, plan),
    ensures
        plan.samples_per_frame * 100 <= audio.sample_rate < plan.samples_per_frame * 100 + 100,
        plan.buffer_samples * 5 <= audio.sample_rate < plan.buffer_samples * 5 + 5,
        plan.jitter_frames >= 2,
        audio.jitter_buffer_ms >= 20 ==> plan.jitter_frames * 10 <= audio.jitter_buffer_ms
            < plan.jitter_frames * 10 + 10,
        audio.jitter_buffer_ms < 20 ==> plan.jitter_frames == 2,
        plan.queue_capacity == plan.jitter_frames * max_concurrent_calls,
{
}

/// A frame that is taken holds the samples that come next in the stream, as many as ten
/// milliseconds have at the stored rate, and is taken as soon as so many wait. Otherwise
/// none of them is taken.
pub proof fn law_frames_are_taken_whole(
    before: SampleConsumer,
    after: SampleConsumer,
    old_pcm: Seq<i16>,
    pcm: Seq<i16>,
    r: bool,
    i: int,
)
    requires
        takes_frame(before, after, old_pcm, pcm, r),
        pcm.len() == 480,
        0 <= i < 480,
    ensures
        r <==> arrived(after) - consumed(before).len() >= 480,
        r ==> consumed(after).len() == consumed(before).len() + 480,
        r ==> pcm[i] == stream_out(before)[consumed(before).len() + i],
        !r ==> consumed(after) == consumed(before) && pcm == old_pcm,
{
    if r {
        let at = consumed(before).len() + i;
        assert(consumed(after)[at] == pcm[i]);
        assert(stream_out(after).subrange(0, consumed(after).len() as int)[at] == stream_out(
            after,
        )[at]);
    }
}

/// A frame that was encoded is sent in full under the number that is due, and one that was
/// not is left out. The number goes up by one with each frame that was sent.
pub proof fn law_sent_frames_are_counted(seq_num: u64, len: usize)
    ensures
        encoding_followed(seq_num, Some(len)) == (EncodeStep::Send { seq_num, len }),
        encoding_followed(seq_num, None) is Skip,
        next_number(seq_num, true) == seq_num + 1,
        next_number(seq_num, false) == seq_num,
{
}

} // verus!
