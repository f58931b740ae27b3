//! Sound effects: decoding, selection and play time.

use crate::wav::{field16, field32, has_riff_tag, has_wave_tag};
use vstd::prelude::*;

verus! {

/// The length of the header in front of the samples of a sound effect.
pub const HEADER_LEN: usize = 44;

/// The rate at which sound effects are kept.
pub const STORED_RATE: u32 = 48000;

pub const NANOS_PER_SEC: u64 = 1_000_000_000;

/// What a sound effect is played for.
#[derive(Clone, Copy, Debug, PartialEq, Eq, Structural)]
pub enum SoundEvent {
    SelfJoinedChannel,
    UserJoinedChannel,
    UserLeftChannel,
    TextMessage,
    Intro,
}

/// The decoded sound effects, 48 kHz mono.
pub struct SoundBank {
    pub connected: Vec<i16>,
    pub user_joined: Vec<i16>,
    pub user_left: Vec<i16>,
    pub text_message: Vec<i16>,
    pub intro: Vec<i16>,
}

impl SoundBank {
    /// The samples played for an event.
    pub open spec fn clip(&self, event: SoundEvent) -> Seq<i16> {
        match event {
            SoundEvent::SelfJoinedChannel => self.connected@,
            SoundEvent::UserJoinedChannel => self.user_joined@,
            SoundEvent::UserLeftChannel => self.user_left@,
            SoundEvent::TextMessage => self.text_message@,
            SoundEvent::Intro => self.intro@,
        }
    }
}

fn get_sound_ref(bank: &SoundBank, event: SoundEvent) -> (r: &Vec<i16>)
    ensures
        r@ == bank.clip(event),
{
    match event {
        SoundEvent::SelfJoinedChannel => &bank.connected,
        SoundEvent::UserJoinedChannel => &bank.user_joined,
        SoundEvent::UserLeftChannel => &bank.user_left,
        SoundEvent::TextMessage => &bank.text_message,
        SoundEvent::Intro => &bank.intro,
    }
}

/// A copy of the samples played for an event.
pub fn get_sound(bank: &SoundBank, event: SoundEvent) -> (r: Vec<i16>)
    ensures
        r@ == bank.clip(event),
{
    let r = get_sound_ref(bank, event).clone();
    assert(r@ == bank.clip(event));
    r
}

/// A span of time.
#[derive(Clone, Copy, Debug, PartialEq, Eq, Structural)]
pub struct PlayTime {
    pub secs: u64,
    pub nanos: u32,
}

/// The integer nearest to `n / d`, the even one of two.
pub open spec fn rounded(n: nat, d: nat) -> nat {
    let q = n / d;
    let r = n % d;
    if 2 * r > d || (2 * r == d && q % 2 == 1) {
        q + 1
    } else {
        q
    }
}

/// The time it takes to play a number of samples, to the nanosecond.
pub open spec fn play_nanos(samples: nat, sample_rate: nat) -> nat {
    rounded(samples * NANOS_PER_SEC as nat, sample_rate)
}

/// The time it takes to play a sound effect. Samples are drained at the given
/// rate, whatever rate they were stored at.
pub fn sound_duration(bank: &SoundBank, event: SoundEvent, sample_rate: u32) -> (r: PlayTime)
    requires
        sample_rate > 0,
    ensures
        r.nanos < NANOS_PER_SEC,
        r.secs * NANOS_PER_SEC + r.nanos == play_nanos(
            bank.clip(event).len(),
            sample_rate as nat,
        ),
{
    let len: u128 = get_sound_ref(bank, event).len() as u128;
    let d: u128 = sample_rate as u128;
    assert(len * 1_000_000_000 <= 0xffff_ffff_ffff_ffff * 1_000_000_000);
    let n: u128 = len * 1_000_000_000;
    let q: u128 = n / d;
    let r: u128 = n % d;
    proof {
        assert(q <= n && r < d && n == q * d + r) by (nonlinear_arith)
            requires
                d > 0,
                q == n / d,
                r == n % d,
        ;
    }
    let up: bool = 2 * r > d || (2 * r == d && q % 2 == 1);
    let total: u128 = if up {
        q + 1
    } else {
        q
    };
    assert(total <= n) by {
        if up {
            assert(d > 1);
            assert(q + 1 <= n) by (nonlinear_arith)
                requires
                    n == q * d + r,
                    d > 1,
                    2 * r >= d,
            ;
        }
    }
    let secs: u64 = (total / 1_000_000_000) as u64;
    let nanos: u32 = (total % 1_000_000_000) as u32;
    PlayTime { secs, nanos }
}

/// Why bytes are no usable sound effect.
#[derive(Clone, Copy, Debug, PartialEq, Eq, Structural)]
pub enum WavDefect {
    TooShort,
    NotRiff,
    NotWave,
    NotPcm,
    NotMono,
    NoSampleRate,
    NotSixteenBit,
}

/// The first thing that is wrong with a sound effect file.
pub open spec fn defect(s: Seq<u8>) -> Option<WavDefect> {
    if s.len() < HEADER_LEN {
        Some(WavDefect::TooShort)
    } else if !has_riff_tag(s) {
        Some(WavDefect::NotRiff)
    } else if !has_wave_tag(s) {
        Some(WavDefect::NotWave)
    } else if field16(s, 20) != 1 {
        Some(WavDefect::NotPcm)
    } else if field16(s, 22) != 1 {
        Some(WavDefect::NotMono)
    } else if field32(s, 24) == 0 {
        Some(WavDefect::NoSampleRate)
    } else if field16(s, 34) != 16 {
        Some(WavDefect::NotSixteenBit)
    } else {
        None
    }
}

/// The signed 16-bit little-endian sample made of two bytes.
pub open spec fn sample16(low: u8, high: u8) -> i16 {
    let u = low + 256 * high;
    if u < 32768 {
        u as i16
    } else {
        (u - 65536) as i16
    }
}

/// The samples behind the header. A last odd byte is dropped.
pub open spec fn samples16(s: Seq<u8>) -> Seq<i16> {
    Seq::new(
        ((s.len() - HEADER_LEN) / 2) as nat,
        |i: int| sample16(s[HEADER_LEN + 2 * i], s[HEADER_LEN + 2 * i + 1]),
    )
}

fn read16(s: &[u8], at: usize) -> (r: u16)
    requires
        at + 2 <= s.len(),
    ensures
        r == field16(s@, at as int),
{
    s[at] as u16 + 256 * (s[at + 1] as u16)
}

fn read32(s: &[u8], at: usize) -> (r: u32)
    requires
        at + 4 <= s.len(),
    ensures
        r == field32(s@, at as int),
{
    s[at] as u32 + 256 * (s[at + 1] as u32) + 65536 * (s[at + 2] as u32) + 16777216 * (s[at
        + 3] as u32)
}

/// Checks a sound effect file.
pub fn wav_defect(wav_bytes: &[u8]) -> (r: Option<WavDefect>)
    ensures
        r == defect(wav_bytes@),
{
    let s = wav_bytes;
    if s.len() < HEADER_LEN {
        Some(WavDefect::TooShort)
    } else if !(s[0] == 'R' as u8 && s[1] == 'I' as u8 && s[2] == 'F' as u8 && s[3] == 'F' as u8) {
        Some(WavDefect::NotRiff)
    } else if !(s[8] == 'W' as u8 && s[9] == 'A' as u8 && s[10] == 'V' as u8 && s[11] == 'E' as u8) {
        Some(WavDefect::NotWave)
    } else if read16(s, 20) != 1 {
        Some(WavDefect::NotPcm)
    } else if read16(s, 22) != 1 {
        Some(WavDefect::NotMono)
    } else if read32(s, 24) == 0 {
        Some(WavDefect::NoSampleRate)
    } else if read16(s, 34) != 16 {
        Some(WavDefect::NotSixteenBit)
    } else {
        None
    }
}

/// A decoded sound effect at its own rate.
pub struct WavClip {
    pub sample_rate: u32,
    pub samples: Vec<i16>,
}

/// Decodes a sound effect file. The samples are final where its rate is
/// `STORED_RATE`, and are yet to be resampled where it is not.
pub fn decode_wav_48k(wav_bytes: &[u8]) -> (r: WavClip)
    requires
        defect(wav_bytes@) is None,
    ensures
        r.sample_rate == field32(wav_bytes@, 24),
        r.sample_rate > 0,
        r.samples@ == samples16(wav_bytes@),
{
    let sample_rate: u32 = read32(wav_bytes, 24);
    let len: usize = wav_bytes.len();
    let count: usize = (len - HEADER_LEN) / 2;
    let mut samples: Vec<i16> = Vec::new();
    let mut i: usize = 0;
    while i < count
        invariant
            i <= count,
            len == wav_bytes@.len(),
            len >= HEADER_LEN,
            count == (len - HEADER_LEN) / 2,
            samples@ == samples16(wav_bytes@).take(i as int),
        decreases count - i,
    {
        let low: u8 = wav_bytes[HEADER_LEN + 2 * i];
        let high: u8 = wav_bytes[HEADER_LEN + 2 * i + 1];
        let u: i32 = low as i32 + 256 * (high as i32);
        let sample: i16 = if u < 32768 {
            u as i16
        } else {
            (u - 65536) as i16
        };
        samples.push(sample);
        assert(samples@ == samples16(wav_bytes@).take(i + 1));
        i += 1;
    }
    assert(samples@ == samples16(wav_bytes@));
    WavClip { sample_rate, samples }
}

/// The name of the file that holds the sound for an event.
pub open spec fn file_of(event: SoundEvent) -> Seq<char> {
    match event {
        SoundEvent::SelfJoinedChannel => "ServerConnected.wav"@,
        SoundEvent::UserJoinedChannel => "UserJoinedChannel.wav"@,
        SoundEvent::UserLeftChannel => "UserLeftChannel.wav"@,
        SoundEvent::TextMessage => "TextMessage.wav"@,
        SoundEvent::Intro => "intro.wav"@,
    }
}

/// The name of the file that holds the sound for an event.
pub fn sound_file(event: SoundEvent) -> (r: &'static str)
    ensures
        r@ == file_of(event),
{
    match event {
        SoundEvent::SelfJoinedChannel => "ServerConnected.wav",
        SoundEvent::UserJoinedChannel => "UserJoinedChannel.wav",
        SoundEvent::UserLeftChannel => "UserLeftChannel.wav",
        SoundEvent::TextMessage => "TextMessage.wav",
        SoundEvent::Intro => "intro.wav",
    }
}

/// A sound effect file is loaded: a usable file at `STORED_RATE` is stored, one at another
/// rate is handed back, and a defective one is refused.
pub open spec fn loads(
    before: SoundBank,
    after: SoundBank,
    event: SoundEvent,
    bytes: Seq<u8>,
    step: LoadStep,
) -> bool {
    match defect(bytes) {
        Some(found) => step == LoadStep::Defective(found) && after == before,
        None => if field32(bytes, 24) == STORED_RATE {
            &&& step is Loaded
            &&& after.clips() == before.clips().insert(event, samples16(bytes))
        } else {
            &&& step matches LoadStep::Resample(clip)
            &&& clip.sample_rate == field32(bytes, 24)
            &&& clip.samples@ == samples16(bytes)
            &&& after == before
        },
    }
}

/// What follows the loading of a sound effect file.
pub enum LoadStep {
    Loaded,
    /// Bring the clip to `STORED_RATE` and store it.
    Resample(WavClip),
    Defective(WavDefect),
}

impl SoundBank {
    /// The samples by event.
    pub open spec fn clips(&self) -> Map<SoundEvent, Seq<i16>> {
        Map::new(|event: SoundEvent| true, |event: SoundEvent| self.clip(event))
    }

    /// A bank in which every sound is silent.
    pub fn silent() -> (r: Self)
        ensures
            forall|event: SoundEvent| #[trigger] r.clip(event) == Seq::<i16>::empty(),
    {
        SoundBank {
            connected: Vec::new(),
            user_joined: Vec::new(),
            user_left: Vec::new(),
            text_message: Vec::new(),
            intro: Vec::new(),
        }
    }

    /// Stores the samples for an event, in place of those it had.
    pub fn store(&mut self, event: SoundEvent, samples: Vec<i16>)
        ensures
            final(self).clips() == old(self).clips().insert(event, samples@),
    {
        match event {
            SoundEvent::SelfJoinedChannel => {
                self.connected = samples;
            },
            SoundEvent::UserJoinedChannel => {
                self.user_joined = samples;
            },
            SoundEvent::UserLeftChannel => {
                self.user_left = samples;
            },
            SoundEvent::TextMessage => {
                self.text_message = samples;
            },
            SoundEvent::Intro => {
                self.intro = samples;
            },
        }
    }

    /// Loads the sound for an event from the bytes of its file. A file at another rate
    /// is handed back to be resampled.
    pub fn load(&mut self, event: SoundEvent, wav_bytes: &[u8]) -> (r: LoadStep)
        ensures
            loads(*old(self), *final(self), event, wav_bytes@, r),
    {
        if let Some(found) = wav_defect(wav_bytes) {
            return LoadStep::Defective(found);
        }
        let clip = decode_wav_48k(wav_bytes);
        if clip.sample_rate == STORED_RATE {
            self.store(event, clip.samples);
            LoadStep::Loaded
        } else {
            LoadStep::Resample(clip)
        }
    }
}

/// Different events have different files.
pub proof fn law_each_sound_has_its_own_file(a: SoundEvent, b: SoundEvent)
    ensures
        file_of(a) == file_of(b) ==> a == b,
{
    reveal_strlit("ServerConnected.wav");
    reveal_strlit("UserJoinedChannel.wav");
    reveal_strlit("UserLeftChannel.wav");
    reveal_strlit("TextMessage.wav");
    reveal_strlit("intro.wav");
    assert("ServerConnected.wav"@[0] == 'S' && "UserLeftChannel.wav"@[0] == 'U');
    assert("ServerConnected.wav"@.len() == 19 && "UserLeftChannel.wav"@.len() == 19);
    assert("UserJoinedChannel.wav"@.len() == 21 && "TextMessage.wav"@.len() == 15);
    assert("intro.wav"@.len() == 9);
}

/// The samples by event after several were stored.
pub open spec fn clips_after(
    clips: Map<SoundEvent, Seq<i16>>,
    stored: Seq<(SoundEvent, Seq<i16>)>,
) -> Map<SoundEvent, Seq<i16>>
    decreases stored.len(),
{
    if stored.len() == 0 {
        clips
    } else {
        clips_after(clips, stored.drop_last()).insert(stored.last().0, stored.last().1)
    }
}

/// Once the sound for an event was stored, what is played for it is what its file holds,
/// as long as sounds are only stored from their own files. `decoded` are the samples of
/// the files at `STORED_RATE`.
pub proof fn law_sounds_come_from_their_files(
    clips: Map<SoundEvent, Seq<i16>>,
    stored: Seq<(SoundEvent, Seq<i16>)>,
    decoded: Map<Seq<char>, Seq<i16>>,
    event: SoundEvent,
)
    requires
        forall|i: int|
            0 <= i < stored.len() ==> (#[trigger] stored[i]).1 == decoded[file_of(stored[i].0)],
        exists|i: int| 0 <= i < stored.len() && (#[trigger] stored[i]).0 == event,
    ensures
        clips_after(clips, stored).contains_key(event),
        clips_after(clips, stored)[event] == decoded[file_of(event)],
    decreases stored.len(),
{
    let earlier = stored.drop_last();
    let last = stored[stored.len() - 1];
    assert(last.1 == decoded[file_of(last.0)]);
    if last.0 != event {
        let i = choose|i: int| 0 <= i < stored.len() && (#[trigger] stored[i]).0 == event;
        assert(earlier[i] == stored[i]);
        assert forall|j: int| 0 <= j < earlier.len() implies (#[trigger] earlier[j]).1
            == decoded[file_of(earlier[j].0)] by {
            assert(earlier[j] == stored[j]);
        }
        law_sounds_come_from_their_files(clips, earlier, decoded, event);
    }
}

/// A rounded quotient is as near to the exact one as any integer, and even where two are
/// equally near.
pub proof fn law_rounding_is_to_the_nearest(n: nat, d: nat)
    requires
        d > 0,
    ensures
        2 * (rounded(n, d) * d) <= 2 * n + d,
        2 * n <= 2 * (rounded(n, d) * d) + d,
        2 * (rounded(n, d) * d) == 2 * n + d || 2 * n == 2 * (rounded(n, d) * d) + d ==> rounded(
            n,
            d,
        ) % 2 == 0,
{
    let q = n / d;
    let r = n % d;
    assert(n == q * d + r && r < d) by (nonlinear_arith)
        requires
            d > 0,
            q == n / d,
            r == n % d,
    ;
    assert((q + 1) * d == q * d + d) by (nonlinear_arith);
}

/// Whole seconds of samples take whole seconds to play.
pub proof fn law_seconds_take_seconds(seconds: nat, sample_rate: nat)
    requires
        sample_rate > 0,
    ensures
        play_nanos(seconds * sample_rate, sample_rate) == seconds * 1_000_000_000,
{
    let n = seconds * sample_rate * 1_000_000_000;
    let q = (seconds * 1_000_000_000) as nat;
    assert(n == q * sample_rate) by (nonlinear_arith)
        requires
            n == seconds * sample_rate * 1_000_000_000,
            q == seconds * 1_000_000_000,
    ;
    vstd::arithmetic::div_mod::lemma_fundamental_div_mod_converse(
        n as int,
        sample_rate as int,
        q as int,
        0,
    );
}

/// The two bytes of a sample, the least significant first.
pub open spec fn sample_bytes(sample: i16) -> Seq<u8> {
    let u = if sample < 0 {
        sample + 65536
    } else {
        sample as int
    };
    seq![(u % 256) as u8, (u / 256) as u8]
}

/// The bytes of samples, in order.
pub open spec fn samples_bytes(samples: Seq<i16>) -> Seq<u8> {
    Seq::new(
        2 * samples.len(),
        |i: int| sample_bytes(samples[i / 2])[i % 2],
    )
}

/// The samples of a sound file are those that were written behind its header.
pub proof fn law_samples_are_read_as_written(header: Seq<u8>, samples: Seq<i16>)
    requires
        header.len() == 44,
    ensures
        samples16(header + samples_bytes(samples)) == samples,
{
    let s = header + samples_bytes(samples);
    assert(samples16(s).len() == samples.len());
    assert forall|i: int| 0 <= i < samples.len() implies samples16(s)[i] == samples[i] by {
        let (low, high) = (s[44 + 2 * i], s[44 + 2 * i + 1]);
        assert((2 * i) / 2 == i && (2 * i) % 2 == 0);
        assert((2 * i + 1) / 2 == i && (2 * i + 1) % 2 == 1);
        assert(low == sample_bytes(samples[i])[0]);
        assert(high == sample_bytes(samples[i])[1]);
    }
    assert(samples16(s) =~= samples);
}

/// A sound file is usable exactly where it has a whole header that declares a WAV file of
/// 16-bit PCM samples of one channel at some rate. Of several things that are wrong, the
/// first is reported.
pub proof fn law_usable_files_have_sound_headers(s: Seq<u8>)
    ensures
        defect(s) is None <==> {
            &&& s.len() >= 44
            &&& s.take(4) == seq![82u8, 73, 70, 70]
            &&& s.subrange(8, 12) == seq![87u8, 65, 86, 69]
            &&& s.subrange(20, 24) == seq![1u8, 0, 1, 0]
            &&& s.subrange(24, 28) != seq![0u8, 0, 0, 0]
            &&& s.subrange(34, 36) == seq![16u8, 0]
        },
        s.len() < 44 <==> defect(s) == Some(WavDefect::TooShort),
        s.len() >= 44 ==> {
            let riff = s.take(4) == seq![82u8, 73, 70, 70];
            let wave = s.subrange(8, 12) == seq![87u8, 65, 86, 69];
            let pcm = s.subrange(20, 22) == seq![1u8, 0];
            let mono = s.subrange(22, 24) == seq![1u8, 0];
            let rate = s.subrange(24, 28) != seq![0u8, 0, 0, 0];
            &&& defect(s) == Some(WavDefect::NotRiff) <==> !riff
            &&& defect(s) == Some(WavDefect::NotWave) <==> riff && !wave
            &&& defect(s) == Some(WavDefect::NotPcm) <==> riff && wave && !pcm
            &&& defect(s) == Some(WavDefect::NotMono) <==> riff && wave && pcm && !mono
            &&& defect(s) == Some(WavDefect::NoSampleRate) <==> riff && wave && pcm && mono
                && !rate
        },
{
    if s.len() >= 44 {
        let (riff, wave) = (s.take(4), s.subrange(8, 12));
        let (format, rate, bits) = (s.subrange(20, 24), s.subrange(24, 28), s.subrange(34, 36));
        assert(riff[0] == s[0] && riff[1] == s[1] && riff[2] == s[2] && riff[3] == s[3]);
        assert(wave[0] == s[8] && wave[1] == s[9] && wave[2] == s[10] && wave[3] == s[11]);
        assert(format[0] == s[20] && format[1] == s[21]);
        assert(format[2] == s[22] && format[3] == s[23]);
        assert(rate[0] == s[24] && rate[1] == s[25] && rate[2] == s[26] && rate[3] == s[27]);
        assert(bits[0] == s[34] && bits[1] == s[35]);
        if has_riff_tag(s) {
            assert(riff == seq![82u8, 73, 70, 70]);
        }
        if has_wave_tag(s) {
            assert(wave == seq![87u8, 65, 86, 69]);
        }
        if field16(s, 20) == 1 && field16(s, 22) == 1 {
            assert(format == seq![1u8, 0, 1, 0]);
        }
        let (pcm, mono) = (s.subrange(20, 22), s.subrange(22, 24));
        assert(pcm[0] == s[20] && pcm[1] == s[21] && mono[0] == s[22] && mono[1] == s[23]);
        if field16(s, 20) == 1 {
            assert(pcm == seq![1u8, 0]);
        }
        if field16(s, 22) == 1 {
            assert(mono == seq![1u8, 0]);
        }
        if field32(s, 24) == 0 {
            assert(rate == seq![0u8, 0, 0, 0]);
        }
        if field16(s, 34) == 16 {
            assert(bits == seq![16u8, 0]);
        }
    }
}

/// After a file was loaded, what is played for its event is what it holds, and other
/// sounds stay as they were. A usable file that is not at 48 kHz comes back with its rate
/// and its samples, to be resampled, and until then every sound stays.
pub proof fn law_loaded_sounds_are_played(
    before: SoundBank,
    after: SoundBank,
    event: SoundEvent,
    other: SoundEvent,
    header: Seq<u8>,
    samples: Seq<i16>,
    step: LoadStep,
)
    requires
        header.len() == 44,
        other != event,
        loads(before, after, event, header + samples_bytes(samples), step),
    ensures
        ({
            let bytes = header + samples_bytes(samples);
            &&& after.clip(other) == before.clip(other)
            &&& defect(bytes) is Some <==> step is Defective
            &&& defect(bytes) is None && field32(bytes, 24) == 48000 ==> after.clip(event)
                == samples
            &&& defect(bytes) is None && field32(bytes, 24) != 48000 ==> {
                &&& step matches LoadStep::Resample(clip)
                &&& clip.sample_rate == field32(bytes, 24)
                &&& clip.samples@ == samples
                &&& after == before
            }
        }),
{
    law_samples_are_read_as_written(header, samples);
    let (b, a) = (before.clips(), after.clips());
    assert(b[other] == before.clip(other) && a[other] == after.clip(other));
    assert(a[event] == after.clip(event));
}

/// The sounds for joining, leaving and messages, the one for having joined, and the intro
/// each come from the file that is named for them.
pub proof fn law_sound_files_are_named_for_their_events(event: SoundEvent)
    ensures
        event is SelfJoinedChannel <==> file_of(event) == "ServerConnected.wav"@,
        event is UserJoinedChannel <==> file_of(event) == "UserJoinedChannel.wav"@,
        event is UserLeftChannel <==> file_of(event) == "UserLeftChannel.wav"@,
        event is TextMessage <==> file_of(event) == "TextMessage.wav"@,
        event is Intro <==> file_of(event) == "intro.wav"@,
{
    law_each_sound_has_its_own_file(event, SoundEvent::SelfJoinedChannel);
    law_each_sound_has_its_own_file(event, SoundEvent::UserJoinedChannel);
    law_each_sound_has_its_own_file(event, SoundEvent::UserLeftChannel);
    law_each_sound_has_its_own_file(event, SoundEvent::TextMessage);
    law_each_sound_has_its_own_file(event, SoundEvent::Intro);
}

} // verus!
