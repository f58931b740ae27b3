//! Decoding of synthesized speech.

use crate::text::{decimal, decimal_text, push_all, push_text, string_of};
use crate::wav::{normalize_streamed_wav, resized};
use vstd::arithmetic::power2::{lemma2_to64, lemma_pow2_strictly_increases, pow2};
use vstd::prelude::*;

verus! {

/// An error of the WAV reader.
#[verifier::external_type_specification]
#[verifier::external_body]
pub struct ExHoundError(hound::Error);

/// What the header of a WAV stream says of its samples.
#[derive(Clone, Copy, Debug, PartialEq, Eq, Structural)]
pub struct WavHeader {
    pub channels: u16,
    pub sample_rate: u32,
    pub bits_per_sample: u16,
    pub is_float: bool,
}

/// How samples are to be read.
#[derive(Clone, Copy, Debug, PartialEq, Eq, Structural)]
pub enum SampleReader {
    /// Integers, to be divided by the magnitude of the most negative one.
    Integers { full_scale: u32 },
    /// Floating-point numbers, used as they are.
    Floats,
}

/// Why speech cannot be decoded.
#[derive(Clone, Copy, Debug, PartialEq, Eq, Structural)]
pub enum SpeechError {
    /// The bytes are no WAV stream.
    InvalidStream,
    /// The stream has no channels.
    NoChannels,
    /// No reader handles the sample format.
    UnsupportedFormat { is_float: bool, bits_per_sample: u16 },
    /// A sample could not be read.
    UnreadableSample,
}

impl SpeechError {
    /// The error in words.
    pub fn message(&self) -> (r: String)
        ensures
            r@ == (match *self {
                SpeechError::InvalidStream => "invalid WAV response"@,
                SpeechError::NoChannels => "WAV response has zero channels"@,
                SpeechError::UnsupportedFormat { is_float, bits_per_sample } => {
                    "unsupported WAV format: "@ + (if is_float {
                        "Float "@
                    } else {
                        "Int "@
                    }) + decimal(bits_per_sample as nat) + " bits"@
                },
                SpeechError::UnreadableSample => "failed reading integer WAV sample"@,
            }),
    {
        let mut out: Vec<char> = Vec::new();
        match *self {
            SpeechError::InvalidStream => {
                push_text(&mut out, "invalid WAV response");
            },
            SpeechError::NoChannels => {
                push_text(&mut out, "WAV response has zero channels");
            },
            SpeechError::UnsupportedFormat { is_float, bits_per_sample } => {
                push_text(&mut out, "unsupported WAV format: ");
                if is_float {
                    push_text(&mut out, "Float ");
                } else {
                    push_text(&mut out, "Int ");
                }
                let digits = decimal_text(bits_per_sample as u64);
                push_all(&mut out, digits.as_slice());
                push_text(&mut out, " bits");
            },
            SpeechError::UnreadableSample => {
                push_text(&mut out, "failed reading integer WAV sample");
            },
        }
        string_of(out.as_slice())
    }
}

/// The samples of a speech stream.
#[derive(Debug)]
pub enum SpeechSamples {
    /// Interleaved integers and their full scale.
    Integers { samples: Vec<i32>, full_scale: u32 },
    /// The repaired stream, whose samples are floating-point numbers.
    Floats { stream: Vec<u8> },
}

/// A speech stream that was opened.
#[derive(Debug)]
pub struct SpeechStream {
    pub channels: u16,
    pub sample_rate: u32,
    pub samples: SpeechSamples,
}

/// What `hound::WavReader::new` and `WavReader::spec` read from a stream: the
/// number of channels, the sample rate, the bits per sample, and whether the
/// samples are floating-point numbers. `None` where the reader refuses it.
pub uninterp spec fn hound_header(stream: Seq<u8>) -> Option<(u16, u32, u16, bool)>;

/// The samples that `hound::WavReader::into_samples::<i32>` yields for a stream.
/// `None` where the reader refuses the stream or one of its samples.
pub uninterp spec fn hound_samples(stream: Seq<u8>) -> Option<Seq<i32>>;

/// Reads the header of a stream with `hound::WavReader::new` and
/// `hound::WavReader::spec`. The reader works on the bytes alone, so the same
/// bytes always give the same header or are always refused.
#[verifier::external_body]
fn read_header(stream: &[u8]) -> (r: Result<WavHeader, hound::Error>)
    ensures
        match r {
            Ok(h) => hound_header(stream@) == Some(
                (h.channels, h.sample_rate, h.bits_per_sample, h.is_float),
            ),
            Err(_) => hound_header(stream@) is None,
        },
{
    let spec = hound::WavReader::new(std::io::Cursor::new(stream))?.spec();
    let is_float = match spec.sample_format {
        hound::SampleFormat::Float => true,
        hound::SampleFormat::Int => false,
    };
    Ok(
        WavHeader {
            channels: spec.channels,
            sample_rate: spec.sample_rate,
            bits_per_sample: spec.bits_per_sample,
            is_float,
        },
    )
}

/// Reads the integer samples of a stream with
/// `hound::WavReader::into_samples::<i32>`, up to the first error. The same
/// bytes always give the same samples or are always refused.
#[verifier::external_body]
fn read_samples(stream: &[u8]) -> (r: Result<Vec<i32>, hound::Error>)
    ensures
        match r {
            Ok(v) => hound_samples(stream@) == Some(v@),
            Err(_) => hound_samples(stream@) is None,
        },
{
    hound::WavReader::new(std::io::Cursor::new(stream))?.into_samples::<i32>().collect()
}

/// The reader for a header: integers of up to 32 bits, or floating-point numbers
/// of 32 bits, in at least one channel.
pub open spec fn reader_for(h: WavHeader) -> Result<SampleReader, SpeechError> {
    if h.channels == 0 {
        Err(SpeechError::NoChannels)
    } else if !h.is_float && 1 <= h.bits_per_sample <= 32 {
        Ok(SampleReader::Integers { full_scale: pow2((h.bits_per_sample - 1) as nat) as u32 })
    } else if h.is_float && h.bits_per_sample == 32 {
        Ok(SampleReader::Floats)
    } else {
        Err(
            SpeechError::UnsupportedFormat {
                is_float: h.is_float,
                bits_per_sample: h.bits_per_sample,
            },
        )
    }
}

/// The magnitude of the most negative integer of a number of bits.
pub fn full_scale(bits: u16) -> (r: u32)
    requires
        1 <= bits <= 32,
    ensures
        r == pow2((bits - 1) as nat),
{
    proof {
        lemma2_to64();
        if bits < 32 {
            lemma_pow2_strictly_increases((bits - 1) as nat, 31);
        }
        vstd::bits::lemma_u32_shl_is_mul(1, (bits - 1) as u32);
    }
    1u32 << ((bits - 1) as u32)
}

/// Chooses the reader for a header.
pub fn choose_reader(h: WavHeader) -> (r: Result<SampleReader, SpeechError>)
    ensures
        r == reader_for(h),
{
    if h.channels == 0 {
        Err(SpeechError::NoChannels)
    } else if !h.is_float && 1 <= h.bits_per_sample && h.bits_per_sample <= 32 {
        Ok(SampleReader::Integers { full_scale: full_scale(h.bits_per_sample) })
    } else if h.is_float && h.bits_per_sample == 32 {
        Ok(SampleReader::Floats)
    } else {
        Err(
            SpeechError::UnsupportedFormat {
                is_float: h.is_float,
                bits_per_sample: h.bits_per_sample,
            },
        )
    }
}

/// The result of opening a stream, given what was read of it. The samples count
/// only where they are integers.
pub open spec fn opened(
    stream: Seq<u8>,
    header: Option<(u16, u32, u16, bool)>,
    samples: Option<Seq<i32>>,
    r: Result<SpeechStream, SpeechError>,
) -> bool {
    match header {
        None => r == Err::<SpeechStream, SpeechError>(SpeechError::InvalidStream),
        Some((channels, sample_rate, bits_per_sample, is_float)) => {
            let h = WavHeader { channels, sample_rate, bits_per_sample, is_float };
            match reader_for(h) {
                Err(e) => r == Err::<SpeechStream, SpeechError>(e),
                Ok(SampleReader::Floats) => {
                    &&& r matches Ok(s)
                    &&& s.channels == channels && s.sample_rate == sample_rate
                    &&& s.samples matches SpeechSamples::Floats { stream: kept }
                    &&& kept@ == stream
                },
                Ok(SampleReader::Integers { full_scale }) => match samples {
                    None => r == Err::<SpeechStream, SpeechError>(SpeechError::UnreadableSample),
                    Some(values) => {
                        &&& r matches Ok(s)
                        &&& s.channels == channels && s.sample_rate == sample_rate
                        &&& s.samples matches SpeechSamples::Integers {
                            samples: read,
                            full_scale: scale,
                        }
                        &&& read@ == values && scale == full_scale
                    },
                },
            }
        },
    }
}

/// Opens a speech stream, given the header and the samples that were read of it.
/// The samples are `None` where they could not be read.
pub fn open_read_speech(
    stream: Vec<u8>,
    header: Option<WavHeader>,
    samples: Option<Vec<i32>>,
) -> (r: Result<SpeechStream, SpeechError>)
    ensures
        opened(
            stream@,
            match header {
                Some(h) => Some((h.channels, h.sample_rate, h.bits_per_sample, h.is_float)),
                None => None,
            },
            match samples {
                Some(v) => Some(v@),
                None => None,
            },
            r,
        ),
{
    let h = match header {
        Some(h) => h,
        None => {
            return Err(SpeechError::InvalidStream);
        },
    };
    match choose_reader(h) {
        Err(e) => Err(e),
        Ok(SampleReader::Floats) => Ok(
            SpeechStream {
                channels: h.channels,
                sample_rate: h.sample_rate,
                samples: SpeechSamples::Floats { stream },
            },
        ),
        Ok(SampleReader::Integers { full_scale }) => match samples {
            None => Err(SpeechError::UnreadableSample),
            Some(samples) => Ok(
                SpeechStream {
                    channels: h.channels,
                    sample_rate: h.sample_rate,
                    samples: SpeechSamples::Integers { samples, full_scale },
                },
            ),
        },
    }
}

/// Opens a speech stream as it was received, its size fields repaired first.
pub fn open_streamed_speech(wav_bytes: &[u8]) -> (r: Result<SpeechStream, SpeechError>)
    ensures
        opened(
            resized(wav_bytes@),
            hound_header(resized(wav_bytes@)),
            hound_samples(resized(wav_bytes@)),
            r,
        ),
{
    let stream = normalize_streamed_wav(wav_bytes);
    let header: Option<WavHeader> = match read_header(stream.as_slice()) {
        Ok(h) => Some(h),
        Err(_) => None,
    };
    let samples: Option<Vec<i32>> = match read_samples(stream.as_slice()) {
        Ok(v) => Some(v),
        Err(_) => None,
    };
    open_read_speech(stream, header, samples)
}

/// Integer samples of one to 32 bits and floating-point samples of 32 bits are read, of any
/// number of channels but none. The full scale of integers is half the number of their
/// values.
pub proof fn law_readers_fit_the_format(h: WavHeader)
    ensures
        reader_for(h) is Ok <==> h.channels > 0 && (if h.is_float {
            h.bits_per_sample == 32
        } else {
            1 <= h.bits_per_sample <= 32
        }),
        h.channels == 0 ==> reader_for(h) == Err::<SampleReader, SpeechError>(
            SpeechError::NoChannels,
        ),
        h.channels > 0 && reader_for(h) is Err ==> reader_for(h)->Err_0 == (
        SpeechError::UnsupportedFormat {
            is_float: h.is_float,
            bits_per_sample: h.bits_per_sample,
        }),
        reader_for(h) matches Ok(reader) ==> (reader is Floats <==> h.is_float),
        reader_for(h) matches Ok(SampleReader::Integers { full_scale }) ==> 2 * full_scale == pow2(
            h.bits_per_sample as nat,
        ),
{
    if let Ok(SampleReader::Integers { full_scale }) = reader_for(h) {
        let bits = h.bits_per_sample as nat;
        vstd::arithmetic::power2::lemma_pow2_unfold(bits);
        vstd::arithmetic::power2::lemma2_to64();
        if bits < 32 {
            vstd::arithmetic::power2::lemma_pow2_strictly_increases((bits - 1) as nat, 32);
        }
        assert(pow2((bits - 1) as nat) <= u32::MAX) by {
            if bits == 32 {
                vstd::arithmetic::power2::lemma_pow2_strictly_increases(31, 32);
            }
        }
    }
}

/// Speech is opened exactly where its header can be read, its format is supported and, for
/// integers, its samples can be read. Its channels, rate and samples are those of the
/// stream.
pub proof fn law_speech_is_what_the_stream_holds(
    stream: Seq<u8>,
    h: WavHeader,
    samples: Option<Seq<i32>>,
    r: Result<SpeechStream, SpeechError>,
)
    requires
        opened(
            stream,
            Some((h.channels, h.sample_rate, h.bits_per_sample, h.is_float)),
            samples,
            r,
        ),
        h.channels > 0,
        1 <= h.bits_per_sample <= 32,
    ensures
        h.is_float && h.bits_per_sample == 32 ==> r is Ok && r->Ok_0.samples is Floats,
        h.is_float && h.bits_per_sample != 32 ==> r is Err,
        !h.is_float ==> (r is Ok <==> samples is Some),
        r matches Err(e) ==> e is UnreadableSample || e is UnsupportedFormat,
        r matches Ok(s) ==> s.channels == h.channels && s.sample_rate == h.sample_rate,
        r matches Ok(s) ==> (s.samples matches SpeechSamples::Integers { samples: read, .. }
            ==> samples is Some && read@ == samples->0),
        r matches Ok(s) ==> (s.samples matches SpeechSamples::Floats { stream: kept }
            ==> kept@ == stream),
{
}

} // verus!
