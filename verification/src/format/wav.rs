use vstd::prelude::*;

use crate::audio::{AudioBuffer, AudioSource, AudioSourceMut, AudioSpec, Endianness, SampleFormat};
use crate::error::GaussError;
use crate::format::samples::{
    bytes_into_i16_samples, bytes_into_i24_samples, bytes_into_i32_samples, bytes_into_u32_words,
    fits_word, i16_samples_into_bytes, lemma_le_bytes_of_le_values, lemma_le_values_of_le_bytes, i16_values, i32_samples_into_bytes, i32_values,
    i8_samples_into_bytes, i8_values, le_bytes, le_values, u32_values, u32_words_into_bytes,
    word_values,
};

verus! {

/// Properties of Riff Wave audio: what a Riff Wave file declares of its samples.
#[derive(Debug, Clone, Copy, PartialEq, Eq, Structural)]
pub struct WavInfo {
    /// The number of channels.
    pub channels: u16,
    /// The number of samples per second.
    pub sample_rate: u32,
    /// The number of bits per sample.
    pub bits_per_sample: u16,
    /// Whether the samples are float or integer values.
    pub sample_format: SampleFormat,
}

/// The type in which the samples of a Riff Wave file are handled.
#[derive(Debug, Clone, Copy, PartialEq, Eq, Structural)]
pub enum WavSampleKind {
    /// 8-bit integers.
    Int8,
    /// 16-bit integers.
    Int16,
    /// 32-bit integers (which also hold 24-bit samples).
    Int32,
    /// 32-bit floating point samples, each given by its bit pattern.
    Float32,
}

/// The samples of a Riff Wave file, in the type that their kind names.
#[derive(Debug)]
pub enum WavSamples {
    /// 8-bit integer samples.
    Int8(Vec<i8>),
    /// 16-bit integer samples.
    Int16(Vec<i16>),
    /// 32-bit integer samples (which also hold 24-bit samples).
    Int32(Vec<i32>),
    /// 32-bit floating point samples, each given by its IEEE 754 bit pattern.
    Float32(Vec<u32>),
}

impl WavSamples {
    /// The kind of the samples.
    pub open spec fn kind(&self) -> WavSampleKind {
        match self {
            WavSamples::Int8(_) => WavSampleKind::Int8,
            WavSamples::Int16(_) => WavSampleKind::Int16,
            WavSamples::Int32(_) => WavSampleKind::Int32,
            WavSamples::Float32(_) => WavSampleKind::Float32,
        }
    }

    /// The samples as integers (float samples by their bit patterns).
    pub open spec fn values(&self) -> Seq<int> {
        match self {
            WavSamples::Int8(v) => i8_values(v@),
            WavSamples::Int16(v) => i16_values(v@),
            WavSamples::Int32(v) => i32_values(v@),
            WavSamples::Float32(v) => u32_values(v@),
        }
    }
}

/// The number of bytes in which a sample of `kind` is stored in memory.
pub open spec fn stored_width(kind: WavSampleKind) -> nat {
    match kind {
        WavSampleKind::Int8 => 1,
        WavSampleKind::Int16 => 2,
        WavSampleKind::Int32 => 4,
        WavSampleKind::Float32 => 4,
    }
}

/// Whether samples of `kind` are read as two's complement integers.
pub open spec fn is_signed(kind: WavSampleKind) -> bool {
    kind != WavSampleKind::Float32
}

/// The kind in which the samples of a file with `info` are read: 8-, 16-, 24- and
/// 32-bit integers and 32-bit floats; 24-bit samples are read as 32-bit integers.
pub open spec fn read_kind(info: WavInfo) -> Option<WavSampleKind> {
    match info.sample_format {
        SampleFormat::Int => if info.bits_per_sample == 8 {
            Some(WavSampleKind::Int8)
        } else if info.bits_per_sample == 16 {
            Some(WavSampleKind::Int16)
        } else if info.bits_per_sample == 24 || info.bits_per_sample == 32 {
            Some(WavSampleKind::Int32)
        } else {
            None
        },
        SampleFormat::Float => if info.bits_per_sample == 32 {
            Some(WavSampleKind::Float32)
        } else {
            None
        },
    }
}

/// The specification of the buffer read from a file with `info`: its rate, depth, format
/// and channels, little-endian, and interleaved when it has two or more channels (a file
/// holds the channels' samples alternating, frame by frame, in one sequence).
pub open spec fn read_buffer_spec(info: WavInfo) -> AudioSpec {
    AudioSpec {
        sample_rate: info.sample_rate,
        bits_per_sample: info.bits_per_sample,
        channels: info.channels,
        sample_format: info.sample_format,
        interleaved: info.channels >= 2,
        endianness: Endianness::Little,
    }
}

/// The kind of the samples written for audio with `spec`, and the number of bytes
/// that each sample takes in the audio's bytes: 16-bit integers from pairs, 24-bit
/// integers from triples (as 32-bit integers), 32-bit integers and floats from quadruples.
pub open spec fn write_kind(spec: AudioSpec) -> Option<(WavSampleKind, nat)> {
    match spec.sample_format {
        SampleFormat::Int => if spec.bits_per_sample == 16 {
            Some((WavSampleKind::Int16, 2nat))
        } else if spec.bits_per_sample == 24 {
            Some((WavSampleKind::Int32, 3nat))
        } else if spec.bits_per_sample == 32 {
            Some((WavSampleKind::Int32, 4nat))
        } else {
            None
        },
        SampleFormat::Float => if spec.bits_per_sample == 32 {
            Some((WavSampleKind::Float32, 4nat))
        } else {
            None
        },
    }
}

/// The Riff Wave properties of audio with `spec`.
pub open spec fn info_of(spec: AudioSpec) -> WavInfo {
    WavInfo {
        channels: spec.channels,
        sample_rate: spec.sample_rate,
        bits_per_sample: spec.bits_per_sample,
        sample_format: spec.sample_format,
    }
}

/// The kind in which the samples of a file with `info` are read, or the error
/// for a file whose samples are not read.
pub fn read_sample_kind(info: WavInfo) -> (r: Result<WavSampleKind, GaussError>)
    ensures
        match read_kind(info) {
            Some(kind) => r == Ok::<WavSampleKind, GaussError>(kind),
            None => r matches Err(GaussError::UnsupportedWavFormat { sample_format, bits_per_sample })
                && sample_format == info.sample_format && bits_per_sample == info.bits_per_sample,
        },
{
    match info.sample_format {
        SampleFormat::Int => {
            if info.bits_per_sample == 8 {
                return Ok(WavSampleKind::Int8);
            } else if info.bits_per_sample == 16 {
                return Ok(WavSampleKind::Int16);
            } else if info.bits_per_sample == 24 || info.bits_per_sample == 32 {
                return Ok(WavSampleKind::Int32);
            }
        },
        SampleFormat::Float => {
            if info.bits_per_sample == 32 {
                return Ok(WavSampleKind::Float32);
            }
        },
    }
    Err(
        GaussError::UnsupportedWavFormat {
            sample_format: info.sample_format,
            bits_per_sample: info.bits_per_sample,
        },
    )
}

/// The bytes of decoded samples in memory: each sample little-endian in the width
/// of its type (float samples by their bit patterns).
pub fn samples_into_bytes(samples: &WavSamples) -> (bytes: Vec<u8>)
    ensures
        bytes@ == le_bytes(samples.values(), stored_width(samples.kind())),
{
    match samples {
        WavSamples::Int8(v) => i8_samples_into_bytes(v.as_slice()),
        WavSamples::Int16(v) => i16_samples_into_bytes(v.as_slice()),
        WavSamples::Int32(v) => i32_samples_into_bytes(v.as_slice()),
        WavSamples::Float32(v) => u32_words_into_bytes(v.as_slice()),
    }
}

/// The audio buffer read from a file with `info` whose samples are `samples`.
pub fn buffer_from_wav(info: WavInfo, samples: &WavSamples) -> (buffer: AudioBuffer)
    ensures
        buffer.audio_spec() == read_buffer_spec(info),
        buffer.audio_samples() == le_bytes(samples.values(), stored_width(samples.kind())),
        buffer.audio_spec().sample_rate == info.sample_rate,
        buffer.audio_spec().bits_per_sample == info.bits_per_sample,
        buffer.audio_spec().channels == info.channels,
        buffer.audio_spec().sample_format == info.sample_format,
        buffer.audio_spec().endianness == Endianness::Little,
        buffer.audio_spec().interleaved == (info.channels >= 2),
        buffer.audio_samples().len() == samples.values().len() * match samples {
            WavSamples::Int8(_) => 1nat,
            WavSamples::Int16(_) => 2nat,
            WavSamples::Int32(_) => 4nat,
            WavSamples::Float32(_) => 4nat,
        },
{
    let mut buffer = AudioBuffer::new(
        AudioSpec {
            sample_rate: info.sample_rate,
            bits_per_sample: info.bits_per_sample,
            channels: info.channels,
            sample_format: match info.sample_format {
                SampleFormat::Int => SampleFormat::Int,
                SampleFormat::Float => SampleFormat::Float,
            },
            interleaved: info.channels >= 2,
            endianness: Endianness::Little,
        },
    );
    buffer.set_samples(samples_into_bytes(samples));
    buffer
}

/// The Riff Wave properties under which audio with `spec` is written.
pub fn wav_info(spec: AudioSpec) -> (info: WavInfo)
    ensures
        info == info_of(spec),
        info.bits_per_sample == spec.bits_per_sample,
        info.sample_rate == spec.sample_rate,
        info.channels == spec.channels,
        info.sample_format == spec.sample_format,
{
    WavInfo {
        sample_rate: spec.sample_rate,
        bits_per_sample: spec.bits_per_sample,
        channels: spec.channels,
        sample_format: match spec.sample_format {
            SampleFormat::Int => SampleFormat::Int,
            SampleFormat::Float => SampleFormat::Float,
        },
    }
}

/// Whether audio with `spec` stores its samples big-endian.
pub open spec fn is_big_endian(spec: AudioSpec) -> bool {
    spec.endianness == Endianness::Big
}

/// The samples written for audio with `spec` whose bytes are `bytes`, read from the
/// bytes as words in the byte order that the spec declares (bytes after the last whole
/// sample are left out), or the error for audio whose samples are not written.
pub fn samples_for_write(spec: AudioSpec, bytes: &[u8]) -> (r: Result<WavSamples, GaussError>)
    ensures
        match write_kind(spec) {
            Some((kind, width)) => r matches Ok(samples) && samples.kind() == kind
                && samples.values() == word_values(
                bytes@,
                width,
                is_signed(kind),
                is_big_endian(spec),
            ),
            None => r matches Err(GaussError::UnsupportedSampleFormat { sample_format, bits_per_sample })
                && sample_format == spec.sample_format && bits_per_sample == spec.bits_per_sample,
        },
{
    let big = match spec.endianness {
        Endianness::Big => true,
        Endianness::Little => false,
    };
    match spec.sample_format {
        SampleFormat::Int => {
            if spec.bits_per_sample == 16 {
                return Ok(WavSamples::Int16(bytes_into_i16_samples(bytes, big)));
            } else if spec.bits_per_sample == 24 {
                return Ok(WavSamples::Int32(bytes_into_i24_samples(bytes, big)));
            } else if spec.bits_per_sample == 32 {
                return Ok(WavSamples::Int32(bytes_into_i32_samples(bytes, big)));
            }
        },
        SampleFormat::Float => {
            if spec.bits_per_sample == 32 {
                return Ok(WavSamples::Float32(bytes_into_u32_words(bytes, big)));
            }
        },
    }
    Err(
        GaussError::UnsupportedSampleFormat {
            sample_format: spec.sample_format,
            bits_per_sample: spec.bits_per_sample,
        },
    )
}

/// Reader implementation for Riff Wave audio files.
///
/// It holds the source that the file is read from.
#[derive(Debug, Clone)]
pub struct WavReader<R> {
    inner: R,
}

impl<R> WavReader<R> {
    /// The source that the reader reads from.
    pub closed spec fn source(&self) -> R {
        self.inner
    }

    /// Creates a new [`WavReader`]
    pub fn new(inner: R) -> (reader: Self)
        ensures
            reader.source() == inner,
    {
        Self { inner }
    }

    /// Gives back the source.
    pub fn into_inner(self) -> (inner: R)
        ensures
            inner == self.source(),
    {
        self.inner
    }

    /// The source, to read from.
    pub fn inner_mut(&mut self) -> (inner: &mut R)
        ensures
            *inner == old(self).source(),
            *final(inner) == final(self).source(),
    {
        &mut self.inner
    }
}

/// Writer implementation for Riff Wave audio files.
///
/// It holds the destination that the file is written to.
pub struct WavWriter<W> {
    inner: W,
}

impl<W> WavWriter<W> {
    /// The destination that the writer writes to.
    pub closed spec fn destination(&self) -> W {
        self.inner
    }

    /// Creates a new [`WavWriter`]
    pub fn new(inner: W) -> (writer: Self)
        ensures
            writer.destination() == inner,
    {
        Self { inner }
    }

    /// Gives back the destination.
    pub fn into_inner(self) -> (inner: W)
        ensures
            inner == self.destination(),
    {
        self.inner
    }

    /// The destination, to write to.
    pub fn inner_mut(&mut self) -> (inner: &mut W)
        ensures
            *inner == old(self).destination(),
            *final(inner) == final(self).destination(),
    {
        &mut self.inner
    }
}

/// Every sample fits the width in which its kind is stored.
proof fn lemma_samples_fit(samples: &WavSamples)
    ensures
        forall|i: int|
            0 <= i < samples.values().len() ==> fits_word(
                #[trigger] samples.values()[i],
                stored_width(samples.kind()),
                is_signed(samples.kind()),
            ),
{
}

/// A buffer read from a Riff Wave file of 16-bit or 32-bit integers or of 32-bit floats
/// is written back under the properties it was read with, as the very samples it was
/// read from.
pub proof fn lemma_read_buffer_written_back(info: WavInfo, samples: &WavSamples)
    requires
        read_kind(info) == Some(samples.kind()),
        info.bits_per_sample == 16 || info.bits_per_sample == 32,
    ensures
        info_of(read_buffer_spec(info)) == info,
        write_kind(read_buffer_spec(info)) == Some(
            (samples.kind(), stored_width(samples.kind())),
        ),
        le_values(
            le_bytes(samples.values(), stored_width(samples.kind())),
            stored_width(samples.kind()),
            is_signed(samples.kind()),
        ) == samples.values(),
{
    lemma_samples_fit(samples);
    lemma_le_values_of_le_bytes(
        samples.values(),
        stored_width(samples.kind()),
        is_signed(samples.kind()),
    );
}

/// The samples written for little-endian audio of 16-bit or 32-bit integers or of 32-bit
/// floats, read back from a file with the properties they were written under, give back
/// the audio's bytes up to its last whole sample, in a buffer with the audio's rate,
/// depth, format and channels.
pub proof fn lemma_written_samples_read_back(spec: AudioSpec, bytes: Seq<u8>)
    requires
        spec.bits_per_sample == 16 || spec.bits_per_sample == 32,
        write_kind(spec) is Some,
        spec.endianness == Endianness::Little,
    ensures
        ({
            let (kind, width) = write_kind(spec).unwrap();
            let buffer_spec = read_buffer_spec(info_of(spec));
            &&& read_kind(info_of(spec)) == Some(kind)
            &&& stored_width(kind) == width
            &&& buffer_spec.sample_rate == spec.sample_rate
            &&& buffer_spec.bits_per_sample == spec.bits_per_sample
            &&& buffer_spec.sample_format == spec.sample_format
            &&& buffer_spec.channels == spec.channels
            &&& le_bytes(
                word_values(bytes, width, is_signed(kind), is_big_endian(spec)),
                stored_width(kind),
            ) == bytes.take(
                ((bytes.len() / width) * width) as int,
            )
        }),
{
    let (kind, width) = write_kind(spec).unwrap();
    lemma_le_bytes_of_le_values(bytes, width, is_signed(kind));
}

/// The Riff Wave properties of audio are the audio's own: its depth (24 bits included),
/// rate, channels and sample format.
pub proof fn lemma_written_properties_are_the_audios(spec: AudioSpec)
    ensures
        info_of(spec).bits_per_sample == spec.bits_per_sample,
        info_of(spec).sample_rate == spec.sample_rate,
        info_of(spec).channels == spec.channels,
        info_of(spec).sample_format == spec.sample_format,
{
}

/// The buffer read from a file has the file's depth (8 bits included), rate, channels
/// and sample format, is little-endian, and is interleaved when it has two or more
/// channels.
pub proof fn lemma_read_properties_are_the_files(info: WavInfo)
    ensures
        read_buffer_spec(info).bits_per_sample == info.bits_per_sample,
        read_buffer_spec(info).sample_rate == info.sample_rate,
        read_buffer_spec(info).channels == info.channels,
        read_buffer_spec(info).sample_format == info.sample_format,
        read_buffer_spec(info).endianness == Endianness::Little,
        read_buffer_spec(info).interleaved == (info.channels >= 2),
{
}

/// Samples are read in a kind whose width holds the file's depth: 8-bit samples one byte
/// each, 16-bit two, 24- and 32-bit four; and only integer files of 8, 16, 24 or 32 bits
/// and float files of 32 bits are read.
pub proof fn lemma_read_kind_holds_depth(info: WavInfo)
    ensures
        read_kind(info) is Some <==> (info.sample_format == SampleFormat::Int && (
        info.bits_per_sample == 8 || info.bits_per_sample == 16 || info.bits_per_sample == 24
            || info.bits_per_sample == 32)) || (info.sample_format == SampleFormat::Float
            && info.bits_per_sample == 32),
        read_kind(info) is Some ==> 8 * stored_width(read_kind(info).unwrap()) >= info.bits_per_sample,
        read_kind(info) is Some && info.bits_per_sample != 24 ==> 8 * stored_width(
            read_kind(info).unwrap(),
        ) == info.bits_per_sample,
{
}

/// Samples are written from the audio's bytes in words of exactly the audio's depth:
/// 2 bytes for 16 bits, 3 for 24, 4 for 32; only integer audio of 16, 24 or 32 bits and
/// float audio of 32 bits is written.
pub proof fn lemma_write_words_are_the_depth(spec: AudioSpec)
    ensures
        write_kind(spec) is Some <==> (spec.sample_format == SampleFormat::Int && (
        spec.bits_per_sample == 16 || spec.bits_per_sample == 24 || spec.bits_per_sample == 32))
            || (spec.sample_format == SampleFormat::Float && spec.bits_per_sample == 32),
        write_kind(spec) matches Some((kind, width)) ==> 8 * width == spec.bits_per_sample
            && (kind == WavSampleKind::Float32 <==> spec.sample_format == SampleFormat::Float),
{
}

} // verus!
