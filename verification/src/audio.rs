use vstd::prelude::*;

verus! {

/// Abstracts audio suppliers.
///
/// A source is seen as its specification and the raw bytes of its samples.
/// `has_samples` says when the bytes can be handed out.
pub trait AudioSource {
    /// The specification of the audio.
    spec fn audio_spec(&self) -> AudioSpec;

    /// The raw sample bytes of the audio.
    spec fn audio_samples(&self) -> Seq<u8>;

    /// Whether the sample bytes can be handed out.
    spec fn has_samples(&self) -> bool;

    /// Get specification
    fn spec(&self) -> (s: AudioSpec)
        ensures
            s == self.audio_spec(),
    ;

    /// Whether the samples can be handed out: the check to make before [`AudioSource::samples`].
    fn samples_available(&self) -> (b: bool)
        ensures
            b == self.has_samples(),
    ;

    /// Get samples
    fn samples(&self) -> (s: &[u8])
        requires
            self.has_samples(),
        ensures
            s@ == self.audio_samples(),
    ;
}

/// Abstracts audio suppliers that can be modified
///
/// The main purpose of this trait is to allow
/// for distinction between audio spans and
/// audio buffers that can be modified.
pub trait AudioSourceMut: AudioSource {
    /// Get mutable samples
    fn samples_mut(&mut self) -> (s: &mut [u8])
        ensures
            s@ == old(self).audio_samples(),
            final(s)@ == final(self).audio_samples(),
            final(self).audio_spec() == old(self).audio_spec(),
            final(self).has_samples() == old(self).has_samples(),
    ;

    /// Set samples
    fn set_samples(&mut self, samples: Vec<u8>)
        ensures
            final(self).audio_samples() == samples@,
            final(self).audio_spec() == old(self).audio_spec(),
            final(self).has_samples() == old(self).has_samples(),
    ;
}

/// Data format of audio samples
#[derive(Debug, Clone, Copy, PartialEq, Eq, Structural)]
pub enum SampleFormat {
    /// Floating Point Sample
    Float,
    /// Integer Sample
    Int,
}

/// Endianness of audio samples
#[derive(Debug, Clone, Copy, PartialEq, Eq, Structural)]
pub enum Endianness {
    /// Little-endian byte order
    Little,
    /// Big-endian byte order
    Big,
}

/// Represents audio information
#[derive(Debug, Clone, Copy)]
pub struct AudioSpec {
    /// Sample rate in Hz
    ///
    /// A sample rate represents the number of samples
    /// per second in an audio stream.
    ///
    /// Common sample rates include:
    /// - 22050 Hz (low quality)
    /// - 32000 Hz (medium quality)
    /// - 44100 Hz (CD quality)
    /// - 48000 Hz (professional audio)
    pub sample_rate: u32,
    /// Number of bits per sample
    ///
    /// A sample is a single audio data point. Each sample
    /// can be represented by a certain number of bits.
    ///
    /// Common bit depths include:
    /// - 8 bits (low quality, often used in telephony)
    /// - 16 bits (CD quality, common in music)
    /// - 24 bits (high quality, used in professional audio)
    /// - 32 bits (used in some high-end applications)
    pub bits_per_sample: u16,
    /// Sample format
    ///
    /// The sample format defines how each audio sample
    /// is represented in memory. Take a look at [`SampleFormat`]
    /// for more details.
    pub sample_format: SampleFormat,
    /// Number of audio channels
    ///
    /// A channel represents a single audio stream.
    /// Common channel configurations include
    /// 1 (mono), 2 (stereo), 4 (quadraphonic),
    /// 6 (5.1 surround sound) and 8 (7.1 surround sound).
    pub channels: u16,
    /// Audio is interleaved or not
    ///
    /// Interleaved audio means that samples from different
    /// channels are stored in a single buffer, with each
    /// channel's samples alternating, such as
    /// `[left0, right0, left1, right1, ...]` for stereo.
    /// Non-interleaved audio stores each channel's samples
    /// in separate buffers.
    pub interleaved: bool,
    /// Endianness of audio samples
    ///
    /// Endianness defines the byte order in which
    /// multi-byte audio samples are stored:
    /// - Little-endian (least significant byte first)
    /// - Big-endian (most significant byte first)
    pub endianness: Endianness,
}

/// Stores audio data in a buffer.
///
/// Samples are stored as raw bytes: `samples`.
/// Information about the audio data is stored in
/// [`AudioSpec`].
#[derive(Debug, Clone)]
pub struct AudioBuffer {
    samples: Vec<u8>,
    spec: AudioSpec,
}

impl AudioBuffer {
    /// Creates a new audio buffer from a specification
    pub fn new(spec: AudioSpec) -> (buffer: Self)
        ensures
            buffer.audio_spec() == spec,
            buffer.audio_samples() == Seq::<u8>::empty(),
    {
        Self { samples: Vec::new(), spec }
    }

    /// Resize buffer
    ///
    /// Shortening keeps the first `new_len` bytes; lengthening
    /// appends copies of `value`.
    pub fn resize(&mut self, new_len: usize, value: u8)
        ensures
            final(self).audio_spec() == old(self).audio_spec(),
            final(self).audio_samples() == resized(old(self).audio_samples(), new_len as nat, value),
            final(self).audio_samples().len() == new_len,
            forall|i: int|
                0 <= i < new_len ==> #[trigger] final(self).audio_samples()[i] == if i < old(
                    self,
                ).audio_samples().len() {
                    old(self).audio_samples()[i]
                } else {
                    value
                },
    {
        self.samples.resize(new_len, value);
        proof {
            assert(self.samples@ =~= resized(old(self).samples@, new_len as nat, value));
        }
    }
}

/// Resizing gives exactly `new_len` bytes: the old ones where there are any, `value`
/// after them.
pub proof fn lemma_resized(s: Seq<u8>, new_len: nat, value: u8)
    ensures
        resized(s, new_len, value).len() == new_len,
        forall|i: int|
            0 <= i < new_len ==> #[trigger] resized(s, new_len, value)[i] == if i < s.len() {
                s[i]
            } else {
                value
            },
        new_len <= s.len() ==> resized(s, new_len, value) == s.take(new_len as int),
{
    if new_len <= s.len() {
        assert(resized(s, new_len, value) =~= s.take(new_len as int));
    }
}

/// The bytes `s` resized to `new_len`: its first `new_len` bytes, followed
/// by copies of `value` where `s` is shorter.
pub open spec fn resized(s: Seq<u8>, new_len: nat, value: u8) -> Seq<u8> {
    Seq::new(new_len, |i: int| if i < s.len() { s[i] } else { value })
}

impl AudioSource for AudioBuffer {
    closed spec fn audio_spec(&self) -> AudioSpec {
        self.spec
    }

    closed spec fn audio_samples(&self) -> Seq<u8> {
        self.samples@
    }

    open spec fn has_samples(&self) -> bool {
        true
    }

    fn spec(&self) -> (s: AudioSpec) {
        self.spec
    }

    fn samples_available(&self) -> (b: bool) {
        true
    }

    fn samples(&self) -> (s: &[u8]) {
        self.samples.as_slice()
    }
}

impl AudioSourceMut for AudioBuffer {
    fn samples_mut(&mut self) -> (s: &mut [u8]) {
        self.samples.as_mut_slice()
    }

    fn set_samples(&mut self, samples: Vec<u8>) {
        self.samples = samples;
    }
}

/// Represents a segment of an audio
///
/// The span covers `len` bytes of the buffer's samples from `offset` on.
#[derive(Debug, Clone)]
pub struct AudioSpan<'src> {
    buffer: &'src AudioBuffer,
    offset: usize,
    len: usize,
}

impl<'src> AudioSpan<'src> {
    /// The buffer that the span looks into.
    pub closed spec fn source(&self) -> AudioBuffer {
        *self.buffer
    }

    /// The first byte of the buffer that the span covers.
    pub closed spec fn start(&self) -> nat {
        self.offset as nat
    }

    /// The number of bytes that the span covers.
    pub closed spec fn length(&self) -> nat {
        self.len as nat
    }

    /// Creates a new full audio span from a [`AudioBuffer`]
    pub fn new(buffer: &'src AudioBuffer) -> (span: Self)
        ensures
            span.source() == *buffer,
            span.start() == 0,
            span.length() == buffer.audio_samples().len(),
            span.has_samples(),
            span.audio_samples() == buffer.audio_samples(),
            span.audio_spec() == buffer.audio_spec(),
    {
        let span = Self { buffer, offset: 0, len: buffer.samples.len() };
        proof {
            assert(span.audio_samples() =~= buffer.audio_samples());
        }
        span
    }

    /// Creates a cropped audio span from a [`AudioBuffer`]
    ///
    /// Nothing is checked here: the span hands out its samples only when
    /// `offset + len` lies within the buffer.
    pub fn new_spanned(buffer: &'src AudioBuffer, offset: usize, len: usize) -> (span: Self)
        ensures
            span.source() == *buffer,
            span.start() == offset,
            span.length() == len,
            span.has_samples() <==> offset + len <= buffer.audio_samples().len(),
            span.has_samples() ==> span.audio_samples() == buffer.audio_samples().subrange(
                offset as int,
                offset + len,
            ),
            span.audio_spec() == buffer.audio_spec(),
    {
        Self { buffer, offset, len }
    }
}

impl<'src> AudioSource for AudioSpan<'src> {
    closed spec fn audio_spec(&self) -> AudioSpec {
        self.buffer.spec
    }

    closed spec fn audio_samples(&self) -> Seq<u8> {
        self.buffer.samples@.subrange(self.offset as int, self.offset + self.len)
    }

    closed spec fn has_samples(&self) -> bool {
        self.offset + self.len <= self.buffer.samples@.len()
    }

    fn spec(&self) -> (s: AudioSpec) {
        self.buffer.spec
    }

    fn samples_available(&self) -> (b: bool) {
        let available = self.buffer.samples.len();
        self.len <= available && self.offset <= available - self.len
    }

    fn samples(&self) -> (s: &[u8]) {
        let available = self.buffer.samples.len();
        assert(self.offset + self.len <= available);
        &self.buffer.samples[self.offset..self.offset + self.len]
    }
}

} // verus!
