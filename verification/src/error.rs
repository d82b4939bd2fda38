use vstd::prelude::*;

use crate::audio::SampleFormat;
use crate::format::SupportedFormat;

verus! {

/// Errors reported by the library's logic.
#[derive(Debug)]
pub enum GaussError {
    /// The path has an extension of a supported length that names no supported format.
    UnsupportedFormat(String),
    /// The path's extension is neither 3 nor 4 bytes long.
    UnsupportedExtensionLength(String),
    /// No extension could be taken from the path.
    MissingExtension(String),
    /// A Riff Wave file holds samples of a kind that is not read.
    UnsupportedWavFormat { sample_format: SampleFormat, bits_per_sample: u16 },
    /// An audio source holds samples of a kind that is not written.
    UnsupportedSampleFormat { sample_format: SampleFormat, bits_per_sample: u16 },
    /// No reader or writer exists yet for the format.
    NoCodec(SupportedFormat),
}

} // verus!
