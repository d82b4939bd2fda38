use vstd::prelude::*;

use crate::error::GaussError;
use crate::format::wav::{WavReader, WavWriter};
use crate::format::SupportedFormat;

/// Audio decoder module
pub mod read;
pub use read::AudioReader;
/// Audio encoder module
pub mod write;
pub use write::AudioWriter;

verus! {

/// A dummy format info type that can be used when no format information is needed.
pub struct NoFormatInfo;

/// The reader for `format` over `src`. Only Riff Wave is read: for the other formats,
/// which no reader exists for yet, the error names the format.
pub fn find_reader<R>(format: SupportedFormat, src: R) -> (r: Result<WavReader<R>, GaussError>)
    ensures
        format == SupportedFormat::Wav ==> (r matches Ok(reader) && reader.source() == src),
        format != SupportedFormat::Wav ==> (r matches Err(GaussError::NoCodec(f)) && f == format),
{
    match format {
        SupportedFormat::Wav => Ok(WavReader::new(src)),
        _ => Err(GaussError::NoCodec(format)),
    }
}

/// The writer for `format` over `src`. Only Riff Wave is written: for the other formats,
/// which no writer exists for yet, the error names the format.
pub fn find_writer<W>(format: SupportedFormat, src: W) -> (r: Result<WavWriter<W>, GaussError>)
    ensures
        format == SupportedFormat::Wav ==> (r matches Ok(writer) && writer.destination() == src),
        format != SupportedFormat::Wav ==> (r matches Err(GaussError::NoCodec(f)) && f == format),
{
    match format {
        SupportedFormat::Wav => Ok(WavWriter::new(src)),
        _ => Err(GaussError::NoCodec(format)),
    }
}

} // verus!
