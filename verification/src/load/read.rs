use vstd::prelude::*;

use crate::format::SupportedFormat;

verus! {

/// A dynamic reader for multiple audio formats.
///
/// The design follows the common 'Reader' pattern: it holds a source and
/// the format in which the source is read.
#[derive(Debug, Clone)]
pub struct AudioReader<R> {
    inner: R,
    format: SupportedFormat,
}

impl<R> AudioReader<R> {
    /// The source that the reader reads from.
    pub closed spec fn source(&self) -> R {
        self.inner
    }

    /// The format in which the source is read.
    pub closed spec fn source_format(&self) -> SupportedFormat {
        self.format
    }

    /// Constructs a audio reader from a source and the format it is read in.
    pub fn new(inner: R, format: SupportedFormat) -> (reader: Self)
        ensures
            reader.source() == inner,
            reader.source_format() == format,
    {
        AudioReader { inner, format }
    }

    /// Gives back the source.
    pub fn into_inner(self) -> (inner: R)
        ensures
            inner == self.source(),
    {
        self.inner
    }

    /// The format in which the source is read.
    pub fn format(&self) -> (format: SupportedFormat)
        ensures
            format == self.source_format(),
    {
        self.format
    }

    /// The source, to read from.
    pub fn inner_mut(&mut self) -> (inner: &mut R)
        ensures
            *inner == old(self).source(),
            *final(inner) == final(self).source(),
            final(self).source_format() == old(self).source_format(),
    {
        &mut self.inner
    }
}

} // verus!
