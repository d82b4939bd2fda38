use vstd::prelude::*;

verus! {

/// A dynamic writer for multiple audio formats.
///
/// It holds the destination that audio is written to.
#[derive(Debug, Clone)]
pub struct AudioWriter<W> {
    inner: W,
}

impl<W> AudioWriter<W> {
    /// The destination that the writer writes to.
    pub closed spec fn destination(&self) -> W {
        self.inner
    }

    /// Creates a new `AudioWriter` with the given inner writer.
    pub fn new(inner: W) -> (writer: Self)
        ensures
            writer.destination() == inner,
    {
        Self { inner }
    }

    /// Gives back the destination.
    pub fn into_inner(self) -> (inner: W)
        ensures
            inner == self.destination(),
    {
        self.inner
    }

    /// The destination, to write to.
    pub fn inner_mut(&mut self) -> (inner: &mut W)
        ensures
            *inner == old(self).destination(),
            *final(inner) == final(self).destination(),
    {
        &mut self.inner
    }
}

} // verus!
