//! Gauss: in-memory audio buffers and the logic of reading and writing them
//! as audio files.

/// Objects for audio representation: specifications, buffers and spans.
pub mod audio;
/// Errors reported by the library.
pub mod error;
/// Audio formats: file extensions, sample byte images and the Riff Wave logic.
pub mod format;
/// Audio readers and writers.
pub mod load;
