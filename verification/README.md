# gauss

In-memory audio buffers and the logic of reading and writing them as Riff Wave
files, verified with Verus.

- `src/audio.rs`: audio specifications, buffers of raw sample bytes, spans over
  buffers, and the `AudioSource` / `AudioSourceMut` traits.
- `src/format/mod.rs`: the formats and how a path's extension names one.
- `src/format/samples.rs`: little-endian byte images of samples and their
  round-trip laws.
- `src/format/wav.rs`: which samples a Riff Wave file is read and written as, the
  buffer read from a file, and the laws that relate reading and writing.
- `src/load/`: readers and writers over a source or destination.
- `app/lib.rs`: the stream and file I/O, done through `hound`, around the library.
