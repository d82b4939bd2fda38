use std::f32::consts::PI;
use std::io::Cursor;

use gauss::audio::{
    AudioBuffer, AudioSource, AudioSourceMut, AudioSpan, AudioSpec, Endianness, SampleFormat,
};
use gauss::error::GaussError;
use gauss::format::wav::{
    buffer_from_wav, read_sample_kind, samples_for_write, wav_info, WavInfo, WavReader,
    WavSampleKind, WavSamples, WavWriter,
};
use gauss::format::SupportedFormat;
use gauss::load::{find_reader, find_writer, AudioReader, AudioWriter};

fn hound_spec(info: WavInfo) -> hound::WavSpec {
    hound::WavSpec {
        channels: info.channels,
        sample_rate: info.sample_rate,
        bits_per_sample: info.bits_per_sample,
        sample_format: match info.sample_format {
            SampleFormat::Int => hound::SampleFormat::Int,
            SampleFormat::Float => hound::SampleFormat::Float,
        },
    }
}

fn info_of(spec: hound::WavSpec) -> WavInfo {
    WavInfo {
        channels: spec.channels,
        sample_rate: spec.sample_rate,
        bits_per_sample: spec.bits_per_sample,
        sample_format: match spec.sample_format {
            hound::SampleFormat::Int => SampleFormat::Int,
            hound::SampleFormat::Float => SampleFormat::Float,
        },
    }
}

/// Writes `src` as a Riff Wave file in memory, as a writer of the library does.
fn encode<T: AudioSource>(src: &T) -> Vec<u8> {
    let spec = src.spec();
    let info = wav_info(spec);
    let mut sink = Cursor::new(Vec::new());
    {
        let mut writer = hound::WavWriter::new(&mut sink, hound_spec(info)).unwrap();
        match samples_for_write(spec, src.samples()).unwrap() {
            WavSamples::Int8(v) => v.into_iter().for_each(|s| writer.write_sample(s).unwrap()),
            WavSamples::Int16(v) => v.into_iter().for_each(|s| writer.write_sample(s).unwrap()),
            WavSamples::Int32(v) => v.into_iter().for_each(|s| writer.write_sample(s).unwrap()),
            WavSamples::Float32(v) => v
                .into_iter()
                .for_each(|s| writer.write_sample(f32::from_bits(s)).unwrap()),
        }
        writer.finalize().unwrap();
    }
    sink.into_inner()
}

/// Reads a Riff Wave file in memory, as a reader of the library does.
fn decode(bytes: &[u8]) -> Result<AudioBuffer, GaussError> {
    let mut reader = hound::WavReader::new(Cursor::new(bytes)).unwrap();
    let info = info_of(reader.spec());
    let samples = match read_sample_kind(info)? {
        WavSampleKind::Int8 => WavSamples::Int8(reader.samples().map(|s| s.unwrap()).collect()),
        WavSampleKind::Int16 => WavSamples::Int16(reader.samples().map(|s| s.unwrap()).collect()),
        WavSampleKind::Int32 => WavSamples::Int32(reader.samples().map(|s| s.unwrap()).collect()),
        WavSampleKind::Float32 => WavSamples::Float32(
            reader.samples::<f32>().map(|s| s.unwrap().to_bits()).collect(),
        ),
    };
    Ok(buffer_from_wav(info, &samples))
}

fn spec(format: SampleFormat, bits: u16) -> AudioSpec {
    AudioSpec {
        channels: 1,
        sample_rate: 8000,
        bits_per_sample: bits,
        endianness: Endianness::Little,
        sample_format: format,
        interleaved: false,
    }
}

#[test]
fn test_write() {
    const DURATION_SECS: usize = 2;
    const SAMPLE_RATE: usize = 44100;
    const NUM_SAMPLES: usize = SAMPLE_RATE * DURATION_SECS;
    const FREQUENCY: f32 = 440.0; // Hz

    let mut audio = AudioBuffer::new(AudioSpec {
        channels: 1,
        sample_rate: SAMPLE_RATE as u32,
        bits_per_sample: 16,
        endianness: Endianness::Little,
        sample_format: SampleFormat::Int,
        interleaved: false,
    });

    audio.resize(NUM_SAMPLES * 2, 0); // 2 bytes per sample for i16
    let samples = audio.samples_mut();

    for i in 0..NUM_SAMPLES {
        let t = i as f32 / SAMPLE_RATE as f32;
        let value = (i16::MAX as f32 * (2.0 * PI * FREQUENCY * t).cos()) as i16;
        let bytes = value.to_le_bytes();
        samples[i * 2] = bytes[0];
        samples[i * 2 + 1] = bytes[1];
    }

    let span = AudioSpan::new_spanned(&audio, 100, 500);

    let mut writer = AudioWriter::new(Cursor::new(Vec::new()));
    let mut wav_writer = find_writer(SupportedFormat::Wav, writer.inner_mut()).unwrap();
    let file = encode(&span);
    std::io::Write::write_all(wav_writer.inner_mut(), &file).unwrap();
    let written = writer.into_inner().into_inner();
    assert_eq!(written, file);

    // The span's 250 samples are written and read back unchanged.
    match samples_for_write(span.spec(), span.samples()).unwrap() {
        WavSamples::Int16(v) => {
            assert_eq!(v.len(), 250);
            assert_eq!(v[0], i16::from_le_bytes([audio.samples()[100], audio.samples()[101]]));
        }
        other => panic!("unexpected {:?}", other),
    }
    let read_back = decode(&written).unwrap();
    assert_eq!(read_back.samples(), span.samples());
    assert_eq!(read_back.spec().sample_rate, 44100);
    assert_eq!(read_back.spec().bits_per_sample, 16);
}

#[test]
fn test_read() {
    let mut source = AudioBuffer::new(spec(SampleFormat::Int, 16));
    source.set_samples(vec![0x01, 0x00, 0xFF, 0x7F, 0x00, 0x80]);
    let file = encode(&source);

    let mut reader = AudioReader::new(Cursor::new(file.clone()), SupportedFormat::Wav);
    let format = reader.format();
    let wav_reader = find_reader(format, reader.inner_mut()).unwrap();
    let bytes = wav_reader.into_inner().get_ref().clone();
    let audio = decode(&bytes).unwrap();
    assert_eq!(audio.samples(), &[0x01, 0x00, 0xFF, 0x7F, 0x00, 0x80]);
    assert_eq!(audio.spec().channels, 1);
    assert_eq!(audio.spec().sample_rate, 8000);
    assert!(!audio.spec().interleaved);
    assert!(matches!(audio.spec().endianness, Endianness::Little));
    assert_eq!(reader.into_inner().into_inner(), file);
}

#[test]
fn read_kinds() {
    let info = |format, bits| WavInfo { channels: 2, sample_rate: 1, bits_per_sample: bits, sample_format: format };
    assert_eq!(read_sample_kind(info(SampleFormat::Int, 8)).unwrap(), WavSampleKind::Int8);
    assert_eq!(read_sample_kind(info(SampleFormat::Int, 16)).unwrap(), WavSampleKind::Int16);
    assert_eq!(read_sample_kind(info(SampleFormat::Int, 24)).unwrap(), WavSampleKind::Int32);
    assert_eq!(read_sample_kind(info(SampleFormat::Int, 32)).unwrap(), WavSampleKind::Int32);
    assert_eq!(read_sample_kind(info(SampleFormat::Float, 32)).unwrap(), WavSampleKind::Float32);
    match read_sample_kind(info(SampleFormat::Int, 12)) {
        Err(GaussError::UnsupportedWavFormat { sample_format, bits_per_sample }) => {
            assert_eq!(sample_format, SampleFormat::Int);
            assert_eq!(bits_per_sample, 12);
        }
        other => panic!("unexpected {:?}", other),
    }
    assert!(matches!(
        read_sample_kind(info(SampleFormat::Float, 64)),
        Err(GaussError::UnsupportedWavFormat { .. })
    ));
}

#[test]
fn write_kinds() {
    let bytes = [0x01, 0x02, 0x03, 0x04, 0x05, 0x06, 0x07];
    match samples_for_write(spec(SampleFormat::Int, 16), &bytes).unwrap() {
        WavSamples::Int16(v) => assert_eq!(v, vec![0x0201, 0x0403, 0x0605]),
        other => panic!("unexpected {:?}", other),
    }
    match samples_for_write(spec(SampleFormat::Int, 24), &bytes).unwrap() {
        WavSamples::Int32(v) => assert_eq!(v, vec![0x030201, 0x060504]),
        other => panic!("unexpected {:?}", other),
    }
    match samples_for_write(spec(SampleFormat::Int, 32), &bytes).unwrap() {
        WavSamples::Int32(v) => assert_eq!(v, vec![0x04030201]),
        other => panic!("unexpected {:?}", other),
    }
    match samples_for_write(spec(SampleFormat::Float, 32), &bytes).unwrap() {
        WavSamples::Float32(v) => assert_eq!(v, vec![0x04030201]),
        other => panic!("unexpected {:?}", other),
    }
    match samples_for_write(spec(SampleFormat::Int, 8), &bytes) {
        Err(GaussError::UnsupportedSampleFormat { sample_format, bits_per_sample }) => {
            assert_eq!(sample_format, SampleFormat::Int);
            assert_eq!(bits_per_sample, 8);
        }
        other => panic!("unexpected {:?}", other),
    }
    assert!(matches!(
        samples_for_write(spec(SampleFormat::Float, 16), &bytes),
        Err(GaussError::UnsupportedSampleFormat { .. })
    ));
}

#[test]
fn read_buffer_bytes() {
    let info = WavInfo { channels: 2, sample_rate: 48000, bits_per_sample: 24, sample_format: SampleFormat::Int };
    let buffer = buffer_from_wav(info, &WavSamples::Int32(vec![-1, 0x123456]));
    assert_eq!(buffer.samples(), &[0xFF, 0xFF, 0xFF, 0xFF, 0x56, 0x34, 0x12, 0x00]);
    assert_eq!(buffer.spec().channels, 2);
    assert_eq!(buffer.spec().sample_rate, 48000);
    assert_eq!(buffer.spec().bits_per_sample, 24);
    assert_eq!(buffer.spec().sample_format, SampleFormat::Int);
    assert!(buffer.spec().interleaved);
    let mono = WavInfo { channels: 1, ..info };
    let buffer = buffer_from_wav(mono, &WavSamples::Int8(vec![-128, 5]));
    assert_eq!(buffer.samples(), &[0x80, 0x05]);
    assert!(!buffer.spec().interleaved);
}

#[test]
fn written_then_read_roundtrip() {
    for (format, bits, bytes) in [
        (SampleFormat::Int, 16, vec![0x01, 0x80, 0xFF, 0x7F, 0x42]),
        (SampleFormat::Int, 32, vec![0x01, 0x02, 0x03, 0x84, 0xAA]),
        (SampleFormat::Float, 32, 0.25f32.to_le_bytes().to_vec()),
    ] {
        let mut buffer = AudioBuffer::new(spec(format, bits));
        buffer.set_samples(bytes.clone());
        let read_back = decode(&encode(&buffer)).unwrap();
        let whole = bytes.len() / (bits as usize / 8) * (bits as usize / 8);
        assert_eq!(read_back.samples(), &bytes[..whole]);
        assert_eq!(read_back.spec().bits_per_sample, bits);
    }
}

#[test]
fn twenty_four_bit_is_widened_when_read_back() {
    let mut buffer = AudioBuffer::new(spec(SampleFormat::Int, 24));
    buffer.set_samples(vec![0xFF, 0xFF, 0xFF, 0x01, 0x00, 0x00]);
    let read_back = decode(&encode(&buffer)).unwrap();
    assert_eq!(read_back.samples(), &[0xFF, 0xFF, 0xFF, 0xFF, 0x01, 0x00, 0x00, 0x00]);
}

#[test]
fn readers_and_writers_hold_their_sources() {
    let reader = WavReader::new(vec![1u8, 2]);
    assert_eq!(reader.into_inner(), vec![1, 2]);
    let writer = WavWriter::new(vec![3u8]);
    assert_eq!(writer.into_inner(), vec![3]);
    let reader = AudioReader::new(5u32, SupportedFormat::Ogg);
    assert_eq!(reader.format(), SupportedFormat::Ogg);
    assert_eq!(reader.into_inner(), 5);
    let writer = AudioWriter::new("sink");
    assert_eq!(writer.into_inner(), "sink");
}

#[test]
fn big_endian_audio_is_written_in_its_order() {
    let mut big = spec(SampleFormat::Int, 16);
    big.endianness = Endianness::Big;
    match samples_for_write(big, &[0x00, 0x01]).unwrap() {
        WavSamples::Int16(v) => assert_eq!(v, vec![1]),
        other => panic!("unexpected {:?}", other),
    }
    let mut buffer = AudioBuffer::new(big);
    buffer.set_samples(vec![0x00, 0x01, 0x80, 0x00]);
    let read_back = decode(&encode(&buffer)).unwrap();
    assert_eq!(read_back.samples(), &[0x01, 0x00, 0x00, 0x80]);
    assert!(matches!(read_back.spec().endianness, Endianness::Little));
}

#[test]
fn stereo_reads_are_interleaved() {
    let mut stereo = spec(SampleFormat::Int, 16);
    stereo.channels = 2;
    let mut buffer = AudioBuffer::new(stereo);
    buffer.set_samples(vec![0x01, 0x00, 0x02, 0x00, 0x03, 0x00, 0x04, 0x00]);
    let read_back = decode(&encode(&buffer)).unwrap();
    assert!(read_back.spec().interleaved);
    assert_eq!(read_back.spec().channels, 2);
    assert_eq!(read_back.samples(), buffer.samples());
}

#[test]
fn other_formats_have_no_codec() {
    for format in [SupportedFormat::Mp3, SupportedFormat::Flac, SupportedFormat::Ogg] {
        match find_reader(format, 0u8) {
            Err(GaussError::NoCodec(f)) => assert_eq!(f, format),
            other => panic!("unexpected {:?}", other.map(|r| r.into_inner())),
        }
        match find_writer(format, 0u8) {
            Err(GaussError::NoCodec(f)) => assert_eq!(f, format),
            other => panic!("unexpected {:?}", other.map(|w| w.into_inner())),
        }
    }
    assert!(find_reader(SupportedFormat::Wav, 0u8).is_ok());
}

#[test]
fn spans_report_whether_samples_are_available() {
    let mut buffer = AudioBuffer::new(spec(SampleFormat::Int, 16));
    buffer.set_samples(vec![1, 2, 3]);
    assert!(buffer.samples_available());
    assert!(AudioSpan::new(&buffer).samples_available());
    assert!(AudioSpan::new_spanned(&buffer, 1, 2).samples_available());
    assert!(!AudioSpan::new_spanned(&buffer, 2, 2).samples_available());
    assert!(!AudioSpan::new_spanned(&buffer, usize::MAX, 2).samples_available());
}
