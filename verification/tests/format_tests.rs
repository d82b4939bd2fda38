use gauss::error::GaussError;
use gauss::format::samples::{
    bytes_into_i16_samples, bytes_into_i24_samples, bytes_into_i32_samples, bytes_into_u32_words,
    i16_samples_into_bytes, i32_samples_into_bytes, i8_samples_into_bytes, u32_words_into_bytes,
};
use gauss::format::SupportedFormat;

#[test]
fn extension_names_format() {
    assert_eq!(SupportedFormat::from_extension("a/b/song.wav").unwrap(), SupportedFormat::Wav);
    assert_eq!(SupportedFormat::from_extension("song.WAV").unwrap(), SupportedFormat::Wav);
    assert_eq!(SupportedFormat::from_extension("song.Wav").unwrap(), SupportedFormat::Wav);
    assert_eq!(SupportedFormat::from_extension("song.mp3").unwrap(), SupportedFormat::Mp3);
    assert_eq!(SupportedFormat::from_extension("song.MP3").unwrap(), SupportedFormat::Mp3);
    assert_eq!(SupportedFormat::from_extension("song.Mp3").unwrap(), SupportedFormat::Mp3);
    assert_eq!(SupportedFormat::from_extension("song.ogg").unwrap(), SupportedFormat::Ogg);
    assert_eq!(SupportedFormat::from_extension("song.OGG").unwrap(), SupportedFormat::Ogg);
    assert_eq!(SupportedFormat::from_extension("song.Ogg").unwrap(), SupportedFormat::Ogg);
    assert_eq!(SupportedFormat::from_extension("song.flac").unwrap(), SupportedFormat::Flac);
    assert_eq!(SupportedFormat::from_extension("song.FLAC").unwrap(), SupportedFormat::Flac);
    assert_eq!(SupportedFormat::from_extension("song.Flac").unwrap(), SupportedFormat::Flac);
}

#[test]
fn extension_mixed_case_is_unsupported() {
    match SupportedFormat::from_extension("song.wAv") {
        Err(GaussError::UnsupportedFormat(ext)) => assert_eq!(ext, "wAv"),
        other => panic!("unexpected {:?}", other),
    }
    match SupportedFormat::from_extension("song.fLAC") {
        Err(GaussError::UnsupportedFormat(ext)) => assert_eq!(ext, "fLAC"),
        other => panic!("unexpected {:?}", other),
    }
}

#[test]
fn extension_of_other_length_is_refused() {
    match SupportedFormat::from_extension("movie.mpeg4") {
        Err(GaussError::UnsupportedExtensionLength(ext)) => assert_eq!(ext, "mpeg4"),
        other => panic!("unexpected {:?}", other),
    }
    match SupportedFormat::from_extension("a.b") {
        Err(GaussError::UnsupportedExtensionLength(ext)) => assert_eq!(ext, "b"),
        other => panic!("unexpected {:?}", other),
    }
}

#[test]
fn extension_counted_in_bytes() {
    // Two characters, four bytes: a supported length that names no format.
    match SupportedFormat::from_extension("x.\u{e9}\u{e9}") {
        Err(GaussError::UnsupportedFormat(ext)) => assert_eq!(ext, "\u{e9}\u{e9}"),
        other => panic!("unexpected {:?}", other),
    }
}

#[test]
fn missing_extension_is_refused() {
    match SupportedFormat::from_extension("dir/noext") {
        Err(GaussError::MissingExtension(path)) => assert_eq!(path, "dir/noext"),
        other => panic!("unexpected {:?}", other),
    }
    match SupportedFormat::from_extension(".hidden") {
        Err(GaussError::MissingExtension(path)) => assert_eq!(path, ".hidden"),
        other => panic!("unexpected {:?}", other),
    }
}

#[test]
fn extension_part_and_text() {
    assert_eq!(SupportedFormat::from_extension_part("x", Some("ogg")).unwrap(), SupportedFormat::Ogg);
    assert!(matches!(
        SupportedFormat::from_extension_part("x", None),
        Err(GaussError::MissingExtension(_))
    ));
    assert_eq!(SupportedFormat::from_extension_text("Flac").unwrap(), SupportedFormat::Flac);
    assert!(matches!(
        SupportedFormat::from_extension_text(""),
        Err(GaussError::UnsupportedExtensionLength(_))
    ));
}

#[test]
fn sample_images_are_little_endian() {
    assert_eq!(i8_samples_into_bytes(&[-1, 0, 127, -128]), vec![0xFF, 0x00, 0x7F, 0x80]);
    assert_eq!(i16_samples_into_bytes(&[-2, 0x1234]), vec![0xFE, 0xFF, 0x34, 0x12]);
    assert_eq!(
        i32_samples_into_bytes(&[-1, 0x0102_0304]),
        vec![0xFF, 0xFF, 0xFF, 0xFF, 0x04, 0x03, 0x02, 0x01]
    );
    assert_eq!(u32_words_into_bytes(&[0x3F80_0000]), vec![0x00, 0x00, 0x80, 0x3F]);
    assert_eq!(u32_words_into_bytes(&[0x3F80_0000]), 1.0f32.to_le_bytes().to_vec());
}

#[test]
fn sample_bytes_are_read_little_endian() {
    assert_eq!(bytes_into_i16_samples(&[0xFE, 0xFF, 0x34, 0x12, 0x99], false), vec![-2, 0x1234]);
    assert_eq!(
        bytes_into_i24_samples(&[0xFF, 0xFF, 0xFF, 0x00, 0x00, 0x80, 0xFF, 0xFF, 0x7F, 0x01], false),
        vec![-1, -8_388_608, 8_388_607]
    );
    assert_eq!(
        bytes_into_i32_samples(&[0x04, 0x03, 0x02, 0x01, 0x00, 0x00, 0x00, 0x80], false),
        vec![0x0102_0304, i32::MIN]
    );
    assert_eq!(bytes_into_u32_words(&(-0.5f32).to_le_bytes(), false), vec![(-0.5f32).to_bits()]);
    assert!(bytes_into_i32_samples(&[1, 2, 3], false).is_empty());
}

#[test]
fn sample_images_read_back() {
    let samples: Vec<i16> = vec![i16::MIN, -1, 0, 1, i16::MAX];
    assert_eq!(bytes_into_i16_samples(&i16_samples_into_bytes(&samples), false), samples);
    let samples: Vec<i32> = vec![i32::MIN, -70000, 0, 70000, i32::MAX];
    assert_eq!(bytes_into_i32_samples(&i32_samples_into_bytes(&samples), false), samples);
    let words: Vec<u32> = vec![0, 1, 0xFFFF_FFFF, 0x7FC0_0000];
    assert_eq!(bytes_into_u32_words(&u32_words_into_bytes(&words), false), words);
}

#[test]
fn extension_is_taken_after_last_dot_of_file_name() {
    match SupportedFormat::from_extension("archive.tar.gz") {
        Err(GaussError::UnsupportedExtensionLength(ext)) => assert_eq!(ext, "gz"),
        other => panic!("unexpected {:?}", other),
    }
    assert_eq!(SupportedFormat::from_extension("take.two.ogg").unwrap(), SupportedFormat::Ogg);
    assert_eq!(SupportedFormat::from_extension("dir.d/clip.flac").unwrap(), SupportedFormat::Flac);
    match SupportedFormat::from_extension("dir.wav/clip") {
        Err(GaussError::MissingExtension(path)) => assert_eq!(path, "dir.wav/clip"),
        other => panic!("unexpected {:?}", other),
    }
}

#[test]
fn sample_bytes_are_read_big_endian() {
    assert_eq!(bytes_into_i16_samples(&[0x00, 0x01, 0xFF, 0xFE], true), vec![1, -2]);
    assert_eq!(bytes_into_i24_samples(&[0x80, 0x00, 0x00, 0x00, 0x00, 0x01], true), vec![-8_388_608, 1]);
    assert_eq!(bytes_into_i32_samples(&[0x01, 0x02, 0x03, 0x04], true), vec![0x0102_0304]);
    assert_eq!(bytes_into_u32_words(&1.0f32.to_be_bytes(), true), vec![1.0f32.to_bits()]);
}

#[test]
fn last_extension_of_last_component_counts() {
    assert_eq!(SupportedFormat::from_extension("mix.wav.mp3").unwrap(), SupportedFormat::Mp3);
    assert_eq!(SupportedFormat::from_extension("/data/x.ogg/y.flac").unwrap(), SupportedFormat::Flac);
    assert_eq!(SupportedFormat::from_extension("no/such/dir/x.wav").unwrap(), SupportedFormat::Wav);
    assert!(matches!(SupportedFormat::from_extension(".wav"), Err(GaussError::MissingExtension(_))));
    assert!(matches!(SupportedFormat::from_extension("README"), Err(GaussError::MissingExtension(_))));
    assert!(matches!(SupportedFormat::from_extension("a.wave"), Err(GaussError::UnsupportedFormat(_))));
    match SupportedFormat::from_extension("song.") {
        Err(GaussError::UnsupportedExtensionLength(ext)) => assert_eq!(ext, ""),
        other => panic!("unexpected {:?}", other),
    }
}

#[test]
fn colons_are_ordinary_outside_a_drive_prefix() {
    assert_eq!(SupportedFormat::from_extension("a:b.wav").unwrap(), SupportedFormat::Wav);
    assert_eq!(SupportedFormat::from_extension("notes:v2.ogg").unwrap(), SupportedFormat::Ogg);
    assert_eq!(SupportedFormat::from_extension("C:/music/take.FLAC").unwrap(), SupportedFormat::Flac);
}
