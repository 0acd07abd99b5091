use soundpool::archive::ZipLoader;
use soundpool::loader::LoadError;
use soundpool::schedule::{Orchestrator, StartupError};
use std::io::{Cursor, Write};

fn make_zip(entries: &[(&str, &[u8])]) -> Vec<u8> {
    let mut writer = zip::ZipWriter::new(Cursor::new(Vec::new()));
    let options = zip::write::SimpleFileOptions::default()
        .compression_method(zip::CompressionMethod::Stored);
    for (name, bytes) in entries {
        writer.start_file(*name, options).unwrap();
        writer.write_all(bytes).unwrap();
    }
    writer.finish().unwrap().into_inner()
}

#[test]
fn all_keeps_eligible_ordinals_in_archive_order() {
    let bytes = make_zip(&[
        ("one.wav", b"ONE"),
        ("skip.txt", b"no"),
        ("two.wav", b"TWO"),
        ("cover.png", b"img"),
        ("three.wav", b"THREE"),
    ]);
    let loader = ZipLoader::new(bytes).unwrap();
    let sounds = loader.all();
    let ordinals: Vec<usize> = sounds.iter().map(|s| s.index).collect();
    assert_eq!(ordinals, vec![0, 2, 4]);
    assert!(sounds.iter().all(|s| s.rating == 0));
}

#[test]
fn load_round_trips_every_enumerated_entry() {
    let bytes = make_zip(&[
        ("one.wav", b"ONE"),
        ("skip.txt", b"no"),
        ("two.wav", b"TWO"),
    ]);
    let mut loader = ZipLoader::new(bytes).unwrap();
    let sounds = loader.all();
    let expected: Vec<&[u8]> = vec![b"ONE", b"TWO"];
    assert_eq!(sounds.len(), expected.len());
    for (sound, want) in sounds.iter().zip(expected.iter()) {
        let got = loader.load(sound.index).unwrap();
        assert_eq!(got.as_slice(), *want);
    }
    // Loading leaves the pool intact: a second pass sees the same bytes.
    for (sound, want) in sounds.iter().zip(expected.iter()) {
        let got = loader.load(sound.index).unwrap();
        assert_eq!(got.as_slice(), *want);
    }
}

#[test]
fn load_of_unknown_ordinal_is_missing() {
    let bytes = make_zip(&[("one.wav", b"ONE")]);
    let mut loader = ZipLoader::new(bytes).unwrap();
    assert_eq!(loader.load(99), Err(LoadError::Missing));
}

#[test]
fn deflated_entry_round_trips() {
    let mut writer = zip::ZipWriter::new(Cursor::new(Vec::new()));
    let options = zip::write::SimpleFileOptions::default()
        .compression_method(zip::CompressionMethod::Deflated);
    let body = b"waveform bytes ".repeat(64);
    writer.start_file("one.wav", options).unwrap();
    writer.write_all(&body).unwrap();
    let bytes = writer.finish().unwrap().into_inner();

    let mut loader = ZipLoader::new(bytes).unwrap();
    let sounds = loader.all();
    assert_eq!(sounds.len(), 1);
    assert_eq!(sounds[0].index, 0);
    assert_eq!(loader.load(0).unwrap(), body);
}

#[test]
fn corrupted_entry_is_a_read_error() {
    let mut bytes = make_zip(&[("one.wav", b"UNIQUECONTENT")]);
    // Flip one byte of the stored entry data: the checksum no longer matches,
    // so the load must fail rather than hand back a wrong buffer.
    let pos = bytes
        .windows(13)
        .position(|w| w == b"UNIQUECONTENT")
        .unwrap();
    bytes[pos] ^= 0xff;
    let mut loader = ZipLoader::new(bytes).unwrap();
    assert_eq!(loader.load(0), Err(LoadError::Read));
}

#[test]
fn malformed_archive_is_rejected() {
    assert!(matches!(
        ZipLoader::new(b"this is no archive".to_vec()),
        Err(LoadError::Malformed)
    ));
}

#[test]
fn empty_pool_aborts_startup() {
    let bytes = make_zip(&[("readme.txt", b"nothing to play")]);
    let loader = ZipLoader::new(bytes).unwrap();
    let sounds = loader.all();
    assert!(sounds.is_empty());
    // With zero eligible items the orchestration refuses to start.
    assert!(matches!(
        Orchestrator::new(sounds.len()),
        Err(StartupError::EmptyPool)
    ));
}
