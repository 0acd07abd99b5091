use soundpool::loader::{extension_of, is_wav_ext, DirEntry, DirectoryLoader, EntryKind};
use soundpool::util::InnerMatches;

fn entry(path: &str, file_type: Option<EntryKind>) -> DirEntry {
    DirEntry { path: path.as_bytes().to_vec(), file_type }
}

#[test]
fn directory_loader_keeps_root() {
    let loader = DirectoryLoader::new(b"src/samples".to_vec());
    assert_eq!(loader.root, b"src/samples".to_vec());
}

#[test]
fn all_keeps_exactly_eligible_files() {
    // Two eligible files among ineligible entries of every kind.
    let entries = vec![
        entry("pool/a.wav", Some(EntryKind::File)),
        entry("pool/notes.txt", Some(EntryKind::File)),
        entry("pool/b.wav", Some(EntryKind::Directory)),
        entry("pool/c.wav", None),
        entry("pool/d.wav", Some(EntryKind::Other)),
        entry("pool/e.wav", Some(EntryKind::File)),
        entry("pool/.wav", Some(EntryKind::File)),
        entry("pool/f.", Some(EntryKind::File)),
        entry("pool/g.WAV", Some(EntryKind::File)),
    ];
    let sounds = DirectoryLoader::new(b"pool".to_vec()).all(entries);
    assert_eq!(sounds.len(), 2);
    assert_eq!(sounds[0].index, b"pool/a.wav".to_vec());
    assert_eq!(sounds[1].index, b"pool/e.wav".to_vec());
    assert!(sounds.iter().all(|s| s.rating == 0));
    // Indexes are pairwise distinct.
    assert_ne!(sounds[0].index, sounds[1].index);
}

#[test]
fn all_of_empty_listing_is_empty() {
    let sounds = DirectoryLoader::new(b"pool".to_vec()).all(Vec::new());
    assert!(sounds.is_empty());
}

#[test]
fn extension_of_final_component() {
    assert_eq!(extension_of(&b"foo.wav".to_vec()), Some(b"wav".to_vec()));
    assert_eq!(extension_of(&b"foo.tar.gz".to_vec()), Some(b"gz".to_vec()));
    assert_eq!(extension_of(&b"dir/x.wav".to_vec()), Some(b"wav".to_vec()));
    assert_eq!(extension_of(&b"foo.".to_vec()), Some(b"".to_vec()));
    assert_eq!(extension_of(&b".wav".to_vec()), None);
    assert_eq!(extension_of(&b"dir/.wav".to_vec()), None);
    assert_eq!(extension_of(&b"foo".to_vec()), None);
    assert_eq!(extension_of(&b"dir.d/x".to_vec()), None);
    assert_eq!(extension_of(&b"".to_vec()), None);
}

#[test]
fn wav_extension_is_exact_and_case_sensitive() {
    assert!(is_wav_ext(&b"wav".to_vec()));
    assert!(!is_wav_ext(&b"WAV".to_vec()));
    assert!(!is_wav_ext(&b"wave".to_vec()));
    assert!(!is_wav_ext(&b"".to_vec()));
}

#[test]
fn inner_is_on_option() {
    assert!(Some(3u32).inner_is(|x| x == 3));
    assert!(!Some(3u32).inner_is(|x| x == 4));
    assert!(!None::<u32>.inner_is(|x| x == 3));
}

#[test]
fn inner_is_on_result() {
    let ok: Result<u32, &str> = Ok(3);
    let err: Result<u32, &str> = Err("nope");
    assert!(ok.inner_is(|x| x == 3));
    assert!(!ok.inner_is(|x| x == 4));
    assert!(!err.inner_is(|x| x == 3));
}
