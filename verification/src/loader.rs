//! The media pool: indexed items and the directory-backed loader.
//!
//! A backend holds items behind lightweight indexes. For the directory
//! backend the index is the file's path (as bytes, the honest shape of an OS
//! path); enumeration keeps only regular files whose filename extension is
//! exactly `wav`. Reading the directory itself is the caller's I/O: it hands
//! the raw listing over as [`DirEntry`] values and gets the eligible items
//! back.

use crate::util::InnerMatches;
use vstd::prelude::*;

verus! {

/// One playable item: a backend-specific locator plus a placeholder weight.
///
/// `rating` is a fraction in per-mille (`[0, 1000]`); the pool never reads or
/// mutates it, it is carried only as an extension point and starts at 0.
#[derive(Clone)]
pub struct Sound<Index> {
    pub rating: u32,
    pub index: Index,
}

/// The ghost shape of a directory-backed item: the path as a sequence.
pub open spec fn sound_view(s: Sound<Vec<u8>>) -> Sound<Seq<u8>> {
    Sound { rating: s.rating, index: s.index@ }
}

pub open spec fn sounds_view(s: Seq<Sound<Vec<u8>>>) -> Seq<Sound<Seq<u8>>> {
    s.map_values(|x: Sound<Vec<u8>>| sound_view(x))
}

/// How an error is raised when a backend item cannot be materialized.
#[derive(Clone, Copy, PartialEq, Eq, Structural, Debug)]
pub enum LoadError {
    /// The backing store is not a readable archive.
    Malformed,
    /// No entry exists at the given index.
    Missing,
    /// The entry exists but its bytes could not be fully read.
    Read,
}

pub const SLASH: u8 = 0x2f;

pub const DOT: u8 = 0x2e;

/// Scanning `path[..i]` from the right: the position of the dot that starts
/// the filename extension, if the final path component has one. A dot that
/// begins the component (a hidden file) starts no extension.
pub open spec fn ext_split(path: Seq<u8>, i: int) -> Option<int>
    decreases i,
{
    if i <= 0 {
        None
    } else if path[i - 1] == SLASH {
        None
    } else if path[i - 1] == DOT {
        if i - 1 == 0 || path[i - 2] == SLASH {
            None
        } else {
            Some(i - 1)
        }
    } else {
        ext_split(path, i - 1)
    }
}

/// The filename extension of a path: what follows the last dot of its final
/// component, unless that dot begins the component.
pub open spec fn extension_spec(path: Seq<u8>) -> Option<Seq<u8>> {
    match ext_split(path, path.len() as int) {
        Some(j) => Some(path.subrange(j + 1, path.len() as int)),
        None => None,
    }
}

/// The recognized media extension, `wav`.
pub open spec fn wav_ext() -> Seq<u8> {
    seq![0x77u8, 0x61u8, 0x76u8]
}

/// Copy a byte vector.
fn clone_bytes(v: &Vec<u8>) -> (r: Vec<u8>)
    ensures
        r@ == v@,
{
    let mut r: Vec<u8> = Vec::new();
    let mut i: usize = 0;
    while i < v.len()
        invariant
            i <= v@.len(),
            r@ == v@.take(i as int),
        decreases v@.len() - i,
    {
        r.push(v[i]);
        proof {
            assert(r@ =~= v@.take(i + 1 as int));
        }
        i += 1;
    }
    proof {
        assert(v@.take(v@.len() as int) =~= v@);
    }
    r
}

/// The filename extension of `path`, if any.
pub fn extension_of(path: &Vec<u8>) -> (r: Option<Vec<u8>>)
    ensures
        match extension_spec(path@) {
            Some(e) => r matches Some(v) && v@ == e,
            None => r is None,
        },
{
    let len = path.len();
    let mut i: usize = len;
    while i > 0
        invariant
            i <= len,
            len == path@.len(),
            ext_split(path@, len as int) == ext_split(path@, i as int),
        decreases i,
    {
        let c = path[i - 1];
        if c == SLASH {
            return None;
        } else if c == DOT {
            if i - 1 == 0 || path[i - 2] == SLASH {
                return None;
            }
            let mut v: Vec<u8> = Vec::new();
            let mut k: usize = i;
            while k < len
                invariant
                    i <= k <= len,
                    len == path@.len(),
                    v@ == path@.subrange(i as int, k as int),
                decreases len - k,
            {
                v.push(path[k]);
                proof {
                    assert(v@ =~= path@.subrange(i as int, k + 1 as int));
                }
                k += 1;
            }
            return Some(v);
        }
        i -= 1;
    }
    None
}

/// Whether `ext` is exactly the recognized media extension.
pub fn is_wav_ext(ext: &Vec<u8>) -> (r: bool)
    ensures
        r == (ext@ == wav_ext()),
{
    let r = ext.len() == 3 && ext[0] == 0x77 && ext[1] == 0x61 && ext[2] == 0x76;
    proof {
        if r {
            assert(ext@ =~= wav_ext());
        } else {
            if ext@ == wav_ext() {
                assert(ext@.len() == 3);
                assert(ext@[0] == 0x77 && ext@[1] == 0x61 && ext@[2] == 0x76);
            }
        }
    }
    r
}

/// What a directory listing reports of one child: its path and its file
/// type, or `None` where the metadata could not be read.
#[derive(Clone, Copy, PartialEq, Eq, Structural, Debug)]
pub enum EntryKind {
    File,
    Directory,
    Other,
}

pub struct DirEntry {
    pub path: Vec<u8>,
    pub file_type: Option<EntryKind>,
}

pub open spec fn is_file_kind(ft: Option<EntryKind>) -> bool {
    ft matches Some(k) && k is File
}

/// An entry joins the pool when it is a regular file with the `wav` extension.
pub open spec fn eligible_entry(e: DirEntry) -> bool {
    is_file_kind(e.file_type) && extension_spec(e.path@) == Some(wav_ext())
}

pub open spec fn sound_of(e: DirEntry) -> Sound<Seq<u8>> {
    Sound { rating: 0, index: e.path@ }
}

/// The items a directory listing yields: one per eligible entry, in listing
/// order, indexed by path, with the rating placeholder at 0.
pub open spec fn dir_selection(entries: Seq<DirEntry>) -> Seq<Sound<Seq<u8>>>
    decreases entries.len(),
{
    if entries.len() == 0 {
        Seq::empty()
    } else {
        let rest = dir_selection(entries.drop_last());
        if eligible_entry(entries.last()) {
            rest.push(sound_of(entries.last()))
        } else {
            rest
        }
    }
}

/// How many entries of a listing are eligible.
pub open spec fn eligible_count(entries: Seq<DirEntry>) -> nat
    decreases entries.len(),
{
    if entries.len() == 0 {
        0
    } else {
        eligible_count(entries.drop_last()) + if eligible_entry(entries.last()) {
            1nat
        } else {
            0nat
        }
    }
}

/// The directory-backed pool: holds the root path it was built over.
pub struct DirectoryLoader {
    pub root: Vec<u8>,
}

impl DirectoryLoader {
    /// Build a loader over the directory at `root`.
    pub fn new(root: Vec<u8>) -> (r: Self)
        ensures
            r.root@ == root@,
    {
        DirectoryLoader { root }
    }

    /// Enumerate the pool from the raw listing of the root directory,
    /// keeping exactly the eligible entries, in listing order. Consumes the
    /// loader: enumeration is a one-shot startup operation, performed before
    /// the pool is shared.
    pub fn all(self, entries: Vec<DirEntry>) -> (r: Vec<Sound<Vec<u8>>>)
        ensures
            sounds_view(r@) == dir_selection(entries@),
    {
        let mut r: Vec<Sound<Vec<u8>>> = Vec::new();
        let n = entries.len();
        let mut i: usize = 0;
        while i < n
            invariant
                i <= n,
                n == entries@.len(),
                sounds_view(r@) == dir_selection(entries@.take(i as int)),
            decreases n - i,
        {
            let e = &entries[i];
            let keep = e.file_type.inner_is(
                (|k: EntryKind| -> (b: bool)
                    ensures
                        b == (k is File),
                    {
                        match k {
                            EntryKind::File => true,
                            _ => false,
                        }
                    }),
            ) && extension_of(&e.path).inner_is(
                (|ext: Vec<u8>| -> (b: bool)
                    ensures
                        b == (ext@ == wav_ext()),
                    {
                        is_wav_ext(&ext)
                    }),
            );
            proof {
                assert(keep == eligible_entry(entries@[i as int]));
            }
            if keep {
                r.push(Sound { rating: 0, index: clone_bytes(&e.path) });
            }
            proof {
                let pre = entries@.take(i as int);
                let post = entries@.take(i + 1 as int);
                assert(post.drop_last() =~= pre);
                assert(post.last() == entries@[i as int]);
                assert(sounds_view(r@) =~= dir_selection(post));
            }
            i += 1;
        }
        proof {
            assert(entries@.take(n as int) =~= entries@);
        }
        r
    }
}

/// Whether item `s` names the path of some eligible entry of the listing.
pub open spec fn from_listing(entries: Seq<DirEntry>, s: Sound<Seq<u8>>) -> bool {
    exists|i: int|
        0 <= i < entries.len() && eligible_entry(#[trigger] entries[i]) && s.index
            == entries[i].path@
}

/// The selection of a valid listing has exactly one item per eligible entry,
/// every rating still at its 0 placeholder, and every index the path of an
/// eligible entry of the listing.
pub proof fn lemma_dir_selection_shape(entries: Seq<DirEntry>)
    ensures
        dir_selection(entries).len() == eligible_count(entries),
        forall|k: int|
            0 <= k < dir_selection(entries).len() ==> (#[trigger] dir_selection(entries)[k]).rating
                == 0,
        forall|k: int|
            0 <= k < dir_selection(entries).len() ==> from_listing(
                entries,
                #[trigger] dir_selection(entries)[k],
            ),
    decreases entries.len(),
{
    if entries.len() == 0 {
    } else {
        let prefix = entries.drop_last();
        lemma_dir_selection_shape(prefix);
        assert forall|k: int| 0 <= k < dir_selection(entries).len() implies from_listing(
            entries,
            #[trigger] dir_selection(entries)[k],
        ) by {
            if k < dir_selection(prefix).len() {
                let i = choose|i: int|
                    0 <= i < prefix.len() && eligible_entry(#[trigger] prefix[i]) && dir_selection(
                        prefix,
                    )[k].index == prefix[i].path@;
                assert(entries[i] == prefix[i]);
                assert(dir_selection(entries)[k] == dir_selection(prefix)[k]);
                assert(eligible_entry(entries[i]) && dir_selection(entries)[k].index
                    == entries[i].path@);
            } else {
                let i = entries.len() - 1;
                assert(eligible_entry(entries[i]) && dir_selection(entries)[k].index
                    == entries[i].path@);
            }
        }
    }
}

/// When every path of a listing is distinct (as in any real directory), the
/// selected items carry pairwise distinct indexes.
pub proof fn lemma_dir_selection_unique(entries: Seq<DirEntry>)
    requires
        forall|i: int, j: int|
            0 <= i < j < entries.len() ==> entries[i].path@ != entries[j].path@,
    ensures
        forall|k: int, l: int|
            0 <= k < l < dir_selection(entries).len() ==> (#[trigger] dir_selection(
                entries,
            )[k]).index != (#[trigger] dir_selection(entries)[l]).index,
    decreases entries.len(),
{
    if entries.len() == 0 {
    } else {
        let prefix = entries.drop_last();
        assert(forall|i: int| 0 <= i < prefix.len() ==> prefix[i] == entries[i]);
        lemma_dir_selection_unique(prefix);
        lemma_dir_selection_shape(prefix);
        let sel = dir_selection(entries);
        let sel_pre = dir_selection(prefix);
        assert forall|k: int, l: int|
            0 <= k < l < sel.len() implies (#[trigger] sel[k]).index != (
        #[trigger] sel[l]).index by {
            if l < sel_pre.len() {
                assert(sel[k] == sel_pre[k] && sel[l] == sel_pre[l]);
            } else {
                // `l` names the item pushed for the last entry; `k` names an
                // earlier one, whose index is some earlier entry's path.
                assert(sel[k] == sel_pre[k]);
                assert(from_listing(prefix, sel_pre[k]));
                let i = choose|i: int|
                    0 <= i < prefix.len() && eligible_entry(#[trigger] prefix[i]) && sel_pre[k].index
                        == prefix[i].path@;
                assert(sel[l].index == entries[entries.len() - 1].path@);
                assert(entries[i].path@ != entries[entries.len() - 1].path@);
            }
        }
    }
}

} // verus!
