//! The archive-backed media pool.
//!
//! A packed archive is held in memory and parsed once at construction; each
//! entry is addressed by its zero-based ordinal in archive order, and loading
//! an entry decompresses it fully into an owned buffer. The parsing and the
//! decompression are the zip crate's work, taken on trust at a narrow
//! boundary; everything decided from them — which entries are eligible,
//! which ordinals are handed out, what a successful load returns — is
//! verified against the names below.

use crate::loader::{LoadError, Sound};
use std::io::Cursor;
use std::io::Read;
use vstd::prelude::*;

verus! {

/// The archive reader this pool is backed by: a zip central directory over
/// an owned byte buffer.
pub type PackedArchive = zip::ZipArchive<Cursor<Vec<u8>>>;

#[verifier::external_type_specification]
#[verifier::external_body]
#[verifier::reject_recursive_types(R)]
pub struct ExZipArchive<R>(zip::ZipArchive<R>);

#[verifier::external_type_specification]
#[verifier::external_body]
#[verifier::reject_recursive_types(T)]
pub struct ExCursor<T>(Cursor<T>);

#[verifier::external_type_specification]
#[verifier::external_body]
pub struct ExZipError(zip::result::ZipError);

/// The names of an archive's entries, in archive (central-directory) order.
pub uninterp spec fn archive_names(a: PackedArchive) -> Seq<Seq<u8>>;

/// The fully decompressed bytes of each entry, in the same order.
pub uninterp spec fn archive_data(a: PackedArchive) -> Seq<Seq<u8>>;

/// Whether `bytes` parse as a valid archive: a readable central directory.
/// The source is held in memory, so the parse is a function of the bytes alone.
pub uninterp spec fn archive_parses(bytes: Seq<u8>) -> bool;

/// The entry names of the pool parsed from `bytes`, in archive order.
pub uninterp spec fn archive_names_of(bytes: Seq<u8>) -> Seq<Seq<u8>>;

/// The decompressed contents of the pool parsed from `bytes`, per entry.
pub uninterp spec fn archive_data_of(bytes: Seq<u8>) -> Seq<Seq<u8>>;

/// Whether entry `i` of the archive can be opened and decompressed cleanly to
/// the end. The archive sits in memory, so this too depends only on the
/// archive's contents and the ordinal, not on any reader position.
pub uninterp spec fn entry_reads_ok(a: PackedArchive, i: int) -> bool;

/// Relies on zip::ZipArchive::new: it parses the central directory of the
/// archive in `bytes`, succeeding exactly on valid archives and failing on
/// everything else. The parsed pool is a function of the bytes alone, with
/// one name and one content per entry.
#[verifier::external_body]
fn archive_open(bytes: Vec<u8>) -> (r: Result<PackedArchive, zip::result::ZipError>)
    ensures
        r is Ok <==> archive_parses(bytes@),
        r matches Ok(a) ==> archive_names(a) == archive_names_of(bytes@) && archive_data(a)
            == archive_data_of(bytes@) && archive_names(a).len() == archive_data(a).len(),
{
    zip::ZipArchive::new(Cursor::new(bytes))
}

/// Relies on zip::ZipArchive::len: the number of entries in the parsed
/// central directory.
#[verifier::external_body]
fn archive_len(a: &PackedArchive) -> (r: usize)
    ensures
        r == archive_names(*a).len(),
{
    a.len()
}

/// Relies on zip::ZipArchive::name_for_index: the name of entry `i`, in
/// archive order, and nothing when `i` is out of range.
#[verifier::external_body]
fn archive_name_at(a: &PackedArchive, i: usize) -> (r: Option<Vec<u8>>)
    ensures
        r is Some <==> i < archive_names(*a).len(),
        r matches Some(v) ==> v@ == archive_names(*a)[i as int],
{
    a.name_for_index(i).map(|s| s.as_bytes().to_vec())
}

/// Relies on zip::ZipArchive::by_index and the std::io::Read impl of the
/// entry it returns: entry `i` is decompressed to the end into an owned
/// buffer, sized by the entry's declared size as a capacity hint. An in-range
/// read succeeds exactly when the entry opens and decompresses cleanly — a
/// deterministic property of the in-memory archive, unaffected by earlier
/// reads, since each read seeks to the entry's own offset. An out-of-range
/// ordinal, or any failure while reading, yields an error — a partially read
/// buffer is never handed back as complete. The parsed directory itself is
/// unchanged.
#[verifier::external_body]
fn archive_read_at(a: &mut PackedArchive, i: usize) -> (r: Result<
    Vec<u8>,
    zip::result::ZipError,
>)
    ensures
        archive_names(*final(a)) == archive_names(*old(a)),
        archive_data(*final(a)) == archive_data(*old(a)),
        forall|j: int| #[trigger] entry_reads_ok(*final(a), j) == entry_reads_ok(*old(a), j),
        r matches Ok(v) ==> i < archive_data(*old(a)).len() && v@ == archive_data(*old(a))[i as int],
        i < archive_names(*old(a)).len() ==> (r is Ok <==> entry_reads_ok(*old(a), i as int)),
        i >= archive_names(*old(a)).len() ==> r is Err,
{
    let mut file = a.by_index(i)?;
    let mut buf = Vec::with_capacity(file.size() as usize);
    match file.read_to_end(&mut buf) {
        Ok(_) => Ok(buf),
        Err(e) => Err(zip::result::ZipError::Io(e)),
    }
}

/// The suffix that marks an eligible entry, `.wav`.
pub open spec fn dot_wav() -> Seq<u8> {
    seq![0x2eu8, 0x77u8, 0x61u8, 0x76u8]
}

/// Whether an entry name ends with the recognized media suffix.
pub open spec fn ends_with_wav(name: Seq<u8>) -> bool {
    name.len() >= 4 && name.subrange(name.len() - 4, name.len() as int) == dot_wav()
}

/// Whether `name` ends with the recognized media suffix.
pub fn name_ends_with_wav(name: &Vec<u8>) -> (r: bool)
    ensures
        r == ends_with_wav(name@),
{
    let n = name.len();
    if n < 4 {
        return false;
    }
    let r = name[n - 4] == 0x2e && name[n - 3] == 0x77 && name[n - 2] == 0x61 && name[n - 1]
        == 0x76;
    proof {
        let tail = name@.subrange(n - 4, n as int);
        assert(tail.len() == 4);
        assert(tail[0] == name@[n - 4] && tail[1] == name@[n - 3] && tail[2] == name@[n - 2]
            && tail[3] == name@[n - 1]);
        if r {
            assert(tail =~= dot_wav());
        } else {
            if tail == dot_wav() {
                assert(tail[0] == 0x2e && tail[1] == 0x77 && tail[2] == 0x61 && tail[3] == 0x76);
            }
        }
    }
    r
}

/// How many entry names carry the media suffix.
pub open spec fn wav_name_count(names: Seq<Seq<u8>>) -> nat
    decreases names.len(),
{
    if names.len() == 0 {
        0
    } else {
        wav_name_count(names.drop_last()) + if ends_with_wav(names.last()) {
            1nat
        } else {
            0nat
        }
    }
}

/// The items an archive yields: one per entry whose name carries the media
/// suffix, in archive order, indexed by the entry's ordinal, with the rating
/// placeholder at 0.
pub open spec fn archive_selection(names: Seq<Seq<u8>>) -> Seq<Sound<usize>>
    decreases names.len(),
{
    if names.len() == 0 {
        Seq::empty()
    } else {
        let rest = archive_selection(names.drop_last());
        if ends_with_wav(names.last()) {
            rest.push(Sound { rating: 0, index: (names.len() - 1) as usize })
        } else {
            rest
        }
    }
}

/// The archive-backed pool.
pub struct ZipLoader {
    archive: PackedArchive,
}

impl ZipLoader {
    /// The entry names of the backing archive, in archive order.
    pub closed spec fn names(self) -> Seq<Seq<u8>> {
        archive_names(self.archive)
    }

    /// The decompressed contents of the backing archive, per entry.
    pub closed spec fn data(self) -> Seq<Seq<u8>> {
        archive_data(self.archive)
    }

    /// Whether entry `i` of the backing archive decompresses cleanly.
    pub closed spec fn entry_ok(self, i: int) -> bool {
        entry_reads_ok(self.archive, i)
    }

    /// One content per name.
    pub open spec fn wf(self) -> bool {
        self.names().len() == self.data().len()
    }

    /// Parse `bytes` as a packed archive: construction succeeds exactly when
    /// the bytes are a valid archive, and the pool it yields is the one
    /// parsed from those very bytes. Anything malformed fails construction,
    /// and with it the whole startup.
    pub fn new(bytes: Vec<u8>) -> (r: Result<ZipLoader, LoadError>)
        ensures
            r is Ok <==> archive_parses(bytes@),
            r matches Ok(l) ==> l.wf() && l.names() == archive_names_of(bytes@) && l.data()
                == archive_data_of(bytes@),
            r matches Err(e) ==> e is Malformed,
    {
        match archive_open(bytes) {
            Ok(a) => Ok(ZipLoader { archive: a }),
            Err(_) => Err(LoadError::Malformed),
        }
    }

    /// Enumerate the pool: the eligible entries in archive order, each under
    /// its ordinal.
    pub fn all(&self) -> (r: Vec<Sound<usize>>)
        ensures
            r@ == archive_selection(self.names()),
    {
        let mut r: Vec<Sound<usize>> = Vec::new();
        let n = archive_len(&self.archive);
        let mut i: usize = 0;
        while i < n
            invariant
                i <= n,
                n == self.names().len(),
                r@ == archive_selection(self.names().take(i as int)),
            decreases n - i,
        {
            let name = match archive_name_at(&self.archive, i) {
                Some(v) => v,
                None => {
                    proof {
                        assert(false);
                    }
                    Vec::new()
                },
            };
            if name_ends_with_wav(&name) {
                r.push(Sound { rating: 0, index: i });
            }
            proof {
                let pre = self.names().take(i as int);
                let post = self.names().take(i + 1 as int);
                assert(post.drop_last() =~= pre);
                assert(post.last() == self.names()[i as int]);
                assert(r@ =~= archive_selection(post));
            }
            i += 1;
        }
        proof {
            assert(self.names().take(n as int) =~= self.names());
        }
        r
    }

    /// Materialize the entry at `index`: its fully decompressed bytes, exactly
    /// the backend's content for that ordinal. An in-range load succeeds
    /// exactly when the entry reads cleanly, and loading mutates nothing, so
    /// on an unmutated backend every ordinal handed out by [`Self::all`]
    /// round-trips whenever its entry is sound. An ordinal never handed out
    /// by [`Self::all`] is reported missing; a failed or partial
    /// decompression is reported as a read error, never as bytes.
    pub fn load(&mut self, index: usize) -> (r: Result<Vec<u8>, LoadError>)
        requires
            old(self).wf(),
        ensures
            final(self).names() == old(self).names(),
            final(self).data() == old(self).data(),
            forall|j: int| #[trigger] final(self).entry_ok(j) == old(self).entry_ok(j),
            final(self).wf(),
            r matches Ok(v) ==> index < old(self).data().len() && v@ == old(self).data()[index as int],
            index < old(self).names().len() ==> (r is Ok <==> old(self).entry_ok(index as int)),
            r matches Err(e) ==> (e is Missing <==> index >= old(self).names().len()),
            index >= old(self).names().len() ==> r is Err,
    {
        let n = archive_len(&self.archive);
        if index >= n {
            return Err(LoadError::Missing);
        }
        match archive_read_at(&mut self.archive, index) {
            Ok(v) => Ok(v),
            Err(_) => Err(LoadError::Read),
        }
    }
}

/// Every ordinal that [`ZipLoader::all`] hands out addresses a real entry of
/// the unmutated backend: it is in range of the archive's contents, so by
/// the contract of [`ZipLoader::load`] a load of it is never reported
/// missing, succeeds exactly when the entry reads cleanly, and then returns
/// that entry's ground-truth bytes.
pub proof fn lemma_enumerated_ordinal_is_loadable(l: ZipLoader, k: int)
    requires
        l.wf(),
        l.names().len() <= usize::MAX,
        0 <= k < archive_selection(l.names()).len(),
    ensures
        archive_selection(l.names())[k].index < l.data().len(),
{
    lemma_archive_selection_shape(l.names());
}

/// The selection of an archive keeps exactly the entries with the media
/// suffix: one item per such entry, every rating still at its 0 placeholder,
/// and the ordinals a strictly increasing subset of `[0, total)` in archive
/// order, each naming an eligible entry.
pub proof fn lemma_archive_selection_shape(names: Seq<Seq<u8>>)
    requires
        names.len() <= usize::MAX,
    ensures
        archive_selection(names).len() == wav_name_count(names),
        forall|k: int|
            0 <= k < archive_selection(names).len() ==> {
                let s = #[trigger] archive_selection(names)[k];
                s.rating == 0 && s.index < names.len() && ends_with_wav(names[s.index as int])
            },
        forall|k: int, l: int|
            0 <= k < l < archive_selection(names).len() ==> (#[trigger] archive_selection(
                names,
            )[k]).index < (#[trigger] archive_selection(names)[l]).index,
    decreases names.len(),
{
    if names.len() == 0 {
    } else {
        let prefix = names.drop_last();
        lemma_archive_selection_shape(prefix);
        assert(forall|i: int| 0 <= i < prefix.len() ==> prefix[i] == names[i]);
        let sel = archive_selection(names);
        let sel_pre = archive_selection(prefix);
        assert forall|k: int| 0 <= k < sel.len() implies {
            let s = #[trigger] sel[k];
            s.rating == 0 && s.index < names.len() && ends_with_wav(names[s.index as int])
        } by {
            if k < sel_pre.len() {
                assert(sel[k] == sel_pre[k]);
                assert(ends_with_wav(prefix[sel_pre[k].index as int]));
            } else {
                assert(sel[k].index == names.len() - 1);
            }
        }
    }
}

} // verus!
