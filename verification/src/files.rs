//! Uploaded-file resource: the blob coordinator sequences a physical write
//! into the content directory and the metadata upsert so the two never
//! diverge. If the metadata step fails after the blob was written, the
//! just-written blob is removed again before the error is returned, so no
//! orphan remains. The directory is modelled as a keyed byte store; the
//! process boundary (the real filesystem) mirrors it.

use vstd::prelude::*;
use vstd::string::StringExecFns;

use base64::Engine;

use crate::codec;
use crate::filters::{self, SelectQuery};
use crate::routes::Failure;
use crate::store::{self, Payload, Record, Store};

verus! {

/// What a file row stores: the blob's path relative to the content directory.
pub struct FilePayload {
    /// Relative path of the blob under the content directory.
    pub filepath: String,
}

impl Payload for FilePayload {
    fn dup(&self) -> (r: Self) {
        FilePayload { filepath: self.filepath.clone() }
    }
}

/// Request body when PUTting files.
pub struct PutFile {
    /// The blob, base64-encoded.
    pub base64: String,
    /// The original filename; the stored name gets a time-derived prefix.
    pub filename: String,
}

/// Whether some entry of the directory carries this path.
pub open spec fn fs_has(fs: Seq<(String, Vec<u8>)>, path: Seq<char>) -> bool {
    exists|i: int| 0 <= i < fs.len() && fs[i].0@ == path
}

/// The bytes stored under this path, if any.
pub open spec fn fs_read(fs: Seq<(String, Vec<u8>)>, path: Seq<char>) -> Option<Seq<u8>> {
    if fs_has(fs, path) {
        Some(fs[choose|i: int| 0 <= i < fs.len() && fs[i].0@ == path].1@)
    } else {
        None
    }
}

/// Paths are unique within the directory.
pub open spec fn fs_uniq(fs: Seq<(String, Vec<u8>)>) -> bool {
    forall|i: int, j: int| 0 <= i < j < fs.len() ==> fs[i].0@ != fs[j].0@
}

/// An entry present in a unique-keyed directory is exactly what a read yields.
pub proof fn lemma_fs_at(fs: Seq<(String, Vec<u8>)>, i: int)
    requires
        fs_uniq(fs),
        0 <= i < fs.len(),
    ensures
        fs_read(fs, fs[i].0@) == Some(fs[i].1@),
{
    let path = fs[i].0@;
    assert(fs_has(fs, path));
    let j = choose|j: int| 0 <= j < fs.len() && fs[j].0@ == path;
    if i < j {
        assert(fs[i].0@ != fs[j].0@);
    } else if j < i {
        assert(fs[j].0@ != fs[i].0@);
    }
}

/// A path no entry carries is exactly what a read misses.
pub proof fn lemma_fs_absent(fs: Seq<(String, Vec<u8>)>, path: Seq<char>)
    requires
        forall|i: int| 0 <= i < fs.len() ==> #[trigger] fs[i].0@ != path,
    ensures
        fs_read(fs, path) is None,
{
}

/// Appending an entry under a fresh path: that path now reads the new bytes,
/// every other path is unchanged, uniqueness is kept.
pub proof fn lemma_fs_push(fs: Seq<(String, Vec<u8>)>, pair: (String, Vec<u8>))
    requires
        fs_uniq(fs),
        forall|i: int| 0 <= i < fs.len() ==> #[trigger] fs[i].0@ != pair.0@,
    ensures
        fs_uniq(fs.push(pair)),
        fs_read(fs.push(pair), pair.0@) == Some(pair.1@),
        forall|p: Seq<char>| p != pair.0@ ==> fs_read(fs.push(pair), p) == fs_read(fs, p),
{
    let post = fs.push(pair);
    assert(fs_uniq(post)) by {
        assert forall|i: int, j: int| 0 <= i < j < post.len() implies post[i].0@ != post[j].0@ by {
            if j < fs.len() {
                assert(post[i] == fs[i] && post[j] == fs[j]);
            } else {
                assert(post[j] == pair);
                assert(post[i] == fs[i]);
            }
        }
    }
    lemma_fs_at(post, fs.len() as int);
    assert forall|p: Seq<char>| p != pair.0@ implies fs_read(post, p) == fs_read(fs, p) by {
        if fs_has(fs, p) {
            let i = choose|i: int| 0 <= i < fs.len() && fs[i].0@ == p;
            lemma_fs_at(fs, i);
            assert(post[i] == fs[i]);
            lemma_fs_at(post, i);
        } else {
            assert(forall|i: int| 0 <= i < fs.len() ==> #[trigger] fs[i].0@ != p);
            assert forall|k: int| 0 <= k < post.len() implies #[trigger] post[k].0@ != p by {
                if k < fs.len() {
                    assert(post[k] == fs[k]);
                } else {
                    assert(post[k] == pair);
                }
            }
            lemma_fs_absent(fs, p);
            lemma_fs_absent(post, p);
        }
    }
}

/// Removing an entry: its path now misses, every other path is unchanged,
/// uniqueness is kept.
pub proof fn lemma_fs_remove(fs: Seq<(String, Vec<u8>)>, pos: int)
    requires
        fs_uniq(fs),
        0 <= pos < fs.len(),
    ensures
        fs_uniq(fs.remove(pos)),
        fs_read(fs.remove(pos), fs[pos].0@) is None,
        forall|p: Seq<char>| p != fs[pos].0@ ==> fs_read(fs.remove(pos), p) == fs_read(fs, p),
{
    let post = fs.remove(pos);
    fs.remove_ensures(pos);
    assert(fs_uniq(post)) by {
        assert forall|i: int, j: int| 0 <= i < j < post.len() implies post[i].0@ != post[j].0@ by {
            let oi = if i < pos {
                i
            } else {
                i + 1
            };
            let oj = if j < pos {
                j
            } else {
                j + 1
            };
            assert(post[i] == fs[oi]);
            assert(post[j] == fs[oj]);
        }
    }
    assert forall|k: int| 0 <= k < post.len() implies #[trigger] post[k].0@ != fs[pos].0@ by {
        if k < pos {
            assert(post[k] == fs[k]);
        } else {
            assert(post[k] == fs[k + 1]);
        }
    }
    lemma_fs_absent(post, fs[pos].0@);
    assert forall|p: Seq<char>| p != fs[pos].0@ implies fs_read(post, p) == fs_read(fs, p) by {
        if fs_has(fs, p) {
            let i = choose|i: int| 0 <= i < fs.len() && fs[i].0@ == p;
            lemma_fs_at(fs, i);
            let ii = if i < pos {
                i
            } else {
                i - 1
            };
            assert(post[ii] == fs[i]);
            lemma_fs_at(post, ii);
        } else {
            assert(forall|i: int| 0 <= i < fs.len() ==> #[trigger] fs[i].0@ != p);
            assert forall|k: int| 0 <= k < post.len() implies #[trigger] post[k].0@ != p by {
                if k < pos {
                    assert(post[k] == fs[k]);
                } else {
                    assert(post[k] == fs[k + 1]);
                }
            }
            lemma_fs_absent(fs, p);
            lemma_fs_absent(post, p);
        }
    }
}

/// The content directory, modelled as a unique-keyed byte store: relative
/// path to blob bytes.
pub struct FsDir {
    files: Vec<(String, Vec<u8>)>,
}

impl View for FsDir {
    type V = Seq<(String, Vec<u8>)>;

    closed spec fn view(&self) -> Seq<(String, Vec<u8>)> {
        self.files@
    }
}

impl FsDir {
    /// Paths are unique.
    pub open spec fn inv(&self) -> bool {
        fs_uniq(self@)
    }

    /// An empty directory.
    pub fn new() -> (d: FsDir)
        ensures
            d.inv(),
            d@ == Seq::<(String, Vec<u8>)>::empty(),
    {
        FsDir { files: Vec::new() }
    }

    fn position(&self, path: &String) -> (r: Option<usize>)
        requires
            self.inv(),
        ensures
            match r {
                Some(i) => i < self@.len() && self@[i as int].0@ == path@,
                None => forall|i: int| 0 <= i < self@.len() ==> #[trigger] self@[i].0@ != path@,
            },
    {
        let n = self.files.len();
        let mut i: usize = 0;
        while i < n
            invariant
                i <= n,
                n == self@.len(),
                forall|j: int| 0 <= j < i ==> #[trigger] self@[j].0@ != path@,
            decreases n - i,
        {
            if self.files[i].0 == *path {
                return Some(i);
            }
            i = i + 1;
        }
        None
    }

    /// Writes the bytes under the path, creating or fully overwriting the
    /// entry.
    pub fn write(&mut self, path: String, bytes: Vec<u8>)
        requires
            old(self).inv(),
        ensures
            final(self).inv(),
            fs_read(final(self)@, path@) == Some(bytes@),
            forall|p: Seq<char>| p != path@ ==> fs_read(final(self)@, p) == fs_read(old(self)@, p),
    {
        let ghost pre = self@;
        let found = self.position(&path);
        if let Some(i) = found {
            proof {
                lemma_fs_remove(pre, i as int);
            }
            self.files.remove(i);
            proof {
                assert forall|k: int| 0 <= k < self@.len() implies #[trigger] self@[k].0@ != path@ by {
                    pre.remove_ensures(i as int);
                    if k < i as int {
                        assert(self@[k] == pre[k]);
                    } else {
                        assert(self@[k] == pre[k + 1]);
                    }
                }
            }
        }
        let ghost mid = self@;
        proof {
            lemma_fs_push(mid, (path, bytes));
        }
        self.files.push((path, bytes));
    }

    /// Removes the entry under the path, if present.
    pub fn remove(&mut self, path: &String)
        requires
            old(self).inv(),
        ensures
            final(self).inv(),
            fs_read(final(self)@, path@) is None,
            forall|p: Seq<char>| p != path@ ==> fs_read(final(self)@, p) == fs_read(old(self)@, p),
    {
        let found = self.position(path);
        if let Some(i) = found {
            proof {
                lemma_fs_remove(self@, i as int);
            }
            self.files.remove(i);
        } else {
            proof {
                lemma_fs_absent(self@, path@);
            }
        }
    }

    /// The bytes under the path, if any.
    pub fn read(&self, path: &String) -> (r: Option<Vec<u8>>)
        requires
            self.inv(),
        ensures
            match r {
                Some(v) => fs_read(self@, path@) == Some(v@),
                None => fs_read(self@, path@) is None,
            },
    {
        let found = self.position(path);
        if let Some(i) = found {
            proof {
                lemma_fs_at(self@, i as int);
            }
            let entry = &self.files[i];
            let mut out: Vec<u8> = Vec::new();
            let m = entry.1.len();
            let mut k: usize = 0;
            while k < m
                invariant
                    k <= m,
                    m == entry.1@.len(),
                    out@ =~= entry.1@.subrange(0, k as int),
                decreases m - k,
            {
                out.push(entry.1[k]);
                k = k + 1;
            }
            proof {
                assert(out@ =~= entry.1@);
            }
            Some(out)
        } else {
            proof {
                lemma_fs_absent(self@, path@);
            }
            None
        }
    }
}

/// The generated relative path of a blob: a base-16 time-derived prefix, a
/// dot, then the caller-supplied filename — collision-resistant across
/// concurrent writes because the prefix differs per write time.
pub open spec fn blob_path(now: int, filename: Seq<char>) -> Seq<char> {
    codec::digits(now, 16) + "."@ + filename
}

/// What base64 decoding yields for a string, if it is valid base64.
pub uninterp spec fn base64_decode_of(s: Seq<char>) -> Option<Seq<u8>>;

/// Relies on base64's `STANDARD` engine `decode`: a pure function of its
/// input that fails exactly on invalid base64.
#[verifier::external_body]
fn base64_decode(s: &str) -> (r: Option<Vec<u8>>)
    ensures
        match r {
            Some(v) => base64_decode_of(s@) == Some(v@),
            None => base64_decode_of(s@) is None,
        },
{
    base64::engine::general_purpose::STANDARD.decode(s).ok()
}

/// The two halves the blob coordinator keeps in step: the metadata store and
/// the content directory.
pub struct BlobStore {
    /// File metadata rows.
    pub meta: Store<FilePayload>,
    /// Blob bytes keyed by relative path.
    pub dir: FsDir,
}

fn make_path(now: i32, filename: &str) -> (r: String)
    requires
        0 <= now,
    ensures
        r@ == blob_path(now as int, filename@),
{
    let mut r = codec::to_radix(now as u32, 16);
    r.append(".");
    r.append(filename);
    r
}

impl BlobStore {
    /// Both halves are well-formed.
    pub open spec fn inv(&self) -> bool {
        self.meta.inv() && self.dir.inv()
    }

    /// An empty, healthy blob store.
    pub fn new() -> (b: BlobStore)
        ensures
            b.inv(),
            b.meta@ == Seq::<Record<FilePayload>>::empty(),
            b.dir@ == Seq::<(String, Vec<u8>)>::empty(),
            !b.meta.faulted(),
    {
        BlobStore { meta: Store::new(), dir: FsDir::new() }
    }

    /// PUT a new file entry: decode the body at the boundary, write the blob
    /// under a time-prefixed name, then upsert the metadata row. If the
    /// metadata step fails after the write, the just-written blob is removed
    /// before the error is returned: no orphan remains.
    pub fn put(&mut self, path: &str, body: PutFile, now: i32) -> (r: Result<
        Record<FilePayload>,
        Failure,
    >)
        requires
            old(self).inv(),
            0 <= now,
        ensures
            final(self).inv(),
            final(self).meta.faulted() == old(self).meta.faulted(),
            !codec::valid_id_str(path@) ==> (r matches Err(f) && f == Failure::BadRequest && *final(self) == *old(self)),
            codec::valid_id_str(path@) && base64_decode_of(body.base64@) is None ==> (r matches Err(
                f,
            ) && f == Failure::BadRequest && *final(self) == *old(self)),
            codec::valid_id_str(path@) && base64_decode_of(body.base64@) is Some ==> {
                let id = codec::base36_val(path@);
                let gen = blob_path(now as int, body.filename@);
                match r {
                    Ok(rec) => !old(self).meta.faulted() && rec.id as int == id && rec.created
                        == now && rec.payload.filepath@ == gen && store::replaced(
                        old(self).meta@,
                        final(self).meta@,
                        id,
                        rec.payload,
                        now as int,
                    ) && fs_read(final(self).dir@, gen) == base64_decode_of(body.base64@) && (forall|
                        p: Seq<char>,
                    |
                        p != gen ==> fs_read(final(self).dir@, p) == fs_read(old(self).dir@, p)),
                    Err(f) => old(self).meta.faulted() && f == Failure::Internal && final(self).meta@ == old(self).meta@ && fs_read(final(self).dir@, gen) is None && (forall|
                        p: Seq<char>,
                    |
                        p != gen ==> fs_read(final(self).dir@, p) == fs_read(old(self).dir@, p)),
                }
            },
    {
        let id = match codec::decode(path) {
            Ok(id) => id,
            Err(_) => {
                return Err(Failure::BadRequest);
            },
        };
        let bytes = match base64_decode(body.base64.as_str()) {
            Some(b) => b,
            None => {
                return Err(Failure::BadRequest);
            },
        };
        let name = make_path(now, body.filename.as_str());
        let name_payload = name.clone();
        let name_cleanup = name.clone();
        self.dir.write(name, bytes);
        match self.meta.replace(id, FilePayload { filepath: name_payload }, now) {
            Ok(rec) => Ok(rec),
            Err(_) => {
                self.dir.remove(&name_cleanup);
                Err(Failure::Internal)
            },
        }
    }

    /// GET a file entry: resolve the metadata row, then the blob bytes. A
    /// missing blob despite a committed row is reported as `NotFound`, not
    /// distinguished for the caller.
    pub fn get(&mut self, path: &str) -> (r: Result<Vec<u8>, Failure>)
        requires
            old(self).inv(),
        ensures
            final(self).inv(),
            final(self).meta@ == old(self).meta@,
            final(self).dir@ == old(self).dir@,
            final(self).meta.faulted() == old(self).meta.faulted(),
            !codec::valid_id_str(path@) ==> (r matches Err(f) && f == Failure::BadRequest && *final(self) == *old(self)),
            codec::valid_id_str(path@) ==> {
                let id = codec::base36_val(path@);
                match r {
                    Ok(v) => !old(self).meta.faulted() && (store::lookup(
                        old(self).meta@,
                        id,
                    ) matches Some(rec) && fs_read(old(self).dir@, rec.payload.filepath@) == Some(
                        v@,
                    )),
                    Err(f) => (old(self).meta.faulted() && f == Failure::Internal) || (!old(self).meta.faulted() && f == Failure::NotFound && (store::lookup(
                        old(self).meta@,
                        id,
                    ) is None || (store::lookup(old(self).meta@, id) matches Some(rec) && fs_read(
                        old(self).dir@,
                        rec.payload.filepath@,
                    ) is None))),
                }
            },
    {
        let id = match codec::decode(path) {
            Ok(id) => id,
            Err(_) => {
                return Err(Failure::BadRequest);
            },
        };
        match self.meta.find(id) {
            Ok(rec) => match self.dir.read(&rec.payload.filepath) {
                Some(v) => Ok(v),
                None => Err(Failure::NotFound),
            },
            Err(e) => Err(crate::routes::store_failure(e)),
        }
    }

    /// DELETE a file entry: the metadata row goes first — the externally
    /// visible truth — and only on success is the blob removed.
    pub fn delete(&mut self, path: &str) -> (r: Result<(), Failure>)
        requires
            old(self).inv(),
        ensures
            final(self).inv(),
            final(self).meta.faulted() == old(self).meta.faulted(),
            !codec::valid_id_str(path@) ==> (r matches Err(f) && f == Failure::BadRequest && *final(self) == *old(self)),
            codec::valid_id_str(path@) ==> {
                let id = codec::base36_val(path@);
                match r {
                    Ok(()) => !old(self).meta.faulted() && (store::lookup(
                        old(self).meta@,
                        id,
                    ) matches Some(rec) && store::deleted(old(self).meta@, final(self).meta@, id)
                        && fs_read(final(self).dir@, rec.payload.filepath@) is None && (forall|
                        p: Seq<char>,
                    |
                        p != rec.payload.filepath@ ==> fs_read(final(self).dir@, p) == fs_read(
                            old(self).dir@,
                            p,
                        ))),
                    Err(f) => final(self).meta@ == old(self).meta@ && final(self).dir@ == old(self).dir@ && ((old(self).meta.faulted() && f == Failure::Internal) || (!old(self).meta.faulted() && f == Failure::NotFound && store::lookup(
                        old(self).meta@,
                        id,
                    ) is None)),
                }
            },
    {
        let id = match codec::decode(path) {
            Ok(id) => id,
            Err(_) => {
                return Err(Failure::BadRequest);
            },
        };
        let rec = match self.meta.find(id) {
            Ok(rec) => rec,
            Err(e) => {
                return Err(crate::routes::store_failure(e));
            },
        };
        match self.meta.delete(id) {
            Ok(()) => {
                self.dir.remove(&rec.payload.filepath);
                Ok(())
            },
            Err(e) => Err(crate::routes::store_failure(e)),
        }
    }

    /// GET multiple file entries: a bounded, ordered page of metadata rows.
    pub fn gets(&mut self, query: SelectQuery) -> (r: Result<Vec<Record<FilePayload>>, Failure>)
        requires
            old(self).inv(),
        ensures
            final(self).inv(),
            final(self).meta@ == old(self).meta@,
            final(self).dir@ == old(self).dir@,
            final(self).meta.faulted() == old(self).meta.faulted(),
            old(self).meta.faulted() ==> (r matches Err(f) && f == Failure::Internal),
            !old(self).meta.faulted() ==> (r matches Ok(v) && v@ == store::page(
                old(self).meta@,
                filters::composed(query),
            ) && v@.len() <= crate::MAX_PAGE_SIZE),
    {
        let f = crate::filters::SelectFilters::from(query);
        match self.meta.select(f) {
            Ok(v) => Ok(v),
            Err(_) => Err(Failure::Internal),
        }
    }
}

} // verus!
