//! The storage core: a flat namespace of files behind a small capability
//! set (upload, list, download, delete).
//!
//! `Storage` keeps the files in memory, which makes every rule of the
//! upload subsystem provable and testable; the binary mirrors each
//! operation onto a host directory with the same verified name and
//! ingestion logic.

use vstd::prelude::*;
use vstd::string::StringExecFns;
use crate::errors::ShareError;
use crate::ingest::concat_prefix;
use crate::ingest::cutoff;
use crate::ingest::ingest_chunks;
use crate::naming::resolve_collision;
use crate::naming::resolved_name_spec;
use crate::records::kind_spec;
use crate::records::build_records;
use crate::records::sorted_by_recency;
use crate::records::views_of;
use crate::records::FileInfo;
use crate::records::FileInfoView;
use crate::sanitize::sanitize_filename;
use crate::sanitize::sanitize_spec;
use crate::strutil::str_eq;

verus! {

/// One file held by the storage root.
pub struct StoredFile {
    pub name: String,
    pub data: Vec<u8>,
    pub modified_at: u64,
}

/// The mathematical content of one stored file.
pub struct FileEntry {
    pub name: Seq<char>,
    pub data: Seq<u8>,
    pub modified_at: u64,
}

impl View for StoredFile {
    type V = FileEntry;

    open spec fn view(&self) -> FileEntry {
        FileEntry { name: self.name@, data: self.data@, modified_at: self.modified_at }
    }
}

/// Whether some file in `s` bears the name `n`.
pub open spec fn has_file(s: Seq<FileEntry>, n: Seq<char>) -> bool {
    exists|i: int| 0 <= i < s.len() && s[i].name == n
}

/// The position of the file named `n`.
pub open spec fn index_of(s: Seq<FileEntry>, n: Seq<char>) -> int {
    choose|i: int| 0 <= i < s.len() && s[i].name == n
}

/// The file named `n`.
pub open spec fn entry_of(s: Seq<FileEntry>, n: Seq<char>) -> FileEntry {
    s[index_of(s, n)]
}

/// The bytes of the file named `n`.
pub open spec fn file_data(s: Seq<FileEntry>, n: Seq<char>) -> Seq<u8> {
    entry_of(s, n).data
}

/// Names are unique within the storage root at any instant.
pub open spec fn names_unique(s: Seq<FileEntry>) -> bool {
    forall|i: int, j: int| 0 <= i < j < s.len() ==> s[i].name != s[j].name
}

/// Storage after writing `e`: the file of that name is replaced when the
/// name is taken (overwrite is the accepted fallback), else `e` is added.
pub open spec fn upsert(s: Seq<FileEntry>, e: FileEntry) -> Seq<FileEntry> {
    if has_file(s, e.name) {
        s.update(index_of(s, e.name), e)
    } else {
        s.push(e)
    }
}

/// Storage after removing the name `n` (unchanged when absent).
pub open spec fn remove_name(s: Seq<FileEntry>, n: Seq<char>) -> Seq<FileEntry> {
    if has_file(s, n) {
        s.remove(index_of(s, n))
    } else {
        s
    }
}

/// The storage state after one upload of a part named `raw` with body
/// `chunks`, at time `now`, under the byte ceiling `max`: nothing when the
/// sanitized name is empty (the part is skipped), else the resolved name
/// with the chunks up to the ceiling's cutoff — also when the ceiling was
/// crossed, since rejected uploads are not cleaned up.
pub open spec fn upload_state(
    s: Seq<FileEntry>,
    raw: Seq<char>,
    chunks: Seq<Seq<u8>>,
    now: u64,
    max: nat,
) -> Seq<FileEntry> {
    let san = sanitize_spec(raw);
    if san.len() == 0 {
        s
    } else {
        let resolved = resolved_name_spec(san, has_file(s, san), now as nat);
        upsert(
            s,
            FileEntry {
                name: resolved,
                data: concat_prefix(chunks, cutoff(chunks, max)),
                modified_at: now,
            },
        )
    }
}

/// A known index with the right name is the index of that name.
pub proof fn lemma_index_unique(s: Seq<FileEntry>, n: Seq<char>, i: int)
    requires
        names_unique(s),
        0 <= i < s.len(),
        s[i].name == n,
    ensures
        has_file(s, n),
        index_of(s, n) == i,
{
    assert(has_file(s, n));
    let j = index_of(s, n);
    if i < j {
        assert(s[i].name != s[j].name);
    } else if j < i {
        assert(s[j].name != s[i].name);
    }
}

/// Writing a file keeps names unique, puts exactly that file under its
/// name, and leaves every other name bound to the same file as before.
pub proof fn lemma_upsert(s: Seq<FileEntry>, e: FileEntry)
    requires
        names_unique(s),
    ensures
        names_unique(upsert(s, e)),
        has_file(upsert(s, e), e.name),
        entry_of(upsert(s, e), e.name) == e,
        forall|n: Seq<char>|
            n != e.name ==> #[trigger] has_file(upsert(s, e), n) == has_file(s, n),
        forall|n: Seq<char>|
            n != e.name && has_file(s, n) ==> #[trigger] entry_of(upsert(s, e), n) == entry_of(
                s,
                n,
            ),
{
    let t = upsert(s, e);
    if has_file(s, e.name) {
        let i = index_of(s, e.name);
        assert(0 <= i < s.len() && s[i].name == e.name);
        assert(names_unique(t));
        lemma_index_unique(t, e.name, i);
        assert forall|n: Seq<char>| n != e.name implies #[trigger] has_file(t, n) == has_file(
            s,
            n,
        ) by {
            if has_file(t, n) {
                let k = choose|k: int| 0 <= k < t.len() && t[k].name == n;
                assert(s[k].name == n);
            }
            if has_file(s, n) {
                let k = index_of(s, n);
                assert(k != i);
                assert(t[k].name == n);
            }
        }
        assert forall|n: Seq<char>| n != e.name && has_file(s, n) implies #[trigger] entry_of(
            t,
            n,
        ) == entry_of(s, n) by {
            let k = index_of(s, n);
            assert(k != i);
            assert(t[k].name == n);
            lemma_index_unique(t, n, k);
        }
    } else {
        assert(t == s.push(e));
        assert forall|i: int, j: int| 0 <= i < j < t.len() implies t[i].name != t[j].name by {
            if j < s.len() {
                assert(s[i].name != s[j].name);
            } else {
                assert(t[j] == e);
                if t[i].name == e.name {
                    assert(has_file(s, e.name));
                }
            }
        }
        lemma_index_unique(t, e.name, s.len() as int);
        assert forall|n: Seq<char>| n != e.name implies #[trigger] has_file(t, n) == has_file(
            s,
            n,
        ) by {
            if has_file(t, n) {
                let k = choose|k: int| 0 <= k < t.len() && t[k].name == n;
                assert(k < s.len());
                assert(s[k].name == n);
            }
            if has_file(s, n) {
                let k = index_of(s, n);
                assert(t[k].name == n);
            }
        }
        assert forall|n: Seq<char>| n != e.name && has_file(s, n) implies #[trigger] entry_of(
            t,
            n,
        ) == entry_of(s, n) by {
            let k = index_of(s, n);
            assert(t[k].name == n);
            lemma_index_unique(t, n, k);
        }
    }
}

/// Removing a name keeps names unique, drops exactly that name, and leaves
/// every other name bound to the same file as before.
pub proof fn lemma_remove_name(s: Seq<FileEntry>, n: Seq<char>)
    requires
        names_unique(s),
    ensures
        names_unique(remove_name(s, n)),
        !has_file(remove_name(s, n), n),
        forall|m: Seq<char>|
            m != n ==> #[trigger] has_file(remove_name(s, n), m) == has_file(s, m),
        forall|m: Seq<char>|
            m != n && has_file(s, m) ==> #[trigger] entry_of(remove_name(s, n), m) == entry_of(
                s,
                m,
            ),
{
    if has_file(s, n) {
        let i = index_of(s, n);
        let t = s.remove(i);
        assert(forall|k: int|
            0 <= k < t.len() ==> #[trigger] t[k] == (if k < i {
                s[k]
            } else {
                s[k + 1]
            }));
        assert forall|a: int, b: int| 0 <= a < b < t.len() implies t[a].name != t[b].name by {
            let sa = if a < i {
                a
            } else {
                a + 1
            };
            let sb = if b < i {
                b
            } else {
                b + 1
            };
            assert(s[sa].name != s[sb].name);
        }
        assert forall|k: int| 0 <= k < t.len() implies t[k].name != n by {
            let sk = if k < i {
                k
            } else {
                k + 1
            };
            assert(sk != i);
            assert(s[sk].name == t[k].name);
            if s[sk].name == n {
                if sk < i {
                    assert(s[sk].name != s[i].name);
                } else {
                    assert(s[i].name != s[sk].name);
                }
            }
        }
        assert forall|m: Seq<char>| m != n implies #[trigger] has_file(t, m) == has_file(
            s,
            m,
        ) by {
            if has_file(t, m) {
                let k = choose|k: int| 0 <= k < t.len() && t[k].name == m;
                let sk = if k < i {
                    k
                } else {
                    k + 1
                };
                assert(s[sk].name == m);
            }
            if has_file(s, m) {
                let k = index_of(s, m);
                assert(k != i);
                if k < i {
                    assert(t[k].name == m);
                } else {
                    assert(t[k - 1].name == m);
                }
            }
        }
        assert forall|m: Seq<char>| m != n && has_file(s, m) implies #[trigger] entry_of(
            t,
            m,
        ) == entry_of(s, m) by {
            let k = index_of(s, m);
            assert(k != i);
            if k < i {
                assert(t[k].name == m);
                lemma_index_unique(t, m, k);
            } else {
                assert(t[k - 1].name == m);
                lemma_index_unique(t, m, k - 1);
            }
        }
    }
}

/// The record that one stored file shows in a listing.
pub open spec fn record_of_entry(e: FileEntry) -> FileInfoView {
    FileInfoView {
        name: e.name,
        size: e.data.len() as u64,
        uploaded_at: e.modified_at,
        file_type: kind_spec(e.name),
    }
}

/// The records that a storage state shows in a listing, before sorting.
pub open spec fn records_of(s: Seq<FileEntry>) -> Seq<FileInfoView> {
    s.map_values(|e: FileEntry| record_of_entry(e))
}

/// An in-memory storage root: a flat namespace of uniquely named files.
pub struct Storage {
    files: Vec<StoredFile>,
}

impl View for Storage {
    type V = Seq<FileEntry>;

    closed spec fn view(&self) -> Seq<FileEntry> {
        self.files@.map_values(|f: StoredFile| f@)
    }
}

impl Storage {
    /// The storage invariant: names are unique.
    pub open spec fn wf(&self) -> bool {
        names_unique(self@)
    }

    /// An empty storage root.
    pub fn new() -> (r: Storage)
        ensures
            r@ == Seq::<FileEntry>::empty(),
            r.wf(),
    {
        let r = Storage { files: Vec::new() };
        proof {
            assert(r@ =~= Seq::<FileEntry>::empty());
        }
        r
    }

    /// Position of a name in the backing vector, if it is taken.
    fn find_index(&self, name: &str) -> (r: Option<usize>)
        requires
            self.wf(),
        ensures
            match r {
                Option::None => !has_file(self@, name@),
                Option::Some(i) => 0 <= i < self@.len() && self@[i as int].name == name@
                    && index_of(self@, name@) == i,
            },
    {
        let mut i: usize = 0;
        while i < self.files.len()
            invariant
                self.wf(),
                self@.len() == self.files@.len(),
                0 <= i <= self@.len(),
                forall|j: int| 0 <= j < i ==> (#[trigger] self@[j]).name != name@,
            decreases self@.len() - i,
        {
            if str_eq(self.files[i].name.as_str(), name) {
                proof {
                    lemma_index_unique(self@, name@, i as int);
                }
                return Some(i);
            }
            i += 1;
        }
        proof {
            if has_file(self@, name@) {
                let k = index_of(self@, name@);
                assert(self@[k].name != name@);
            }
        }
        None
    }

    /// Whether a file of the given (already sanitized) name is stored.
    pub fn contains_name(&self, name: &str) -> (r: bool)
        requires
            self.wf(),
        ensures
            r == has_file(self@, name@),
    {
        match self.find_index(name) {
            Option::Some(_) => true,
            Option::None => false,
        }
    }

    /// Writes a file under a name, replacing a file of the same name.
    fn upsert_entry(&mut self, entry: StoredFile)
        requires
            old(self).wf(),
        ensures
            final(self).wf(),
            final(self)@ == upsert(old(self)@, entry@),
    {
        proof {
            lemma_upsert(old(self)@, entry@);
        }
        let found = self.find_index(entry.name.as_str());
        match found {
            Option::Some(i) => {
                let ghost pre = self@;
                self.files.remove(i);
                self.files.insert(i, entry);
                proof {
                    assert(self@ =~= pre.update(i as int, entry@));
                }
            },
            Option::None => {
                let ghost pre = self@;
                self.files.push(entry);
                proof {
                    assert(self@ =~= pre.push(entry@));
                }
            },
        }
    }

    /// Ingests one part of an upload: sanitizes the client name, resolves
    /// collisions against the current state at time `now`, and writes the
    /// part's chunks up to the configured byte ceiling.
    ///
    /// Returns `Ok(None)` when the part carries no usable name (the part
    /// is skipped), `Ok(Some(name))` with the final on-disk name when the
    /// whole body fit, and the `TooLarge` error when the ceiling was
    /// crossed — in which case the chunks before the crossing stay
    /// written, as the system does not clean up rejected uploads.
    pub fn upload(
        &mut self,
        filename: &str,
        chunks: &Vec<Vec<u8>>,
        now: u64,
        max_bytes: usize,
    ) -> (r: Result<Option<String>, ShareError>)
        requires
            old(self).wf(),
        ensures
            final(self).wf(),
            final(self)@ == upload_state(
                old(self)@,
                filename@,
                chunks.deep_view(),
                now,
                max_bytes as nat,
            ),
            0 <= cutoff(chunks.deep_view(), max_bytes as nat) <= chunks.deep_view().len(),
            sanitize_spec(filename@).len() == 0 ==> r == Result::<
                Option<String>,
                ShareError,
            >::Ok(None),
            sanitize_spec(filename@).len() > 0 && cutoff(chunks.deep_view(), max_bytes as nat)
                == chunks.deep_view().len() ==> (r matches Ok(f) && f matches Some(name)
                && name@ == resolved_name_spec(
                sanitize_spec(filename@),
                has_file(old(self)@, sanitize_spec(filename@)),
                now as nat,
            )),
            sanitize_spec(filename@).len() > 0 && cutoff(chunks.deep_view(), max_bytes as nat)
                < chunks.deep_view().len() ==> r == Result::<Option<String>, ShareError>::Err(
                ShareError::TooLarge { max_bytes },
            ),
    {
        proof {
            crate::ingest::lemma_cutoff_properties(chunks.deep_view(), max_bytes as nat, 0);
        }
        let san = sanitize_filename(filename);
        if san.as_str().is_empty() {
            return Ok(None);
        }
        let exists = self.contains_name(san.as_str());
        let final_name = resolve_collision(san.as_str(), exists, now);
        let (data, over) = ingest_chunks(chunks, max_bytes);
        let stored_name = final_name.clone();
        self.upsert_entry(StoredFile { name: stored_name, data, modified_at: now });
        if over {
            Err(ShareError::TooLarge { max_bytes })
        } else {
            Ok(Some(final_name))
        }
    }

    /// The stored bytes of a client-named file, or `NotFound`.
    pub fn download(&self, filename: &str) -> (r: Result<Vec<u8>, ShareError>)
        requires
            self.wf(),
        ensures
            has_file(self@, sanitize_spec(filename@)) ==> (r matches Ok(d) && d@ == file_data(
                self@,
                sanitize_spec(filename@),
            )),
            !has_file(self@, sanitize_spec(filename@)) ==> r == Result::<
                Vec<u8>,
                ShareError,
            >::Err(ShareError::NotFound),
    {
        let san = sanitize_filename(filename);
        match self.find_index(san.as_str()) {
            Option::Some(i) => {
                let d = self.files[i].data.clone();
                proof {
                    assert(d@ =~= self@[i as int].data);
                }
                Ok(d)
            },
            Option::None => Err(ShareError::NotFound),
        }
    }

    /// Removes a client-named file; removing an absent name reports
    /// `NotFound` rather than succeeding silently.
    pub fn delete(&mut self, filename: &str) -> (r: Result<(), ShareError>)
        requires
            old(self).wf(),
        ensures
            final(self).wf(),
            final(self)@ == remove_name(old(self)@, sanitize_spec(filename@)),
            r is Ok <==> has_file(old(self)@, sanitize_spec(filename@)),
            !has_file(old(self)@, sanitize_spec(filename@)) ==> r == Result::<
                (),
                ShareError,
            >::Err(ShareError::NotFound),
    {
        proof {
            lemma_remove_name(old(self)@, sanitize_spec(filename@));
        }
        let san = sanitize_filename(filename);
        match self.find_index(san.as_str()) {
            Option::Some(i) => {
                let ghost pre = self@;
                self.files.remove(i);
                proof {
                    assert(self@ =~= pre.remove(i as int));
                }
                Ok(())
            },
            Option::None => Err(ShareError::NotFound),
        }
    }

    /// The listing: one record per stored file, most recent first.
    pub fn list(&self) -> (r: Vec<FileInfo>)
        requires
            self.wf(),
        ensures
            sorted_by_recency(views_of(r@)),
            views_of(r@).to_multiset() == records_of(self@).to_multiset(),
            r@.len() == self@.len(),
    {
        let mut entries: Vec<(String, u64, u64)> = Vec::new();
        let mut i: usize = 0;
        while i < self.files.len()
            invariant
                self@.len() == self.files@.len(),
                0 <= i <= self@.len(),
                entries@.len() == i,
                forall|j: int|
                    0 <= j < i ==> crate::records::record_of(#[trigger] entries@[j])
                        == record_of_entry(self@[j]),
            decreases self@.len() - i,
        {
            let name = self.files[i].name.clone();
            let size = self.files[i].data.len();
            let mt = self.files[i].modified_at;
            entries.push((name, size as u64, mt));
            i += 1;
        }
        let r = build_records(&entries);
        proof {
            assert(entries@.map_values(|e: (String, u64, u64)| crate::records::record_of(e))
                =~= records_of(self@));
        }
        r
    }
}

} // verus!
