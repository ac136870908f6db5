//! Storage directory listing: file records with an extension-derived kind,
//! sorted by modification time, most recent first.

use vstd::prelude::*;
use vstd::seq_lib::group_to_multiset_ensures;
use vstd::string::StringExecFns;
use crate::naming::last_dot;
use crate::naming::last_dot_index;
use crate::strutil::push_char;
use crate::strutil::str_chars;

verus! {

/// One stored file as observed from the filesystem at listing time.
pub struct FileInfo {
    pub name: String,
    pub size: u64,
    pub uploaded_at: u64,
    pub file_type: String,
}

/// The mathematical content of a `FileInfo`.
pub struct FileInfoView {
    pub name: Seq<char>,
    pub size: u64,
    pub uploaded_at: u64,
    pub file_type: Seq<char>,
}

impl View for FileInfo {
    type V = FileInfoView;

    open spec fn view(&self) -> FileInfoView {
        FileInfoView {
            name: self.name@,
            size: self.size,
            uploaded_at: self.uploaded_at,
            file_type: self.file_type@,
        }
    }
}

/// The views of a sequence of records.
pub open spec fn views_of(s: Seq<FileInfo>) -> Seq<FileInfoView> {
    s.map_values(|f: FileInfo| f@)
}

/// ASCII lowercase of one character.
pub open spec fn lower_char(c: char) -> char {
    if 65 <= c as u32 && c as u32 <= 90 {
        ((c as u32 + 32) as u8) as char
    } else {
        c
    }
}

/// The inferred kind of a file: its extension, lowercased, or the
/// `unknown` sentinel when the name has no extension.
pub open spec fn kind_spec(name: Seq<char>) -> Seq<char> {
    let d = last_dot(name, name.len() as int);
    if d < 0 {
        "unknown"@
    } else {
        name.subrange(d + 1, name.len() as int).map_values(|c: char| lower_char(c))
    }
}

/// Derives the record kind from a file name.
pub fn file_kind(name: &str) -> (r: String)
    ensures
        r@ == kind_spec(name@),
{
    let chars = str_chars(name);
    match last_dot_index(&chars) {
        Option::None => String::from_str("unknown"),
        Option::Some(d) => {
            let ghost nv = name@;
            let ghost ext = nv.subrange(d + 1, nv.len() as int);
            let n = chars.len();
            let mut out = String::new();
            let mut k: usize = d + 1;
            proof {
                assert(out@ =~= ext.subrange(0, 0).map_values(|c: char| lower_char(c)));
            }
            while k < n
                invariant
                    chars@ == nv,
                    n == nv.len(),
                    ext == nv.subrange(d + 1, nv.len() as int),
                    1 <= d && d + 1 <= k <= n,
                    out@ == ext.subrange(0, k - d - 1).map_values(|c: char| lower_char(c)),
                decreases n - k,
            {
                let c = chars[k];
                let u = c as u32;
                let lc: char = if 65 <= u && u <= 90 {
                    ((u + 32) as u8) as char
                } else {
                    c
                };
                proof {
                    assert(lc == lower_char(ext[k - d - 1]));
                    assert(out@.push(lc) =~= ext.subrange(0, k - d).map_values(
                        |c: char| lower_char(c),
                    ));
                }
                push_char(&mut out, lc);
                k += 1;
            }
            proof {
                assert(ext.subrange(0, n - d - 1) =~= ext);
            }
            out
        },
    }
}

/// Listing order: most recent first.
pub open spec fn sorted_by_recency(s: Seq<FileInfoView>) -> bool {
    forall|i: int, j: int| 0 <= i < j < s.len() ==> s[i].uploaded_at >= s[j].uploaded_at
}

/// Sorts records by modification time, most recent first, keeping exactly
/// the given records.
pub fn sort_by_recency(files: &mut Vec<FileInfo>)
    ensures
        sorted_by_recency(views_of(final(files)@)),
        views_of(final(files)@).to_multiset() == views_of(old(files)@).to_multiset(),
        final(files)@.len() == old(files)@.len(),
{
    broadcast use group_to_multiset_ensures;

    let ghost orig = views_of(old(files)@);
    let len = files.len();
    if len < 2 {
        return ;
    }
    let mut i: usize = 1;
    while i < len
        invariant
            files@.len() == len,
            1 <= i <= len,
            views_of(files@).to_multiset() == orig.to_multiset(),
            forall|a: int, b: int|
                0 <= a < b < i ==> (#[trigger] views_of(files@)[a]).uploaded_at
                    >= (#[trigger] views_of(files@)[b]).uploaded_at,
        decreases len - i,
    {
        let key = files[i].uploaded_at;
        let mut p: usize = 0;
        while p < i && files[p].uploaded_at >= key
            invariant
                files@.len() == len,
                i < len,
                0 <= p <= i,
                key == views_of(files@)[i as int].uploaded_at,
                forall|q: int|
                    0 <= q < p ==> views_of(files@)[q].uploaded_at >= key,
            decreases i - p,
        {
            p += 1;
        }
        let ghost pre = files@;
        if p < i {
            let f = files.remove(i);
            files.insert(p, f);
            proof {
                broadcast use vstd::multiset::group_multiset_axioms;

                let vpre = views_of(pre);
                let vnow = views_of(files@);
                let x = vpre[i as int];
                assert(vpre.len() == len);
                assert(vnow =~= vpre.remove(i as int).insert(p as int, x));
                let m = vpre.to_multiset();
                vstd::seq_lib::to_multiset_remove::<FileInfoView>(vpre, i as int);
                vstd::seq_lib::to_multiset_insert::<FileInfoView>(
                    vpre.remove(i as int),
                    p as int,
                    x,
                );
                assert(vpre.remove(i as int).to_multiset() == m.remove(x));
                assert(vnow.to_multiset() == m.remove(x).insert(x));
                assert(vpre.contains(x));
                vstd::seq_lib::to_multiset_contains::<FileInfoView>(vpre, x);
                assert(m.count(x) > 0);
                assert(m.remove(x).insert(x) =~= m);
                assert forall|a: int, b: int|
                    0 <= a < b < i + 1 implies (#[trigger] vnow[a]).uploaded_at
                    >= (#[trigger] vnow[b]).uploaded_at by {
                    assert(vpre[p as int].uploaded_at < key);
                    if a < p {
                        assert(vnow[a] == vpre[a]);
                    } else if a == p {
                        assert(vnow[a] == x);
                    } else {
                        assert(vnow[a] == vpre[a - 1]);
                    }
                    if b < p {
                        assert(vnow[b] == vpre[b]);
                    } else if b == p {
                        assert(vnow[b] == x);
                    } else {
                        assert(vnow[b] == vpre[b - 1]);
                    }
                }
            }
        } else {
            proof {
                let v = views_of(files@);
                assert forall|a: int, b: int|
                    0 <= a < b < i + 1 implies (#[trigger] v[a]).uploaded_at
                    >= (#[trigger] v[b]).uploaded_at by {
                    if b == i {
                        assert(v[a].uploaded_at >= key);
                    }
                }
            }
        }
        i += 1;
    }
}

/// The record that one directory entry (name, size, modification time)
/// gives rise to.
pub open spec fn record_of(e: (String, u64, u64)) -> FileInfoView {
    FileInfoView { name: e.0@, size: e.1, uploaded_at: e.2, file_type: kind_spec(e.0@) }
}

/// Builds the listing from plain directory facts, one triple of name, byte
/// size and modification time per readable regular file, sorted most
/// recent first.  An empty set of entries yields an empty listing.
pub fn build_records(entries: &Vec<(String, u64, u64)>) -> (r: Vec<FileInfo>)
    ensures
        sorted_by_recency(views_of(r@)),
        views_of(r@).to_multiset() == entries@.map_values(|e: (String, u64, u64)| record_of(e))
            .to_multiset(),
        r@.len() == entries@.len(),
{
    broadcast use group_to_multiset_ensures;

    let ghost target = entries@.map_values(|e: (String, u64, u64)| record_of(e));
    let mut recs: Vec<FileInfo> = Vec::new();
    let mut i: usize = 0;
    while i < entries.len()
        invariant
            0 <= i <= entries@.len(),
            target == entries@.map_values(|e: (String, u64, u64)| record_of(e)),
            views_of(recs@) == target.subrange(0, i as int),
        decreases entries@.len() - i,
    {
        let name = entries[i].0.clone();
        let kind = file_kind(name.as_str());
        let info = FileInfo { name, size: entries[i].1, uploaded_at: entries[i].2, file_type: kind };
        proof {
            assert(info@ == target[i as int]);
            assert(views_of(recs@).push(info@) =~= target.subrange(0, i + 1));
            assert(views_of(recs@.push(info)) =~= views_of(recs@).push(info@));
        }
        recs.push(info);
        i += 1;
    }
    proof {
        assert(target.subrange(0, entries@.len() as int) =~= target);
    }
    sort_by_recency(&mut recs);
    recs
}

} // verus!
