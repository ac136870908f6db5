//! Laws of the upload subsystem, proved for every storage state and input
//! rather than for chosen values.
//!
//! Each law is stated over the same spec functions that the executable
//! operations promise in their contracts, so it composes with them: what
//! `upload` leaves behind is `upload_state`, what `download` returns is
//! `file_data` of the sanitized request, and what `delete` leaves behind
//! is `remove_name`.

use vstd::prelude::*;
use crate::ingest::concat_prefix;
use crate::ingest::cutoff;
use crate::naming::lemma_resolved_name_longer;
use crate::naming::lemma_resolved_name_sanitizable;
use crate::naming::resolved_name_spec;
use crate::sanitize::lemma_sanitize_identity;
use crate::sanitize::lemma_sanitize_safe;
use crate::sanitize::sanitize_spec;
use crate::storage::entry_of;
use crate::storage::file_data;
use crate::storage::has_file;
use crate::storage::lemma_remove_name;
use crate::storage::lemma_upsert;
use crate::storage::names_unique;
use crate::storage::records_of;
use crate::storage::remove_name;
use crate::storage::upload_state;
use crate::storage::FileEntry;

verus! {

/// After any upload with a usable name, the name the caller gets back is
/// a fixed point of sanitization, and downloading it yields exactly the
/// bytes that were written: the chunks up to the ceiling's cutoff, which
/// is all of them whenever the part fit under the ceiling.
pub proof fn lemma_upload_download_round_trip(
    s: Seq<FileEntry>,
    raw: Seq<char>,
    chunks: Seq<Seq<u8>>,
    now: u64,
    max: nat,
)
    requires
        names_unique(s),
        sanitize_spec(raw).len() > 0,
    ensures
        ({
            let san = sanitize_spec(raw);
            let resolved = resolved_name_spec(san, has_file(s, san), now as nat);
            let s2 = upload_state(s, raw, chunks, now, max);
            &&& sanitize_spec(resolved) == resolved
            &&& names_unique(s2)
            &&& has_file(s2, resolved)
            &&& file_data(s2, resolved) == concat_prefix(chunks, cutoff(chunks, max))
            &&& entry_of(s2, resolved).modified_at == now
        }),
{
    let san = sanitize_spec(raw);
    let resolved = resolved_name_spec(san, has_file(s, san), now as nat);
    lemma_sanitize_safe(raw);
    lemma_resolved_name_sanitizable(san, has_file(s, san), now as nat);
    lemma_sanitize_identity(resolved);
    let entry = FileEntry {
        name: resolved,
        data: concat_prefix(chunks, cutoff(chunks, max)),
        modified_at: now,
    };
    lemma_upsert(s, entry);
}

/// Uploading a name that is already taken stores the part under the
/// timestamp-suffixed name, a different name from the taken one, and the
/// file already stored under the taken name keeps its bytes: both files
/// remain retrievable and distinct.
pub proof fn lemma_collision_keeps_both(
    s: Seq<FileEntry>,
    raw: Seq<char>,
    chunks: Seq<Seq<u8>>,
    now: u64,
    max: nat,
)
    requires
        names_unique(s),
        sanitize_spec(raw).len() > 0,
        has_file(s, sanitize_spec(raw)),
    ensures
        ({
            let san = sanitize_spec(raw);
            let resolved = resolved_name_spec(san, true, now as nat);
            let s2 = upload_state(s, raw, chunks, now, max);
            &&& resolved != san
            &&& has_file(s2, resolved)
            &&& has_file(s2, san)
            &&& file_data(s2, resolved) == concat_prefix(chunks, cutoff(chunks, max))
            &&& file_data(s2, san) == file_data(s, san)
        }),
{
    let san = sanitize_spec(raw);
    let resolved = resolved_name_spec(san, true, now as nat);
    lemma_resolved_name_longer(san, now as nat);
    let entry = FileEntry {
        name: resolved,
        data: concat_prefix(chunks, cutoff(chunks, max)),
        modified_at: now,
    };
    lemma_upsert(s, entry);
}

/// Deleting a name removes it: the sanitized name is no longer in
/// storage — so a later download reports not-found and no record of a
/// later listing bears it — while every other name keeps its bytes.
pub proof fn lemma_delete_removes(s: Seq<FileEntry>, raw: Seq<char>)
    requires
        names_unique(s),
    ensures
        ({
            let san = sanitize_spec(raw);
            let s2 = remove_name(s, san);
            &&& !has_file(s2, san)
            &&& names_unique(s2)
            &&& forall|k: int|
                0 <= k < s2.len() ==> (#[trigger] records_of(s2)[k]).name != san
            &&& forall|m: Seq<char>| m != san ==> #[trigger] has_file(s2, m) == has_file(s, m)
            &&& forall|m: Seq<char>|
                m != san && has_file(s, m) ==> #[trigger] file_data(s2, m) == file_data(s, m)
        }),
{
    let san = sanitize_spec(raw);
    let s2 = remove_name(s, san);
    lemma_remove_name(s, san);
    assert forall|k: int| 0 <= k < s2.len() implies (#[trigger] records_of(s2)[k]).name
        != san by {
        if s2[k].name == san {
            assert(has_file(s2, san));
        }
    }
}

} // verus!
