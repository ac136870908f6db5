//! Upload ingestion: consumes the chunks of one part while enforcing the
//! configured byte ceiling.
//!
//! The running total is checked as each chunk arrives; the chunk that
//! would push the total over the ceiling is not written, and nothing after
//! it is read.  What was written before that point stays written: the
//! system does not guarantee cleanup of rejected uploads.

use vstd::prelude::*;

verus! {

/// Total byte count of the first `i` chunks.
pub open spec fn prefix_total(chunks: Seq<Seq<u8>>, i: int) -> nat
    decreases i,
{
    if i <= 0 {
        0
    } else {
        prefix_total(chunks, i - 1) + chunks[i - 1].len()
    }
}

/// Helper for `cutoff`, scanning from position `i`.
pub open spec fn cutoff_from(chunks: Seq<Seq<u8>>, max: nat, i: int) -> int
    decreases chunks.len() - i,
{
    if i < 0 || i >= chunks.len() {
        chunks.len() as int
    } else if prefix_total(chunks, i + 1) > max {
        i
    } else {
        cutoff_from(chunks, max, i + 1)
    }
}

/// Index of the chunk at which ingestion halts because the running total
/// would cross `max`; the number of chunks when the whole part fits.
pub open spec fn cutoff(chunks: Seq<Seq<u8>>, max: nat) -> int {
    cutoff_from(chunks, max, 0)
}

/// The bytes of the first `i` chunks, in order.
pub open spec fn concat_prefix(chunks: Seq<Seq<u8>>, i: int) -> Seq<u8>
    decreases i,
{
    if i <= 0 {
        Seq::<u8>::empty()
    } else {
        concat_prefix(chunks, i - 1) + chunks[i - 1]
    }
}

/// Ingestion halts exactly where the ceiling is crossed: everything before
/// the cutoff fits under the ceiling, and when the cutoff is not the end,
/// admitting the next chunk would cross it.
pub proof fn lemma_cutoff_properties(chunks: Seq<Seq<u8>>, max: nat, i: int)
    requires
        0 <= i <= chunks.len(),
        prefix_total(chunks, i) <= max,
    ensures
        i <= cutoff_from(chunks, max, i) <= chunks.len(),
        forall|j: int| i <= j <= cutoff_from(chunks, max, i) ==> prefix_total(chunks, j) <= max,
        cutoff_from(chunks, max, i) < chunks.len() ==> prefix_total(
            chunks,
            cutoff_from(chunks, max, i) + 1,
        ) > max,
    decreases chunks.len() - i,
{
    if i < chunks.len() && prefix_total(chunks, i + 1) <= max {
        lemma_cutoff_properties(chunks, max, i + 1);
    }
}

/// The bytes written for the first `i` chunks are exactly their total count.
pub proof fn lemma_concat_prefix_len(chunks: Seq<Seq<u8>>, i: int)
    ensures
        concat_prefix(chunks, i).len() == prefix_total(chunks, i),
    decreases i,
{
    if i > 0 {
        lemma_concat_prefix_len(chunks, i - 1);
    }
}

/// When a part's total byte count exceeds the ceiling, ingestion halts at
/// the chunk where the ceiling is crossed: what is written stays within
/// the ceiling, and admitting the next chunk would cross it.
pub proof fn lemma_ceiling_halts(chunks: Seq<Seq<u8>>, max: nat)
    requires
        prefix_total(chunks, chunks.len() as int) > max,
    ensures
        0 <= cutoff(chunks, max) < chunks.len(),
        prefix_total(chunks, cutoff(chunks, max)) <= max,
        prefix_total(chunks, cutoff(chunks, max) + 1) > max,
        concat_prefix(chunks, cutoff(chunks, max)).len() <= max,
{
    lemma_cutoff_properties(chunks, max, 0);
    lemma_concat_prefix_len(chunks, cutoff(chunks, max));
}

/// One step of streaming ingestion: the new running total after a chunk
/// of `chunk_len` bytes, or `None` when admitting it would cross the
/// ceiling — the caller then stops reading and rejects the part.
pub fn ceiling_step(total: usize, chunk_len: usize, max_bytes: usize) -> (r: Option<usize>)
    requires
        total <= max_bytes,
    ensures
        match r {
            Option::Some(t) => total + chunk_len <= max_bytes && t == total + chunk_len,
            Option::None => total + chunk_len > max_bytes,
        },
{
    if chunk_len > max_bytes - total {
        None
    } else {
        Some(total + chunk_len)
    }
}

/// Builds the destination bytes for one part from its chunks, stopping at
/// the chunk where the running total would cross `max_bytes`.  Returns the
/// bytes written and whether the ceiling was crossed.
pub fn ingest_chunks(chunks: &Vec<Vec<u8>>, max_bytes: usize) -> (r: (Vec<u8>, bool))
    ensures
        r.1 == (cutoff(chunks.deep_view(), max_bytes as nat) < chunks.deep_view().len()),
        r.0@ == concat_prefix(
            chunks.deep_view(),
            cutoff(chunks.deep_view(), max_bytes as nat),
        ),
{
    let ghost cv = chunks.deep_view();
    let mut data: Vec<u8> = Vec::new();
    let mut total: usize = 0;
    let mut i: usize = 0;
    proof {
        assert(cv.len() == chunks@.len());
    }
    while i < chunks.len()
        invariant
            cv == chunks.deep_view(),
            cv.len() == chunks@.len(),
            0 <= i <= cv.len(),
            total == prefix_total(cv, i as int),
            total <= max_bytes,
            cutoff(cv, max_bytes as nat) == cutoff_from(cv, max_bytes as nat, i as int),
            data@ == concat_prefix(cv, i as int),
        decreases cv.len() - i,
    {
        proof {
            assert(cv[i as int] =~= chunks@[i as int]@);
        }
        let clen = chunks[i].len();
        if clen > max_bytes - total {
            proof {
                assert(prefix_total(cv, i + 1) == total + clen);
                assert(cutoff_from(cv, max_bytes as nat, i as int) == i);
            }
            return (data, true);
        }
        let ghost before = data@;
        let mut k: usize = 0;
        while k < clen
            invariant
                cv == chunks.deep_view(),
                cv.len() == chunks@.len(),
                i < cv.len(),
                clen == cv[i as int].len(),
                0 <= k <= clen,
                data@ == before + cv[i as int].subrange(0, k as int),
            decreases clen - k,
        {
            proof {
                assert(cv[i as int] =~= chunks@[i as int]@);
            }
            let b = chunks[i][k];
            proof {
                assert((before + cv[i as int].subrange(0, k as int)).push(b) =~= before + cv[
                    i as int
                ].subrange(0, k + 1));
            }
            data.push(b);
            k += 1;
        }
        proof {
            assert(cv[i as int].subrange(0, clen as int) =~= cv[i as int]);
            assert(prefix_total(cv, i + 1) == total + clen);
            assert(cutoff_from(cv, max_bytes as nat, i as int) == cutoff_from(
                cv,
                max_bytes as nat,
                i + 1,
            ));
        }
        total += clen;
        i += 1;
    }
    (data, false)
}

} // verus!
