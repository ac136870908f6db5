//! Name sanitizer: maps an arbitrary client-supplied filename to a name that
//! is safe as a single path segment.
//!
//! Every character outside `[A-Za-z0-9._- ]` is replaced with `_`, and
//! leading/trailing spaces are removed.  The function is total: an empty
//! input (or one that is all spaces) yields an empty name, which callers
//! treat as "no filename provided".

use vstd::prelude::*;
use vstd::string::StrSliceExecFns;
use crate::strutil::push_char;

verus! {

/// A character that survives sanitization unchanged: ASCII alphanumeric,
/// `.`, `-`, `_` or space.
pub open spec fn allowed_char(c: char) -> bool {
    (48 <= c as u32 && c as u32 <= 57) || (65 <= c as u32 && c as u32 <= 90) || (97 <= c as u32
        && c as u32 <= 122) || c == '.' || c == '-' || c == '_' || c == ' '
}

/// What one character becomes under sanitization.
pub open spec fn replaced_char(c: char) -> char {
    if allowed_char(c) {
        c
    } else {
        '_'
    }
}

/// Character-wise replacement, before trimming.
pub open spec fn replace_chars(s: Seq<char>) -> Seq<char> {
    s.map_values(|c: char| replaced_char(c))
}

/// Index of the first character at or after `i` that is not a space
/// (the sequence's length if there is none).
pub open spec fn first_non_space(s: Seq<char>, i: int) -> int
    decreases s.len() - i,
{
    if i < 0 || i >= s.len() {
        s.len() as int
    } else if s[i] != ' ' {
        i
    } else {
        first_non_space(s, i + 1)
    }
}

/// End of the last run of non-space characters at or before `i`:
/// the smallest prefix length that keeps every non-space below `i`.
pub open spec fn last_non_space_end(s: Seq<char>, i: int) -> int
    decreases i,
{
    if i <= 0 {
        0
    } else if s[i - 1] != ' ' {
        i
    } else {
        last_non_space_end(s, i - 1)
    }
}

/// Removal of leading and trailing spaces.
pub open spec fn trim_spaces(s: Seq<char>) -> Seq<char> {
    let lo = first_non_space(s, 0);
    let hi = last_non_space_end(s, s.len() as int);
    if lo >= s.len() {
        Seq::<char>::empty()
    } else {
        s.subrange(lo, hi)
    }
}

/// The sanitized form of a raw filename: replacement, then trimming.
pub open spec fn sanitize_spec(s: Seq<char>) -> Seq<char> {
    trim_spaces(replace_chars(s))
}

proof fn lemma_first_non_space_bounds(s: Seq<char>, i: int)
    requires
        0 <= i <= s.len(),
    ensures
        i <= first_non_space(s, i) <= s.len(),
        forall|j: int| i <= j < first_non_space(s, i) ==> s[j] == ' ',
        first_non_space(s, i) < s.len() ==> s[first_non_space(s, i)] != ' ',
    decreases s.len() - i,
{
    if i < s.len() && s[i] == ' ' {
        lemma_first_non_space_bounds(s, i + 1);
    }
}

proof fn lemma_last_non_space_end_bounds(s: Seq<char>, i: int)
    requires
        0 <= i <= s.len(),
    ensures
        0 <= last_non_space_end(s, i) <= i,
        forall|j: int| last_non_space_end(s, i) <= j < i ==> s[j] == ' ',
        forall|j: int| 0 <= j < i && s[j] != ' ' ==> j < last_non_space_end(s, i),
        last_non_space_end(s, i) > 0 ==> s[last_non_space_end(s, i) - 1] != ' ',
    decreases i,
{
    if i > 0 && s[i - 1] == ' ' {
        lemma_last_non_space_end_bounds(s, i - 1);
    }
}

/// Trimming does nothing to a nonempty sequence whose ends are not spaces.
proof fn lemma_trim_identity(s: Seq<char>)
    requires
        s.len() > 0,
        s[0] != ' ',
        s[s.len() - 1] != ' ',
    ensures
        trim_spaces(s) == s,
{
    assert(first_non_space(s, 0) == 0);
    assert(last_non_space_end(s, s.len() as int) == s.len());
    assert(s.subrange(0, s.len() as int) =~= s);
}

/// Sanitization leaves a name alone when every character is in the allowed
/// class and the ends are not spaces.  In particular a name that the library
/// itself produced (a sanitized name, possibly with a timestamp suffix) is a
/// fixed point, so it can be handed back verbatim for download or deletion.
pub proof fn lemma_sanitize_identity(s: Seq<char>)
    requires
        s.len() > 0,
        forall|i: int| 0 <= i < s.len() ==> allowed_char(#[trigger] s[i]),
        s[0] != ' ',
        s[s.len() - 1] != ' ',
    ensures
        sanitize_spec(s) == s,
{
    assert(replace_chars(s) =~= s);
    lemma_trim_identity(s);
}

/// Every character of a sanitized name is in the allowed class; in
/// particular no path separator (`/` or `\`) and no parent-directory
/// segment can survive, since `/` and `\` are not allowed characters.
/// A nonempty sanitized name starts and ends with a non-space.
pub proof fn lemma_sanitize_safe(s: Seq<char>)
    ensures
        forall|i: int|
            0 <= i < sanitize_spec(s).len() ==> allowed_char(#[trigger] sanitize_spec(s)[i]),
        forall|i: int|
            0 <= i < sanitize_spec(s).len() ==> sanitize_spec(s)[i] != '/' && sanitize_spec(s)[i]
                != '\\',
        sanitize_spec(s).len() > 0 ==> sanitize_spec(s)[0] != ' ' && sanitize_spec(s)[
            sanitize_spec(s).len() - 1
        ] != ' ',
{
    let r = replace_chars(s);
    lemma_first_non_space_bounds(r, 0);
    lemma_last_non_space_end_bounds(r, r.len() as int);
    assert(forall|i: int| 0 <= i < r.len() ==> allowed_char(#[trigger] r[i]));
    let lo = first_non_space(r, 0);
    let hi = last_non_space_end(r, r.len() as int);
    assert forall|i: int| 0 <= i < sanitize_spec(s).len() implies allowed_char(
        #[trigger] sanitize_spec(s)[i],
    ) by {
        if lo < r.len() {
            assert(r[lo] != ' ');
            assert(lo < hi);
            assert(sanitize_spec(s)[i] == r[lo + i]);
        }
    }
    if sanitize_spec(s).len() > 0 {
        assert(r[lo] != ' ');
        assert(lo < hi);
        assert(sanitize_spec(s)[0] == r[lo]);
        assert(sanitize_spec(s)[sanitize_spec(s).len() - 1] == r[hi - 1]);
    }
}

/// Replaces every character outside `[A-Za-z0-9._- ]` with `_` and strips
/// leading and trailing spaces.
pub fn sanitize_filename(filename: &str) -> (r: String)
    ensures
        r@ == sanitize_spec(filename@),
{
    let n = filename.unicode_len();
    let mut repl: Vec<char> = Vec::new();
    let mut i: usize = 0;
    while i < n
        invariant
            n == filename@.len(),
            0 <= i <= n,
            repl@.len() == i,
            forall|j: int| 0 <= j < i ==> repl@[j] == replaced_char(filename@[j]),
        decreases n - i,
    {
        let c = filename.get_char(i);
        let u = c as u32;
        let keep = (48 <= u && u <= 57) || (65 <= u && u <= 90) || (97 <= u && u <= 122) || c == '.'
            || c == '-' || c == '_' || c == ' ';
        if keep {
            repl.push(c);
        } else {
            repl.push('_');
        }
        i += 1;
    }
    let ghost rv = replace_chars(filename@);
    proof {
        assert(repl@ =~= rv);
    }
    let len = repl.len();
    let mut lo: usize = 0;
    while lo < len && repl[lo] == ' '
        invariant
            repl@ == rv,
            len == rv.len(),
            0 <= lo <= len,
            first_non_space(rv, 0) == first_non_space(rv, lo as int),
        decreases len - lo,
    {
        lo += 1;
    }
    proof {
        assert(first_non_space(rv, lo as int) == lo || first_non_space(rv, lo as int)
            == rv.len());
    }
    if lo == len {
        let r = String::new();
        return r;
    }
    let mut hi: usize = len;
    while hi > lo && repl[hi - 1] == ' '
        invariant
            repl@ == rv,
            len == rv.len(),
            lo < len,
            rv[lo as int] != ' ',
            lo <= hi <= len,
            last_non_space_end(rv, len as int) == last_non_space_end(rv, hi as int),
        decreases hi,
    {
        hi -= 1;
    }
    proof {
        assert(hi > lo) by {
            if hi == lo {
                assert(last_non_space_end(rv, lo as int) == last_non_space_end(rv, len as int));
                lemma_last_non_space_end_bounds(rv, lo as int);
                lemma_last_non_space_end_bounds(rv, len as int);
            }
        }
        assert(last_non_space_end(rv, hi as int) == hi);
    }
    let mut out = String::new();
    let mut k: usize = lo;
    while k < hi
        invariant
            repl@ == rv,
            len == rv.len(),
            0 <= lo <= k <= hi <= len,
            out@ == rv.subrange(lo as int, k as int),
        decreases hi - k,
    {
        let c = repl[k];
        proof {
            assert(out@.push(c) =~= rv.subrange(lo as int, k + 1));
        }
        push_char(&mut out, c);
        k += 1;
    }
    proof {
        assert(first_non_space(rv, 0) == lo);
        assert(out@ == sanitize_spec(filename@));
    }
    out
}

} // verus!
