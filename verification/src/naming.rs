//! Collision resolver: given a sanitized name and whether a file of that
//! name already exists in the storage root, produces the final on-disk name.
//!
//! When the name is taken, the stem is suffixed with the current Unix
//! timestamp in seconds (`stem_<timestamp>.ext`), keeping the extension.
//! The check is best-effort: the existence test is the caller's snapshot,
//! so two uploads of the same name in the same second may still collide.

use vstd::prelude::*;
use vstd::string::StrSliceExecFns;
use vstd::string::StringExecFns;
use crate::sanitize::allowed_char;
use crate::strutil::dec_of;
use crate::strutil::push_char;
use crate::strutil::u64_to_string;

verus! {

/// Index of the last `.` strictly below `i` that does not stand first in
/// the name (a leading dot marks a hidden file, not an extension);
/// `-1` if there is none.
pub open spec fn last_dot(s: Seq<char>, i: int) -> int
    decreases i,
{
    if i <= 1 {
        -1
    } else if s[i - 1] == '.' {
        i - 1
    } else {
        last_dot(s, i - 1)
    }
}

/// The name without its extension (the whole name when it has none).
pub open spec fn stem_of(s: Seq<char>) -> Seq<char> {
    let d = last_dot(s, s.len() as int);
    if d < 0 {
        s
    } else {
        s.subrange(0, d)
    }
}

/// The extension part, including its leading dot; empty when there is none.
pub open spec fn ext_of(s: Seq<char>) -> Seq<char> {
    let d = last_dot(s, s.len() as int);
    if d < 0 {
        Seq::<char>::empty()
    } else {
        s.subrange(d, s.len() as int)
    }
}

/// The final on-disk name: unchanged when free, else stem, underscore,
/// timestamp, extension.
pub open spec fn resolved_name_spec(name: Seq<char>, exists: bool, now: nat) -> Seq<char> {
    if !exists {
        name
    } else {
        stem_of(name) + seq!['_'] + dec_of(now) + ext_of(name)
    }
}

proof fn lemma_last_dot_bounds(s: Seq<char>, i: int)
    requires
        i <= s.len(),
    ensures
        last_dot(s, i) == -1 || (1 <= last_dot(s, i) < i && s[last_dot(s, i)] == '.'),
    decreases i,
{
    if i > 1 && s[i - 1] != '.' {
        lemma_last_dot_bounds(s, i - 1);
    }
}

/// Every character of a decimal rendering is a digit; the rendering is
/// never empty.
pub proof fn lemma_dec_of_digits(n: nat)
    ensures
        dec_of(n).len() > 0,
        forall|i: int|
            0 <= i < dec_of(n).len() ==> 48 <= #[trigger] dec_of(n)[i] as u32 <= 57,
    decreases n,
{
    if n >= 10 {
        lemma_dec_of_digits(n / 10);
    }
}

/// A collision-resolved name is strictly longer than the taken name, so
/// the two names differ and both files can coexist.
pub proof fn lemma_resolved_name_longer(name: Seq<char>, now: nat)
    ensures
        resolved_name_spec(name, true, now).len() == name.len() + 1 + dec_of(now).len(),
        resolved_name_spec(name, true, now) != name,
{
    lemma_last_dot_bounds(name, name.len() as int);
    lemma_dec_of_digits(now);
    assert(resolved_name_spec(name, true, now).len() != name.len());
}

/// A resolved name keeps the shape that sanitization leaves alone: every
/// character allowed, no space at either end, nonempty.  Uploads can
/// therefore report names that later lookups (which sanitize again) find
/// verbatim.
pub proof fn lemma_resolved_name_sanitizable(name: Seq<char>, exists: bool, now: nat)
    requires
        name.len() > 0,
        forall|i: int| 0 <= i < name.len() ==> allowed_char(#[trigger] name[i]),
        name[0] != ' ',
        name[name.len() - 1] != ' ',
    ensures
        resolved_name_spec(name, exists, now).len() > 0,
        forall|i: int|
            0 <= i < resolved_name_spec(name, exists, now).len() ==> allowed_char(
                #[trigger] resolved_name_spec(name, exists, now)[i],
            ),
        resolved_name_spec(name, exists, now)[0] != ' ',
        resolved_name_spec(name, exists, now)[resolved_name_spec(name, exists, now).len() - 1]
            != ' ',
{
    if exists {
        let r = resolved_name_spec(name, exists, now);
        let d = last_dot(name, name.len() as int);
        lemma_last_dot_bounds(name, name.len() as int);
        lemma_dec_of_digits(now);
        assert forall|i: int| 0 <= i < r.len() implies allowed_char(#[trigger] r[i]) by {
            let sl = stem_of(name).len() as int;
            let dl = dec_of(now).len() as int;
            if i < sl {
                assert(r[i] == name[i]);
            } else if i == sl {
                assert(r[i] == '_');
            } else if i < sl + 1 + dl {
                assert(r[i] == dec_of(now)[i - sl - 1]);
            } else {
                assert(r[i] == ext_of(name)[i - sl - 1 - dl]);
                if d >= 0 {
                    assert(r[i] == name[d + (i - sl - 1 - dl)]);
                }
            }
        }
        if d >= 0 {
            assert(r[0] == name[0]);
            assert(r[r.len() - 1] == name[name.len() - 1]);
        } else {
            assert(r[0] == name[0]);
            assert(r[r.len() - 1] == dec_of(now)[dec_of(now).len() - 1]);
        }
    }
}

/// Finds the position of the extension dot: the spec-level `last_dot`
/// of the whole character sequence, or `None` when there is none.
pub fn last_dot_index(chars: &Vec<char>) -> (r: Option<usize>)
    ensures
        match r {
            Option::None => last_dot(chars@, chars@.len() as int) == -1,
            Option::Some(d) => last_dot(chars@, chars@.len() as int) == d && 1 <= d
                < chars@.len(),
        },
{
    let ghost nv = chars@;
    let n = chars.len();
    let mut j: usize = n;
    let mut found: usize = 0;
    while j > 1 && found == 0
        invariant
            chars@ == nv,
            n == nv.len(),
            0 <= j <= n,
            found == 0 ==> last_dot(nv, n as int) == last_dot(nv, j as int),
            found > 0 ==> last_dot(nv, n as int) == found - 1 && 1 <= found && found <= n,
        decreases j,
    {
        if chars[j - 1] == '.' {
            found = j;
        } else {
            j -= 1;
        }
        if found > 0 {
            j = 0;
        }
    }
    if found == 0 {
        proof {
            lemma_last_dot_bounds(nv, nv.len() as int);
        }
        None
    } else {
        proof {
            lemma_last_dot_bounds(nv, nv.len() as int);
        }
        Some(found - 1)
    }
}

/// Produces the final on-disk name for a sanitized candidate, given the
/// caller's snapshot of whether the candidate is already taken and the
/// current Unix timestamp in seconds.
pub fn resolve_collision(name: &str, exists: bool, now: u64) -> (r: String)
    ensures
        r@ == resolved_name_spec(name@, exists, now as nat),
{
    if !exists {
        return String::from_str(name);
    }
    let chars = crate::strutil::str_chars(name);
    let ghost nv = name@;
    let n = chars.len();
    let dot = last_dot_index(&chars);
    let dot_end: usize = match dot {
        Option::None => n,
        Option::Some(d) => d,
    };
    proof {
        if dot is None {
            assert(stem_of(nv) =~= nv);
            assert(ext_of(nv) =~= Seq::<char>::empty());
        } else {
            assert(stem_of(nv) =~= nv.subrange(0, dot_end as int));
            assert(ext_of(nv) =~= nv.subrange(dot_end as int, n as int));
        }
    }
    let mut out = String::new();
    let mut k: usize = 0;
    while k < dot_end
        invariant
            chars@ == nv,
            n == nv.len(),
            dot_end <= n,
            0 <= k <= dot_end,
            out@ == nv.subrange(0, k as int),
        decreases dot_end - k,
    {
        let c = chars[k];
        proof {
            assert(out@.push(c) =~= nv.subrange(0, k + 1));
        }
        push_char(&mut out, c);
        k += 1;
    }
    push_char(&mut out, '_');
    let ts = u64_to_string(now);
    out.append(ts.as_str());
    let ghost mid = stem_of(nv) + seq!['_'] + dec_of(now as nat);
    proof {
        assert(out@ =~= mid);
    }
    let mut k2: usize = dot_end;
    while k2 < n
        invariant
            chars@ == nv,
            n == nv.len(),
            dot_end <= k2 <= n,
            out@ =~= mid + nv.subrange(dot_end as int, k2 as int),
        decreases n - k2,
    {
        let c = chars[k2];
        proof {
            assert(out@.push(c) =~= mid + nv.subrange(dot_end as int, k2 + 1));
        }
        push_char(&mut out, c);
        k2 += 1;
    }
    proof {
        assert(out@ =~= resolved_name_spec(nv, true, now as nat));
    }
    out
}

} // verus!
