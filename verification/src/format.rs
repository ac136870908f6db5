//! Presentation helpers: human-readable sizes and ages, and the icon for
//! a record kind.

use vstd::prelude::*;
use vstd::string::StringExecFns;
use crate::strutil::dec_of;
use crate::strutil::push_char;
use crate::strutil::str_eq;
use crate::strutil::u64_to_string;

verus! {

/// The unit in which a byte count is displayed.
pub open spec fn unit_index(size: u64) -> int {
    if size < 1024 {
        0
    } else if size < 1048576 {
        1
    } else if size < 1073741824 {
        2
    } else {
        3
    }
}

pub open spec fn unit_name(k: int) -> Seq<char> {
    if k == 0 {
        "B"@
    } else if k == 1 {
        "KB"@
    } else if k == 2 {
        "MB"@
    } else {
        "GB"@
    }
}

pub open spec fn unit_divisor(k: int) -> int {
    if k == 0 {
        1
    } else if k == 1 {
        1024
    } else if k == 2 {
        1048576
    } else {
        1073741824
    }
}

/// A byte count scaled to its display unit, in tenths, rounded half up.
pub open spec fn tenths_of(size: u64) -> int {
    (size * 10 + unit_divisor(unit_index(size)) / 2) / unit_divisor(unit_index(size))
}

/// The display label of a byte count: one decimal place and a unit.
pub open spec fn size_label_of(size: u64) -> Seq<char> {
    dec_of((tenths_of(size) / 10) as nat) + seq!['.'] + dec_of((tenths_of(size) % 10) as nat)
        + seq![' '] + unit_name(unit_index(size))
}

fn scaled_string(t: u64, unit: &str) -> (r: String)
    ensures
        r@ == dec_of((t / 10) as nat) + seq!['.'] + dec_of((t % 10) as nat) + seq![' ']
            + unit@,
{
    let mut r = u64_to_string(t / 10);
    push_char(&mut r, '.');
    let frac = u64_to_string(t % 10);
    r.append(frac.as_str());
    push_char(&mut r, ' ');
    r.append(unit);
    proof {
        assert(r@ =~= dec_of((t / 10) as nat) + seq!['.'] + dec_of((t % 10) as nat) + seq![' ']
            + unit@);
    }
    r
}

/// Renders a byte count with one decimal place in the largest fitting
/// unit, `B` through `GB`.
pub fn format_file_size(size: u64) -> (r: String)
    ensures
        r@ == size_label_of(size),
{
    if size < 1024 {
        let t: u64 = size * 10;
        scaled_string(t, "B")
    } else if size < 1048576 {
        let t: u64 = (size * 10 + 512) / 1024;
        scaled_string(t, "KB")
    } else if size < 1073741824 {
        let t: u64 = (size * 10 + 524288) / 1048576;
        scaled_string(t, "MB")
    } else {
        let wide: u128 = (size as u128 * 10 + 536870912) / 1073741824;
        proof {
            assert(size as u128 * 10 + 536870912 < 0x500000000000000000u128);
            assert(wide < 0x10000000000000000u128) by (nonlinear_arith)
                requires
                    wide == (size as u128 * 10 + 536870912) / 1073741824,
                    size as u128 * 10 + 536870912 < 0x500000000000000000u128,
            ;
        }
        let t: u64 = wide as u64;
        scaled_string(t, "GB")
    }
}

/// The display label of a file's age: the elapsed time since its
/// modification, in the coarsest sensible unit.
pub open spec fn age_label_of(now: u64, uploaded_at: u64) -> Seq<char> {
    let d = if now >= uploaded_at {
        now - uploaded_at
    } else {
        0
    };
    if d <= 59 {
        "just now"@
    } else if d <= 3599 {
        dec_of((d / 60) as nat) + " min ago"@
    } else if d <= 86399 {
        dec_of((d / 3600) as nat) + " h ago"@
    } else {
        dec_of((d / 86400) as nat) + " days ago"@
    }
}

/// Renders how long ago a file was modified, given the current Unix
/// timestamp in seconds.
pub fn format_timestamp(now: u64, uploaded_at: u64) -> (r: String)
    ensures
        r@ == age_label_of(now, uploaded_at),
{
    let d: u64 = if now >= uploaded_at {
        now - uploaded_at
    } else {
        0
    };
    if d <= 59 {
        String::from_str("just now")
    } else if d <= 3599 {
        let mut r = u64_to_string(d / 60);
        r.append(" min ago");
        r
    } else if d <= 86399 {
        let mut r = u64_to_string(d / 3600);
        r.append(" h ago");
        r
    } else {
        let mut r = u64_to_string(d / 86400);
        r.append(" days ago");
        r
    }
}

/// The icon shown for a record kind.
pub open spec fn icon_of(t: Seq<char>) -> Seq<char> {
    if t == "pdf"@ || t == "txt"@ {
        "[doc]"@
    } else if t == "doc"@ || t == "docx"@ {
        "[text]"@
    } else if t == "xls"@ || t == "xlsx"@ {
        "[sheet]"@
    } else if t == "ppt"@ || t == "pptx"@ {
        "[slides]"@
    } else if t == "jpg"@ || t == "jpeg"@ || t == "png"@ || t == "gif"@ || t == "bmp"@ || t
        == "webp"@ {
        "[image]"@
    } else if t == "mp4"@ || t == "avi"@ || t == "mkv"@ || t == "mov"@ || t == "webm"@ {
        "[video]"@
    } else if t == "mp3"@ || t == "wav"@ || t == "flac"@ || t == "aac"@ {
        "[audio]"@
    } else if t == "zip"@ || t == "rar"@ || t == "7z"@ || t == "tar"@ || t == "gz"@ {
        "[archive]"@
    } else if t == "exe"@ || t == "msi"@ {
        "[binary]"@
    } else {
        "[doc]"@
    }
}

/// Picks the icon for a record kind.
pub fn get_file_icon(file_type: &str) -> (r: &'static str)
    ensures
        r@ == icon_of(file_type@),
{
    let t = file_type;
    if str_eq(t, "pdf") || str_eq(t, "txt") {
        "[doc]"
    } else if str_eq(t, "doc") || str_eq(t, "docx") {
        "[text]"
    } else if str_eq(t, "xls") || str_eq(t, "xlsx") {
        "[sheet]"
    } else if str_eq(t, "ppt") || str_eq(t, "pptx") {
        "[slides]"
    } else if str_eq(t, "jpg") || str_eq(t, "jpeg") || str_eq(t, "png") || str_eq(t, "gif")
        || str_eq(t, "bmp") || str_eq(t, "webp") {
        "[image]"
    } else if str_eq(t, "mp4") || str_eq(t, "avi") || str_eq(t, "mkv") || str_eq(t, "mov")
        || str_eq(t, "webm") {
        "[video]"
    } else if str_eq(t, "mp3") || str_eq(t, "wav") || str_eq(t, "flac") || str_eq(t, "aac") {
        "[audio]"
    } else if str_eq(t, "zip") || str_eq(t, "rar") || str_eq(t, "7z") || str_eq(t, "tar")
        || str_eq(t, "gz") {
        "[archive]"
    } else if str_eq(t, "exe") || str_eq(t, "msi") {
        "[binary]"
    } else {
        "[doc]"
    }
}

} // verus!
