//! Runtime configuration: built once at startup from plain values and
//! passed explicitly into the handlers and the storage core.

use vstd::prelude::*;
use vstd::string::StrSliceExecFns;

verus! {

pub const DEFAULT_PORT: u16 = 8080;

pub const DEFAULT_REFRESH_INTERVAL_MS: u32 = 30000;

pub const DEFAULT_MAX_UPLOAD_MB: usize = 50;

/// What the service needs to know: where files live, how it is reached,
/// and the upload ceiling.
pub struct Config {
    pub port: u16,
    pub refresh_interval: u32,
    pub upload_dir: String,
    pub max_file_size: usize,
}

impl Config {
    /// Builds a configuration, converting the upload ceiling from whole
    /// megabytes to bytes.
    pub fn new(port: u16, refresh_interval: u32, upload_dir: String, max_upload_mb: usize) -> (r:
        Config)
        requires
            max_upload_mb * 1048576 <= usize::MAX,
        ensures
            r.port == port,
            r.refresh_interval == refresh_interval,
            r.upload_dir@ == upload_dir@,
            r.max_file_size == max_upload_mb * 1048576,
    {
        Config { port, refresh_interval, upload_dir, max_file_size: max_upload_mb * 1048576 }
    }
}

/// Whether a discovered interface address is worth showing: an IPv4
/// address that is neither the loopback nor on the `172.17.` bridge
/// network that container hosts add.
pub open spec fn display_ip_spec(ip: Seq<char>, is_loopback: bool, is_ipv4: bool) -> bool {
    !is_loopback && is_ipv4 && !(ip.len() >= 7 && ip.subrange(0, 7) == "172.17."@)
}

/// Decides whether one interface address is shown to users.
pub fn display_ip(ip: &str, is_loopback: bool, is_ipv4: bool) -> (r: bool)
    ensures
        r == display_ip_spec(ip@, is_loopback, is_ipv4),
{
    if is_loopback || !is_ipv4 {
        return false;
    }
    let n = ip.unicode_len();
    if n < 7 {
        return true;
    }
    let prefix = "172.17.";
    proof {
        reveal_strlit("172.17.");
    }
    let head = ip.substring_char(0, 7);
    let same = crate::strutil::str_eq(head, prefix);
    !same
}

} // verus!
