//! The failure kinds of the storage core, as a tagged error type so that
//! callers branch on the kind rather than on message text.

use vstd::prelude::*;
use vstd::string::StringExecFns;
use crate::strutil::dec_of;
use crate::strutil::u64_to_string;

verus! {

pub const BYTES_PER_MB: usize = 1024 * 1024;

/// One failure of the storage core.
#[derive(Clone, Copy, Debug, PartialEq, Eq, Structural)]
pub enum ShareError {
    /// An upload crossed the configured ceiling; carries that ceiling in bytes.
    TooLarge { max_bytes: usize },
    /// The requested name is not in storage.
    NotFound,
    /// A filesystem operation failed.
    IoFailure,
    /// The multipart body was malformed.
    ProtocolFraming,
}

/// The client-visible message of each error.  The ceiling is reported in
/// whole megabytes, as it was configured.
pub open spec fn message_spec(e: ShareError) -> Seq<char> {
    match e {
        ShareError::TooLarge { max_bytes } => "File too large (max: "@ + dec_of(
            (max_bytes / BYTES_PER_MB) as nat,
        ) + " MB)"@,
        ShareError::NotFound => "File not found"@,
        ShareError::IoFailure => "Server error"@,
        ShareError::ProtocolFraming => "Malformed upload body"@,
    }
}

impl ShareError {
    /// Renders the error for the client.
    pub fn message(&self) -> (r: String)
        ensures
            r@ == message_spec(*self),
    {
        match self {
            ShareError::TooLarge { max_bytes } => {
                let mut r = String::from_str("File too large (max: ");
                let mb = u64_to_string((*max_bytes / BYTES_PER_MB) as u64);
                r.append(mb.as_str());
                r.append(" MB)");
                proof {
                    assert(r@ =~= message_spec(*self));
                }
                r
            },
            ShareError::NotFound => String::from_str("File not found"),
            ShareError::IoFailure => String::from_str("Server error"),
            ShareError::ProtocolFraming => String::from_str("Malformed upload body"),
        }
    }
}

} // verus!
