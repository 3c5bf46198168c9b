//! Verified core of an sftp client: request serialization, the write buffer,
//! the bookkeeping of pending responses and the session options.
use vstd::prelude::*;

pub mod bytes_ext;
pub mod encoding;
pub mod error;
pub mod options;
pub mod protocol;
pub mod response_callbacks;
pub mod write_end;
pub mod writer;

pub use error::Error;
pub use options::SftpOptions;
pub use protocol::{CreateFlags, FileAttrs, Handle, OpenFileRequest, OpenOptions, SftpRequest};
pub use response_callbacks::{ResponseCallbacks, SlotGuard};
pub use write_end::{
    AwaitableAttrs, AwaitableData, AwaitableHandle, AwaitableLimits, AwaitableName,
    AwaitableNameEntries, AwaitableStatus, Id, SharedData, WriteEnd,
};
pub use writer::{AtomicWriteAttempts, WriteBuffer};

verus! {

/// Default size of buffer for up/download in openssh-portable
pub const OPENSSH_PORTABLE_DEFAULT_COPY_BUFLEN: usize = 32768;

/// Default number of concurrent outstanding requests in openssh-portable
pub const OPENSSH_PORTABLE_DEFAULT_NUM_REQUESTS: usize = 64;

/// Minimum amount of data to read at a time in openssh-portable
pub const OPENSSH_PORTABLE_MIN_READ_SIZE: usize = 512;

/// Maximum depth to descend in directory trees in openssh-portable
pub const OPENSSH_PORTABLE_MAX_DIR_DEPTH: usize = 64;

/// Default length of download buffer in openssh-portable
pub const OPENSSH_PORTABLE_DEFAULT_DOWNLOAD_BUFLEN: usize = 20480;

/// Default length of upload buffer in openssh-portable
pub const OPENSSH_PORTABLE_DEFAULT_UPLOAD_BUFLEN: usize = 20480;

} // verus!
