//! File descriptors that the Android Storage Access Framework hands out for
//! `content://` URIs.

use vstd::prelude::*;

use crate::text::{
    law_signed_decimal_writes_number, signed_decimal, signed_decimal_text, writes_number,
};

verus! {

/// Why a `content://` URI could not be opened.
#[derive(Clone, Copy, Debug, PartialEq, Eq)]
pub enum UriError {
    /// The file descriptor that was handed out is not one.
    InvalidFd(i32),
}

impl UriError {
    /// The text of the error.
    pub fn message(&self) -> (r: String)
        ensures
            match *self {
                UriError::InvalidFd(fd) => r@ == "JNI: detachFd returned invalid fd: "@
                    + signed_decimal(fd as int),
            },
    {
        match self {
            UriError::InvalidFd(fd) => "JNI: detachFd returned invalid fd: ".to_owned().concat(
                signed_decimal_text(*fd).as_str(),
            ),
        }
    }
}

/// Accepts a file descriptor unless it is negative.
pub fn checked_fd(fd: i32) -> (r: Result<i32, UriError>)
    ensures
        r == if fd < 0 {
            Err::<i32, UriError>(UriError::InvalidFd(fd))
        } else {
            Ok(fd)
        },
{
    if fd < 0 {
        Err(UriError::InvalidFd(fd))
    } else {
        Ok(fd)
    }
}

/// The path under which an open file descriptor of the process itself can be
/// opened again.
pub fn fd_path(fd: i32) -> (r: String)
    ensures
        r@ == "/proc/self/fd/"@ + signed_decimal(fd as int),
{
    "/proc/self/fd/".to_owned().concat(signed_decimal_text(fd).as_str())
}

/// A file descriptor is accepted exactly where it is not negative, and is handed
/// on as it is either way.
pub proof fn law_only_negative_fd_refused(fd: i32, r: Result<i32, UriError>)
    requires
        call_ensures(checked_fd, (fd,), r),
    ensures
        r is Ok <==> fd >= 0,
        r matches Ok(accepted) ==> accepted == fd,
        r matches Err(UriError::InvalidFd(refused)) ==> refused == fd,
{
}

/// The path of a file descriptor names it behind a fixed text.
pub proof fn law_fd_path_names_fd(fd: i32, path: String)
    requires
        fd >= 0,
        call_ensures(fd_path, (fd,), path),
    ensures
        "/proc/self/fd/"@.is_prefix_of(path@),
        writes_number(path@.skip("/proc/self/fd/"@.len() as int), fd as int),
{
    law_signed_decimal_writes_number(fd as int);
    assert(path@.skip("/proc/self/fd/"@.len() as int) =~= signed_decimal(fd as int));
}

} // verus!
