use vstd::prelude::*;

verus! {

/// Linux `errno` value reported when an entry of the given name already exists.
pub const EEXIST: i32 = 17;

/// Everything that can go wrong in this layer.
#[derive(Debug, Clone, Copy, PartialEq, Eq, Structural)]
pub enum WgError {
    /// The native `create` call failed because the interface name is taken.
    AlreadyExists,
    /// A native call failed; carries the platform error code verbatim.
    Os(i32),
    /// Bytes that should hold text are not valid UTF-8, or a key field is
    /// not printable ASCII.
    Decode,
    /// A double-NUL-terminated buffer held no terminator within the scan bound.
    Unterminated,
    /// A device name does not fit the fixed 16-byte field (15 bytes plus NUL).
    NameTooLong,
    /// A device name contains a NUL byte.
    InvalidName,
    /// The handle owns no raw device record yet (or any more).
    NotBound,
    /// The operation is not allowed in the handle's current lifecycle state.
    InvalidState,
}

/// A native status as a result: `0` is success, anything else a failure
/// carrying the platform's last error code.
pub open spec fn status_outcome(status: i32, last_error: i32) -> Result<(), WgError> {
    if status == 0 {
        Ok(())
    } else {
        Err(WgError::Os(last_error))
    }
}

/// The status of the native `create` call as a result: a failure whose
/// error code says that the name is taken is [`WgError::AlreadyExists`].
pub open spec fn create_outcome(status: i32, last_error: i32) -> Result<(), WgError> {
    if status != 0 && last_error == EEXIST {
        Err(WgError::AlreadyExists)
    } else {
        status_outcome(status, last_error)
    }
}

/// Maps a native status to a result: `0` is success, anything else is a
/// failure carrying the platform's last error code.
pub fn status_result(status: i32, last_error: i32) -> (r: Result<(), WgError>)
    ensures
        r == status_outcome(status, last_error),
{
    if status == 0 {
        Ok(())
    } else {
        Err(WgError::Os(last_error))
    }
}

/// Maps the status of the native `create` call: like [`status_result`], but a
/// failure whose error code says the name is taken becomes
/// [`WgError::AlreadyExists`].
pub fn create_status_result(status: i32, last_error: i32) -> (r: Result<(), WgError>)
    ensures
        r == create_outcome(status, last_error),
{
    if status == 0 {
        Ok(())
    } else if last_error == EEXIST {
        Err(WgError::AlreadyExists)
    } else {
        Err(WgError::Os(last_error))
    }
}

/// Maps what the native fetch returned: the address of the fetched record
/// when the status is `0` and the address is not null, else a failure
/// carrying the platform's last error code.
pub fn fetch_result(status: i32, addr: usize, last_error: i32) -> (r: Result<usize, WgError>)
    ensures
        status == 0 && addr != 0 ==> r == Ok::<usize, WgError>(addr),
        !(status == 0 && addr != 0) ==> r == Err::<usize, WgError>(WgError::Os(last_error)),
{
    if status == 0 && addr != 0 {
        Ok(addr)
    } else {
        Err(WgError::Os(last_error))
    }
}

} // verus!
