//! The control client's local rules: the checks it makes before it asks a
//! remote directory service for anything. The client holds no state and
//! the transport lives with the caller.

use vstd::prelude::*;

verus! {

/// Why a control request is refused locally.
pub enum ClientError {
    /// 0 is the "assign a new id" sentinel of `Notify`; as a close target
    /// it names nothing.
    ZeroId,
}

/// Validate the target of a `CloseNotification` request before any remote
/// call: an id of 0 is rejected locally, every other id goes through.
/// A remote service treats an unknown id as a successful no-op, so no
/// further local check is owed.
pub fn check_close_request(id: u32) -> (r: Result<u32, ClientError>)
    ensures
        id == 0 <==> r is Err,
        r matches Ok(v) ==> v == id,
{
    if id == 0 {
        Err(ClientError::ZeroId)
    } else {
        Ok(id)
    }
}

/// The client's listening side: a fire-and-forget caller retains no state
/// and subscribes to nothing, so there is deliberately nothing to do.
pub fn listen_forever() {
}

} // verus!
