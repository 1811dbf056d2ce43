use crate::error::Error;
use vstd::prelude::*;

verus! {

/// The result reported to the caller of a kill of server `server_id`, whose
/// entry has already been taken out of the registry, once the operating
/// system has been asked to end its process: `signalled` tells whether the
/// process was found and accepted the signal. A failure is advisory: the
/// process may already be gone.
pub fn kill_outcome(server_id: String, signalled: bool) -> (r: Result<(), Error>)
    ensures
        signalled <==> r is Ok,
        !signalled ==> (r matches Err(e) && e.is_kill_failed(server_id@)),
{
    if signalled {
        Ok(())
    } else {
        Err(Error::KillSignalFailed(server_id))
    }
}

} // verus!
