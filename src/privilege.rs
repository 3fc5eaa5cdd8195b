//! Whether the process may change the system's configuration.

use vstd::prelude::*;

verus! {

/// Whether `uid` is the superuser's.
pub fn is_superuser(uid: u32) -> (r: bool)
    ensures
        r == (uid == 0),
{
    uid == 0
}

/// Relies on rustix::process::geteuid and Uid::as_raw: the process's
/// effective user id. It depends on how the process was started, so nothing
/// is stated of it.
#[verifier::external_body]
fn effective_uid() -> (r: u32) {
    rustix::process::geteuid().as_raw()
}

/// Whether the process runs with the superuser's effective identity.
pub fn running_as_root() -> (r: bool) {
    let uid = effective_uid();
    is_superuser(uid)
}

} // verus!
