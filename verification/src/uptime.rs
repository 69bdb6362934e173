//! System uptime: the duration since the host booted, read from the OS.
//! The value is whole seconds in a `u64`, so it is non-negative by type;
//! that it never decreases within one boot is the OS's property, not
//! something any single read can witness.

use vstd::prelude::*;
use crate::errors::HostError;

verus! {

/// Relies on nix::sys::sysinfo::sysinfo and SysInfo::uptime: the whole
/// seconds since boot (nix clamps a negative raw reading to zero); `None`
/// exactly when the sysinfo call itself fails.
#[verifier::external_body]
fn uptime_seconds() -> Option<u64> {
    match nix::sys::sysinfo::sysinfo() {
        Ok(info) => Some(info.uptime().as_secs()),
        Err(_) => None,
    }
}

/// Reads the duration since boot, in whole seconds. Fails, with
/// `SystemQueryError` alone, exactly when the OS query fails, and then the
/// whole request is aborted.
pub fn get_uptime() -> (r: Result<u64, HostError>)
    ensures
        r matches Err(e) ==> e == HostError::SystemQueryError,
{
    match uptime_seconds() {
        Some(secs) => Ok(secs),
        None => Err(HostError::SystemQueryError),
    }
}

} // verus!
