use vstd::prelude::*;

verus! {

/// Why a snapshot could not be collected. Any of these aborts the whole
/// request: no partial snapshot is ever returned.
#[derive(Clone, Copy, Debug, PartialEq, Eq, Structural)]
pub enum HostError {
    /// A direct OS query (uptime or interface enumeration) failed outright.
    SystemQueryError,
    /// An external utility was missing, could not be run, or produced
    /// output that is not usable as a table (not text, or no lines at all).
    ExternalToolError,
}

} // verus!
