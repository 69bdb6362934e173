//! A host-introspection library: collectors that turn live host state
//! (network interface addresses, system uptime, the tabular output of
//! process-listing and disk-usage utilities) into one typed snapshot per
//! request, with the collection and aggregation logic verified.

pub mod aggregate;
pub mod errors;
pub mod interfaces;
pub mod report;
pub mod uptime;
