//! The aggregator: one call per request, invoking all four collectors and
//! composing their results into a single snapshot. Any failing collector
//! aborts the whole request; only the interface collector's per-pair skip
//! policy yields partial results, and those come with diagnostic notes.

use vstd::prelude::*;
use crate::errors::HostError;
use crate::interfaces::{InterfaceAddress, InterfacesReport, get_ip_addr_info, is_supported};
use crate::interfaces::{ClassifiedInterface, spec_emitted, spec_notes};
use crate::report::{TabularReport, spec_lines, split_tabular};
use crate::uptime::get_uptime;

verus! {

/// The per-request result: all four collectors' outputs. Built fresh on
/// every request and never mutated afterwards.
pub struct Snapshot {
    pub interfaces: Vec<InterfaceAddress>,
    pub uptime_secs: u64,
    pub processes: TabularReport,
    pub disks: TabularReport,
}

/// A successful collection: the snapshot, plus the interface collector's
/// diagnostic notes for the pairs it skipped.
pub struct SnapshotResult {
    pub snapshot: Snapshot,
    pub notes: Vec<String>,
}

/// Captured tool output that can become a tabular report: it was captured
/// at all, and it has at least the header line.
pub open spec fn tool_output_ok(output: Option<String>) -> bool {
    output matches Some(t) && spec_lines(t@).len() >= 1
}

/// Turns one tool's captured standard output into its tabular report.
/// `output` is `None` when the utility could not be spawned or its output
/// was not valid text; that, or output without even a header line, is
/// exactly the `ExternalToolError` case.
pub fn collect_tabular(output: Option<String>) -> (r: Result<TabularReport, HostError>)
    ensures
        r matches Ok(rep) ==> output matches Some(t) && spec_lines(t@).len() >= 1 && rep.header@
            == spec_lines(t@)[0] && rep.rows.deep_view() == spec_lines(t@).skip(1)
            && rep.rows@.len() + 1 == spec_lines(t@).len(),
        r matches Err(e) ==> e == HostError::ExternalToolError && !tool_output_ok(output),
        tool_output_ok(output) ==> r is Ok,
{
    match output {
        None => Err(HostError::ExternalToolError),
        Some(text) => match split_tabular(text.as_str()) {
            None => Err(HostError::ExternalToolError),
            Some(rep) => Ok(rep),
        },
    }
}

/// One request: invokes all four collectors and assembles the snapshot.
/// The two tool outputs arrive already captured; the two OS queries are
/// made here. Success needs every collector to succeed, and then each
/// snapshot field is exactly its collector's result; any failure aborts
/// the request with that collector's error, and an `ExternalToolError`
/// can only come from unusable tool output.
pub fn get_info(ps_output: Option<String>, df_output: Option<String>) -> (r: Result<
    SnapshotResult,
    HostError,
>)
    ensures
        r matches Ok(out) ==> ps_output matches Some(pt) && spec_lines(pt@).len() >= 1
            && out.snapshot.processes.header@ == spec_lines(pt@)[0]
            && out.snapshot.processes.rows.deep_view() == spec_lines(pt@).skip(1),
        r matches Ok(out) ==> df_output matches Some(dt) && spec_lines(dt@).len() >= 1
            && out.snapshot.disks.header@ == spec_lines(dt@)[0]
            && out.snapshot.disks.rows.deep_view() == spec_lines(dt@).skip(1),
        r matches Ok(out) ==> exists|c: Seq<ClassifiedInterface>|
            out.snapshot.interfaces@ == spec_emitted(c) && out.notes.deep_view() == spec_notes(c)
                && out.snapshot.interfaces@.len() + out.notes@.len() == c.len(),
        r matches Ok(out) ==> forall|k: int|
            0 <= k < out.snapshot.interfaces@.len() ==> is_supported(
                (#[trigger] out.snapshot.interfaces@[k]).ip,
            ),
        !tool_output_ok(ps_output) || !tool_output_ok(df_output) ==> r is Err,
        r matches Err(e) && e == HostError::ExternalToolError ==> !tool_output_ok(ps_output)
            || !tool_output_ok(df_output),
{
    let interfaces = match get_ip_addr_info() {
        Ok(rep) => rep,
        Err(e) => {
            return Err(e);
        },
    };
    let processes = match collect_tabular(ps_output) {
        Ok(rep) => rep,
        Err(e) => {
            return Err(e);
        },
    };
    let disks = match collect_tabular(df_output) {
        Ok(rep) => rep,
        Err(e) => {
            return Err(e);
        },
    };
    let uptime_secs = match get_uptime() {
        Ok(secs) => secs,
        Err(e) => {
            return Err(e);
        },
    };
    let InterfacesReport { addresses, notes } = interfaces;
    Ok(
        SnapshotResult {
            snapshot: Snapshot { interfaces: addresses, uptime_secs, processes, disks },
            notes,
        },
    )
}

} // verus!
