use hostprobe::aggregate::get_info;
use hostprobe::errors::HostError;

fn ps_text() -> Option<String> {
    Some("PID TIME COMMAND\n1 00:00:01 init\n2 00:00:00 sh\n".to_string())
}

fn df_text() -> Option<String> {
    Some("Filesystem Size Used Avail Use% Mounted on\n/dev/root 10G 1G 9G 10% /\n".to_string())
}

#[test]
fn all_collectors_succeeding_yield_a_full_snapshot() {
    let out = get_info(ps_text(), df_text()).expect("collection should succeed");
    assert_eq!(out.snapshot.processes.header, "PID TIME COMMAND");
    assert_eq!(
        out.snapshot.processes.rows,
        vec!["1 00:00:01 init".to_string(), "2 00:00:00 sh".to_string()]
    );
    assert_eq!(
        out.snapshot.disks.header,
        "Filesystem Size Used Avail Use% Mounted on"
    );
    assert_eq!(
        out.snapshot.disks.rows,
        vec!["/dev/root 10G 1G 9G 10% /".to_string()]
    );
}

#[test]
fn missing_process_lister_aborts_with_external_tool_error() {
    let r = get_info(None, df_text());
    assert!(matches!(r, Err(HostError::ExternalToolError)));
}

#[test]
fn missing_disk_reporter_aborts_with_external_tool_error() {
    let r = get_info(ps_text(), None);
    assert!(matches!(r, Err(HostError::ExternalToolError)));
}

#[test]
fn tool_output_without_a_header_line_aborts_the_request() {
    let r = get_info(Some("".to_string()), df_text());
    assert!(matches!(r, Err(HostError::ExternalToolError)));
}

#[test]
fn snapshots_of_separate_requests_are_independent() {
    let a = get_info(ps_text(), df_text()).expect("collection should succeed");
    let b = get_info(Some("other\nrow\n".to_string()), df_text())
        .expect("collection should succeed");
    assert_eq!(a.snapshot.processes.header, "PID TIME COMMAND");
    assert_eq!(b.snapshot.processes.header, "other");
    assert_eq!(a.snapshot.processes.rows.len(), 2);
    assert_eq!(b.snapshot.processes.rows.len(), 1);
}
