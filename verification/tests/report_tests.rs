use hostprobe::report::split_tabular;

#[test]
fn header_is_first_line_and_rows_follow_in_order() {
    let r = split_tabular("PID TIME COMMAND\n1 00:00:01 init\n2 00:00:00 sh\n").unwrap();
    assert_eq!(r.header, "PID TIME COMMAND");
    assert_eq!(
        r.rows,
        vec!["1 00:00:01 init".to_string(), "2 00:00:00 sh".to_string()]
    );
}

#[test]
fn three_lines_give_exactly_two_rows() {
    let r = split_tabular("h\na\nb").unwrap();
    assert_eq!(r.header, "h");
    assert_eq!(r.rows.len(), 2);
    assert_eq!(r.rows[0], "a");
    assert_eq!(r.rows[1], "b");
}

#[test]
fn single_line_output_has_no_rows() {
    let r = split_tabular("Filesystem Size Used").unwrap();
    assert_eq!(r.header, "Filesystem Size Used");
    assert!(r.rows.is_empty());
}

#[test]
fn trailing_terminator_adds_no_empty_row() {
    let r = split_tabular("h\nrow\n").unwrap();
    assert_eq!(r.rows, vec!["row".to_string()]);
}

#[test]
fn carriage_return_before_terminator_is_dropped() {
    let r = split_tabular("h\r\nrow one\r\nrow two").unwrap();
    assert_eq!(r.header, "h");
    assert_eq!(r.rows, vec!["row one".to_string(), "row two".to_string()]);
}

#[test]
fn blank_interior_line_is_kept_as_empty_row() {
    let r = split_tabular("h\n\nlast").unwrap();
    assert_eq!(r.rows, vec!["".to_string(), "last".to_string()]);
}

#[test]
fn empty_output_has_no_table() {
    assert!(split_tabular("").is_none());
}
