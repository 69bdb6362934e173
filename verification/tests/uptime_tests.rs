use hostprobe::uptime::get_uptime;

#[test]
fn uptime_is_readable_and_nondecreasing_across_two_reads() {
    let first = get_uptime().expect("the OS uptime query should succeed");
    let second = get_uptime().expect("the OS uptime query should succeed");
    assert!(second >= first);
}
