use hostprobe::interfaces::{
    build_report, classify_all, get_ip_addr_info, ClassifiedInterface, InterfaceAddress,
    IpAddress, RawInterface,
};

#[test]
fn kept_pairs_become_addresses_and_skipped_pairs_become_notes() {
    let entries = vec![
        ClassifiedInterface {
            name: "eth0".to_string(),
            ip: Some(IpAddress::V4(0x7f00_0001)),
        },
        ClassifiedInterface {
            name: "weird0".to_string(),
            ip: None,
        },
        ClassifiedInterface {
            name: "eth1".to_string(),
            ip: Some(IpAddress::V6(1)),
        },
    ];
    let rep = build_report(entries);
    assert_eq!(rep.addresses.len(), 2);
    assert_eq!(rep.addresses[0].name, "eth0");
    assert_eq!(rep.addresses[0].ip, IpAddress::V4(0x7f00_0001));
    assert_eq!(rep.addresses[1].name, "eth1");
    assert_eq!(rep.addresses[1].ip, IpAddress::V6(1));
    assert_eq!(
        rep.notes,
        vec!["interface weird0 with unsupported address family".to_string()]
    );
}

#[test]
fn emitted_count_never_exceeds_enumerated_count() {
    let entries = vec![
        ClassifiedInterface {
            name: "a".to_string(),
            ip: Some(IpAddress::V4(1)),
        },
        ClassifiedInterface {
            name: "b".to_string(),
            ip: None,
        },
        ClassifiedInterface {
            name: "c".to_string(),
            ip: None,
        },
    ];
    let n = entries.len();
    let rep = build_report(entries);
    assert!(rep.addresses.len() <= n);
    assert_eq!(rep.addresses.len() + rep.notes.len(), n);
}

#[test]
fn classification_keeps_names_and_order_and_addressless_pairs_stay_unclassified() {
    let raw = vec![
        RawInterface {
            name: "first".to_string(),
            addr: None,
        },
        RawInterface {
            name: "second".to_string(),
            addr: None,
        },
    ];
    let out = classify_all(raw);
    assert_eq!(out.len(), 2);
    assert_eq!(out[0].name, "first");
    assert_eq!(out[1].name, "second");
    assert!(out[0].ip.is_none());
    assert!(out[1].ip.is_none());
}

#[test]
fn constructor_keeps_its_fields() {
    let ia = InterfaceAddress::new("lo".to_string(), IpAddress::V4(0x7f00_0001));
    assert_eq!(ia.name, "lo");
    assert_eq!(ia.ip, IpAddress::V4(0x7f00_0001));
}

#[test]
fn live_enumeration_succeeds_and_emits_only_supported_families() {
    let rep = get_ip_addr_info().expect("the OS interface query should succeed");
    for ia in &rep.addresses {
        assert!(matches!(ia.ip, IpAddress::V4(_) | IpAddress::V6(_)));
        assert!(!ia.name.is_empty());
    }
}
