use ipp_printer_app::mdns::{
    bare_uuid, choose_addresses, is_virtual_iface, should_advertise_on, txt_records, AddressChoice,
    Adverts, InterfaceFacts,
};

#[test]
fn flags_container_and_vm_interfaces() {
    for name in [
        "veth1a2b3c",
        "docker0",
        "br-9f3c1d20a",
        "virbr0",
        "vnet3",
        "vmnet8",
        "vboxnet0",
    ] {
        assert!(is_virtual_iface(name), "{name} should be filtered out");
    }
}

#[test]
fn keeps_real_interfaces() {
    for name in ["eth0", "enp3s0", "wlan0", "wlp2s0", "br0", "tun0", "lo"] {
        assert!(!is_virtual_iface(name), "{name} should be kept");
    }
}

#[test]
fn advertises_only_on_real_up_interfaces() {
    assert!(should_advertise_on("eth0", false, false, true));
    assert!(!should_advertise_on("lo", true, false, true));
    assert!(!should_advertise_on("eth0", false, true, true));
    assert!(!should_advertise_on("eth0", false, false, false));
    assert!(!should_advertise_on("docker0", false, false, true));
}

#[test]
fn uuid_prefix_is_stripped() {
    assert_eq!(bare_uuid("urn:uuid:1234-abcd"), "1234-abcd");
    assert_eq!(bare_uuid("1234-abcd"), "1234-abcd");
    assert_eq!(bare_uuid("urn:uuid:"), "");
}

#[test]
fn txt_records_carry_resource_path_and_uuid() {
    let txt = txt_records("myhost", 8631, "label_printer", "Acme L1", "urn:uuid:abc");
    let get = |k: &str| txt.iter().find(|(key, _)| key == k).map(|(_, v)| v.clone());
    assert_eq!(get("rp").as_deref(), Some("ipp/print/label_printer"));
    assert_eq!(get("UUID").as_deref(), Some("abc"));
    assert_eq!(get("ty").as_deref(), Some("Acme L1"));
    assert_eq!(get("product").as_deref(), Some("(Acme L1)"));
    assert_eq!(get("adminurl").as_deref(), Some("http://myhost.local:8631/"));
    assert_eq!(get("txtvers").as_deref(), Some("1"));
    assert_eq!(txt.len(), 13);
    let no_uuid = txt_records("h", 1, "p", "m", "");
    assert!(no_uuid.iter().all(|(k, _)| k != "UUID"));
    assert_eq!(no_uuid.len(), 12);
}

fn iface(name: &str, is_loopback: bool, is_link_local: bool, is_oper_up: bool) -> InterfaceFacts {
    InterfaceFacts { name: name.to_string(), is_loopback, is_link_local, is_oper_up }
}

#[test]
fn chooses_real_interfaces_that_are_up() {
    let list = vec![
        iface("lo", true, false, true),
        iface("eth0", false, false, true),
        iface("docker0", false, false, true),
        iface("wlan0", false, true, true),
        iface("eth1", false, false, false),
        iface("eth2", false, false, true),
    ];
    match choose_addresses(Some(&list)) {
        AddressChoice::Listed(idx) => assert_eq!(idx, vec![1, 5]),
        AddressChoice::Auto => panic!("expected listed addresses"),
    }
}

#[test]
fn falls_back_to_automatic_addresses() {
    assert!(matches!(choose_addresses(None), AddressChoice::Auto));
    let none_up = vec![iface("lo", true, false, true), iface("veth0", false, false, true)];
    assert!(matches!(choose_addresses(Some(&none_up)), AddressChoice::Auto));
    assert!(matches!(choose_addresses(Some(&vec![])), AddressChoice::Auto));
}

#[test]
fn adverts_track_one_fullname_per_printer() {
    let mut ads = Adverts::new();
    assert!(!ads.is_advertised("p"));
    ads.record("p".to_string(), "P._ipp._tcp.local.".to_string());
    ads.record("q".to_string(), "Q._ipp._tcp.local.".to_string());
    ads.record("p".to_string(), "P (2)._ipp._tcp.local.".to_string());
    assert!(ads.is_advertised("p"));
    let mut names = ads.fullnames();
    names.sort();
    assert_eq!(names, vec!["P (2)._ipp._tcp.local.".to_string(), "Q._ipp._tcp.local.".to_string()]);
    assert_eq!(ads.take("p"), Some("P (2)._ipp._tcp.local.".to_string()));
    assert!(!ads.is_advertised("p"));
    assert_eq!(ads.take("p"), None);
    assert_eq!(ads.fullnames(), vec!["Q._ipp._tcp.local.".to_string()]);
}
