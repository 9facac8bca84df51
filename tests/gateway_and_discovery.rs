use pc_receiver::discovery::{
    best_local_ip, contains_fragment, excluded_ip, discovery_record, is_virtual_adapter, service_info, service_record, status_text,
    DiscoveryError,
};
use pc_receiver::ingest::{admit_body, decode_photo, ingest_photo, status_code, FormField, IngestError, MAX_BODY_BYTES};

fn ifaces(list: &[(&str, &str)]) -> Vec<(String, String)> {
    list.iter().map(|(n, i)| (n.to_string(), i.to_string())).collect()
}

fn field(name: &str, bytes: &[u8]) -> FormField {
    FormField { name: name.to_string(), bytes: bytes.to_vec() }
}

#[test]
fn picks_private_lan_address_over_container_and_loopback() {
    let list = ifaces(&[("eth0", "192.168.1.5"), ("docker0", "172.17.0.1"), ("lo", "127.0.0.1")]);
    assert_eq!(best_local_ip(&list), Some("192.168.1.5".to_string()));
}

#[test]
fn physical_adapter_wins_a_rank_tie() {
    let list = ifaces(&[("vEthernet (WSL)", "172.20.0.1"), ("Ethernet", "10.0.0.8")]);
    assert_eq!(best_local_ip(&list), Some("10.0.0.8".to_string()));
    let list = ifaces(&[("Docker Bridge", "192.168.9.1"), ("wlan0", "8.8.8.8")]);
    assert_eq!(best_local_ip(&list), Some("192.168.9.1".to_string()));
}

#[test]
fn first_candidate_wins_a_full_tie() {
    let list = ifaces(&[("eth0", "10.1.1.1"), ("eth1", "172.16.0.2")]);
    assert_eq!(best_local_ip(&list), Some("10.1.1.1".to_string()));
}

#[test]
fn loopback_and_link_local_only_give_nothing() {
    let list = ifaces(&[("lo", "127.0.0.1"), ("eth0", "169.254.3.4")]);
    assert_eq!(best_local_ip(&list), None);
    assert_eq!(best_local_ip(&Vec::new()), None);
}

#[test]
fn virtual_fragments_are_found_after_lowercasing() {
    assert!(is_virtual_adapter("tailscale0"));
    assert!(is_virtual_adapter("meta tunnel"));
    assert!(!is_virtual_adapter("eth0"));
    assert!(contains_fragment("abcdef", "cde"));
    assert!(!contains_fragment("ab", "abc"));
    let list = ifaces(&[("DOCKER0", "192.168.5.5"), ("Wi-Fi", "192.168.5.6")]);
    assert_eq!(best_local_ip(&list), Some("192.168.5.6".to_string()));
}

#[test]
fn service_record_names() {
    let r = service_record("desk", "192.168.1.5");
    assert_eq!(r.service_type, "_photosync._tcp.local.");
    assert_eq!(r.instance_name, "desk_fastsync");
    assert_eq!(r.host_name, "desk_fastsync.local.");
    assert_eq!(r.ip, "192.168.1.5");
    assert_eq!(r.port, 3000);
    let r = discovery_record(None, Some("10.0.0.2".to_string())).unwrap();
    assert_eq!(r.instance_name, "fast-sync-pc_fastsync");
    assert!(matches!(discovery_record(Some("h".to_string()), None), Err(DiscoveryError::NoAddress)));
}

#[test]
fn service_info_accepts_a_real_address_only() {
    let a = service_info(&service_record("desk", "192.168.1.5")).unwrap();
    assert_eq!(a.fullname, "desk_fastsync._photosync._tcp.local.");
    assert_eq!(a.hostname, "desk_fastsync.local.");
    assert_eq!(a.port, 3000);
    let dotted = service_info(&service_record("my.pc", "10.0.0.1")).unwrap();
    assert_eq!(dotted.fullname, "my\\.pc_fastsync._photosync._tcp.local.");
    assert!(matches!(service_info(&service_record("desk", "not-an-address")), Err(DiscoveryError::InvalidRecord)));
}

#[test]
fn status_text_shows_address_or_unknown() {
    assert_eq!(status_text(&Some("10.0.0.1".to_string())), "FastSync 运行中 - IP: 10.0.0.1");
    assert_eq!(status_text(&None), "FastSync 运行中 - IP: Unknown");
}

#[test]
fn upload_without_data_field_is_a_client_error() {
    let fields = vec![field("file", b"abc"), field("name", b"x")];
    let r = ingest_photo(10, &fields);
    assert!(matches!(r, Err(IngestError::MissingData)));
    assert_eq!(status_code(r.err()), 400);
}

#[test]
fn upload_takes_the_last_data_field() {
    let fields = vec![field("data", b"first"), field("other", b"zz"), field("data", b"second")];
    let p = decode_photo(&fields).unwrap();
    assert_eq!(p.bytes, b"second".to_vec());
    assert_eq!(status_code(None), 200);
}

#[test]
fn oversized_body_is_refused_before_decoding() {
    let fields = vec![field("data", b"img")];
    assert!(matches!(ingest_photo(MAX_BODY_BYTES + 1, &fields), Err(IngestError::TooLarge)));
    assert_eq!(status_code(Some(IngestError::TooLarge)), 413);
    assert!(admit_body(MAX_BODY_BYTES).is_ok());
    assert_eq!(MAX_BODY_BYTES, 52_428_800);
    assert_eq!(ingest_photo(MAX_BODY_BYTES, &fields).unwrap().bytes, b"img".to_vec());
}

#[test]
fn ipv6_loopback_and_link_local_are_excluded() {
    assert!(excluded_ip("::1"));
    assert!(excluded_ip("fe80::1c2b:3dff:fe4e:5f60"));
    assert!(excluded_ip("febf::1"));
    assert!(!excluded_ip("fec0::1"));
    assert!(!excluded_ip("2001:db8::1"));
    assert!(!excluded_ip("::10"));
    let list = ifaces(&[("eth0", "fe80::1"), ("lo", "::1"), ("wlan0", "2001:db8::5")]);
    assert_eq!(best_local_ip(&list), Some("2001:db8::5".to_string()));
}
