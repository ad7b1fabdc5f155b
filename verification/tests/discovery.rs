use digital_paper::discovery::{
    candidate_addrs, current_ipv4_subnets, filtered_known_addrs, is_private_ipv4,
    lan_probe_candidates, merge_known_addrs, parse_ip, probe_dpt_name, show_ip, Interface, Sighting,
};
use digital_paper::domain::TransportKind;
use digital_paper::errors::RustProviderError;
use digital_paper::http::{HttpReply, ReplyBody, Sent};
use digital_paper::provider::RustNativeProvider;

fn ip(text: &str) -> u32 {
    parse_ip(text).unwrap()
}

fn interface(address: &str, mask: &str) -> Interface {
    Interface {
        ip: ip(address),
        netmask: ip(mask),
    }
}

fn strings(items: &[&str]) -> Vec<String> {
    items.iter().map(|s| s.to_string()).collect()
}

#[test]
fn addresses_are_four_bytes_in_dotted_form() {
    for (text, expected) in [
        ("0.0.0.0", Some(0)),
        ("255.255.255.255", Some(u32::MAX)),
        ("192.168.1.92", Some(0xc0a8_015c)),
        ("10.0.0.1", Some(0x0a00_0001)),
        ("01.2.3.4", None),
        ("1.2.3.04", None),
        ("1.2.3", None),
        ("1.2.3.4.5", None),
        ("256.1.1.1", None),
        ("1..2.3", None),
        ("", None),
        ("a.b.c.d", None),
        (" 1.2.3.4", None),
        ("1.2.3.4 ", None),
        ("+1.2.3.4", None),
        ("digitalpaper.local", None),
    ] {
        assert_eq!(parse_ip(text), expected, "{:?}", text);
    }
    for n in [0_u32, 1, 0x0a00_0001, 0xc0a8_015c, u32::MAX] {
        assert_eq!(parse_ip(&show_ip(n)), Some(n));
    }
    assert_eq!(show_ip(0xc0a8_015c), "192.168.1.92");
}

#[test]
fn private_ranges() {
    for (text, private) in [
        ("10.1.2.3", true),
        ("172.15.0.1", false),
        ("172.16.0.1", true),
        ("172.31.255.255", true),
        ("172.32.0.1", false),
        ("192.168.0.1", true),
        ("192.169.0.1", false),
        ("8.8.8.8", false),
    ] {
        assert_eq!(is_private_ipv4(ip(text)), private, "{}", text);
    }
}

#[test]
fn subnets_are_those_of_private_interfaces() {
    let interfaces = vec![
        interface("127.0.0.1", "255.0.0.0"),
        interface("192.168.1.7", "255.255.255.0"),
        interface("8.8.8.8", "255.255.255.0"),
    ];
    assert_eq!(
        current_ipv4_subnets(&interfaces),
        vec![(ip("192.168.1.0"), ip("192.168.1.255"))]
    );
}

#[test]
fn known_addresses_are_kept_where_they_can_be_reached() {
    let nets = vec![(ip("192.168.1.0"), ip("192.168.1.255"))];
    let known = strings(&[
        "192.168.1.92",
        "192.168.2.5",
        "192.168.1.0",
        "192.168.1.255",
        "8.8.8.8",
        "digitalpaper.local",
    ]);
    assert_eq!(
        filtered_known_addrs(&known, &nets),
        strings(&["192.168.1.92", "8.8.8.8", "digitalpaper.local"])
    );
}

#[test]
fn all_hosts_of_a_small_network_are_tried() {
    let hosts = lan_probe_candidates(&vec![interface("10.0.0.2", "255.255.255.248")]);
    assert_eq!(
        hosts,
        strings(&["10.0.0.1", "10.0.0.3", "10.0.0.4", "10.0.0.5", "10.0.0.6"])
    );
    assert!(lan_probe_candidates(&vec![interface("10.0.0.2", "255.255.255.255")]).is_empty());
    assert!(lan_probe_candidates(&vec![interface("8.0.0.2", "255.255.255.248")]).is_empty());
    assert_eq!(
        lan_probe_candidates(&vec![interface("10.0.0.1", "255.255.255.192")]).len(),
        61
    );
}

#[test]
fn common_hosts_of_a_large_network_are_tried() {
    let hosts = lan_probe_candidates(&vec![interface("192.168.1.92", "255.255.255.0")]);
    assert_eq!(
        hosts,
        strings(&[
            "192.168.1.1", "192.168.1.2", "192.168.1.10", "192.168.1.20", "192.168.1.30",
            "192.168.1.50", "192.168.1.80", "192.168.1.100", "192.168.1.110", "192.168.1.150",
            "192.168.1.200", "192.168.1.254",
        ])
    );
    let half = lan_probe_candidates(&vec![interface("192.168.1.200", "255.255.255.128")]);
    assert_eq!(half, strings(&["192.168.1.150", "192.168.1.254"]));
}

#[test]
fn candidates_are_ordered_and_without_repeats() {
    let addrs = candidate_addrs(
        &Some(" z.local , ,172.25.47.1".to_string()),
        &strings(&["192.168.9.9", "a.local"]),
        &vec![interface("10.0.0.2", "255.255.255.252")],
    );
    assert_eq!(
        addrs,
        strings(&["10.0.0.1", "172.25.47.1", "a.local", "digitalpaper.local", "z.local"])
    );
    assert_eq!(
        candidate_addrs(&None, &vec![], &vec![]),
        strings(&["172.25.47.1", "digitalpaper.local"])
    );
}

#[test]
fn known_addresses_are_merged() {
    assert_eq!(
        merge_known_addrs(&strings(&["b", "a"]), &strings(&[" c ", "", "a", "  "])),
        strings(&["a", "b", "c"])
    );
}

fn reply(code: u16, body: &str) -> Sent {
    Ok(HttpReply {
        code,
        status: "S".to_string(),
        headers: String::new(),
        cookies: Vec::new(),
        body: ReplyBody::Text(body.to_string()),
    })
}

fn probe(addr: &str, reply: Sent) -> (Option<String>, Option<String>) {
    probe_dpt_name(addr, &reply)
}

#[test]
fn devices_are_recognised() {
    let (name, note) = probe("1.2.3.4", reply(200, "{\"model_name\":\"DPT-RP1\",\"serial_number\":\"9\"}"));
    assert_eq!(name, Some("DPT-RP1 (1.2.3.4)".to_string()));
    assert_eq!(
        note,
        Some("Detected DPT response from 1.2.3.4: model=DPT-RP1 serial=9".to_string())
    );
    let (name, _) = probe("digitalpaper.local", reply(200, "{\"modelName\":\"My Digital Paper\"}"));
    assert_eq!(name, Some("My Digital Paper".to_string()));
    let (name, _) = probe("h", reply(200, "{\"model_name\":\" \"}"));
    assert_eq!(name, Some("Sony Digital Paper (h)".to_string()));
    let (name, _) = probe("h", reply(200, "{\"model_name\":5,\"modelName\":\"Printer\"}"));
    assert_eq!(name, Some("Sony Digital Paper (h)".to_string()));
    let (name, _) = probe("h", reply(200, "{\"model_name\":\"Printer\",\"serialNumber\":\"1\"}"));
    assert_eq!(name, Some("Printer (h)".to_string()));
    let (name, note) = probe("h", reply(200, "{\"model_name\":\"Printer\"}"));
    assert_eq!(name, None);
    assert_eq!(
        note,
        Some("Ignoring non-DPT response from h: model=Printer serial=".to_string())
    );
    assert_eq!(probe("h", reply(200, "nope")), (None, None));
    assert_eq!(
        probe("h", reply(404, "")),
        (None, Some("register/information returned S for h".to_string()))
    );
    assert_eq!(
        probe("h", Err("down".to_string())),
        (
            None,
            Some("register/information request failed for h: down".to_string())
        )
    );
}

#[test]
fn discovery_reports_devices_and_silences() {
    let sightings = vec![
        Sighting {
            addr: "172.25.47.1".to_string(),
            name: Some("DPT".to_string()),
            paired: true,
        },
        Sighting {
            addr: "10.0.0.1".to_string(),
            name: None,
            paired: false,
        },
        Sighting {
            addr: "h".to_string(),
            name: Some("Other".to_string()),
            paired: false,
        },
    ];
    let (found, notes) = RustNativeProvider::discover_devices(&sightings);
    let devices = found.unwrap();
    assert_eq!(devices.len(), 2);
    assert_eq!(devices[0].id, "rust-172.25.47.1");
    assert_eq!(
        devices[0].transport_kinds,
        vec![TransportKind::UsbNetwork, TransportKind::Wifi]
    );
    assert!(devices[0].paired);
    assert_eq!(devices[1].name, "Other");
    assert_eq!(devices[1].transport_kinds, vec![TransportKind::Wifi]);
    assert_eq!(
        notes,
        strings(&["No device response from 10.0.0.1", "Discovered 2 device candidates"])
    );
    let (none, notes) = RustNativeProvider::discover_devices(&vec![]);
    assert!(matches!(none, Err(RustProviderError::DeviceNotFound)));
    assert_eq!(
        notes,
        strings(&["Discovery finished without any device candidates"])
    );
    assert_eq!(
        RustNativeProvider::candidates_message(&strings(&["a", "b"])),
        "Discovery candidates: a, b"
    );
}
