use nmap_mac_matcher::registry::{build_mac_index, devices_from_json, Device, RegistryError};
use nmap_mac_matcher::report::{build_rows, render_report};
use nmap_mac_matcher::scan::scan_report;
use nmap_mac_matcher::text::to_upper;

fn host(ip: &str, mac: &str) -> String {
    format!(
        "<host><address addr=\"{}\" addrtype=\"ipv4\"/><address addr=\"{}\" addrtype=\"mac\"/></host>",
        ip, mac
    )
}

fn device(name: &str, macs: &[&str]) -> Device {
    Device {
        name: name.to_string(),
        macs: macs.iter().map(|m| m.to_string()).collect(),
    }
}

#[test]
fn single_host_matches_registry() {
    let xml = format!("<nmaprun>{}</nmaprun>", host("10.0.0.5", "AA:BB:CC:DD:EE:FF"));
    let scan = scan_report(&xml).unwrap();
    let devices = vec![device("Laptop", &["aa:bb:cc:dd:ee:ff"])];
    let idx = build_mac_index(&devices);
    let rows = build_rows(&scan, &idx);
    assert_eq!(rows.len(), 1);
    assert_eq!(rows[0].ip, "10.0.0.5");
    assert_eq!(rows[0].mac, "AA:BB:CC:DD:EE:FF");
    assert_eq!(rows[0].device, "Laptop");
}

#[test]
fn unmatched_mac_reads_unknown() {
    let xml = format!("<nmaprun>{}</nmaprun>", host("10.0.0.9", "11:22:33:44:55:66"));
    let scan = scan_report(&xml).unwrap();
    let devices = vec![device("Laptop", &["aa:bb:cc:dd:ee:ff"])];
    let idx = build_mac_index(&devices);
    let rows = build_rows(&scan, &idx);
    assert_eq!(rows.len(), 1);
    assert_eq!(rows[0].device, "Unknown");
}

#[test]
fn empty_input_gives_no_rows() {
    let scan = scan_report("").unwrap();
    assert_eq!(scan.len(), 0);
    let devices: Vec<Device> = Vec::new();
    let idx = build_mac_index(&devices);
    let rows = build_rows(&scan, &idx);
    assert_eq!(rows.len(), 0);
    let out = render_report(&rows);
    assert!(out.contains("IP"));
    assert!(out.contains("MAC"));
    assert!(out.contains("Device"));
}

#[test]
fn malformed_markup_is_error() {
    assert!(scan_report("<nmaprun><host>").is_err());
    assert!(scan_report("not markup at all").is_err());
}

#[test]
fn row_order_follows_completion_order() {
    let xml = format!(
        "<nmaprun>{}{}{}</nmaprun>",
        host("10.0.0.3", "cc:cc:cc:cc:cc:cc"),
        host("10.0.0.1", "aa:aa:aa:aa:aa:aa"),
        host("10.0.0.2", "bb:bb:bb:bb:bb:bb"),
    );
    let scan = scan_report(&xml).unwrap();
    let devices: Vec<Device> = Vec::new();
    let idx = build_mac_index(&devices);
    let rows = build_rows(&scan, &idx);
    let ips: Vec<&str> = rows.iter().map(|r| r.ip.as_str()).collect();
    assert_eq!(ips, vec!["10.0.0.3", "10.0.0.1", "10.0.0.2"]);
}

#[test]
fn repeated_ip_keeps_first_place_and_last_mac() {
    let xml = format!(
        "<nmaprun>{}{}{}</nmaprun>",
        host("10.0.0.1", "aa:aa:aa:aa:aa:aa"),
        host("10.0.0.2", "bb:bb:bb:bb:bb:bb"),
        host("10.0.0.1", "dd:dd:dd:dd:dd:dd"),
    );
    let scan = scan_report(&xml).unwrap();
    assert_eq!(scan.len(), 2);
    let (ip0, mac0) = scan.pair_at(0);
    assert_eq!(ip0, "10.0.0.1");
    assert_eq!(mac0, "dd:dd:dd:dd:dd:dd");
    let (ip1, _) = scan.pair_at(1);
    assert_eq!(ip1, "10.0.0.2");
}

#[test]
fn orphan_ip_contributes_no_row() {
    let xml = "<nmaprun><host><address addr=\"10.0.0.7\" addrtype=\"ipv4\"/></host>\
               <host><address addr=\"10.0.0.8\" addrtype=\"ipv4\"/>\
               <address addr=\"ee:ee:ee:ee:ee:ee\" addrtype=\"mac\"/></host></nmaprun>";
    let scan = scan_report(xml).unwrap();
    assert_eq!(scan.len(), 1);
    let (ip, mac) = scan.pair_at(0);
    assert_eq!(ip, "10.0.0.8");
    assert_eq!(mac, "ee:ee:ee:ee:ee:ee");
}

#[test]
fn orphan_mac_is_ignored() {
    let xml = format!(
        "<nmaprun><address addr=\"99:99:99:99:99:99\" addrtype=\"mac\"/>{}</nmaprun>",
        host("10.0.0.4", "ab:cd:ef:01:23:45")
    );
    let scan = scan_report(&xml).unwrap();
    assert_eq!(scan.len(), 1);
    let (ip, _) = scan.pair_at(0);
    assert_eq!(ip, "10.0.0.4");
}

#[test]
fn other_addrtype_is_ignored() {
    let xml = "<nmaprun><address addr=\"fe80::1\" addrtype=\"ipv6\"/>\
               <address addr=\"aa:aa:aa:aa:aa:aa\" addrtype=\"mac\"/></nmaprun>";
    let scan = scan_report(xml).unwrap();
    assert_eq!(scan.len(), 0);
}

#[test]
fn address_missing_attribute_is_ignored() {
    let xml = "<nmaprun><address addr=\"10.0.0.1\"/>\
               <address addrtype=\"ipv4\"/>\
               <address addr=\"aa:aa:aa:aa:aa:aa\" addrtype=\"mac\"/></nmaprun>";
    let scan = scan_report(xml).unwrap();
    assert_eq!(scan.len(), 0);
}

#[test]
fn mac_match_is_case_insensitive_both_ways() {
    let xml = format!(
        "<nmaprun>{}{}</nmaprun>",
        host("10.0.0.1", "AA:BB:CC:DD:EE:FF"),
        host("10.0.0.2", "0a:1b:2c:3d:4e:5f"),
    );
    let scan = scan_report(&xml).unwrap();
    let devices = vec![
        device("Lower", &["aa:bb:cc:dd:ee:ff"]),
        device("Upper", &["0A:1B:2C:3D:4E:5F"]),
    ];
    let idx = build_mac_index(&devices);
    let rows = build_rows(&scan, &idx);
    assert_eq!(rows[0].device, "Lower");
    assert_eq!(rows[1].device, "Upper");
    assert_eq!(rows[1].mac, "0A:1B:2C:3D:4E:5F");
}

#[test]
fn later_device_wins_shared_mac() {
    let xml = format!("<nmaprun>{}</nmaprun>", host("10.0.0.1", "aa:bb:cc:dd:ee:ff"));
    let scan = scan_report(&xml).unwrap();
    let devices = vec![
        device("First", &["aa:bb:cc:dd:ee:ff"]),
        device("Second", &["AA:BB:CC:DD:EE:FF"]),
    ];
    let idx = build_mac_index(&devices);
    let rows = build_rows(&scan, &idx);
    assert_eq!(rows[0].device, "Second");
}

#[test]
fn device_with_several_macs_matches_each() {
    let xml = format!(
        "<nmaprun>{}{}</nmaprun>",
        host("10.0.0.1", "aa:aa:aa:aa:aa:01"),
        host("10.0.0.2", "aa:aa:aa:aa:aa:02"),
    );
    let scan = scan_report(&xml).unwrap();
    let devices = vec![device("Router", &["aa:aa:aa:aa:aa:01", "aa:aa:aa:aa:aa:02"])];
    let idx = build_mac_index(&devices);
    let rows = build_rows(&scan, &idx);
    assert_eq!(rows[0].device, "Router");
    assert_eq!(rows[1].device, "Router");
}

#[test]
fn registry_loads_names_and_macs() {
    let json = "[{\"name\":\"Laptop\",\"macs\":[\"aa:bb:cc:dd:ee:ff\"]},\
                 {\"name\":\"Phone\",\"macs\":[]}]";
    let devices = devices_from_json(json).unwrap();
    assert_eq!(devices.len(), 2);
    assert_eq!(devices[0].name, "Laptop");
    assert_eq!(devices[0].macs, vec!["aa:bb:cc:dd:ee:ff".to_string()]);
    assert_eq!(devices[1].name, "Phone");
    assert!(devices[1].macs.is_empty());
}

#[test]
fn registry_record_missing_name_is_shape_error() {
    let json = "[{\"macs\":[\"aa:bb:cc:dd:ee:ff\"]}]";
    assert!(matches!(devices_from_json(json), Err(RegistryError::Shape)));
}

#[test]
fn registry_record_missing_macs_is_shape_error() {
    let json = "[{\"name\":\"Laptop\"}]";
    assert!(matches!(devices_from_json(json), Err(RegistryError::Shape)));
}

#[test]
fn registry_wrong_types_are_shape_errors() {
    assert!(matches!(devices_from_json("{}"), Err(RegistryError::Shape)));
    assert!(matches!(
        devices_from_json("[{\"name\":7,\"macs\":[]}]"),
        Err(RegistryError::Shape)
    ));
    assert!(matches!(
        devices_from_json("[{\"name\":\"x\",\"macs\":[7]}]"),
        Err(RegistryError::Shape)
    ));
    assert!(matches!(
        devices_from_json("[{\"name\":\"x\",\"macs\":\"aa\"}]"),
        Err(RegistryError::Shape)
    ));
}

#[test]
fn registry_invalid_json_is_syntax_error() {
    assert!(matches!(
        devices_from_json("not json"),
        Err(RegistryError::Syntax(_))
    ));
    assert!(matches!(devices_from_json(""), Err(RegistryError::Syntax(_))));
}

#[test]
fn registry_empty_list_leaves_all_unknown() {
    let xml = format!("<nmaprun>{}</nmaprun>", host("10.0.0.1", "aa:bb:cc:dd:ee:ff"));
    let scan = scan_report(&xml).unwrap();
    let devices = devices_from_json("[]").unwrap();
    let idx = build_mac_index(&devices);
    let rows = build_rows(&scan, &idx);
    assert_eq!(rows[0].device, "Unknown");
}

#[test]
fn to_upper_maps_ascii_letters_only() {
    assert_eq!(to_upper("aa:bb-zz09"), "AA:BB-ZZ09");
    assert_eq!(to_upper(""), "");
    assert_eq!(to_upper("Déjà"), "DéJà");
}

#[test]
fn rendered_table_matches_direct_rendering() {
    let xml = format!(
        "<nmaprun>{}{}</nmaprun>",
        host("10.0.0.5", "AA:BB:CC:DD:EE:FF"),
        host("10.0.0.9", "11:22:33:44:55:66"),
    );
    let scan = scan_report(&xml).unwrap();
    let devices = vec![device("Laptop", &["aa:bb:cc:dd:ee:ff"])];
    let idx = build_mac_index(&devices);
    let rows = build_rows(&scan, &idx);
    let out = render_report(&rows);

    let mut expected = comfy_table::Table::new();
    expected.set_header(vec!["IP", "MAC", "Device"]);
    expected.add_row(vec!["10.0.0.5", "AA:BB:CC:DD:EE:FF", "Laptop"]);
    expected.add_row(vec!["10.0.0.9", "11:22:33:44:55:66", "Unknown"]);
    assert_eq!(out, expected.to_string());
    assert!(out.contains("Laptop"));
    assert!(out.contains("Unknown"));
}

#[test]
fn correlate_report_runs_whole_pipeline() {
    let xml = format!("<nmaprun>{}</nmaprun>", host("10.0.0.5", "AA:BB:CC:DD:EE:FF"));
    let devices = vec![device("Laptop", &["aa:bb:cc:dd:ee:ff"])];
    let out = nmap_mac_matcher::correlate_report(&xml, &devices).unwrap();
    assert!(out.contains("10.0.0.5"));
    assert!(out.contains("AA:BB:CC:DD:EE:FF"));
    assert!(out.contains("Laptop"));
    assert!(nmap_mac_matcher::correlate_report("<broken", &devices).is_err());
}
