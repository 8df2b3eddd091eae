use scrcpy_core::parse::{parse_device_list, parse_mdns_services};

#[test]
fn device_listing_skips_header_and_noise() {
    let out = "List of devices attached\n\
               emulator-5554\tdevice\n\
               192.168.1.5:5555\tdevice\n\
               dead00beef\toffline\n\
               adb-XYZ._adb-tls-connect._tcp\tdevice\n\
               \n";
    let devices = parse_device_list(out);
    assert_eq!(devices, vec!["emulator-5554".to_string(), "192.168.1.5:5555".to_string()]);
}

#[test]
fn device_listing_handles_crlf_and_empty_output() {
    let out = "List of devices attached\r\nserial1\tdevice\r\n";
    assert_eq!(parse_device_list(out), vec!["serial1".to_string()]);
    assert_eq!(parse_device_list(""), Vec::<String>::new());
    assert_eq!(parse_device_list("List of devices attached\n"), Vec::<String>::new());
}

#[test]
fn mdns_listing_parses_and_deduplicates() {
    let out = "List of discovered mdns services\n\
               adb-A\t_adb-tls-connect._tcp\t192.168.1.5:5555\n\
               adb-A\t_adb-tls-connect._tcp\t192.168.1.5:5555\n\
               adb-B\t_adb-tls-pairing._tcp\t192.168.1.6:37000\n\
               short-line\n";
    let services = parse_mdns_services(out);
    assert_eq!(services.len(), 2);
    assert_eq!(services[0].name, "adb-A");
    assert_eq!(services[0].service, "_adb-tls-connect._tcp");
    assert_eq!(services[0].address, "192.168.1.5:5555");
    assert_eq!(services[1].name, "adb-B");
    assert_eq!(services[1].address, "192.168.1.6:37000");
}

#[test]
fn mdns_fields_are_trimmed() {
    let out = "header\n  name  \t  svc \t addr \n";
    let services = parse_mdns_services(out);
    assert_eq!(services.len(), 1);
    assert_eq!(services[0].name, "name");
    assert_eq!(services[0].service, "svc");
    assert_eq!(services[0].address, "addr");
}
