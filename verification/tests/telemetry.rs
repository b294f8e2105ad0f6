use embedded_rack::i2c_scan::I2cScan;
use embedded_rack::telemetry::{next_sequence, optional_credential, LinkMonitor};

#[test]
fn sequence_wraps() {
    assert_eq!(next_sequence(0), 1);
    assert_eq!(next_sequence(41), 42);
    assert_eq!(next_sequence(u32::MAX), 0);
}

#[test]
fn loss_detection() {
    let mut m = LinkMonitor::new();
    assert_eq!(m.record_message(5), None);
    assert_eq!(m.record_message(6), None);
    assert_eq!(m.record_message(10), Some(3));
    assert_eq!(m.record_message(4), Some(1));
    assert_eq!(m.record_message(0), None);
    assert_eq!(m.record_message(1), None);
    assert_eq!(m.record_message(u32::MAX), Some(u32::MAX - 2));
    assert_eq!(m.record_message(0), None);
}

#[test]
fn wrap_is_not_a_loss() {
    let mut m = LinkMonitor::new();
    m.record_message(u32::MAX);
    assert_eq!(m.record_message(0), None);
    m.record_message(u32::MAX);
    assert_eq!(m.record_message(1), Some(1));
}

#[test]
fn packet_statistics() {
    let mut m = LinkMonitor::new();
    assert!(m.stats_due());
    for i in 1..=100u64 {
        m.record_packet();
        assert_eq!(m.packet_count(), i);
        assert_eq!(m.stats_due(), i == 100);
    }
    m.record_parse_error();
    assert_eq!(m.error_count(), 1);
    assert_eq!(m.packet_count(), 100);
}

#[test]
fn credentials() {
    assert_eq!(optional_credential(None), None);
    assert_eq!(optional_credential(Some("")), None);
    assert_eq!(optional_credential(Some("user")), Some("user".to_string()));
}

#[test]
fn scan_probes_every_address_once() {
    let mut scan = I2cScan::new();
    let mut probed = Vec::new();
    while let Some(addr) = scan.next_address() {
        probed.push(addr);
        scan.record(addr == 0x3C || addr == 0x76);
    }
    assert_eq!(probed, (1..=127u8).collect::<Vec<u8>>());
    assert_eq!(scan.devices_found(), 2);
}

#[test]
fn scan_with_no_devices() {
    let mut scan = I2cScan::new();
    while scan.next_address().is_some() {
        scan.record(false);
    }
    assert_eq!(scan.devices_found(), 0);
}
