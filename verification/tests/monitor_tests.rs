use pironman5::hardware::system_monitor::{
    cpu_values, disk_usage_text, memory_values, network_active, network_info, CpuSample, SystemMonitor,
};

#[test]
fn cpu_counters() {
    let stat = "cpu  10 20 30 400 5 0 0\ncpu0 1 2 3 4 5\n";
    assert_eq!(cpu_values(stat), Some(vec![10, 20, 30, 400, 5, 0, 0]));
    assert_eq!(cpu_values("cpu0 1 2\nintr 5\n"), None);
    assert_eq!(cpu_values("cpu 1 x 2\r\n"), Some(vec![1, 2]));
}

#[test]
fn cpu_samples() {
    let mut m = SystemMonitor::new();
    assert!(m.sample_fits(&[1, 2]));
    assert_eq!(m.record_cpu_sample(&[1, 2]), CpuSample::TooFewValues);
    assert_eq!(m.record_cpu_sample(&[10, 0, 10, 80, 0]), CpuSample::NoUsage);
    assert!(m.sample_fits(&[20, 0, 20, 160, 0]));
    assert_eq!(m.record_cpu_sample(&[20, 0, 20, 160, 0]), CpuSample::Usage { busy: 20, total: 100 });
    assert_eq!(m.record_cpu_sample(&[20, 0, 20, 160, 0]), CpuSample::NoUsage);
    assert!(!m.sample_fits(&[0, 0, 0, 0, 0]));
    assert!(!m.sample_fits(&[u64::MAX, 1, 0, 0, 0]));
}

#[test]
fn first_sample_is_not_summed() {
    let mut m = SystemMonitor::new();
    assert!(m.sample_fits(&[u64::MAX, 1, 0, 0, 0]));
    assert_eq!(m.record_cpu_sample(&[u64::MAX, 1, 0, 0, 0]), CpuSample::NoUsage);
}

#[test]
fn memory() {
    let info = "MemTotal:       8000 kB\nMemFree:  100 kB\nMemAvailable:   6000 kB\n";
    assert_eq!(memory_values(info), (8000, 6000));
    assert_eq!(memory_values("MemTotal:\n"), (0, 0));
    assert_eq!(memory_values(""), (0, 0));
}

#[test]
fn disk() {
    let out = "Filesystem Size Used Avail Use% Mounted on\n/dev/root 29G 12G 16G 43% /\n";
    assert_eq!(disk_usage_text(out), Some("43".to_string()));
    assert_eq!(disk_usage_text("header only\n"), None);
    assert_eq!(disk_usage_text("h\n/dev/root 29G 12G 16G 43 /\n"), None);
}

#[test]
fn network_traffic() {
    let dev = "Inter-|   Receive\n face |bytes\n    lo: 100 1 0\n  eth0: 0 0 0\n wlan0: 5000 3 0\n";
    assert!(network_active(dev));
    let quiet = "a\nb\n  eth0: 0 0\n    lo: 99 1\n";
    assert!(!network_active(quiet));
    assert!(!network_active("eth0: 5 1\n"));
}

#[test]
fn network_addresses() {
    let out = "1: lo: <LOOPBACK,UP> mtu 65536\n    inet 127.0.0.1/8 scope host lo\n2: eth0: <BROADCAST> mtu 1500\n    inet6 fe80::1/64 scope link\n    inet 192.168.1.100/24 brd 192.168.1.255 scope global eth0\n3: wlan0: <BROADCAST> mtu 1500\n    inet 10.0.0.5/24 scope global wlan0\n";
    assert_eq!(network_info(out), (true, Some("192.168.1.100".to_string()), "eth0".to_string()));
    assert_eq!(network_info(""), (false, None, "none".to_string()));
    let only_lo = "1: lo: <LOOPBACK,UP>\n    inet 127.0.0.1/8 scope host lo\n";
    assert_eq!(network_info(only_lo), (false, None, "none".to_string()));
}
