use about_sys::gpu::{
    detect_gpu_names_linux, detect_gpu_names_macos, detect_gpu_names_windows,
    gpu_names_from_profiler_text, sort_cards, DrmCard,
};
use about_sys::hardware::{
    cpuinfo_mhz_text, disk_usage_from_blocks, disk_usage_from_totals, meminfo_total_kb,
    parse_cpufreq_khz, ram_from_meminfo,
};
use about_sys::network::{collect_ip_addresses, keep_ipv4, keep_ipv6, AddressFamily, InterfaceAddress};

fn card(name: &str, product: Option<&str>, vendor: Option<&str>) -> DrmCard {
    DrmCard {
        name: name.to_string(),
        product_name: product.map(|s| s.to_string()),
        vendor: vendor.map(|s| s.to_string()),
    }
}

#[test]
fn cpufreq_values() {
    assert_eq!(parse_cpufreq_khz("3500000\n"), 3500000);
    assert_eq!(parse_cpufreq_khz("  42 "), 42);
    assert_eq!(parse_cpufreq_khz("fast"), 0);
    assert_eq!(parse_cpufreq_khz(""), 0);
}

#[test]
fn cpuinfo_speed_text() {
    let text = "processor\t: 0\nvendor_id\t: GenuineIntel\ncpu MHz no colon\ncpu MHz\t\t: 2400.000\ncpu MHz\t\t: 1200.000\n";
    assert_eq!(cpuinfo_mhz_text(text), Some("2400.000".to_string()));
    assert_eq!(cpuinfo_mhz_text("processor: 0\n"), None);
}

#[test]
fn meminfo_total() {
    let text = "MemFree:  100 kB\nMemTotal:       32768000 kB\nMemTotal: 1 kB\n";
    assert_eq!(meminfo_total_kb(text), 32768000);
    assert_eq!(ram_from_meminfo(text), 32768000 * 1024);
    assert_eq!(meminfo_total_kb("MemTotal:\n"), 0);
    assert_eq!(meminfo_total_kb("MemTotal: lots\nMemTotal: 5"), 0);
    assert_eq!(meminfo_total_kb("Other: 1\n"), 0);
}

#[test]
fn disk_usage() {
    assert_eq!(disk_usage_from_blocks(4096, 1000, 250), (4096000, 3072000));
    assert_eq!(disk_usage_from_blocks(0, 10, 10), (0, 0));
    assert_eq!(disk_usage_from_totals(100, 40), (100, 60));
}

#[test]
fn sorted_cards_by_name() {
    let cards = vec![
        card("card1", None, None),
        card("card0-HDMI-A-1", None, None),
        card("card0", Some("a"), None),
        card("card0", Some("b"), None),
        card("renderD128", None, None),
    ];
    let sorted = sort_cards(cards);
    let names: Vec<&str> = sorted.iter().map(|c| c.name.as_str()).collect();
    assert_eq!(names, vec!["card0", "card0", "card0-HDMI-A-1", "card1", "renderD128"]);
    assert_eq!(sorted[0].product_name.as_deref(), Some("a"));
    assert_eq!(sorted[1].product_name.as_deref(), Some("b"));
}

#[test]
fn linux_gpus_from_nvidia_and_drm() {
    let infos = vec![
        "Model: \t NVIDIA GeForce RTX 4090\nIRQ: 130\n".to_string(),
        "Model: NVIDIA GeForce RTX 4090\n".to_string(),
    ];
    let cards = vec![
        card("card1", None, Some("0x1002\n")),
        card("card0", None, Some("0x10de\n")),
        card("card1-DP-1", Some("Panel"), None),
        card("card2", Some("  virtio-gpu \n"), Some("0x1af4")),
        card("card3", Some("  \n"), Some("0x8086")),
        card("card4", Some("virtio-gpu"), Some("0x1234")),
        card("card5", None, Some("0x1002")),
    ];
    assert_eq!(
        detect_gpu_names_linux(&infos, cards),
        vec!["NVIDIA GeForce RTX 4090", "AMD GPU", "virtio-gpu", "Intel GPU"]
    );
}

#[test]
fn linux_gpus_known_model_skips_vendor_label() {
    let cards = vec![
        card("card0", Some("Radeon Pro W6800\n"), Some("0x1002\n")),
        card("card1", Some("Radeon Pro W6800\n"), Some("0x1002\n")),
    ];
    assert_eq!(detect_gpu_names_linux(&Vec::new(), cards), vec!["Radeon Pro W6800"]);
}

#[test]
fn linux_gpus_vendor_labels() {
    let cards = vec![
        card("card0", None, Some("0x10de")),
        card("card1", None, Some("0x1414")),
        card("card2", None, None),
    ];
    assert_eq!(
        detect_gpu_names_linux(&Vec::new(), cards),
        vec!["NVIDIA GPU", "Microsoft Virtual GPU"]
    );
}

#[test]
fn macos_gpus() {
    let text = "Graphics/Displays:\n\n    Apple M2:\n\n      Chipset Model: Apple M2\n      Type: GPU\n      Chipset Model: Apple M2 \n      Chipset Model:  Radeon Pro\n";
    assert_eq!(gpu_names_from_profiler_text(text), vec!["Apple M2", "Radeon Pro"]);
    assert_eq!(detect_gpu_names_macos(text.as_bytes()), vec!["Apple M2", "Radeon Pro"]);
    assert!(detect_gpu_names_macos(b"").is_empty());
}

#[test]
fn windows_gpus() {
    let out = b"NVIDIA GeForce GTX 1080\r\n\r\n  Intel(R) UHD Graphics 630  \r\nNVIDIA GeForce GTX 1080\r\n";
    assert_eq!(
        detect_gpu_names_windows(out),
        vec!["NVIDIA GeForce GTX 1080", "Intel(R) UHD Graphics 630", "NVIDIA GeForce GTX 1080"]
    );
}

#[test]
fn address_filters() {
    assert!(!keep_ipv4("127.0.0.1"));
    assert!(!keep_ipv4("169.254.3.4"));
    assert!(keep_ipv4("192.168.1.2"));
    assert!(!keep_ipv6("::1"));
    assert!(!keep_ipv6("fe80::1"));
    assert!(keep_ipv6("2001:db8::1"));
    assert!(keep_ipv6("::1:2"));
    assert!(!keep_ipv6("fe90::1"));
    assert!(!keep_ipv6("febf:1::"));
    assert!(!keep_ipv6("FEA0::1"));
    assert!(keep_ipv6("fec0::1"));
    assert!(keep_ipv6("fe8::1"));
    assert!(keep_ipv6("fe80"));
}

#[test]
fn addresses_ipv4_first() {
    let a = |i: &str, f: AddressFamily, ip: &str| InterfaceAddress {
        interface: i.to_string(),
        family: f,
        address: ip.to_string(),
    };
    let addrs = vec![
        a("lo", AddressFamily::V4, "127.0.0.1"),
        a("en0", AddressFamily::V6, "2001:db8::5"),
        a("en0", AddressFamily::V4, "192.168.1.2"),
        a("lo", AddressFamily::V6, "::1"),
        a("en0", AddressFamily::V6, "fe80::1"),
        a("eth0", AddressFamily::V6, "fe90::1"),
        a("en1", AddressFamily::Other, "x"),
        a("en1", AddressFamily::V4, "10.0.0.7"),
    ];
    assert_eq!(
        collect_ip_addresses(&addrs),
        vec!["en0=192.168.1.2", "en1=10.0.0.7", "en0=2001:db8::5"]
    );
    assert!(collect_ip_addresses(&Vec::new()).is_empty());
}
