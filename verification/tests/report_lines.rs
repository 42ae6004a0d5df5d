use about_sys::report::{report_lines, SystemInfo};
use about_sys::text::{chars_of, split_lines};

fn sample() -> SystemInfo {
    SystemInfo {
        os_name: "linux".to_string(),
        os_version: "7.0.0".to_string(),
        distribution: "Ubuntu 26.04 LTS".to_string(),
        arch: "amd64".to_string(),
        endianness: "Little Endian".to_string(),
        cpu_cores: 10,
        cpu_speed: None,
        ram: 34359738368,
        hostname: "lotus.local".to_string(),
        is_termux: false,
        is_jailbroken: false,
        ip_addresses: vec!["en0=192.168.1.2".to_string()],
        disk_total: 127130464256,
        disk_used: 43808436224,
        gpu_names: vec!["AMD GPU".to_string()],
    }
}

#[test]
fn report_of_the_readme_machine() {
    let lines = report_lines(&sample());
    let expected = vec![
        "╔══════════════════════════════════════════════════════════════╗",
        "║                    SYSTEM INFORMATION                        ║",
        "╚══════════════════════════════════════════════════════════════╝",
        "",
        "🖥️ Hostname:            lotus.local",
        "💿 Operating System:    linux",
        "📌 OS Version:          7.0.0",
        "📦 Distribution:        Ubuntu 26.04 LTS",
        "🔧 Architecture:        amd64",
        "📊 Endianness:          Little Endian",
        "💻 CPU Cores:           10",
        "🖱️ GPU:                 AMD GPU",
        "🧠 Total RAM:           32.0 GB",
        "💾 Disk Usage:          40.8 GB / 118.4 GB (34%)",
        "🌐 IP Addresses:        en0=192.168.1.2",
    ];
    assert_eq!(lines, expected);
}

#[test]
fn report_optional_lines() {
    let mut info = sample();
    info.os_version = String::new();
    info.distribution = "linux".to_string();
    info.is_termux = true;
    info.is_jailbroken = true;
    info.cpu_speed = Some("3.50 GHz".to_string());
    info.gpu_names = vec!["A".to_string(), "B".to_string(), "C".to_string()];
    info.ram = 0;
    info.disk_total = 0;
    info.ip_addresses = Vec::new();
    let lines = report_lines(&info);
    let expected = vec![
        "╔══════════════════════════════════════════════════════════════╗",
        "║                    SYSTEM INFORMATION                        ║",
        "╚══════════════════════════════════════════════════════════════╝",
        "",
        "🖥️ Hostname:            lotus.local",
        "💿 Operating System:    linux",
        "📱 Termux Environment:  Yes",
        "⚠️  Jailbroken:          Yes",
        "🔧 Architecture:        amd64",
        "📊 Endianness:          Little Endian",
        "💻 CPU Cores:           10",
        "⚡ CPU Speed:           3.50 GHz",
        "🖱️ GPU:                 A",
        "                        B",
        "                        C",
        "🧠 Total RAM:           Unknown",
    ];
    assert_eq!(lines, expected);
}

#[test]
fn text_lines_like_std() {
    for t in ["", "a", "a\n", "a\r\nb", "\n\n", "x\ry\n", "a\nb\r", "\r\n"] {
        let cs = chars_of(t);
        let got: Vec<String> =
            split_lines(&cs).iter().map(|&(lo, hi)| cs[lo..hi].iter().collect()).collect();
        let want: Vec<String> = t.lines().map(|l| l.to_string()).collect();
        assert_eq!(got, want, "text = {:?}", t);
    }
}
