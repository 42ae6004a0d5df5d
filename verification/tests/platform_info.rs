use about_sys::android::{build_prop_path, detect_android_info, parse_build_properties, BuildProps};
use about_sys::apple::{detect_ios_info, detect_ios_version, detect_macos_info, extract_plist_value};
use about_sys::platform::{
    c_string_text, check_jailbreak, detect_windows_info, endianness_label, get_endianness,
    hostname_from_buffer, jailbreak_from_marks, jailbreak_path, normalize_arch, os_kind, OsKind,
};
use about_sys::release::detect_linux_info;
use about_sys::report::SystemInfo;

fn blank_info() -> SystemInfo {
    SystemInfo {
        os_name: "os".to_string(),
        os_version: String::new(),
        distribution: String::new(),
        arch: "amd64".to_string(),
        endianness: "Little Endian".to_string(),
        cpu_cores: 4,
        cpu_speed: None,
        ram: 1,
        hostname: "h".to_string(),
        is_termux: false,
        is_jailbroken: false,
        ip_addresses: Vec::new(),
        disk_total: 0,
        disk_used: 0,
        gpu_names: Vec::new(),
    }
}

fn version_and_distribution(info: &SystemInfo) -> (String, String) {
    (info.os_version.clone(), info.distribution.clone())
}

const PLIST: &str = "<?xml version=\"1.0\"?>\n<plist version=\"1.0\">\n<dict>\n\t<key>ProductBuildVersion</key>\n\t<string>23A344</string>\n\t<key>ProductName</key>\n\t<string>macOS</string>\n\t<key>ProductVersion</key>\n\t<string>14.0</string>\n</dict>\n</plist>\n";

#[test]
fn arch_labels() {
    assert_eq!(normalize_arch("x86_64"), "amd64");
    assert_eq!(normalize_arch("aarch64"), "arm64");
    assert_eq!(normalize_arch("x86"), "i386");
    assert_eq!(normalize_arch("arm"), "arm");
    assert_eq!(normalize_arch("riscv64"), "riscv64");
    for a in ["x86_64", "aarch64", "x86", "arm", "riscv64", "amd64"] {
        let once = normalize_arch(a);
        assert_eq!(normalize_arch(&once), once);
    }
}

#[test]
fn byte_order_labels() {
    assert_eq!(endianness_label(0x04), "Little Endian");
    assert_eq!(endianness_label(0x01), "Big Endian");
    let expected = if 0x01020304u32.to_ne_bytes()[0] == 0x04 { "Little Endian" } else { "Big Endian" };
    assert_eq!(get_endianness(), expected);
}

#[test]
fn os_kinds() {
    assert_eq!(os_kind("linux"), OsKind::Linux);
    assert_eq!(os_kind("macos"), OsKind::MacOs);
    assert_eq!(os_kind("windows"), OsKind::Windows);
    assert_eq!(os_kind("android"), OsKind::Android);
    assert_eq!(os_kind("ios"), OsKind::Ios);
    assert_eq!(os_kind("freebsd"), OsKind::Other);
    assert!(OsKind::Android.reads_proc_files());
    assert!(!OsKind::Ios.reads_proc_files());
    assert!(OsKind::Ios.reads_sysctl());
    assert!(!OsKind::Windows.lists_posix_interfaces());
    assert!(OsKind::MacOs.lists_posix_interfaces());
}

#[test]
fn host_names() {
    assert_eq!(hostname_from_buffer(true, b"lotus.local\0garbage"), "lotus.local");
    assert_eq!(hostname_from_buffer(true, b"no-terminator"), "no-terminator");
    assert_eq!(hostname_from_buffer(false, b"lotus\0"), "unknown");
    assert_eq!(c_string_text(b"ab\xffc\0d"), "ab\u{fffd}c");
    assert_eq!(c_string_text(b"\0"), "");
}

#[test]
fn jailbreak_marks() {
    assert_eq!(jailbreak_path(0), "/Applications/Cydia.app");
    assert_eq!(jailbreak_path(6), "/private/var/stash");
    let any = (0..7).any(|i| std::path::Path::new(jailbreak_path(i)).exists());
    assert_eq!(check_jailbreak(), any);
    assert!(!jailbreak_from_marks(&vec![false; 7]));
    assert!(jailbreak_from_marks(&vec![false, false, false, false, false, false, true]));
    assert!(jailbreak_from_marks(&vec![true, false, true, false, false, false, false]));
}

#[test]
fn windows_info() {
    let mut info = blank_info();
    detect_windows_info(&mut info);
    assert_eq!(version_and_distribution(&info), ("windows".to_string(), "Windows".to_string()));
    assert_eq!(info.hostname, "h");
}

#[test]
fn linux_info() {
    let mut info = blank_info();
    detect_linux_info(
        &mut info,
        Some("Linux version 6.8.0 (gcc) #1\n"),
        Some("PRETTY_NAME=\"Ubuntu 24.04 LTS\""),
        None,
        None,
    );
    assert_eq!(version_and_distribution(&info), ("6.8.0".to_string(), "Ubuntu 24.04 LTS".to_string()));
    let mut info = blank_info();
    info.os_version = "old".to_string();
    detect_linux_info(&mut info, Some("other"), None, None, Some((4, "")));
    assert_eq!(
        version_and_distribution(&info),
        ("old".to_string(), "Arch Linux (Rolling Release)".to_string())
    );
}

#[test]
fn plist_values() {
    assert_eq!(extract_plist_value(PLIST, "ProductVersion"), "14.0");
    assert_eq!(extract_plist_value(PLIST, "ProductName"), "macOS");
    assert_eq!(extract_plist_value(PLIST, "Missing"), "");
    assert_eq!(extract_plist_value("<key>A</key><string>x", "A"), "");
    assert_eq!(extract_plist_value("<key>A</key>", "A"), "");
}

#[test]
fn macos_info() {
    let mut info = blank_info();
    detect_macos_info(&mut info, Some(PLIST));
    assert_eq!(version_and_distribution(&info), ("14.0".to_string(), "macOS".to_string()));
    let server = "<key>ProductName</key><string>Mac OS X Server</string>";
    let mut info = blank_info();
    detect_macos_info(&mut info, Some(server));
    assert_eq!(version_and_distribution(&info), (String::new(), "Mac OS X Server".to_string()));
    let mut info = blank_info();
    detect_macos_info(&mut info, None);
    assert_eq!(version_and_distribution(&info), (String::new(), "macOS".to_string()));
    let mut info = blank_info();
    info.os_version = "13.1".to_string();
    info.distribution = "Kept".to_string();
    detect_macos_info(&mut info, None);
    assert_eq!(version_and_distribution(&info), ("13.1".to_string(), "Kept".to_string()));
}

#[test]
fn ios_versions() {
    let plists = vec![None, Some(PLIST.to_string())];
    assert_eq!(detect_ios_version(&plists), Some("14.0".to_string()));
    let mut info = blank_info();
    detect_ios_info(&mut info, true, &plists);
    assert!(info.is_jailbroken);
    assert_eq!(version_and_distribution(&info), ("14.0".to_string(), "iOS Device".to_string()));
    let plists = vec![Some("<key>ProductName</key><string>iPhone OS</string>".to_string()), None];
    assert_eq!(detect_ios_version(&plists), None);
    let mut info = blank_info();
    detect_ios_info(&mut info, false, &plists);
    assert!(!info.is_jailbroken);
    assert_eq!(
        version_and_distribution(&info),
        ("Unknown iOS version".to_string(), "iOS Device".to_string())
    );
    let mut info = blank_info();
    info.os_version = "17.0".to_string();
    info.distribution = "iPad".to_string();
    detect_ios_info(&mut info, false, &Vec::new());
    assert_eq!(version_and_distribution(&info), ("17.0".to_string(), "iPad".to_string()));
}

#[test]
fn build_properties() {
    let text = "# begin build properties\nro.build.version.release=14\nro.build.version.sdk = 34 \nro.product.manufacturer=Google\nro.product.model=Pixel 8\nnot a property\nro.product.model=Pixel 8 Pro\nx=a=b\n";
    let props = parse_build_properties(text);
    assert_eq!(props.get("ro.build.version.sdk").map(|s| s.as_str()), Some("34"));
    assert_eq!(props.get("ro.product.model").map(|s| s.as_str()), Some("Pixel 8 Pro"));
    assert_eq!(props.get("x").map(|s| s.as_str()), Some("a=b"));
    assert_eq!(props.get("not a property"), None);
    assert_eq!(props.get("# begin build properties"), None);
    let mut info = blank_info();
    detect_android_info(&mut info, false, Some(&props));
    assert_eq!(info.os_version, "Android 14 (API 34)");
    assert_eq!(info.distribution, "Google Pixel 8 Pro");
    assert!(!info.is_termux);
}

#[test]
fn build_property_insert_then_get() {
    let mut props = BuildProps::new();
    props.insert("a".to_string(), "1".to_string());
    props.insert("b".to_string(), "2".to_string());
    props.insert("a".to_string(), "3".to_string());
    assert_eq!(props.get("a").map(|s| s.as_str()), Some("3"));
    assert_eq!(props.get("b").map(|s| s.as_str()), Some("2"));
    assert_eq!(props.get("c"), None);
    assert_eq!(props.get_or_empty("c"), "");
}

#[test]
fn android_info_variants() {
    let run = |termux: bool, props: Option<&BuildProps>| {
        let mut info = blank_info();
        detect_android_info(&mut info, termux, props);
        (info.os_version, info.distribution, info.is_termux)
    };
    let only_sdk = parse_build_properties("ro.build.version.sdk=30\nro.product.manufacturer=Acme\n");
    assert_eq!(run(true, Some(&only_sdk)), ("Android API 30".to_string(), "Acme".to_string(), true));
    let only_release = parse_build_properties("ro.build.version.release=9\nro.product.model=X\n");
    assert_eq!(
        run(false, Some(&only_release)),
        ("Android 9".to_string(), "Android Device".to_string(), false)
    );
    let empty = parse_build_properties("");
    assert_eq!(run(false, Some(&empty)), (String::new(), "Android Device".to_string(), false));
    assert_eq!(run(false, None), (String::new(), "Android Device".to_string(), false));
    let mut info = blank_info();
    info.os_version = "Android 13".to_string();
    info.distribution = "Kept".to_string();
    info.is_termux = true;
    detect_android_info(&mut info, false, None);
    assert_eq!(
        (info.os_version, info.distribution, info.is_termux),
        ("Android 13".to_string(), "Kept".to_string(), true)
    );
    assert_eq!(build_prop_path(0), "/system/build.prop");
    assert_eq!(build_prop_path(2), "/prop.default");
}
