use about_sys::release::{
    detect_linux_distribution, distribution_from_release_file, parse_kernel_version,
    parse_lsb_release, parse_os_release, parse_simple_release, release_file_name,
    release_file_path, RELEASE_FILE_COUNT,
};

#[test]
fn os_release_prefers_pretty_name() {
    let text = "NAME=\"Ubuntu\"\nVERSION_ID=\"26.04\"\nPRETTY_NAME=\"Ubuntu 26.04 LTS\"\n";
    assert_eq!(parse_os_release(text), Some("Ubuntu 26.04 LTS".to_string()));
}

#[test]
fn os_release_name_and_version() {
    let text = "# comment\n\n  NAME='Fedora Linux'  \nVERSION=\"40 (Workstation)\"\nVERSION_ID=40\n";
    assert_eq!(parse_os_release(text), Some("Fedora Linux 40 (Workstation)".to_string()));
}

#[test]
fn os_release_version_id_first_wins() {
    let text = "VERSION_ID=12\r\nNAME=Debian GNU/Linux\r\nVERSION=\"12 (bookworm)\"\r\n";
    assert_eq!(parse_os_release(text), Some("Debian GNU/Linux 12".to_string()));
}

#[test]
fn os_release_name_alone_and_nothing() {
    assert_eq!(parse_os_release("NAME=Alpine\nID=alpine"), Some("Alpine".to_string()));
    assert_eq!(parse_os_release("VERSION_ID=3.19\nID=alpine\n"), None);
    assert_eq!(parse_os_release(""), None);
    assert_eq!(parse_os_release("PRETTY_NAME=\"\"\nNAME=x"), Some("x".to_string()));
}

#[test]
fn lsb_release_fields() {
    let text = "DISTRIB_ID=Ubuntu\nDISTRIB_RELEASE=22.04\nDISTRIB_CODENAME=jammy\n";
    assert_eq!(parse_lsb_release(text), Some("Ubuntu 22.04".to_string()));
    assert_eq!(parse_lsb_release("DISTRIB_ID=\"LinuxMint\"\n"), Some("LinuxMint".to_string()));
    assert_eq!(parse_lsb_release("DISTRIB_RELEASE=1\n"), None);
    assert_eq!(parse_lsb_release(" DISTRIB_ID=x\n"), None);
}

#[test]
fn simple_release_versions() {
    assert_eq!(
        parse_simple_release("Red Hat Enterprise Linux release 9.3 (Plow)\n"),
        "9.3"
    );
    assert_eq!(parse_simple_release("CentOS Linux release 7.9.2009 (Core)"), "7.9.2009");
    assert_eq!(parse_simple_release("Fedora release 39\tx"), "39");
    assert_eq!(parse_simple_release("  3.19.1  \nmore"), "3.19.1");
    assert_eq!(parse_simple_release("something release "), "something release");
    assert_eq!(parse_simple_release("x release (y)"), "");
    assert_eq!(parse_simple_release(""), "");
}

#[test]
fn release_file_table() {
    assert_eq!(RELEASE_FILE_COUNT, 8);
    assert_eq!(release_file_path(0), "/etc/redhat-release");
    assert_eq!(release_file_name(3), "Debian");
    assert_eq!(release_file_path(7), "/etc/alpine-release");
    assert_eq!(release_file_name(7), "Alpine Linux");
}

#[test]
fn release_file_distributions() {
    assert_eq!(distribution_from_release_file(4, "anything"), "Arch Linux (Rolling Release)");
    assert_eq!(distribution_from_release_file(3, " 12.5 \n"), "Debian 12.5");
    assert_eq!(distribution_from_release_file(3, "\n"), "Debian");
    assert_eq!(
        distribution_from_release_file(1, "CentOS Linux release 7.9.2009 (Core)"),
        "CentOS 7.9.2009"
    );
    assert_eq!(distribution_from_release_file(7, "3.19.1\n"), "Alpine Linux 3.19.1");
    assert_eq!(distribution_from_release_file(5, ""), "Gentoo");
}

#[test]
fn distribution_order_of_sources() {
    assert_eq!(
        detect_linux_distribution(Some("PRETTY_NAME=Arch Linux"), Some("DISTRIB_ID=X"), Some((1, "y"))),
        "Arch Linux"
    );
    assert_eq!(
        detect_linux_distribution(Some("ID=x"), Some("DISTRIB_ID=X\nDISTRIB_RELEASE=2"), None),
        "X 2"
    );
    assert_eq!(detect_linux_distribution(None, Some(""), Some((6, "openSUSE 15.5\n"))), "openSUSE openSUSE 15.5");
    assert_eq!(detect_linux_distribution(None, None, None), "Linux");
}

#[test]
fn kernel_versions() {
    assert_eq!(
        parse_kernel_version("Linux version 6.8.0-31-generic (buildd@lcy02) #31\n"),
        Some("6.8.0-31-generic".to_string())
    );
    assert_eq!(parse_kernel_version("Linux version "), Some(String::new()));
    assert_eq!(parse_kernel_version("Linux  version 6"), None);
}
