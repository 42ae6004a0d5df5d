//! The report that the program prints: a banner, then one line per fact, the
//! optional facts only when they are known.
use vstd::prelude::*;
use crate::gpu::texts;
use crate::number::{decimal, push_decimal};
use crate::size::{format_bytes, format_bytes_text};

verus! {

/// The top border of the banner.
pub const TOP_BORDER: &'static str = "╔══════════════════════════════════════════════════════════════╗";

/// The title line of the banner.
pub const TITLE: &'static str = "║                    SYSTEM INFORMATION                        ║";

/// The bottom border of the banner.
pub const BOTTOM_BORDER: &'static str = "╚══════════════════════════════════════════════════════════════╝";

/// The label before the host name.
pub const HOSTNAME_LABEL: &'static str = "🖥️ Hostname:            ";

/// The label before the operating system.
pub const OS_LABEL: &'static str = "💿 Operating System:    ";

/// The label before the OS version.
pub const OS_VERSION_LABEL: &'static str = "📌 OS Version:          ";

/// The label before the distribution.
pub const DISTRIBUTION_LABEL: &'static str = "📦 Distribution:        ";

/// The line shown inside Termux.
pub const TERMUX_LINE: &'static str = "📱 Termux Environment:  Yes";

/// The line shown on a jailbroken device.
pub const JAILBROKEN_LINE: &'static str = "⚠️  Jailbroken:          Yes";

/// The label before the architecture.
pub const ARCH_LABEL: &'static str = "🔧 Architecture:        ";

/// The label before the byte order.
pub const ENDIANNESS_LABEL: &'static str = "📊 Endianness:          ";

/// The label before the number of processor cores.
pub const CORES_LABEL: &'static str = "💻 CPU Cores:           ";

/// The label before the processor speed.
pub const CPU_SPEED_LABEL: &'static str = "⚡ CPU Speed:           ";

/// The label before the first graphics adapter.
pub const GPU_LABEL: &'static str = "🖱️ GPU:                 ";

/// The indentation of the further entries of a list (adapters, addresses).
pub const CONTINUATION: &'static str = "                        ";

/// The label before the total memory.
pub const RAM_LABEL: &'static str = "🧠 Total RAM:           ";

/// The label before the disk usage.
pub const DISK_LABEL: &'static str = "💾 Disk Usage:          ";

/// The label before the first network address.
pub const IP_LABEL: &'static str = "🌐 IP Addresses:        ";

/// Everything the report shows about the machine. The processor speed is kept as
/// the text to show, present only when a speed above zero was found.
pub struct SystemInfo {
    pub os_name: String,
    pub os_version: String,
    pub distribution: String,
    pub arch: String,
    pub endianness: String,
    pub cpu_cores: usize,
    pub cpu_speed: Option<String>,
    pub ram: u64,
    pub hostname: String,
    pub is_termux: bool,
    pub is_jailbroken: bool,
    pub ip_addresses: Vec<String>,
    pub disk_total: u64,
    pub disk_used: u64,
    pub gpu_names: Vec<String>,
}

/// Whether `b` agrees with `a` on every field that the detection of the operating
/// system (version, distribution, Termux and jailbreak marks) leaves alone.
pub open spec fn same_other_fields(a: SystemInfo, b: SystemInfo) -> bool {
    &&& a.os_name == b.os_name
    &&& a.arch == b.arch
    &&& a.endianness == b.endianness
    &&& a.cpu_cores == b.cpu_cores
    &&& a.cpu_speed == b.cpu_speed
    &&& a.ram == b.ram
    &&& a.hostname == b.hostname
    &&& a.ip_addresses == b.ip_addresses
    &&& a.disk_total == b.disk_total
    &&& a.disk_used == b.disk_used
    &&& a.gpu_names == b.gpu_names
}

/// The lines of a list after a label: none for an empty list; else the label and
/// the first item, then each further item indented under it.
pub open spec fn list_lines(label: Seq<char>, items: Seq<Seq<char>>) -> Seq<Seq<char>> {
    if items.len() == 0 {
        Seq::empty()
    } else {
        seq![label + items[0]] + items.skip(1).map_values(|x: Seq<char>| CONTINUATION@ + x)
    }
}

/// The line for the given fact when `shown`, nothing otherwise.
pub open spec fn line_if(shown: bool, line: Seq<char>) -> Seq<Seq<char>> {
    if shown {
        seq![line]
    } else {
        Seq::empty()
    }
}

/// The share of the disk in use, in whole percent, rounded down.
pub open spec fn disk_percent(used: u64, total: u64) -> nat {
    (100 * used as int / total as int) as nat
}

/// The disk usage line: used and total sizes and the share in use.
pub open spec fn disk_line(used: u64, total: u64) -> Seq<char> {
    DISK_LABEL@ + format_bytes_text(used) + " / "@ + format_bytes_text(total) + " ("@ + decimal(
        disk_percent(used, total),
    ) + "%)"@
}

/// The lines of the report for `info`: the banner and an empty line; host name and
/// operating system; the OS version when known; the distribution when known and
/// other than the operating system's name; the Termux and jailbreak marks when set;
/// architecture, byte order and cores; the processor speed when known; the graphics
/// adapters; the total memory; the disk usage when the disk size is known; the
/// network addresses.
pub open spec fn report_text(info: SystemInfo) -> Seq<Seq<char>> {
    seq![TOP_BORDER@, TITLE@, BOTTOM_BORDER@, Seq::empty()]
        + seq![HOSTNAME_LABEL@ + info.hostname@, OS_LABEL@ + info.os_name@]
        + line_if(info.os_version@.len() > 0, OS_VERSION_LABEL@ + info.os_version@)
        + line_if(
        info.distribution@.len() > 0 && info.distribution@ != info.os_name@,
        DISTRIBUTION_LABEL@ + info.distribution@,
    ) + line_if(info.is_termux, TERMUX_LINE@) + line_if(info.is_jailbroken, JAILBROKEN_LINE@)
        + seq![
        ARCH_LABEL@ + info.arch@,
        ENDIANNESS_LABEL@ + info.endianness@,
        CORES_LABEL@ + decimal(info.cpu_cores as nat),
    ] + match info.cpu_speed {
        Some(s) => seq![CPU_SPEED_LABEL@ + s@],
        None => Seq::empty(),
    } + list_lines(GPU_LABEL@, texts(info.gpu_names@)) + seq![
        RAM_LABEL@ + format_bytes_text(info.ram),
    ] + line_if(info.disk_total > 0, disk_line(info.disk_used, info.disk_total)) + list_lines(
        IP_LABEL@,
        texts(info.ip_addresses@),
    )
}

/// `label` followed by `value`.
fn labeled(label: &str, value: &str) -> (res: String)
    ensures
        res@ == label@ + value@,
{
    let mut r = label.to_string();
    r.append(value);
    r
}

/// Appends the lines of a list after a label (see `list_lines`).
fn push_list(out: &mut Vec<String>, label: &str, items: &Vec<String>)
    ensures
        texts(final(out)@) == texts(old(out)@) + list_lines(label@, texts(items@)),
{
    if items.len() == 0 {
        assert(texts(out@) + Seq::<Seq<char>>::empty() == texts(out@));
        return;
    }
    let ghost start = texts(out@);
    let ghost rest = texts(items@).skip(1).map_values(|x: Seq<char>| CONTINUATION@ + x);
    let first = labeled(label, items[0].as_str());
    out.push(first);
    assert(texts(out@) == start + seq![first@]);
    let mut i: usize = 1;
    while i < items.len()
        invariant
            1 <= i <= items@.len(),
            rest == texts(items@).skip(1).map_values(|x: Seq<char>| CONTINUATION@ + x),
            texts(out@) == start + seq![label@ + items@[0]@] + rest.take(i - 1),
        decreases items@.len() - i,
    {
        let line = labeled(CONTINUATION, items[i].as_str());
        let ghost before = out@;
        out.push(line);
        proof {
            assert(texts(out@) == texts(before).push(line@));
            assert(rest[i - 1] == CONTINUATION@ + items@[i as int]@);
            assert(rest.take(i as int) == rest.take(i - 1).push(rest[i - 1]));
        }
        i = i + 1;
    }
    assert(rest.take(i - 1) == rest);
}

/// Appends one line.
fn push_line(out: &mut Vec<String>, line: String)
    ensures
        texts(final(out)@) == texts(old(out)@) + seq![line@],
{
    let ghost before = out@;
    out.push(line);
    assert(texts(out@) == texts(before).push(line@));
}

/// The lines of the report for `info` (see `report_text`). The disk share is
/// computed as `100 * used / total`, so `100 * used` must fit in a `u64` when the
/// total is known.
pub fn report_lines(info: &SystemInfo) -> (res: Vec<String>)
    requires
        info.disk_total > 0 ==> 100 * info.disk_used <= u64::MAX,
    ensures
        texts(res@) == report_text(*info),
{
    let mut out: Vec<String> = Vec::new();
    assert(texts(out@) == Seq::<Seq<char>>::empty());
    push_line(&mut out, TOP_BORDER.to_string());
    push_line(&mut out, TITLE.to_string());
    push_line(&mut out, BOTTOM_BORDER.to_string());
    push_line(&mut out, String::new());
    push_line(&mut out, labeled(HOSTNAME_LABEL, info.hostname.as_str()));
    push_line(&mut out, labeled(OS_LABEL, info.os_name.as_str()));
    let ghost head = texts(out@);
    assert(head == seq![TOP_BORDER@, TITLE@, BOTTOM_BORDER@, Seq::empty()]
        + seq![HOSTNAME_LABEL@ + info.hostname@, OS_LABEL@ + info.os_name@]);
    if !info.os_version.as_str().is_empty() {
        push_line(&mut out, labeled(OS_VERSION_LABEL, info.os_version.as_str()));
    }
    let ghost s1 = texts(out@);
    assert(s1 == head + line_if(info.os_version@.len() > 0, OS_VERSION_LABEL@ + info.os_version@));
    if !info.distribution.as_str().is_empty() && !info.distribution.eq(&info.os_name) {
        push_line(&mut out, labeled(DISTRIBUTION_LABEL, info.distribution.as_str()));
    }
    let ghost s2 = texts(out@);
    assert(s2 == s1 + line_if(
        info.distribution@.len() > 0 && info.distribution@ != info.os_name@,
        DISTRIBUTION_LABEL@ + info.distribution@,
    ));
    if info.is_termux {
        push_line(&mut out, TERMUX_LINE.to_string());
    }
    let ghost s3 = texts(out@);
    assert(s3 == s2 + line_if(info.is_termux, TERMUX_LINE@));
    if info.is_jailbroken {
        push_line(&mut out, JAILBROKEN_LINE.to_string());
    }
    let ghost s4 = texts(out@);
    assert(s4 == s3 + line_if(info.is_jailbroken, JAILBROKEN_LINE@));
    push_line(&mut out, labeled(ARCH_LABEL, info.arch.as_str()));
    push_line(&mut out, labeled(ENDIANNESS_LABEL, info.endianness.as_str()));
    let mut cores = CORES_LABEL.to_string();
    push_decimal(&mut cores, info.cpu_cores as u64);
    push_line(&mut out, cores);
    let ghost s5 = texts(out@);
    assert(s5 == s4 + seq![
        ARCH_LABEL@ + info.arch@,
        ENDIANNESS_LABEL@ + info.endianness@,
        CORES_LABEL@ + decimal(info.cpu_cores as nat),
    ]);
    if let Some(speed) = &info.cpu_speed {
        push_line(&mut out, labeled(CPU_SPEED_LABEL, speed.as_str()));
    }
    let ghost s6 = texts(out@);
    assert(s6 == s5 + match info.cpu_speed {
        Some(s) => seq![CPU_SPEED_LABEL@ + s@],
        None => Seq::<Seq<char>>::empty(),
    });
    push_list(&mut out, GPU_LABEL, &info.gpu_names);
    let ram = format_bytes(info.ram);
    push_line(&mut out, labeled(RAM_LABEL, ram.as_str()));
    let ghost s7 = texts(out@);
    if info.disk_total > 0 {
        let pct = 100 * info.disk_used / info.disk_total;
        let mut line = labeled(DISK_LABEL, format_bytes(info.disk_used).as_str());
        line.append(" / ");
        line.append(format_bytes(info.disk_total).as_str());
        line.append(" (");
        push_decimal(&mut line, pct);
        line.append("%)");
        push_line(&mut out, line);
    }
    let ghost s8 = texts(out@);
    assert(s8 == s7 + line_if(info.disk_total > 0, disk_line(info.disk_used, info.disk_total)));
    push_list(&mut out, IP_LABEL, &info.ip_addresses);
    out
}

} // verus!
