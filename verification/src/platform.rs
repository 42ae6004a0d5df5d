//! The machine itself: architecture label, byte order, operating-system family,
//! host name, and the file-system marks of Termux and of a jailbroken iOS device.
use vstd::prelude::*;
use vstd::endian::{endianness, Endian};
use crate::report::{same_other_fields, SystemInfo};
use crate::text::{lossy_utf8, str_eq, text_from_bytes_lossy};

verus! {

/// The conventional label of an architecture name: `amd64` for `x86_64`, `arm64` for
/// `aarch64`, `i386` for `x86`, and the name itself otherwise.
pub open spec fn arch_label(arch: Seq<char>) -> Seq<char> {
    if arch == "x86_64"@ {
        "amd64"@
    } else if arch == "aarch64"@ {
        "arm64"@
    } else if arch == "x86"@ {
        "i386"@
    } else {
        arch
    }
}

/// The conventional label of the architecture name `arch` (see `arch_label`).
pub fn normalize_arch(arch: &str) -> (res: String)
    ensures
        res@ == arch_label(arch@),
{
    if str_eq(arch, "x86_64") {
        "amd64".to_string()
    } else if str_eq(arch, "aarch64") {
        "arm64".to_string()
    } else if str_eq(arch, "x86") {
        "i386".to_string()
    } else {
        arch.to_string()
    }
}

/// Labelling is idempotent: a label is its own label.
pub proof fn law_arch_label_idempotent(arch: Seq<char>)
    ensures
        arch_label(arch_label(arch)) == arch_label(arch),
{
    reveal_strlit("x86_64");
    reveal_strlit("aarch64");
    reveal_strlit("x86");
    reveal_strlit("amd64");
    reveal_strlit("arm64");
    reveal_strlit("i386");
}

/// The first byte of `x` in the machine's byte order (`u32::to_ne_bytes(x)[0]`).
/// Claimed of it: on a little-endian machine that byte is the least significant byte
/// of `x`, on a big-endian one the most significant.
#[verifier::external_body]
fn first_native_byte(x: u32) -> (b: u8)
    ensures
        b == (if endianness() == Endian::Little {
            x % 256
        } else {
            x / 16777216
        }),
{
    x.to_ne_bytes()[0]
}

/// The byte-order label for the first native byte of `0x01020304`: little endian
/// when it is `0x04`.
pub fn endianness_label(first_byte: u8) -> (res: &'static str)
    ensures
        res@ == if first_byte == 4 {
            "Little Endian"@
        } else {
            "Big Endian"@
        },
{
    if first_byte == 0x04 {
        "Little Endian"
    } else {
        "Big Endian"
    }
}

/// The machine's byte order, found at run time from how `0x01020304` is laid out.
pub fn get_endianness() -> (res: &'static str)
    ensures
        res@ == (if endianness() == Endian::Little {
            "Little Endian"@
        } else {
            "Big Endian"@
        }),
{
    let b = first_native_byte(0x01020304);
    endianness_label(b)
}

/// The operating-system families that the program tells apart.
#[derive(Clone, Copy, Debug, PartialEq, Eq)]
pub enum OsKind {
    Linux,
    MacOs,
    Windows,
    Android,
    Ios,
    Other,
}

/// The family of the operating system named `os` (as `std::env::consts::OS` names it).
pub open spec fn os_kind_of(os: Seq<char>) -> OsKind {
    if os == "linux"@ {
        OsKind::Linux
    } else if os == "macos"@ {
        OsKind::MacOs
    } else if os == "windows"@ {
        OsKind::Windows
    } else if os == "android"@ {
        OsKind::Android
    } else if os == "ios"@ {
        OsKind::Ios
    } else {
        OsKind::Other
    }
}

/// The family of the operating system named `os` (see `os_kind_of`).
pub fn os_kind(os: &str) -> (res: OsKind)
    ensures
        res == os_kind_of(os@),
{
    if str_eq(os, "linux") {
        OsKind::Linux
    } else if str_eq(os, "macos") {
        OsKind::MacOs
    } else if str_eq(os, "windows") {
        OsKind::Windows
    } else if str_eq(os, "android") {
        OsKind::Android
    } else if str_eq(os, "ios") {
        OsKind::Ios
    } else {
        OsKind::Other
    }
}

impl OsKind {
    /// Whether processor speed and memory come from the Linux `/proc` and `/sys` files
    /// (Linux and Android).
    pub fn reads_proc_files(&self) -> (res: bool)
        ensures
            res == (*self == OsKind::Linux || *self == OsKind::Android),
    {
        match self {
            OsKind::Linux | OsKind::Android => true,
            _ => false,
        }
    }

    /// Whether processor speed and memory come from `sysctl` (macOS and iOS).
    pub fn reads_sysctl(&self) -> (res: bool)
        ensures
            res == (*self == OsKind::MacOs || *self == OsKind::Ios),
    {
        match self {
            OsKind::MacOs | OsKind::Ios => true,
            _ => false,
        }
    }

    /// Whether interface addresses come from `getifaddrs` (every family but Windows
    /// and the unknown ones).
    pub fn lists_posix_interfaces(&self) -> (res: bool)
        ensures
            res == (*self != OsKind::Windows && *self != OsKind::Other),
    {
        match self {
            OsKind::Windows | OsKind::Other => false,
            _ => true,
        }
    }
}

/// Whether something exists at the path `p` (`std::path::Path::exists`). Nothing is
/// claimed of the result: it depends on the file system.
#[verifier::external_body]
fn path_exists(p: &str) -> bool {
    std::path::Path::new(p).exists()
}

/// The number of paths whose presence marks a jailbroken iOS device.
pub const JAILBREAK_PATH_COUNT: usize = 7;

/// The path of index `i` whose presence marks a jailbroken iOS device.
pub open spec fn jailbreak_path_text(i: nat) -> Seq<char> {
    if i == 0 {
        "/Applications/Cydia.app"@
    } else if i == 1 {
        "/Applications/Sileo.app"@
    } else if i == 2 {
        "/usr/bin/ssh"@
    } else if i == 3 {
        "/etc/apt"@
    } else if i == 4 {
        "/var/lib/apt"@
    } else if i == 5 {
        "/private/var/lib/apt"@
    } else {
        "/private/var/stash"@
    }
}

/// The path of index `i` whose presence marks a jailbroken iOS device.
pub fn jailbreak_path(i: usize) -> (res: &'static str)
    requires
        i < JAILBREAK_PATH_COUNT,
    ensures
        res@ == jailbreak_path_text(i as nat),
{
    if i == 0 { "/Applications/Cydia.app" }
    else if i == 1 { "/Applications/Sileo.app" }
    else if i == 2 { "/usr/bin/ssh" }
    else if i == 3 { "/etc/apt" }
    else if i == 4 { "/var/lib/apt" }
    else if i == 5 { "/private/var/lib/apt" }
    else { "/private/var/stash" }
}

/// Whether a device is jailbroken, given for each jailbreak mark in order (see
/// `jailbreak_path`) whether it exists: whether any of them does.
pub fn jailbreak_from_marks(present: &Vec<bool>) -> (res: bool)
    ensures
        res == present@.contains(true),
{
    let mut i: usize = 0;
    while i < present.len()
        invariant
            i <= present@.len(),
            forall|j: int| 0 <= j < i ==> !present@[j],
        decreases present@.len() - i,
    {
        if present[i] {
            assert(present@[i as int] == true);
            return true;
        }
        i = i + 1;
    }
    false
}

/// Whether any of the jailbreak marks (see `jailbreak_path`) exists on this machine:
/// each mark is looked up in order, and `jailbreak_from_marks` decides. Which marks
/// exist depends on the file system, so nothing is stated of the answer.
pub fn check_jailbreak() -> bool {
    let mut present: Vec<bool> = Vec::new();
    let mut i: usize = 0;
    while i < JAILBREAK_PATH_COUNT
        invariant
            i <= JAILBREAK_PATH_COUNT,
            present@.len() == i,
        decreases JAILBREAK_PATH_COUNT - i,
    {
        present.push(path_exists(jailbreak_path(i)));
        i = i + 1;
    }
    jailbreak_from_marks(&present)
}

/// The directory whose presence shows that the program runs inside Termux.
pub fn termux_path() -> (res: &'static str)
    ensures
        res@ == "/data/data/com.termux"@,
{
    "/data/data/com.termux"
}

/// Whether the program runs inside Termux, from the presence of `termux_path()`.
/// The answer depends on the file system, so nothing is stated of it.
pub fn detect_termux() -> bool {
    path_exists(termux_path())
}

/// The bytes of `buf` before its first zero byte (all of them when it has none).
pub open spec fn c_string_bytes(buf: Seq<u8>) -> Seq<u8>
    decreases buf.len(),
{
    if buf.len() == 0 || buf[0] == 0 {
        Seq::empty()
    } else {
        seq![buf[0]] + c_string_bytes(buf.drop_first())
    }
}

/// The bounds of `c_string_bytes`: the index of the first zero byte, or the length.
fn c_string_len(buf: &[u8]) -> (res: usize)
    ensures
        res <= buf@.len(),
        buf@.take(res as int) == c_string_bytes(buf@),
{
    let mut i: usize = 0;
    while i < buf.len()
        invariant
            i <= buf@.len(),
            forall|j: int| 0 <= j < i ==> buf@[j] != 0,
        ensures
            i <= buf@.len(),
            forall|j: int| 0 <= j < i ==> buf@[j] != 0,
            i == buf@.len() || buf@[i as int] == 0,
        decreases buf@.len() - i,
    {
        if buf[i] == 0 {
            break;
        }
        i = i + 1;
    }
    proof {
        lemma_c_string_bytes(buf@, i as int);
    }
    i
}

/// `c_string_bytes` stops at the first zero byte.
proof fn lemma_c_string_bytes(buf: Seq<u8>, n: int)
    requires
        0 <= n <= buf.len(),
        forall|j: int| 0 <= j < n ==> buf[j] != 0,
        n == buf.len() || buf[n] == 0,
    ensures
        buf.take(n) == c_string_bytes(buf),
    decreases buf.len(),
{
    if n > 0 {
        let t = buf.drop_first();
        assert forall|j: int| 0 <= j < n - 1 implies t[j] != 0 by {
            assert(t[j] == buf[j + 1]);
        }
        if n < buf.len() {
            assert(t[n - 1] == buf[n]);
        }
        lemma_c_string_bytes(t, n - 1);
        assert(buf.take(n) == seq![buf[0]] + t.take(n - 1));
    } else {
        assert(buf.take(0) == Seq::<u8>::empty());
    }
}

/// The text of a zero-terminated byte buffer: its bytes before the first zero, read
/// as UTF-8 with replacement of invalid sequences (what `CStr::to_string_lossy`
/// gives).
pub fn c_string_text(buf: &[u8]) -> (res: String)
    ensures
        res@ == lossy_utf8(c_string_bytes(buf@)),
{
    let n = c_string_len(buf);
    let bytes = vstd::slice::slice_subrange(buf, 0, n);
    assert(buf@.subrange(0, n as int) == buf@.take(n as int));
    text_from_bytes_lossy(bytes)
}

/// The host name from the buffer that the system call filled: its zero-terminated
/// text when the call succeeded, `unknown` when it failed.
pub fn hostname_from_buffer(succeeded: bool, buf: &[u8]) -> (res: String)
    ensures
        res@ == if succeeded {
            lossy_utf8(c_string_bytes(buf@))
        } else {
            "unknown"@
        },
{
    if succeeded {
        c_string_text(buf)
    } else {
        "unknown".to_string()
    }
}

/// Sets the OS version and the distribution of a Windows machine: `windows` and
/// `Windows`; nothing else changes.
pub fn detect_windows_info(info: &mut SystemInfo)
    ensures
        final(info).os_version@ == "windows"@,
        final(info).distribution@ == "Windows"@,
        final(info).is_termux == old(info).is_termux,
        final(info).is_jailbroken == old(info).is_jailbroken,
        same_other_fields(*old(info), *final(info)),
{
    info.distribution = "Windows".to_string();
    info.os_version = "windows".to_string();
}

} // verus!
