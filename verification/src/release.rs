//! Naming the Linux distribution from the release files that distributions ship:
//! `/etc/os-release`, `/etc/lsb-release` and the older one-line release files.
use vstd::prelude::*;
use crate::report::{same_other_fields, SystemInfo};
use crate::text::{
    chars_of, find_str, find_sub, find_with, first_with, has_prefix, join_spaced, lines,
    next_token, opt_text, range_equals, spaced, split_lines, starts_with_at, string_of, tokens,
    trim, trim_range, CharClass,
};

verus! {

/// The key and the value of one line of an os-release file: the line without
/// surrounding whitespace, neither empty nor a `#` comment, cut at its first `=`;
/// the value loses the quotation marks at its ends.
pub open spec fn key_value_line(l: Seq<char>) -> Option<(Seq<char>, Seq<char>)> {
    let t = trim(l, CharClass::Whitespace);
    if t.len() == 0 || t[0] == '#' {
        None
    } else {
        let i = first_with(t, CharClass::Is('='), true);
        if i < t.len() {
            Some((t.take(i), trim(t.skip(i + 1), CharClass::Quote)))
        } else {
            None
        }
    }
}

/// The bounds of the key and of the value of the line `cs[lo..hi]` (see `key_value_line`).
pub fn split_key_value(cs: &Vec<char>, lo: usize, hi: usize) -> (res: Option<
    (usize, usize, usize, usize),
>)
    requires
        lo <= hi <= cs@.len(),
    ensures
        match res {
            None => key_value_line(cs@.subrange(lo as int, hi as int)) is None,
            Some((ka, kb, va, vb)) => {
                &&& ka <= kb <= cs@.len()
                &&& va <= vb <= cs@.len()
                &&& key_value_line(cs@.subrange(lo as int, hi as int)) == Some(
                    (cs@.subrange(ka as int, kb as int), cs@.subrange(va as int, vb as int)),
                )
            },
        },
{
    let ghost l = cs@.subrange(lo as int, hi as int);
    let (a, b) = trim_range(cs, lo, hi, CharClass::Whitespace);
    let ghost t = cs@.subrange(a as int, b as int);
    if a == b {
        return None;
    }
    assert(t[0] == cs@[a as int]);
    if cs[a] == '#' {
        return None;
    }
    let e = find_with(cs, a, b, CharClass::Is('='), true);
    if e == b {
        return None;
    }
    let (va, vb) = trim_range(cs, e + 1, b, CharClass::Quote);
    assert(t.take(e - a) == cs@.subrange(a as int, e as int));
    assert(t.skip(e - a + 1) == cs@.subrange(e + 1, b as int));
    Some((a, e, va, vb))
}

/// What one os-release line does to the pretty name, the name and the version
/// gathered so far: `PRETTY_NAME` and `NAME` replace theirs, `VERSION_ID` and
/// `VERSION` fill the version while it is still empty.
pub open spec fn os_release_step(
    st: (Seq<char>, Seq<char>, Seq<char>),
    l: Seq<char>,
) -> (Seq<char>, Seq<char>, Seq<char>) {
    match key_value_line(l) {
        None => st,
        Some((k, v)) => if k == "PRETTY_NAME"@ {
            (v, st.1, st.2)
        } else if k == "NAME"@ {
            (st.0, v, st.2)
        } else if (k == "VERSION_ID"@ || k == "VERSION"@) && st.2.len() == 0 {
            (st.0, st.1, v)
        } else {
            st
        },
    }
}

/// The pretty name, the name and the version after the lines `ls`, in order.
pub open spec fn os_release_scan(ls: Seq<Seq<char>>) -> (Seq<char>, Seq<char>, Seq<char>)
    decreases ls.len(),
{
    if ls.len() == 0 {
        (Seq::empty(), Seq::empty(), Seq::empty())
    } else {
        os_release_step(os_release_scan(ls.drop_last()), ls.last())
    }
}

/// The distribution that an os-release file names: its pretty name; else its name
/// and version; else its name alone; else nothing.
pub open spec fn os_release_name(content: Seq<char>) -> Option<Seq<char>> {
    let st = os_release_scan(lines(content));
    if st.0.len() > 0 {
        Some(st.0)
    } else if st.1.len() > 0 && st.2.len() > 0 {
        Some(spaced(st.1, st.2))
    } else if st.1.len() > 0 {
        Some(st.1)
    } else {
        None
    }
}

/// Names the distribution from the text of an os-release file (see `os_release_name`).
pub fn parse_os_release(content: &str) -> (res: Option<String>)
    ensures
        opt_text(res) == os_release_name(content@),
{
    let cs = chars_of(content);
    let ls = split_lines(&cs);
    let ghost all = lines(cs@);
    let k_pretty = chars_of("PRETTY_NAME");
    let k_name = chars_of("NAME");
    let k_version_id = chars_of("VERSION_ID");
    let k_version = chars_of("VERSION");
    let mut pretty = String::new();
    let mut name = String::new();
    let mut version = String::new();
    let mut i: usize = 0;
    while i < ls.len()
        invariant
            i <= ls@.len() == all.len(),
            all == lines(cs@),
            k_pretty@ == "PRETTY_NAME"@,
            k_name@ == "NAME"@,
            k_version_id@ == "VERSION_ID"@,
            k_version@ == "VERSION"@,
            forall|j: int|
                0 <= j < ls@.len() ==> {
                    &&& (#[trigger] ls@[j]).0 <= ls@[j].1 <= cs@.len()
                    &&& cs@.subrange(ls@[j].0 as int, ls@[j].1 as int) == all[j]
                },
            (pretty@, name@, version@) == os_release_scan(all.take(i as int)),
        decreases ls@.len() - i,
    {
        let (lo, hi) = ls[i];
        proof {
            assert(all.take(i + 1).drop_last() == all.take(i as int));
            assert(all.take(i + 1).last() == all[i as int]);
        }
        match split_key_value(&cs, lo, hi) {
            None => {},
            Some((ka, kb, va, vb)) => {
                if range_equals(&cs, ka, kb, &k_pretty) {
                    pretty = string_of(&cs, va, vb);
                } else if range_equals(&cs, ka, kb, &k_name) {
                    name = string_of(&cs, va, vb);
                } else if (range_equals(&cs, ka, kb, &k_version_id) || range_equals(
                    &cs,
                    ka,
                    kb,
                    &k_version,
                )) && version.as_str().is_empty() {
                    version = string_of(&cs, va, vb);
                }
            },
        }
        i = i + 1;
    }
    assert(all.take(ls@.len() as int) == all);
    if !pretty.as_str().is_empty() {
        Some(pretty)
    } else if !name.as_str().is_empty() && !version.as_str().is_empty() {
        Some(join_spaced(name.as_str(), version.as_str()))
    } else if !name.as_str().is_empty() {
        Some(name)
    } else {
        None
    }
}

/// What one lsb-release line does to the distributor and the release gathered so
/// far: a `DISTRIB_ID=` line sets the first, a `DISTRIB_RELEASE=` line the second,
/// each without the quotation marks at its ends.
pub open spec fn lsb_step(st: (Seq<char>, Seq<char>), l: Seq<char>) -> (Seq<char>, Seq<char>) {
    if has_prefix(l, "DISTRIB_ID="@) {
        (trim(l.skip("DISTRIB_ID="@.len() as int), CharClass::Quote), st.1)
    } else if has_prefix(l, "DISTRIB_RELEASE="@) {
        (st.0, trim(l.skip("DISTRIB_RELEASE="@.len() as int), CharClass::Quote))
    } else {
        st
    }
}

/// The distributor and the release after the lines `ls`, in order.
pub open spec fn lsb_scan(ls: Seq<Seq<char>>) -> (Seq<char>, Seq<char>)
    decreases ls.len(),
{
    if ls.len() == 0 {
        (Seq::empty(), Seq::empty())
    } else {
        lsb_step(lsb_scan(ls.drop_last()), ls.last())
    }
}

/// The distribution that an lsb-release file names: distributor and release; else
/// the distributor alone; else nothing.
pub open spec fn lsb_release_name(content: Seq<char>) -> Option<Seq<char>> {
    let st = lsb_scan(lines(content));
    if st.0.len() > 0 && st.1.len() > 0 {
        Some(spaced(st.0, st.1))
    } else if st.0.len() > 0 {
        Some(st.0)
    } else {
        None
    }
}

/// Names the distribution from the text of an lsb-release file (see `lsb_release_name`).
pub fn parse_lsb_release(content: &str) -> (res: Option<String>)
    ensures
        opt_text(res) == lsb_release_name(content@),
{
    let cs = chars_of(content);
    let ls = split_lines(&cs);
    let ghost all = lines(cs@);
    let p_id = chars_of("DISTRIB_ID=");
    let p_release = chars_of("DISTRIB_RELEASE=");
    let mut distro = String::new();
    let mut release = String::new();
    let mut i: usize = 0;
    while i < ls.len()
        invariant
            i <= ls@.len() == all.len(),
            all == lines(cs@),
            p_id@ == "DISTRIB_ID="@,
            p_release@ == "DISTRIB_RELEASE="@,
            forall|j: int|
                0 <= j < ls@.len() ==> {
                    &&& (#[trigger] ls@[j]).0 <= ls@[j].1 <= cs@.len()
                    &&& cs@.subrange(ls@[j].0 as int, ls@[j].1 as int) == all[j]
                },
            (distro@, release@) == lsb_scan(all.take(i as int)),
        decreases ls@.len() - i,
    {
        let (lo, hi) = ls[i];
        let ghost l = cs@.subrange(lo as int, hi as int);
        proof {
            assert(all.take(i + 1).drop_last() == all.take(i as int));
            assert(all.take(i + 1).last() == all[i as int]);
        }
        if starts_with_at(&cs, lo, hi, &p_id) {
            let (a, b) = trim_range(&cs, lo + p_id.len(), hi, CharClass::Quote);
            assert(l.skip(p_id@.len() as int) == cs@.subrange(lo + p_id@.len(), hi as int));
            distro = string_of(&cs, a, b);
        } else if starts_with_at(&cs, lo, hi, &p_release) {
            let (a, b) = trim_range(&cs, lo + p_release.len(), hi, CharClass::Quote);
            assert(l.skip(p_release@.len() as int) == cs@.subrange(
                lo + p_release@.len(),
                hi as int,
            ));
            release = string_of(&cs, a, b);
        }
        i = i + 1;
    }
    assert(all.take(ls@.len() as int) == all);
    if !distro.as_str().is_empty() && !release.as_str().is_empty() {
        Some(join_spaced(distro.as_str(), release.as_str()))
    } else if !distro.as_str().is_empty() {
        Some(distro)
    } else {
        None
    }
}

/// The first line of `content`, or nothing when it has no line.
pub open spec fn first_line(content: Seq<char>) -> Seq<char> {
    let ls = lines(content);
    if ls.len() > 0 {
        ls[0]
    } else {
        Seq::empty()
    }
}

/// The bounds of the first line of `cs`, or an empty range when it has no line.
pub fn first_line_range(cs: &Vec<char>) -> (res: (usize, usize))
    ensures
        res.0 <= res.1 <= cs@.len(),
        cs@.subrange(res.0 as int, res.1 as int) == first_line(cs@),
{
    let ls = split_lines(cs);
    if ls.len() > 0 {
        ls[0]
    } else {
        assert(cs@.subrange(0, 0) == Seq::<char>::empty());
        (0, 0)
    }
}

/// The part of a release line that names the version: what follows `release ` up to
/// a space, `(` or tab when the line holds `release `, and the whole line otherwise.
pub open spec fn version_in_line(line: Seq<char>) -> Seq<char> {
    match find_sub(line, "release "@) {
        Some(i) => {
            let rest = line.skip(i + "release "@.len());
            let e = first_with(rest, CharClass::ReleaseEnd, true);
            if e < rest.len() {
                rest.take(e)
            } else {
                rest
            }
        },
        None => line,
    }
}

/// The version in a one-line release file: `version_in_line` of its first line
/// without surrounding whitespace.
pub open spec fn simple_release_version(content: Seq<char>) -> Seq<char> {
    version_in_line(trim(first_line(content), CharClass::Whitespace))
}

/// The bounds of `version_in_line` of the line `cs[a..b]`.
fn version_range(cs: &Vec<char>, a: usize, b: usize) -> (res: (usize, usize))
    requires
        a <= b <= cs@.len(),
    ensures
        a <= res.0 <= res.1 <= b,
        cs@.subrange(res.0 as int, res.1 as int) == version_in_line(
            cs@.subrange(a as int, b as int),
        ),
{
    let ghost line = cs@.subrange(a as int, b as int);
    let pat = chars_of("release ");
    match find_str(cs, a, b, &pat) {
        Some(i) => {
            proof {
                crate::text::lemma_find_sub_fits(line, pat@);
            }
            let start = i + pat.len();
            let e = find_with(cs, start, b, CharClass::ReleaseEnd, true);
            proof {
                let rest = line.skip(i - a + pat@.len());
                assert(rest == cs@.subrange(start as int, b as int));
                assert(rest.take(e - start) == cs@.subrange(start as int, e as int));
            }
            (start, e)
        },
        None => (a, b),
    }
}

/// The version in the text of a one-line release file (see `simple_release_version`).
pub fn parse_simple_release(content: &str) -> (res: String)
    ensures
        res@ == simple_release_version(content@),
{
    let cs = chars_of(content);
    let (lo, hi) = first_line_range(&cs);
    let (a, b) = trim_range(&cs, lo, hi, CharClass::Whitespace);
    let (c, d) = version_range(&cs, a, b);
    string_of(&cs, c, d)
}

/// The number of one-line release files that are tried, in order.
pub const RELEASE_FILE_COUNT: usize = 8;

/// The path of the one-line release file of index `i`.
pub open spec fn release_file_path_text(i: nat) -> Seq<char> {
    if i == 0 {
        "/etc/redhat-release"@
    } else if i == 1 {
        "/etc/centos-release"@
    } else if i == 2 {
        "/etc/fedora-release"@
    } else if i == 3 {
        "/etc/debian_version"@
    } else if i == 4 {
        "/etc/arch-release"@
    } else if i == 5 {
        "/etc/gentoo-release"@
    } else if i == 6 {
        "/etc/SuSE-release"@
    } else {
        "/etc/alpine-release"@
    }
}

/// The distribution that the one-line release file of index `i` belongs to.
pub open spec fn release_file_name_text(i: nat) -> Seq<char> {
    if i == 0 {
        "Red Hat Enterprise Linux"@
    } else if i == 1 {
        "CentOS"@
    } else if i == 2 {
        "Fedora"@
    } else if i == 3 {
        "Debian"@
    } else if i == 4 {
        "Arch Linux"@
    } else if i == 5 {
        "Gentoo"@
    } else if i == 6 {
        "openSUSE"@
    } else {
        "Alpine Linux"@
    }
}

/// The path of the one-line release file of index `i`.
pub fn release_file_path(i: usize) -> (res: &'static str)
    requires
        i < RELEASE_FILE_COUNT,
    ensures
        res@ == release_file_path_text(i as nat),
{
    if i == 0 { "/etc/redhat-release" }
    else if i == 1 { "/etc/centos-release" }
    else if i == 2 { "/etc/fedora-release" }
    else if i == 3 { "/etc/debian_version" }
    else if i == 4 { "/etc/arch-release" }
    else if i == 5 { "/etc/gentoo-release" }
    else if i == 6 { "/etc/SuSE-release" }
    else { "/etc/alpine-release" }
}

/// The distribution that the one-line release file of index `i` belongs to.
pub fn release_file_name(i: usize) -> (res: &'static str)
    requires
        i < RELEASE_FILE_COUNT,
    ensures
        res@ == release_file_name_text(i as nat),
{
    if i == 0 { "Red Hat Enterprise Linux" }
    else if i == 1 { "CentOS" }
    else if i == 2 { "Fedora" }
    else if i == 3 { "Debian" }
    else if i == 4 { "Arch Linux" }
    else if i == 5 { "Gentoo" }
    else if i == 6 { "openSUSE" }
    else { "Alpine Linux" }
}

/// The distribution that the release file of index `i` with text `content` names:
/// Arch is always the rolling release; Debian's file holds just the version on its
/// first line; the others go by `simple_release_version`.
pub open spec fn release_file_distribution(i: nat, content: Seq<char>) -> Seq<char> {
    let name = release_file_name_text(i);
    if i == 4 {
        "Arch Linux (Rolling Release)"@
    } else if i == 3 {
        let ver = trim(first_line(content), CharClass::Whitespace);
        if ver.len() == 0 {
            name
        } else {
            spaced(name, ver)
        }
    } else {
        let v = simple_release_version(content);
        if v.len() == 0 {
            name
        } else {
            spaced(name, v)
        }
    }
}

/// Names the distribution from the release file of index `i` with text `content`
/// (see `release_file_distribution`).
pub fn distribution_from_release_file(i: usize, content: &str) -> (res: String)
    requires
        i < RELEASE_FILE_COUNT,
    ensures
        res@ == release_file_distribution(i as nat, content@),
{
    let name = release_file_name(i);
    if i == 4 {
        return "Arch Linux (Rolling Release)".to_string();
    }
    if i == 3 {
        let cs = chars_of(content);
        let (lo, hi) = first_line_range(&cs);
        let (a, b) = trim_range(&cs, lo, hi, CharClass::Whitespace);
        if a == b {
            return name.to_string();
        }
        let ver = string_of(&cs, a, b);
        return join_spaced(name, ver.as_str());
    }
    let v = parse_simple_release(content);
    if v.as_str().is_empty() {
        name.to_string()
    } else {
        join_spaced(name, v.as_str())
    }
}

/// The distribution that the machine's release files name, trying in turn the
/// os-release text, the lsb-release text and the first one-line release file that
/// could be read (its index and text); `Linux` when none of them names one.
pub open spec fn linux_distribution_text(
    os_release: Option<Seq<char>>,
    lsb_release: Option<Seq<char>>,
    release_file: Option<(nat, Seq<char>)>,
) -> Seq<char> {
    let from_os = match os_release {
        Some(c) => os_release_name(c),
        None => None,
    };
    let from_lsb = match lsb_release {
        Some(c) => lsb_release_name(c),
        None => None,
    };
    if from_os is Some {
        from_os.unwrap()
    } else if from_lsb is Some {
        from_lsb.unwrap()
    } else {
        match release_file {
            Some((i, c)) => release_file_distribution(i, c),
            None => "Linux"@,
        }
    }
}

/// Names the distribution from the texts of the release files that could be read
/// (see `linux_distribution_text`); `release_file` is the index and the text of the
/// first one-line release file that could be read.
pub fn detect_linux_distribution(
    os_release: Option<&str>,
    lsb_release: Option<&str>,
    release_file: Option<(usize, &str)>,
) -> (res: String)
    requires
        release_file matches Some((i, _)) ==> i < RELEASE_FILE_COUNT,
    ensures
        res@ == linux_distribution_text(
            match os_release {
                Some(c) => Some(c@),
                None => None,
            },
            match lsb_release {
                Some(c) => Some(c@),
                None => None,
            },
            match release_file {
                Some((i, c)) => Some((i as nat, c@)),
                None => None,
            },
        ),
{
    if let Some(c) = os_release {
        if let Some(d) = parse_os_release(c) {
            return d;
        }
    }
    if let Some(c) = lsb_release {
        if let Some(d) = parse_lsb_release(c) {
            return d;
        }
    }
    match release_file {
        Some((i, c)) => distribution_from_release_file(i, c),
        None => "Linux".to_string(),
    }
}

/// The kernel version in the text of `/proc/version`: when the text begins with
/// `Linux version `, the first word after it (empty when there is none).
pub open spec fn kernel_version(content: Seq<char>) -> Option<Seq<char>> {
    if has_prefix(content, "Linux version "@) {
        let ts = tokens(content.skip("Linux version "@.len() as int));
        Some(
            if ts.len() > 0 {
                ts[0]
            } else {
                Seq::empty()
            },
        )
    } else {
        None
    }
}

/// Reads the kernel version from the text of `/proc/version` (see `kernel_version`).
pub fn parse_kernel_version(content: &str) -> (res: Option<String>)
    ensures
        opt_text(res) == kernel_version(content@),
{
    let cs = chars_of(content);
    let pat = chars_of("Linux version ");
    assert(cs@.subrange(0, cs@.len() as int) == cs@);
    if !starts_with_at(&cs, 0, cs.len(), &pat) {
        return None;
    }
    let start = pat.len();
    assert(cs@.skip(pat@.len() as int) == cs@.subrange(start as int, cs@.len() as int));
    match next_token(&cs, start, cs.len()) {
        Some((a, b)) => Some(string_of(&cs, a, b)),
        None => Some(String::new()),
    }
}

/// When the os-release text names a distribution, that name is the answer, whatever
/// the other release files say.
pub proof fn law_os_release_takes_precedence(
    os_release: Seq<char>,
    lsb_release: Option<Seq<char>>,
    release_file: Option<(nat, Seq<char>)>,
)
    requires
        os_release_name(os_release) is Some,
    ensures
        linux_distribution_text(Some(os_release), lsb_release, release_file) == os_release_name(
            os_release,
        ).unwrap(),
{
}

/// Without any release file, the distribution is `Linux`.
pub proof fn law_no_release_files_is_linux()
    ensures
        linux_distribution_text(None, None, None) == "Linux"@,
{
}

/// Sets the kernel version and the distribution of a Linux machine from the texts of
/// `/proc/version`, the os-release file, the lsb-release file and the first one-line
/// release file that could be read (its index and text): the version becomes
/// `kernel_version` of `/proc/version` when that gives one and stays otherwise; the
/// distribution becomes `linux_distribution_text` of the release files; nothing else
/// changes.
pub fn detect_linux_info(
    info: &mut SystemInfo,
    proc_version: Option<&str>,
    os_release: Option<&str>,
    lsb_release: Option<&str>,
    release_file: Option<(usize, &str)>,
)
    requires
        release_file matches Some((i, _)) ==> i < RELEASE_FILE_COUNT,
    ensures
        final(info).os_version@ == match proc_version {
            Some(c) => match kernel_version(c@) {
                Some(v) => v,
                None => old(info).os_version@,
            },
            None => old(info).os_version@,
        },
        final(info).distribution@ == linux_distribution_text(
            match os_release {
                Some(c) => Some(c@),
                None => None,
            },
            match lsb_release {
                Some(c) => Some(c@),
                None => None,
            },
            match release_file {
                Some((i, c)) => Some((i as nat, c@)),
                None => None,
            },
        ),
        final(info).is_termux == old(info).is_termux,
        final(info).is_jailbroken == old(info).is_jailbroken,
        same_other_fields(*old(info), *final(info)),
{
    if let Some(c) = proc_version {
        if let Some(v) = parse_kernel_version(c) {
            info.os_version = v;
        }
    }
    info.distribution = detect_linux_distribution(os_release, lsb_release, release_file);
}

/// The one-line release files and the distributions that ship them, in the order
/// tried: `/etc/redhat-release` names Red Hat Enterprise Linux, `/etc/centos-release`
/// CentOS, `/etc/fedora-release` Fedora, `/etc/debian_version` Debian,
/// `/etc/arch-release` Arch Linux, `/etc/gentoo-release` Gentoo, `/etc/SuSE-release`
/// openSUSE, `/etc/alpine-release` Alpine Linux; no two share a name.
pub proof fn law_release_file_table()
    ensures
        release_file_path_text(0) == "/etc/redhat-release"@ && release_file_name_text(0)
            == "Red Hat Enterprise Linux"@,
        release_file_path_text(1) == "/etc/centos-release"@ && release_file_name_text(1)
            == "CentOS"@,
        release_file_path_text(2) == "/etc/fedora-release"@ && release_file_name_text(2)
            == "Fedora"@,
        release_file_path_text(3) == "/etc/debian_version"@ && release_file_name_text(3)
            == "Debian"@,
        release_file_path_text(4) == "/etc/arch-release"@ && release_file_name_text(4)
            == "Arch Linux"@,
        release_file_path_text(5) == "/etc/gentoo-release"@ && release_file_name_text(5)
            == "Gentoo"@,
        release_file_path_text(6) == "/etc/SuSE-release"@ && release_file_name_text(6)
            == "openSUSE"@,
        release_file_path_text(7) == "/etc/alpine-release"@ && release_file_name_text(7)
            == "Alpine Linux"@,
        forall|i: nat, j: nat|
            i < j < 8 ==> release_file_name_text(i) != release_file_name_text(j),
{
    reveal_strlit("Red Hat Enterprise Linux");
    reveal_strlit("CentOS");
    reveal_strlit("Fedora");
    reveal_strlit("Debian");
    reveal_strlit("Arch Linux");
    reveal_strlit("Gentoo");
    reveal_strlit("openSUSE");
    reveal_strlit("Alpine Linux");
    assert forall|i: nat, j: nat| i < j < 8 implies release_file_name_text(i)
        != release_file_name_text(j) by {
        let a = release_file_name_text(i);
        let b = release_file_name_text(j);
        if a.len() == b.len() {
            assert(a[0] != b[0]);
        }
    }
}

/// The distribution read from `/etc/redhat-release` is `Red Hat Enterprise Linux`,
/// followed by a space and the version when the file gives one.
pub proof fn law_redhat_release_file(content: Seq<char>)
    ensures
        release_file_path_text(0) == "/etc/redhat-release"@,
        release_file_distribution(0, content) == if simple_release_version(content).len() == 0 {
            "Red Hat Enterprise Linux"@
        } else {
            "Red Hat Enterprise Linux"@ + seq![' '] + simple_release_version(content)
        },
        linux_distribution_text(None, None, Some((0, content))) == release_file_distribution(
            0,
            content,
        ),
{
}

} // verus!
