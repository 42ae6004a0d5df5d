//! macOS and iOS: the product name and version in `SystemVersion.plist`.
use vstd::prelude::*;
use crate::report::{same_other_fields, SystemInfo};
use crate::text::{chars_of, find_str, find_sub, opt_text, string_of};

verus! {

/// What follows the first occurrence of `pat` in `s` (`str::split_once(pat).1`).
pub open spec fn after_first(s: Seq<char>, pat: Seq<char>) -> Option<Seq<char>> {
    match find_sub(s, pat) {
        Some(i) => Some(s.skip(i + pat.len())),
        None => None,
    }
}

/// The text of the `<string>` element that follows `<key>key</key>` in a plist:
/// what lies between the first `<string>` after the first such key and the next
/// `</string>`; nothing when one of the three is missing.
pub open spec fn plist_value(content: Seq<char>, key: Seq<char>) -> Option<Seq<char>> {
    match after_first(content, "<key>"@ + key + "</key>"@) {
        None => None,
        Some(a) => match after_first(a, "<string>"@) {
            None => None,
            Some(b) => match find_sub(b, "</string>"@) {
                Some(i) => Some(b.take(i)),
                None => None,
            },
        },
    }
}

/// The bounds of what follows the first occurrence of `pat` in `cs[lo..hi]`.
fn after_first_range(cs: &Vec<char>, lo: usize, hi: usize, pat: &Vec<char>) -> (res: Option<usize>)
    requires
        lo <= hi <= cs@.len(),
    ensures
        match res {
            Some(a) => lo <= a <= hi && after_first(cs@.subrange(lo as int, hi as int), pat@)
                == Some(cs@.subrange(a as int, hi as int)),
            None => after_first(cs@.subrange(lo as int, hi as int), pat@) is None,
        },
{
    match find_str(cs, lo, hi, pat) {
        Some(i) => {
            proof {
                crate::text::lemma_find_sub_fits(cs@.subrange(lo as int, hi as int), pat@);
                assert(cs@.subrange(lo as int, hi as int).skip(i - lo + pat@.len())
                    == cs@.subrange(i + pat@.len(), hi as int));
            }
            Some(i + pat.len())
        },
        None => None,
    }
}

/// The plist value of `key` in `content` (see `plist_value`), or an empty string
/// when there is none.
pub fn extract_plist_value(content: &str, key: &str) -> (res: String)
    ensures
        res@ == match plist_value(content@, key@) {
            Some(v) => v,
            None => Seq::empty(),
        },
{
    let mut marker = "<key>".to_string();
    marker.append(key);
    marker.append("</key>");
    let cs = chars_of(content);
    let m = chars_of(marker.as_str());
    let open_tag = chars_of("<string>");
    let close_tag = chars_of("</string>");
    assert(cs@.subrange(0, cs@.len() as int) == cs@);
    let a = match after_first_range(&cs, 0, cs.len(), &m) {
        Some(a) => a,
        None => return String::new(),
    };
    let b = match after_first_range(&cs, a, cs.len(), &open_tag) {
        Some(b) => b,
        None => return String::new(),
    };
    match find_str(&cs, b, cs.len(), &close_tag) {
        Some(i) => {
            assert(cs@.subrange(b as int, cs@.len() as int).take(i - b) == cs@.subrange(
                b as int,
                i as int,
            ));
            string_of(&cs, b, i)
        },
        None => String::new(),
    }
}

/// A plist value, or empty text when there is none.
pub open spec fn plist_text(content: Seq<char>, key: Seq<char>) -> Seq<char> {
    match plist_value(content, key) {
        Some(v) => v,
        None => Seq::empty(),
    }
}

/// The path of the macOS version plist.
pub fn macos_version_plist_path() -> (res: &'static str)
    ensures
        res@ == "/System/Library/CoreServices/SystemVersion.plist"@,
{
    "/System/Library/CoreServices/SystemVersion.plist"
}

/// The macOS version and distribution after reading the version plist (or failing
/// to), given those known before: with a plist, its `ProductVersion` value and its
/// `ProductName` value; without one, the earlier values; the distribution becomes
/// `macOS` when it would be empty.
pub open spec fn macos_info(
    plist: Option<Seq<char>>,
    old_version: Seq<char>,
    old_distribution: Seq<char>,
) -> (Seq<char>, Seq<char>) {
    let version = match plist {
        Some(c) => plist_text(c, "ProductVersion"@),
        None => old_version,
    };
    let name = match plist {
        Some(c) => plist_text(c, "ProductName"@),
        None => old_distribution,
    };
    (version, if name.len() == 0 { "macOS"@ } else { name })
}

/// Sets the OS version and the distribution of a Mac from the text of its version
/// plist when it could be read (see `macos_info`); nothing else changes.
pub fn detect_macos_info(info: &mut SystemInfo, plist: Option<&str>)
    ensures
        (final(info).os_version@, final(info).distribution@) == macos_info(
            match plist {
                Some(c) => Some(c@),
                None => None,
            },
            old(info).os_version@,
            old(info).distribution@,
        ),
        final(info).is_termux == old(info).is_termux,
        final(info).is_jailbroken == old(info).is_jailbroken,
        same_other_fields(*old(info), *final(info)),
{
    if let Some(c) = plist {
        info.os_version = extract_plist_value(c, "ProductVersion");
        info.distribution = extract_plist_value(c, "ProductName");
    }
    if info.distribution.as_str().is_empty() {
        info.distribution = "macOS".to_string();
    }
}

/// The number of version plists that are tried on iOS, in order.
pub const IOS_PLIST_COUNT: usize = 2;

/// The path of the iOS version plist of index `i`.
pub open spec fn ios_plist_path_text(i: nat) -> Seq<char> {
    if i == 0 {
        "/System/Library/CoreServices/SystemVersion.plist"@
    } else {
        "/AppleInternal/Library/SystemVersion.plist"@
    }
}

/// The path of the iOS version plist of index `i`.
pub fn ios_plist_path(i: usize) -> (res: &'static str)
    requires
        i < IOS_PLIST_COUNT,
    ensures
        res@ == ios_plist_path_text(i as nat),
{
    if i == 0 {
        "/System/Library/CoreServices/SystemVersion.plist"
    } else {
        "/AppleInternal/Library/SystemVersion.plist"
    }
}

/// The first non-empty `ProductVersion` value among the texts of the version plists
/// that could be read, in the order tried.
pub open spec fn first_product_version(plists: Seq<Option<Seq<char>>>) -> Option<Seq<char>>
    decreases plists.len(),
{
    if plists.len() == 0 {
        None
    } else {
        let v = match plists[0] {
            Some(c) => plist_text(c, "ProductVersion"@),
            None => Seq::empty(),
        };
        if v.len() > 0 {
            Some(v)
        } else {
            first_product_version(plists.drop_first())
        }
    }
}

/// What `first_product_version` finds is not empty.
proof fn lemma_first_product_version_non_empty(plists: Seq<Option<Seq<char>>>)
    ensures
        first_product_version(plists) matches Some(v) ==> v.len() > 0,
    decreases plists.len(),
{
    if plists.len() > 0 {
        lemma_first_product_version_non_empty(plists.drop_first());
    }
}

/// The first non-empty `ProductVersion` value among the texts of the version plists,
/// in the order tried, each `None` when it could not be read.
pub fn detect_ios_version(plists: &Vec<Option<String>>) -> (res: Option<String>)
    ensures
        opt_text(res) == first_product_version(
            plists@.map_values(|o: Option<String>| opt_text(o)),
        ),
{
    let ghost all = plists@.map_values(|o: Option<String>| opt_text(o));
    let mut i: usize = 0;
    assert(all.skip(0) == all);
    while i < plists.len()
        invariant
            i <= plists@.len(),
            all == plists@.map_values(|o: Option<String>| opt_text(o)),
            first_product_version(all) == first_product_version(all.skip(i as int)),
        decreases plists@.len() - i,
    {
        proof {
            assert(all.skip(i as int)[0] == opt_text(plists@[i as int]));
            assert(all.skip(i as int).drop_first() == all.skip(i + 1));
        }
        match &plists[i] {
            Some(c) => {
                let v = extract_plist_value(c.as_str(), "ProductVersion");
                if !v.as_str().is_empty() {
                    return Some(v);
                }
            },
            None => {},
        }
        i = i + 1;
    }
    assert(all.skip(i as int).len() == 0);
    None
}

/// The iOS version and device after reading the version plists, given those known
/// before: the first non-empty `ProductVersion`, else the earlier version, else
/// `Unknown iOS version`; the earlier device, else `iOS Device`.
pub open spec fn ios_info(
    plists: Seq<Option<Seq<char>>>,
    old_version: Seq<char>,
    old_distribution: Seq<char>,
) -> (Seq<char>, Seq<char>) {
    let version = match first_product_version(plists) {
        Some(v) => v,
        None => if old_version.len() > 0 {
            old_version
        } else {
            "Unknown iOS version"@
        },
    };
    (version, if old_distribution.len() > 0 { old_distribution } else { "iOS Device"@ })
}

/// Sets the jailbreak mark, the OS version and the device of an iOS system from the
/// answer of `check_jailbreak` and the texts of the version plists, in the order
/// tried, each `None` when it could not be read (see `ios_info`); nothing else
/// changes.
pub fn detect_ios_info(info: &mut SystemInfo, jailbroken: bool, plists: &Vec<Option<String>>)
    ensures
        final(info).is_jailbroken == jailbroken,
        (final(info).os_version@, final(info).distribution@) == ios_info(
            plists@.map_values(|o: Option<String>| opt_text(o)),
            old(info).os_version@,
            old(info).distribution@,
        ),
        final(info).is_termux == old(info).is_termux,
        same_other_fields(*old(info), *final(info)),
{
    info.is_jailbroken = jailbroken;
    proof {
        lemma_first_product_version_non_empty(plists@.map_values(|o: Option<String>| opt_text(o)));
    }
    if let Some(v) = detect_ios_version(plists) {
        info.os_version = v;
    }
    if info.os_version.as_str().is_empty() {
        info.os_version = "Unknown iOS version".to_string();
    }
    if info.distribution.as_str().is_empty() {
        info.distribution = "iOS Device".to_string();
    }
}

} // verus!
