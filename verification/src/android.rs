//! Android: the build properties (`key=value` lines of `build.prop`) and what they
//! say of the system version and the device.
use vstd::prelude::*;
use crate::report::{same_other_fields, SystemInfo};
use crate::text::{
    chars_of, find_with, first_with, lines, split_lines, str_eq, string_of, trim, trim_range,
    CharClass,
};

verus! {

/// The map that a list of key/value pairs builds when each pair is inserted in
/// turn, a later pair replacing an earlier one of the same key.
pub open spec fn pairs_map(s: Seq<(String, String)>) -> Map<Seq<char>, Seq<char>>
    decreases s.len(),
{
    if s.len() == 0 {
        Map::empty()
    } else {
        pairs_map(s.drop_last()).insert(s.last().0@, s.last().1@)
    }
}

/// Build properties: a map from property names to values.
pub struct BuildProps {
    entries: Vec<(String, String)>,
}

impl View for BuildProps {
    type V = Map<Seq<char>, Seq<char>>;

    closed spec fn view(&self) -> Map<Seq<char>, Seq<char>> {
        pairs_map(self.entries@)
    }
}

impl BuildProps {
    /// An empty set of properties.
    pub fn new() -> (res: Self)
        ensures
            res@ == Map::<Seq<char>, Seq<char>>::empty(),
    {
        BuildProps { entries: Vec::new() }
    }

    /// Sets the property `key` to `value`, replacing any value it had.
    pub fn insert(&mut self, key: String, value: String)
        ensures
            final(self)@ == old(self)@.insert(key@, value@),
    {
        proof {
            let s = self.entries@.push((key, value));
            assert(s.drop_last() == self.entries@);
        }
        self.entries.push((key, value));
    }

    /// The value of the property `key`, if it is set.
    pub fn get(&self, key: &str) -> (res: Option<&String>)
        ensures
            match res {
                Some(v) => self@.contains_key(key@) && self@[key@] == v@,
                None => !self@.contains_key(key@),
            },
    {
        let mut j = self.entries.len();
        assert(self.entries@.take(j as int) == self.entries@);
        while j > 0
            invariant
                j <= self.entries@.len(),
                pairs_map(self.entries@).contains_key(key@) == pairs_map(
                    self.entries@.take(j as int),
                ).contains_key(key@),
                pairs_map(self.entries@).contains_key(key@) ==> pairs_map(self.entries@)[key@]
                    == pairs_map(self.entries@.take(j as int))[key@],
            decreases j,
        {
            let e = &self.entries[j - 1];
            proof {
                let t = self.entries@.take(j as int);
                assert(t.drop_last() == self.entries@.take(j - 1));
                assert(t.last() == self.entries@[j - 1]);
            }
            if str_eq(e.0.as_str(), key) {
                return Some(&e.1);
            }
            j = j - 1;
        }
        assert(self.entries@.take(0) == Seq::<(String, String)>::empty());
        None
    }

    /// The value of the property `key`, or empty text when it is not set.
    pub fn get_or_empty(&self, key: &str) -> (res: String)
        ensures
            res@ == if self@.contains_key(key@) {
                self@[key@]
            } else {
                Seq::empty()
            },
    {
        match self.get(key) {
            Some(v) => v.clone(),
            None => String::new(),
        }
    }
}

/// The property that one `build.prop` line sets: none for a `#` comment or a line
/// without `=`; otherwise the text before the first `=` and the text after it, both
/// without surrounding whitespace.
pub open spec fn prop_line(l: Seq<char>) -> Option<(Seq<char>, Seq<char>)> {
    if l.len() > 0 && l[0] == '#' {
        None
    } else {
        let i = first_with(l, CharClass::Is('='), true);
        if i < l.len() {
            Some(
                (
                    trim(l.take(i), CharClass::Whitespace),
                    trim(l.skip(i + 1), CharClass::Whitespace),
                ),
            )
        } else {
            None
        }
    }
}

/// The properties that the lines `ls` set, in order, a later line winning.
pub open spec fn props_scan(ls: Seq<Seq<char>>) -> Map<Seq<char>, Seq<char>>
    decreases ls.len(),
{
    if ls.len() == 0 {
        Map::empty()
    } else {
        match prop_line(ls.last()) {
            Some((k, v)) => props_scan(ls.drop_last()).insert(k, v),
            None => props_scan(ls.drop_last()),
        }
    }
}

/// Reads the properties in the text of a `build.prop` file (see `prop_line`).
pub fn parse_build_properties(content: &str) -> (res: BuildProps)
    ensures
        res@ == props_scan(lines(content@)),
{
    let cs = chars_of(content);
    let ls = split_lines(&cs);
    let ghost all = lines(cs@);
    let mut props = BuildProps::new();
    let mut i: usize = 0;
    while i < ls.len()
        invariant
            i <= ls@.len() == all.len(),
            all == lines(cs@),
            forall|j: int|
                0 <= j < ls@.len() ==> {
                    &&& (#[trigger] ls@[j]).0 <= ls@[j].1 <= cs@.len()
                    &&& cs@.subrange(ls@[j].0 as int, ls@[j].1 as int) == all[j]
                },
            props@ == props_scan(all.take(i as int)),
        decreases ls@.len() - i,
    {
        let (lo, hi) = ls[i];
        let ghost l = cs@.subrange(lo as int, hi as int);
        proof {
            assert(all.take(i + 1).drop_last() == all.take(i as int));
            assert(all.take(i + 1).last() == all[i as int]);
        }
        if lo < hi && cs[lo] == '#' {
            assert(l[0] == cs@[lo as int]);
        } else {
            let e = find_with(&cs, lo, hi, CharClass::Is('='), true);
            if e < hi {
                let (ka, kb) = trim_range(&cs, lo, e, CharClass::Whitespace);
                let (va, vb) = trim_range(&cs, e + 1, hi, CharClass::Whitespace);
                proof {
                    assert(l.take(e - lo) == cs@.subrange(lo as int, e as int));
                    assert(l.skip(e - lo + 1) == cs@.subrange(e + 1, hi as int));
                }
                props.insert(string_of(&cs, ka, kb), string_of(&cs, va, vb));
            }
        }
        i = i + 1;
    }
    assert(all.take(ls@.len() as int) == all);
    props
}

/// The number of `build.prop` files that are tried, in order.
pub const BUILD_PROP_FILE_COUNT: usize = 3;

/// The path of the `build.prop` file of index `i`.
pub open spec fn build_prop_path_text(i: nat) -> Seq<char> {
    if i == 0 {
        "/system/build.prop"@
    } else if i == 1 {
        "/default.prop"@
    } else {
        "/prop.default"@
    }
}

/// The path of the `build.prop` file of index `i`; the first one that can be read
/// is the one that counts.
pub fn build_prop_path(i: usize) -> (res: &'static str)
    requires
        i < BUILD_PROP_FILE_COUNT,
    ensures
        res@ == build_prop_path_text(i as nat),
{
    if i == 0 {
        "/system/build.prop"
    } else if i == 1 {
        "/default.prop"
    } else {
        "/prop.default"
    }
}

/// The value of `key` in `m`, or empty text.
pub open spec fn lookup(m: Map<Seq<char>, Seq<char>>, key: Seq<char>) -> Seq<char> {
    if m.contains_key(key) {
        m[key]
    } else {
        Seq::empty()
    }
}

/// The Android version text for a release and an API level, either possibly empty.
pub open spec fn android_version_text(release: Seq<char>, sdk: Seq<char>) -> Seq<char> {
    if release.len() > 0 && sdk.len() > 0 {
        "Android "@ + release + " (API "@ + sdk + ")"@
    } else if release.len() > 0 {
        "Android "@ + release
    } else if sdk.len() > 0 {
        "Android API "@ + sdk
    } else {
        Seq::empty()
    }
}

/// The device text for a manufacturer and a model, either possibly empty.
pub open spec fn android_device_text(manufacturer: Seq<char>, model: Seq<char>) -> Seq<char> {
    if manufacturer.len() > 0 && model.len() > 0 {
        manufacturer + " "@ + model
    } else if manufacturer.len() > 0 {
        manufacturer
    } else {
        "Android Device"@
    }
}

/// The OS version and the distribution of an Android system, given those known
/// before: with build properties (a `build.prop` file could be read), the version
/// from `ro.build.version.release` and `ro.build.version.sdk` and the device from
/// `ro.product.manufacturer` and `ro.product.model`; without them, the earlier
/// values; the distribution becomes `Android Device` when it would be empty.
pub open spec fn android_info(
    props: Option<Map<Seq<char>, Seq<char>>>,
    old_version: Seq<char>,
    old_distribution: Seq<char>,
) -> (Seq<char>, Seq<char>) {
    let (version, device) = match props {
        None => (old_version, old_distribution),
        Some(m) => (
            android_version_text(
                lookup(m, "ro.build.version.release"@),
                lookup(m, "ro.build.version.sdk"@),
            ),
            android_device_text(
                lookup(m, "ro.product.manufacturer"@),
                lookup(m, "ro.product.model"@),
            ),
        ),
    };
    (version, if device.len() == 0 { "Android Device"@ } else { device })
}

/// The version and device texts that build properties give.
fn android_texts(p: &BuildProps) -> (res: (String, String))
    ensures
        res.0@ == android_version_text(
            lookup(p@, "ro.build.version.release"@),
            lookup(p@, "ro.build.version.sdk"@),
        ),
        res.1@ == android_device_text(
            lookup(p@, "ro.product.manufacturer"@),
            lookup(p@, "ro.product.model"@),
        ),
{
    let release = p.get_or_empty("ro.build.version.release");
    let sdk = p.get_or_empty("ro.build.version.sdk");
    let manufacturer = p.get_or_empty("ro.product.manufacturer");
    let model = p.get_or_empty("ro.product.model");
    let has_release = !release.as_str().is_empty();
    let has_sdk = !sdk.as_str().is_empty();
    let version = if has_release && has_sdk {
        let mut v = "Android ".to_string();
        v.append(release.as_str());
        v.append(" (API ");
        v.append(sdk.as_str());
        v.append(")");
        v
    } else if has_release {
        let mut v = "Android ".to_string();
        v.append(release.as_str());
        v
    } else if has_sdk {
        let mut v = "Android API ".to_string();
        v.append(sdk.as_str());
        v
    } else {
        String::new()
    };
    let has_manufacturer = !manufacturer.as_str().is_empty();
    let device = if has_manufacturer && !model.as_str().is_empty() {
        let mut d = manufacturer.clone();
        d.append(" ");
        d.append(model.as_str());
        d
    } else if has_manufacturer {
        manufacturer
    } else {
        "Android Device".to_string()
    };
    (version, device)
}

/// Sets the Termux mark, the OS version and the distribution of an Android system:
/// the Termux mark is set when `in_termux` (the answer of `detect_termux`) holds and
/// kept otherwise; version and distribution follow `android_info`; nothing else
/// changes.
pub fn detect_android_info(info: &mut SystemInfo, in_termux: bool, props: Option<&BuildProps>)
    ensures
        final(info).is_termux == (old(info).is_termux || in_termux),
        (final(info).os_version@, final(info).distribution@) == android_info(
            match props {
                Some(p) => Some(p@),
                None => None,
            },
            old(info).os_version@,
            old(info).distribution@,
        ),
        final(info).is_jailbroken == old(info).is_jailbroken,
        same_other_fields(*old(info), *final(info)),
{
    if in_termux {
        info.is_termux = true;
    }
    if let Some(p) = props {
        let (version, device) = android_texts(p);
        info.os_version = version;
        info.distribution = device;
    }
    if info.distribution.as_str().is_empty() {
        info.distribution = "Android Device".to_string();
    }
}

/// A property line sets its key to its value, whatever earlier lines said of it:
/// reading the key back gives that value.
pub proof fn law_later_property_line_wins(ls: Seq<Seq<char>>, l: Seq<char>)
    requires
        prop_line(l) is Some,
    ensures
        props_scan(ls.push(l)).contains_key(prop_line(l).unwrap().0),
        props_scan(ls.push(l))[prop_line(l).unwrap().0] == prop_line(l).unwrap().1,
{
    assert(ls.push(l).drop_last() == ls);
}

/// A line that sets no property leaves the properties as they were.
pub proof fn law_other_lines_change_nothing(ls: Seq<Seq<char>>, l: Seq<char>)
    requires
        prop_line(l) is None,
    ensures
        props_scan(ls.push(l)) == props_scan(ls),
{
    assert(ls.push(l).drop_last() == ls);
}

/// Setting a property and reading it back gives the value that was set.
pub proof fn law_props_get_after_insert(before: BuildProps, after: BuildProps, k: String, v: String)
    requires
        after@ == before@.insert(k@, v@),
    ensures
        after@.contains_key(k@),
        after@[k@] == v@,
{
}

} // verus!
