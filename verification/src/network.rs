//! The network addresses to show: IPv4 addresses first, then IPv6 ones, each as
//! `interface=address`, leaving out loopback, link-local and APIPA addresses.
use vstd::prelude::*;
use crate::gpu::texts;
use crate::text::{chars_of, has_prefix, push_char, starts_with_at, str_eq};

verus! {

/// The address family of an interface address.
#[derive(Clone, Copy, Debug, PartialEq, Eq)]
pub enum AddressFamily {
    /// IPv4 (`AF_INET`).
    V4,
    /// IPv6 (`AF_INET6`).
    V6,
    /// Any other family.
    Other,
}

/// An address of a network interface: the interface's name, the family, and the
/// address in its usual text form.
pub struct InterfaceAddress {
    pub interface: String,
    pub family: AddressFamily,
    pub address: String,
}

/// Whether an IPv4 address is shown: not loopback (`127.`) and not APIPA (`169.254.`).
pub open spec fn shown_ipv4(ip: Seq<char>) -> bool {
    !has_prefix(ip, "127."@) && !has_prefix(ip, "169.254."@)
}

/// Whether `c` is a hexadecimal digit.
pub open spec fn is_hex_digit(c: char) -> bool {
    ('0' <= c && c <= '9') || ('a' <= c && c <= 'f') || ('A' <= c && c <= 'F')
}

/// Whether the text of an IPv6 address is a link-local one (`fe80::/10`): its first
/// group, written without leading zeros, lies in `fe80`–`febf`, so the text begins
/// with `fe`, one of `8`, `9`, `a`, `b`, a hexadecimal digit, then `:`.
pub open spec fn link_local_ipv6(ip: Seq<char>) -> bool {
    &&& ip.len() >= 5
    &&& (ip[0] == 'f' || ip[0] == 'F')
    &&& (ip[1] == 'e' || ip[1] == 'E')
    &&& (ip[2] == '8' || ip[2] == '9' || ip[2] == 'a' || ip[2] == 'b' || ip[2] == 'A' || ip[2]
        == 'B')
    &&& is_hex_digit(ip[3])
    &&& ip[4] == ':'
}

/// Whether an IPv6 address is shown: not loopback (`::1`) and not link-local
/// (`fe80::/10`).
pub open spec fn shown_ipv6(ip: Seq<char>) -> bool {
    ip != "::1"@ && !link_local_ipv6(ip)
}

/// Whether an IPv4 address is shown (see `shown_ipv4`).
pub fn keep_ipv4(ip: &str) -> (res: bool)
    ensures
        res == shown_ipv4(ip@),
{
    let cs = chars_of(ip);
    assert(cs@.subrange(0, cs@.len() as int) == cs@);
    !starts_with_at(&cs, 0, cs.len(), &chars_of("127.")) && !starts_with_at(
        &cs,
        0,
        cs.len(),
        &chars_of("169.254."),
    )
}

/// Whether an IPv6 address is shown (see `shown_ipv6`).
pub fn keep_ipv6(ip: &str) -> (res: bool)
    ensures
        res == shown_ipv6(ip@),
{
    let cs = chars_of(ip);
    if str_eq(ip, "::1") {
        return false;
    }
    if cs.len() < 5 {
        return true;
    }
    let (c0, c1, c2, c3, c4) = (cs[0], cs[1], cs[2], cs[3], cs[4]);
    let link_local = (c0 == 'f' || c0 == 'F') && (c1 == 'e' || c1 == 'E') && (c2 == '8' || c2
        == '9' || c2 == 'a' || c2 == 'b' || c2 == 'A' || c2 == 'B') && (('0' <= c3 && c3 <= '9')
        || ('a' <= c3 && c3 <= 'f') || ('A' <= c3 && c3 <= 'F')) && c4 == ':';
    !link_local
}

/// The text shown for an address: the interface, `=`, the address.
pub open spec fn entry_text(a: InterfaceAddress) -> Seq<char> {
    a.interface@ + seq!['='] + a.address@
}

/// The shown entries of the addresses of `s` of the family `family`, in order.
pub open spec fn entries_of(s: Seq<InterfaceAddress>, family: AddressFamily) -> Seq<Seq<char>>
    decreases s.len(),
{
    if s.len() == 0 {
        Seq::empty()
    } else {
        let a = s.last();
        let rest = entries_of(s.drop_last(), family);
        if a.family == family && match family {
            AddressFamily::V4 => shown_ipv4(a.address@),
            AddressFamily::V6 => shown_ipv6(a.address@),
            AddressFamily::Other => false,
        } {
            rest.push(entry_text(a))
        } else {
            rest
        }
    }
}

/// The entries shown for the addresses `s`: the IPv4 ones, then the IPv6 ones.
pub open spec fn address_list(s: Seq<InterfaceAddress>) -> Seq<Seq<char>> {
    entries_of(s, AddressFamily::V4) + entries_of(s, AddressFamily::V6)
}

/// The text shown for an address (see `entry_text`).
pub fn format_entry(a: &InterfaceAddress) -> (res: String)
    ensures
        res@ == entry_text(*a),
{
    let mut r = a.interface.clone();
    push_char(&mut r, '=');
    r.append(a.address.as_str());
    r
}

/// The entries shown for the addresses of the machine's interfaces (see
/// `address_list`).
pub fn collect_ip_addresses(addrs: &Vec<InterfaceAddress>) -> (res: Vec<String>)
    ensures
        texts(res@) == address_list(addrs@),
{
    let mut v4: Vec<String> = Vec::new();
    let mut v6: Vec<String> = Vec::new();
    let mut i: usize = 0;
    assert(texts(v4@) == Seq::<Seq<char>>::empty());
    while i < addrs.len()
        invariant
            i <= addrs@.len(),
            texts(v4@) == entries_of(addrs@.take(i as int), AddressFamily::V4),
            texts(v6@) == entries_of(addrs@.take(i as int), AddressFamily::V6),
        decreases addrs@.len() - i,
    {
        let a = &addrs[i];
        proof {
            assert(addrs@.take(i + 1).drop_last() == addrs@.take(i as int));
            assert(addrs@.take(i + 1).last() == addrs@[i as int]);
        }
        match a.family {
            AddressFamily::V4 => {
                if keep_ipv4(a.address.as_str()) {
                    let e = format_entry(a);
                    let ghost before = v4@;
                    v4.push(e);
                    assert(texts(v4@) == texts(before).push(e@));
                }
            },
            AddressFamily::V6 => {
                if keep_ipv6(a.address.as_str()) {
                    let e = format_entry(a);
                    let ghost before = v6@;
                    v6.push(e);
                    assert(texts(v6@) == texts(before).push(e@));
                }
            },
            AddressFamily::Other => {},
        }
        i = i + 1;
    }
    assert(addrs@.take(i as int) == addrs@);
    let ghost t4 = texts(v4@);
    let ghost t6 = texts(v6@);
    let mut res = v4;
    let mut j: usize = 0;
    while j < v6.len()
        invariant
            j <= v6@.len(),
            t6 == texts(v6@),
            texts(res@) == t4 + t6.take(j as int),
        decreases v6@.len() - j,
    {
        let e = v6[j].clone();
        let ghost before = res@;
        res.push(e);
        assert(texts(res@) == texts(before).push(e@));
        assert(t6.take(j + 1) == t6.take(j as int).push(t6[j as int]));
        j = j + 1;
    }
    assert(t6.take(j as int) == t6);
    res
}

/// An address that is not shown changes nothing in the list of shown addresses.
pub proof fn law_hidden_address_changes_nothing(s: Seq<InterfaceAddress>, a: InterfaceAddress)
    requires
        match a.family {
            AddressFamily::V4 => !shown_ipv4(a.address@),
            AddressFamily::V6 => !shown_ipv6(a.address@),
            AddressFamily::Other => true,
        },
    ensures
        address_list(s.push(a)) == address_list(s),
{
    assert(s.push(a).drop_last() == s);
}

/// Every IPv4 entry comes before every IPv6 entry: the list begins with exactly the
/// shown IPv4 entries, in the order of the addresses.
pub proof fn law_ipv4_entries_first(s: Seq<InterfaceAddress>)
    ensures
        address_list(s).take(entries_of(s, AddressFamily::V4).len() as int) == entries_of(
            s,
            AddressFamily::V4,
        ),
        address_list(s).skip(entries_of(s, AddressFamily::V4).len() as int) == entries_of(
            s,
            AddressFamily::V6,
        ),
{
}

/// An IPv4 address is hidden exactly when its text begins with `127.` (loopback) or
/// `169.254.` (APIPA); every other IPv4 address, such as `172.17.0.1`, is shown.
pub proof fn law_ipv4_hidden_exactly_loopback_and_apipa(ip: Seq<char>)
    ensures
        shown_ipv4(ip) <==> !(has_prefix(ip, "127."@) || has_prefix(ip, "169.254."@)),
{
}

/// An IPv4 address whose text begins with neither `127.` nor `169.254.` appears in the
/// list as `interface=address`, whatever addresses came before it.
pub proof fn law_other_ipv4_listed(s: Seq<InterfaceAddress>, a: InterfaceAddress)
    requires
        a.family == AddressFamily::V4,
        !has_prefix(a.address@, "127."@),
        !has_prefix(a.address@, "169.254."@),
    ensures
        address_list(s.push(a)).contains(a.interface@ + seq!['='] + a.address@),
{
    assert(s.push(a).drop_last() == s);
    let v4 = entries_of(s.push(a), AddressFamily::V4);
    assert(v4 == entries_of(s, AddressFamily::V4).push(entry_text(a)));
    let l = address_list(s.push(a));
    assert(l[v4.len() - 1] == entry_text(a));
}

} // verus!
