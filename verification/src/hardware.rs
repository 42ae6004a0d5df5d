//! Processor frequency, memory size and disk usage, read from the texts and the
//! numbers that the operating system reports.
use vstd::prelude::*;
use crate::number::{parse_u64_range, u64_from_text};
use crate::text::{
    chars_of, find_with, first_with, has_prefix, lines, nth_token, opt_text, split_lines,
    starts_with_at, string_of, tokens, trim, trim_range, CharClass,
};

verus! {

/// The frequency in kHz that the text of a cpufreq `cpuinfo_max_freq` file gives:
/// the whole text without surrounding whitespace read as a `u64`, or 0.
pub open spec fn cpufreq_khz_value(content: Seq<char>) -> u64 {
    match u64_from_text(trim(content, CharClass::Whitespace)) {
        Some(v) => v,
        None => 0,
    }
}

/// Reads the frequency in kHz from the text of a cpufreq file (see `cpufreq_khz_value`).
pub fn parse_cpufreq_khz(content: &str) -> (res: u64)
    ensures
        res == cpufreq_khz_value(content@),
{
    let cs = chars_of(content);
    assert(cs@.subrange(0, cs@.len() as int) == cs@);
    let (a, b) = trim_range(&cs, 0, cs.len(), CharClass::Whitespace);
    match parse_u64_range(&cs, a, b) {
        Some(v) => v,
        None => 0,
    }
}

/// The value text of a `/proc/cpuinfo` line: for a line that begins with `cpu MHz`
/// and holds a `:`, what follows the first `:` without surrounding whitespace.
pub open spec fn cpu_mhz_line(l: Seq<char>) -> Option<Seq<char>> {
    if has_prefix(l, "cpu MHz"@) {
        let i = first_with(l, CharClass::Is(':'), true);
        if i < l.len() {
            Some(trim(l.skip(i + 1), CharClass::Whitespace))
        } else {
            None
        }
    } else {
        None
    }
}

/// The bounds of `cpu_mhz_line` of the line `cs[lo..hi]`.
fn cpu_mhz_range(cs: &Vec<char>, lo: usize, hi: usize, pat: &Vec<char>) -> (res: Option<
    (usize, usize),
>)
    requires
        lo <= hi <= cs@.len(),
        pat@ == "cpu MHz"@,
    ensures
        match res {
            Some((a, b)) => a <= b <= cs@.len() && cpu_mhz_line(cs@.subrange(lo as int, hi as int))
                == Some(cs@.subrange(a as int, b as int)),
            None => cpu_mhz_line(cs@.subrange(lo as int, hi as int)) is None,
        },
{
    let ghost l = cs@.subrange(lo as int, hi as int);
    if !starts_with_at(cs, lo, hi, pat) {
        return None;
    }
    let e = find_with(cs, lo, hi, CharClass::Is(':'), true);
    if e == hi {
        return None;
    }
    let (a, b) = trim_range(cs, e + 1, hi, CharClass::Whitespace);
    assert(l.skip(e - lo + 1) == cs@.subrange(e + 1, hi as int));
    Some((a, b))
}

/// The value text of the first line of `ls` that gives one (see `cpu_mhz_line`).
pub open spec fn first_cpu_mhz(ls: Seq<Seq<char>>) -> Option<Seq<char>>
    decreases ls.len(),
{
    if ls.len() == 0 {
        None
    } else {
        match cpu_mhz_line(ls[0]) {
            Some(v) => Some(v),
            None => first_cpu_mhz(ls.drop_first()),
        }
    }
}

/// The text of the current processor speed in MHz in the text of `/proc/cpuinfo`
/// (see `first_cpu_mhz`); the caller reads it as a decimal number.
pub fn cpuinfo_mhz_text(content: &str) -> (res: Option<String>)
    ensures
        opt_text(res) == first_cpu_mhz(lines(content@)),
{
    let cs = chars_of(content);
    let ls = split_lines(&cs);
    let ghost all = lines(cs@);
    let pat = chars_of("cpu MHz");
    let mut i: usize = 0;
    assert(all.skip(0) == all);
    while i < ls.len()
        invariant
            i <= ls@.len() == all.len(),
            all == lines(cs@),
            cs@ == content@,
            pat@ == "cpu MHz"@,
            forall|j: int|
                0 <= j < ls@.len() ==> {
                    &&& (#[trigger] ls@[j]).0 <= ls@[j].1 <= cs@.len()
                    &&& cs@.subrange(ls@[j].0 as int, ls@[j].1 as int) == all[j]
                },
            first_cpu_mhz(all) == first_cpu_mhz(all.skip(i as int)),
        decreases ls@.len() - i,
    {
        let (lo, hi) = ls[i];
        proof {
            assert(all.skip(i as int)[0] == all[i as int]);
            assert(all.skip(i as int).drop_first() == all.skip(i + 1));
        }
        if let Some((a, b)) = cpu_mhz_range(&cs, lo, hi, &pat) {
            return Some(string_of(&cs, a, b));
        }
        i = i + 1;
    }
    assert(all.skip(i as int).len() == 0);
    None
}

/// The total memory in kB that a `MemTotal:` line of `/proc/meminfo` gives: its
/// second word read as a `u64`, or 0.
pub open spec fn mem_total_line(l: Seq<char>) -> Option<u64> {
    if has_prefix(l, "MemTotal:"@) {
        let ts = tokens(l);
        Some(
            if ts.len() > 1 {
                match u64_from_text(ts[1]) {
                    Some(v) => v,
                    None => 0,
                }
            } else {
                0
            },
        )
    } else {
        None
    }
}

/// `mem_total_line` of the line `cs[lo..hi]`.
fn mem_total_of_line(cs: &Vec<char>, lo: usize, hi: usize, pat: &Vec<char>) -> (res: Option<u64>)
    requires
        lo <= hi <= cs@.len(),
        pat@ == "MemTotal:"@,
    ensures
        res == mem_total_line(cs@.subrange(lo as int, hi as int)),
{
    if !starts_with_at(cs, lo, hi, pat) {
        return None;
    }
    match nth_token(cs, lo, hi, 1) {
        Some((a, b)) => match parse_u64_range(cs, a, b) {
            Some(v) => Some(v),
            None => Some(0),
        },
        None => Some(0),
    }
}

/// The total memory in kB given by the first `MemTotal:` line of `ls`, or 0.
pub open spec fn mem_total_kb(ls: Seq<Seq<char>>) -> u64
    decreases ls.len(),
{
    if ls.len() == 0 {
        0
    } else {
        match mem_total_line(ls[0]) {
            Some(v) => v,
            None => mem_total_kb(ls.drop_first()),
        }
    }
}

/// Reads the total memory in kB from the text of `/proc/meminfo` (see `mem_total_kb`).
pub fn meminfo_total_kb(content: &str) -> (res: u64)
    ensures
        res == mem_total_kb(lines(content@)),
{
    let cs = chars_of(content);
    let ls = split_lines(&cs);
    let ghost all = lines(cs@);
    let pat = chars_of("MemTotal:");
    let mut i: usize = 0;
    assert(all.skip(0) == all);
    while i < ls.len()
        invariant
            i <= ls@.len() == all.len(),
            all == lines(cs@),
            cs@ == content@,
            pat@ == "MemTotal:"@,
            forall|j: int|
                0 <= j < ls@.len() ==> {
                    &&& (#[trigger] ls@[j]).0 <= ls@[j].1 <= cs@.len()
                    &&& cs@.subrange(ls@[j].0 as int, ls@[j].1 as int) == all[j]
                },
            mem_total_kb(all) == mem_total_kb(all.skip(i as int)),
        decreases ls@.len() - i,
    {
        let (lo, hi) = ls[i];
        proof {
            assert(all.skip(i as int)[0] == all[i as int]);
            assert(all.skip(i as int).drop_first() == all.skip(i + 1));
        }
        if let Some(v) = mem_total_of_line(&cs, lo, hi, &pat) {
            return v;
        }
        i = i + 1;
    }
    assert(all.skip(i as int).len() == 0);
    0
}

/// The total memory in bytes that the text of `/proc/meminfo` gives: 1024 times the
/// kB of `meminfo_total_kb`, which must not overflow.
pub fn ram_from_meminfo(content: &str) -> (res: u64)
    requires
        mem_total_kb(lines(content@)) * 1024 <= u64::MAX,
    ensures
        res == mem_total_kb(lines(content@)) * 1024,
{
    meminfo_total_kb(content) * 1024
}

/// The total and the used size of a file system from what `statvfs` reports: the
/// fragment size times the block count, and that minus the fragment size times the
/// free block count. The total must fit in a `u64` and the free size cannot exceed it.
pub fn disk_usage_from_blocks(fragment_size: u64, blocks: u64, free_blocks: u64) -> (res: (
    u64,
    u64,
))
    requires
        fragment_size * blocks <= u64::MAX,
        fragment_size * free_blocks <= fragment_size * blocks,
    ensures
        res.0 == fragment_size * blocks,
        res.1 == fragment_size * blocks - fragment_size * free_blocks,
        res.1 <= res.0,
{
    let total = fragment_size * blocks;
    let free = fragment_size * free_blocks;
    (total, total - free)
}

/// The total and the used size of a disk from its total and free byte counts.
pub fn disk_usage_from_totals(total: u64, total_free: u64) -> (res: (u64, u64))
    requires
        total_free <= total,
    ensures
        res == (total, (total - total_free) as u64),
{
    (total, total - total_free)
}

} // verus!
