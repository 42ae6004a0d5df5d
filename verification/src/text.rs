//! Text primitives over character sequences: character classes, searching,
//! trimming and line splitting, each with the meaning that the standard
//! library's `str` methods of the same name give them.
use vstd::prelude::*;
use vstd::utf8::{decode_utf8, valid_utf8};

verus! {

/// The characters of `s`, in order.
pub fn chars_of(s: &str) -> (res: Vec<char>)
    ensures
        res@ == s@,
{
    let mut res: Vec<char> = Vec::new();
    for c in it: s.chars()
        invariant
            res@ == it.seq().take(it.index() as int),
            it.seq() == s@,
    {
        res.push(c);
    }
    res
}

/// A set of characters that a search or a trim works with.
#[derive(Clone, Copy, Debug, PartialEq, Eq)]
pub enum CharClass {
    /// The characters for which `char::is_whitespace` holds (Unicode `White_Space`).
    Whitespace,
    /// A double or a single quotation mark.
    Quote,
    /// A space, an opening parenthesis or a tab: what ends a release number.
    ReleaseEnd,
    /// Exactly the one character given.
    Is(char),
}

/// Unicode `White_Space`, the property that `char::is_whitespace` tests.
pub open spec fn is_ws(c: char) -> bool {
    ||| ('\u{9}' <= c && c <= '\u{d}')
    ||| c == ' '
    ||| c == '\u{85}'
    ||| c == '\u{a0}'
    ||| c == '\u{1680}'
    ||| ('\u{2000}' <= c && c <= '\u{200a}')
    ||| c == '\u{2028}'
    ||| c == '\u{2029}'
    ||| c == '\u{202f}'
    ||| c == '\u{205f}'
    ||| c == '\u{3000}'
}

/// Whether `c` belongs to the class `k`.
pub open spec fn in_class(c: char, k: CharClass) -> bool {
    match k {
        CharClass::Whitespace => is_ws(c),
        CharClass::Quote => c == '"' || c == '\'',
        CharClass::ReleaseEnd => c == ' ' || c == '(' || c == '\t',
        CharClass::Is(d) => c == d,
    }
}

/// Executable test of `in_class`.
pub fn char_in_class(c: char, k: CharClass) -> (res: bool)
    ensures
        res == in_class(c, k),
{
    match k {
        CharClass::Whitespace => {
            ('\u{9}' <= c && c <= '\u{d}') || c == ' ' || c == '\u{85}' || c == '\u{a0}'
                || c == '\u{1680}' || ('\u{2000}' <= c && c <= '\u{200a}') || c == '\u{2028}'
                || c == '\u{2029}' || c == '\u{202f}' || c == '\u{205f}' || c == '\u{3000}'
        },
        CharClass::Quote => c == '"' || c == '\'',
        CharClass::ReleaseEnd => c == ' ' || c == '(' || c == '\t',
        CharClass::Is(d) => c == d,
    }
}

/// Index of the first character `c` of `s` with `in_class(c, k) == member`,
/// or `s.len()` when there is none.
pub open spec fn first_with(s: Seq<char>, k: CharClass, member: bool) -> int
    decreases s.len(),
{
    if s.len() == 0 {
        0
    } else if in_class(s[0], k) == member {
        0
    } else {
        1 + first_with(s.drop_first(), k, member)
    }
}

/// `first_with` is the least index whose character has the asked membership.
pub proof fn lemma_first_with(s: Seq<char>, k: CharClass, member: bool, n: int)
    requires
        0 <= n <= s.len(),
        forall|j: int| 0 <= j < n ==> in_class(#[trigger] s[j], k) != member,
        n == s.len() || in_class(s[n], k) == member,
    ensures
        first_with(s, k, member) == n,
    decreases s.len(),
{
    if s.len() > 0 && n > 0 {
        assert(in_class(s[0], k) != member);
        let t = s.drop_first();
        assert forall|j: int| 0 <= j < n - 1 implies in_class(#[trigger] t[j], k) != member by {
            assert(t[j] == s[j + 1]);
        }
        if n < s.len() {
            assert(t[n - 1] == s[n]);
        }
        lemma_first_with(t, k, member, n - 1);
    }
}

/// Index, within `cs[lo..hi]`, of the first character whose membership in `k` is
/// `member`, counted from `lo`; `hi` when there is none.
pub fn find_with(cs: &Vec<char>, lo: usize, hi: usize, k: CharClass, member: bool) -> (res: usize)
    requires
        lo <= hi <= cs@.len(),
    ensures
        lo <= res <= hi,
        res - lo == first_with(cs@.subrange(lo as int, hi as int), k, member),
{
    let mut i = lo;
    while i < hi
        invariant
            lo <= i <= hi <= cs@.len(),
            forall|j: int| lo <= j < i ==> in_class(#[trigger] cs@[j], k) != member,
        ensures
            lo <= i <= hi,
            forall|j: int| lo <= j < i ==> in_class(#[trigger] cs@[j], k) != member,
            i == hi || in_class(cs@[i as int], k) == member,
        decreases hi - i,
    {
        if char_in_class(cs[i], k) == member {
            break;
        }
        i = i + 1;
    }
    proof {
        let s = cs@.subrange(lo as int, hi as int);
        assert forall|j: int| 0 <= j < i - lo implies in_class(#[trigger] s[j], k) != member by {
            assert(s[j] == cs@[lo + j]);
        }
        lemma_first_with(s, k, member, i - lo);
    }
    i
}

/// Number of characters at the end of `s` that belong to class `k`.
pub open spec fn trailing_in(s: Seq<char>, k: CharClass) -> int
    decreases s.len(),
{
    if s.len() == 0 {
        0
    } else if in_class(s.last(), k) {
        1 + trailing_in(s.drop_last(), k)
    } else {
        0
    }
}

/// `trailing_in` is the length of the longest suffix inside the class.
pub proof fn lemma_trailing_in(s: Seq<char>, k: CharClass, m: int)
    requires
        0 <= m <= s.len(),
        forall|j: int| s.len() - m <= j < s.len() ==> in_class(#[trigger] s[j], k),
        m == s.len() || !in_class(s[s.len() - 1 - m], k),
    ensures
        trailing_in(s, k) == m,
    decreases s.len(),
{
    if s.len() > 0 && m > 0 {
        assert(in_class(s[s.len() - 1], k));
        let t = s.drop_last();
        assert forall|j: int| t.len() - (m - 1) <= j < t.len() implies in_class(#[trigger] t[j], k) by {
            assert(t[j] == s[j]);
        }
        if m < s.len() {
            assert(t[t.len() - 1 - (m - 1)] == s[s.len() - 1 - m]);
        }
        lemma_trailing_in(t, k, m - 1);
    }
}

/// `s` without its leading characters of class `k`.
pub open spec fn trim_start(s: Seq<char>, k: CharClass) -> Seq<char> {
    s.skip(first_with(s, k, false))
}

/// `s` without its trailing characters of class `k`.
pub open spec fn trim_end(s: Seq<char>, k: CharClass) -> Seq<char> {
    s.take(s.len() - trailing_in(s, k))
}

/// `s` without the characters of class `k` at either end: `str::trim` for whitespace,
/// `str::trim_matches` for the others.
pub open spec fn trim(s: Seq<char>, k: CharClass) -> Seq<char> {
    trim_end(trim_start(s, k), k)
}

/// Bounds, within `cs[lo..hi]`, of that range with the characters of class `k` at both
/// ends removed.
pub fn trim_range(cs: &Vec<char>, lo: usize, hi: usize, k: CharClass) -> (res: (usize, usize))
    requires
        lo <= hi <= cs@.len(),
    ensures
        lo <= res.0 <= res.1 <= hi,
        cs@.subrange(res.0 as int, res.1 as int) == trim(cs@.subrange(lo as int, hi as int), k),
{
    let a = find_with(cs, lo, hi, k, false);
    let mut b = hi;
    while b > a
        invariant
            lo <= a <= b <= hi <= cs@.len(),
            forall|j: int| b <= j < hi ==> in_class(#[trigger] cs@[j], k),
        ensures
            a <= b <= hi,
            forall|j: int| b <= j < hi ==> in_class(#[trigger] cs@[j], k),
            b == a || !in_class(cs@[b - 1], k),
        decreases b,
    {
        if !char_in_class(cs[b - 1], k) {
            break;
        }
        b = b - 1;
    }
    proof {
        let s = cs@.subrange(lo as int, hi as int);
        let t = s.skip(a - lo);
        assert(t == cs@.subrange(a as int, hi as int));
        let m = hi - b;
        assert forall|j: int| t.len() - m <= j < t.len() implies in_class(#[trigger] t[j], k) by {
            assert(t[j] == cs@[a + j]);
        }
        if m < t.len() {
            assert(t[t.len() - 1 - m] == cs@[b - 1]);
        }
        lemma_trailing_in(t, k, m);
        assert(t.take(t.len() - m) == cs@.subrange(a as int, b as int));
    }
    (a, b)
}

/// `s` without one carriage return at its end.
pub open spec fn strip_cr(s: Seq<char>) -> Seq<char> {
    if s.len() > 0 && s.last() == '\r' {
        s.drop_last()
    } else {
        s
    }
}

/// The lines of `s` as `str::lines` gives them: pieces separated by `'\n'`, a
/// carriage return before that `'\n'` removed, and no empty piece after a final `'\n'`.
pub open spec fn lines(s: Seq<char>) -> Seq<Seq<char>>
    decreases s.len(),
{
    if s.len() == 0 {
        seq![]
    } else {
        let n = first_with(s, CharClass::Is('\n'), true);
        if !(0 <= n < s.len()) {
            seq![s]
        } else {
            seq![strip_cr(s.take(n))] + lines(s.skip(n + 1))
        }
    }
}

/// The bounds of the lines of `cs` (see `lines`), in order.
pub fn split_lines(cs: &Vec<char>) -> (res: Vec<(usize, usize)>)
    ensures
        res@.len() == lines(cs@).len(),
        forall|i: int|
            0 <= i < res@.len() ==> {
                &&& (#[trigger] res@[i]).0 <= res@[i].1 <= cs@.len()
                &&& cs@.subrange(res@[i].0 as int, res@[i].1 as int) == lines(cs@)[i]
            },
{
    let len = cs.len();
    let mut res: Vec<(usize, usize)> = Vec::new();
    let ghost mut acc: Seq<Seq<char>> = seq![];
    let mut pos: usize = 0;
    assert(cs@.subrange(0, len as int) == cs@);
    while pos < len
        invariant
            len == cs@.len(),
            pos <= len,
            res@.len() == acc.len(),
            lines(cs@) == acc + lines(cs@.subrange(pos as int, len as int)),
            forall|i: int|
                0 <= i < res@.len() ==> {
                    &&& (#[trigger] res@[i]).0 <= res@[i].1 <= cs@.len()
                    &&& cs@.subrange(res@[i].0 as int, res@[i].1 as int) == acc[i]
                },
        decreases len - pos,
    {
        let ghost t = cs@.subrange(pos as int, len as int);
        let n = find_with(cs, pos, len, CharClass::Is('\n'), true);
        if n == len {
            res.push((pos, len));
            proof {
                assert(lines(t) == seq![t]);
                acc = acc + seq![t];
                assert(cs@.subrange(len as int, len as int).len() == 0);
                assert(lines(cs@.subrange(len as int, len as int)) == Seq::<Seq<char>>::empty());
            }
            pos = len;
        } else {
            let end = if n > pos && cs[n - 1] == '\r' { n - 1 } else { n };
            res.push((pos, end));
            proof {
                let piece = strip_cr(t.take(n - pos));
                assert(t.take(n - pos) == cs@.subrange(pos as int, n as int));
                assert(piece == cs@.subrange(pos as int, end as int));
                assert(t.skip(n - pos + 1) == cs@.subrange(n + 1, len as int));
                assert(lines(t) == seq![piece] + lines(cs@.subrange(n + 1, len as int)));
                acc = acc + seq![piece];
            }
            pos = n + 1;
        }
    }
    assert(cs@.subrange(len as int, len as int).len() == 0);
    assert(acc + lines(cs@.subrange(len as int, len as int)) == acc);
    res
}

/// `first_with` lies between `0` and `s.len()`.
pub proof fn lemma_first_with_bounds(s: Seq<char>, k: CharClass, member: bool)
    ensures
        0 <= first_with(s, k, member) <= s.len(),
        first_with(s, k, member) < s.len() ==> in_class(s[first_with(s, k, member)], k)
            == member,
        forall|j: int| 0 <= j < first_with(s, k, member) ==> in_class(#[trigger] s[j], k) != member,
    decreases s.len(),
{
    if s.len() > 0 && in_class(s[0], k) != member {
        let t = s.drop_first();
        lemma_first_with_bounds(t, k, member);
        assert forall|j: int| 0 <= j < first_with(s, k, member) implies in_class(
            #[trigger] s[j],
            k,
        ) != member by {
            if j > 0 {
                assert(s[j] == t[j - 1]);
            }
        }
    }
}

/// Whether `s` begins with `p` (`str::starts_with`).
pub open spec fn has_prefix(s: Seq<char>, p: Seq<char>) -> bool {
    p.len() <= s.len() && s.take(p.len() as int) == p
}

/// Index of the first occurrence of `p` in `s` (`str::find` with a string pattern).
pub open spec fn find_sub(s: Seq<char>, p: Seq<char>) -> Option<int>
    decreases s.len(),
{
    if has_prefix(s, p) {
        Some(0)
    } else if s.len() == 0 {
        None
    } else {
        match find_sub(s.drop_first(), p) {
            Some(i) => Some(i + 1),
            None => None,
        }
    }
}

/// `find_sub` finds the least index at which `p` occurs, and nothing where it does not occur.
pub proof fn lemma_find_sub(s: Seq<char>, p: Seq<char>, n: int)
    requires
        0 <= n <= s.len(),
        forall|j: int| 0 <= j < n ==> !has_prefix(#[trigger] s.skip(j), p),
    ensures
        has_prefix(s.skip(n), p) ==> find_sub(s, p) == Some(n),
        n == s.len() && !has_prefix(s.skip(n), p) ==> find_sub(s, p) is None,
    decreases s.len(),
{
    if n > 0 {
        assert(s.skip(0) == s);
        assert(!has_prefix(s, p));
        let t = s.drop_first();
        assert forall|j: int| 0 <= j < n - 1 implies !has_prefix(#[trigger] t.skip(j), p) by {
            assert(t.skip(j) == s.skip(j + 1));
        }
        assert(t.skip(n - 1) == s.skip(n));
        lemma_find_sub(t, p, n - 1);
    } else {
        assert(s.skip(0) == s);
    }
}

/// Whether `cs[i..hi]` begins with `pat`.
pub fn matches_at(cs: &Vec<char>, i: usize, hi: usize, pat: &Vec<char>) -> (res: bool)
    requires
        i <= hi <= cs@.len(),
    ensures
        res == has_prefix(cs@.subrange(i as int, hi as int), pat@),
{
    let ghost s = cs@.subrange(i as int, hi as int);
    if pat.len() > hi - i {
        return false;
    }
    let mut j: usize = 0;
    while j < pat.len()
        invariant
            i + pat@.len() <= hi <= cs@.len(),
            s == cs@.subrange(i as int, hi as int),
            j <= pat@.len(),
            forall|m: int| 0 <= m < j ==> cs@[i + m] == pat@[m],
        decreases pat@.len() - j,
    {
        if cs[i + j] != pat[j] {
            assert(s.take(pat@.len() as int)[j as int] != pat@[j as int]);
            return false;
        }
        j = j + 1;
    }
    assert(s.take(pat@.len() as int) == pat@);
    true
}

/// Index of the first occurrence of `pat` in `cs[lo..hi]`, as an index into `cs`.
pub fn find_str(cs: &Vec<char>, lo: usize, hi: usize, pat: &Vec<char>) -> (res: Option<usize>)
    requires
        lo <= hi <= cs@.len(),
    ensures
        match res {
            Some(i) => lo <= i <= hi && find_sub(cs@.subrange(lo as int, hi as int), pat@) == Some(
                i - lo,
            ),
            None => find_sub(cs@.subrange(lo as int, hi as int), pat@) is None,
        },
{
    let ghost s = cs@.subrange(lo as int, hi as int);
    let mut i = lo;
    loop
        invariant
            lo <= i <= hi <= cs@.len(),
            s == cs@.subrange(lo as int, hi as int),
            forall|j: int| 0 <= j < i - lo ==> !has_prefix(#[trigger] s.skip(j), pat@),
        decreases hi - i,
    {
        let found = matches_at(cs, i, hi, pat);
        assert(s.skip(i - lo) == cs@.subrange(i as int, hi as int));
        if found {
            proof {
                lemma_find_sub(s, pat@, i - lo);
            }
            return Some(i);
        }
        if i == hi {
            proof {
                lemma_find_sub(s, pat@, i - lo);
            }
            return None;
        }
        i = i + 1;
    }
}

/// Whether `cs[lo..hi]` begins with `pat`.
pub fn starts_with_at(cs: &Vec<char>, lo: usize, hi: usize, pat: &Vec<char>) -> (res: bool)
    requires
        lo <= hi <= cs@.len(),
    ensures
        res == has_prefix(cs@.subrange(lo as int, hi as int), pat@),
{
    matches_at(cs, lo, hi, pat)
}

/// Appends one character to a string (`String::push`).
#[verifier::external_body]
pub(crate) fn push_char(s: &mut String, c: char)
    ensures
        final(s)@ == old(s)@.push(c),
{
    s.push(c)
}

/// The string made of `cs[lo..hi]`.
pub fn string_of(cs: &Vec<char>, lo: usize, hi: usize) -> (res: String)
    requires
        lo <= hi <= cs@.len(),
    ensures
        res@ == cs@.subrange(lo as int, hi as int),
{
    let mut res = String::new();
    let mut i = lo;
    while i < hi
        invariant
            lo <= i <= hi <= cs@.len(),
            res@ == cs@.subrange(lo as int, i as int),
        decreases hi - i,
    {
        push_char(&mut res, cs[i]);
        assert(cs@.subrange(lo as int, i + 1) == cs@.subrange(lo as int, i as int).push(cs@[i as int]));
        i = i + 1;
    }
    res
}

/// The whitespace-separated words of `s` (`str::split_whitespace`).
pub open spec fn tokens(s: Seq<char>) -> Seq<Seq<char>>
    decreases s.len(),
{
    let a = first_with(s, CharClass::Whitespace, false);
    if !(0 <= a < s.len()) {
        seq![]
    } else {
        let t = s.skip(a);
        let n = first_with(t, CharClass::Whitespace, true);
        if !(0 < n <= t.len()) {
            seq![]
        } else {
            seq![t.take(n)] + tokens(t.skip(n))
        }
    }
}

/// The bounds of the first word of `cs[pos..hi]`, if it has one.
pub fn next_token(cs: &Vec<char>, pos: usize, hi: usize) -> (res: Option<(usize, usize)>)
    requires
        pos <= hi <= cs@.len(),
    ensures
        match res {
            None => tokens(cs@.subrange(pos as int, hi as int)).len() == 0,
            Some((a, b)) => {
                &&& pos <= a < b <= hi
                &&& tokens(cs@.subrange(pos as int, hi as int)) == seq![
                    cs@.subrange(a as int, b as int),
                ] + tokens(cs@.subrange(b as int, hi as int))
            },
        },
{
    let ghost s = cs@.subrange(pos as int, hi as int);
    let a = find_with(cs, pos, hi, CharClass::Whitespace, false);
    if a == hi {
        return None;
    }
    let b = find_with(cs, a, hi, CharClass::Whitespace, true);
    proof {
        let t = s.skip(a - pos);
        assert(t == cs@.subrange(a as int, hi as int));
        lemma_first_with_bounds(s, CharClass::Whitespace, false);
        assert(!in_class(t[0], CharClass::Whitespace));
        lemma_first_with_bounds(t, CharClass::Whitespace, true);
        assert(b > a);
        assert(t.take(b - a) == cs@.subrange(a as int, b as int));
        assert(t.skip(b - a) == cs@.subrange(b as int, hi as int));
    }
    Some((a, b))
}

/// The bounds of the word of index `n` (counting from 0) of `cs[lo..hi]`, if there is one.
pub fn nth_token(cs: &Vec<char>, lo: usize, hi: usize, n: usize) -> (res: Option<(usize, usize)>)
    requires
        lo <= hi <= cs@.len(),
    ensures
        match res {
            None => tokens(cs@.subrange(lo as int, hi as int)).len() <= n,
            Some((a, b)) => {
                &&& lo <= a <= b <= hi
                &&& n < tokens(cs@.subrange(lo as int, hi as int)).len()
                &&& cs@.subrange(a as int, b as int) == tokens(cs@.subrange(lo as int, hi as int))[n as int]
            },
        },
{
    let ghost all = tokens(cs@.subrange(lo as int, hi as int));
    let mut pos = lo;
    let mut k: usize = 0;
    loop
        invariant
            lo <= pos <= hi <= cs@.len(),
            k <= n,
            k <= all.len(),
            all == tokens(cs@.subrange(lo as int, hi as int)),
            all.skip(k as int) == tokens(cs@.subrange(pos as int, hi as int)),
        decreases hi - pos,
    {
        match next_token(cs, pos, hi) {
            None => {
                assert(all.len() == k);
                return None;
            },
            Some((a, b)) => {
                assert(all[k as int] == cs@.subrange(a as int, b as int)) by {
                    assert(all.skip(k as int)[0] == all[k as int]);
                }
                if k == n {
                    return Some((a, b));
                }
                assert(all.skip(k + 1) == all.skip(k as int).drop_first());
                pos = b;
                k = k + 1;
            },
        }
    }
}

/// Whether `cs[lo..hi]` is exactly `pat`.
pub fn range_equals(cs: &Vec<char>, lo: usize, hi: usize, pat: &Vec<char>) -> (res: bool)
    requires
        lo <= hi <= cs@.len(),
    ensures
        res == (cs@.subrange(lo as int, hi as int) == pat@),
{
    if hi - lo != pat.len() {
        return false;
    }
    let r = matches_at(cs, lo, hi, pat);
    assert(cs@.subrange(lo as int, hi as int).take(pat@.len() as int) == cs@.subrange(
        lo as int,
        hi as int,
    ));
    r
}

/// Whether the strings `a` and `b` are equal.
pub fn same_text(a: &String, b: &String) -> (res: bool)
    ensures
        res == (a@ == b@),
{
    a.eq(b)
}

/// The text that an optional string holds.
pub open spec fn opt_text(o: Option<String>) -> Option<Seq<char>> {
    match o {
        Some(s) => Some(s@),
        None => None,
    }
}

/// `a`, a space, then `b` (`format!("{} {}", a, b)`).
pub open spec fn spaced(a: Seq<char>, b: Seq<char>) -> Seq<char> {
    a + seq![' '] + b
}

/// Writes `a`, a space, then `b`.
pub fn join_spaced(a: &str, b: &str) -> (res: String)
    ensures
        res@ == spaced(a@, b@),
{
    let mut r = a.to_string();
    push_char(&mut r, ' ');
    r.append(b);
    r
}

/// Where `find_sub` finds `p`, the whole of `p` lies inside `s`.
pub proof fn lemma_find_sub_fits(s: Seq<char>, p: Seq<char>)
    ensures
        find_sub(s, p) matches Some(i) ==> 0 <= i && i + p.len() <= s.len(),
    decreases s.len(),
{
    if !has_prefix(s, p) && s.len() > 0 {
        lemma_find_sub_fits(s.drop_first(), p);
    }
}

/// Whether two string slices hold the same text.
pub fn str_eq(a: &str, b: &str) -> (res: bool)
    ensures
        res == (a@ == b@),
{
    let ca = chars_of(a);
    let cb = chars_of(b);
    assert(ca@.subrange(0, ca@.len() as int) == ca@);
    range_equals(&ca, 0, ca.len(), &cb)
}

/// The text that `String::from_utf8_lossy` makes of `bytes`.
pub uninterp spec fn lossy_utf8(bytes: Seq<u8>) -> Seq<char>;

/// Decodes bytes as UTF-8, each invalid sequence becoming U+FFFD
/// (`String::from_utf8_lossy`). Claimed of it: the result is a function of the bytes
/// alone, and bytes that are valid UTF-8 decode to exactly the characters they encode.
#[verifier::external_body]
pub fn text_from_bytes_lossy(bytes: &[u8]) -> (res: String)
    ensures
        res@ == lossy_utf8(bytes@),
        valid_utf8(bytes@) ==> res@ == decode_utf8(bytes@),
{
    String::from_utf8_lossy(bytes).into_owned()
}

} // verus!
