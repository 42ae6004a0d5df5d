//! Names of the graphics adapters: from the NVIDIA driver's information files and
//! the DRM device directory on Linux, from `system_profiler` on macOS and from
//! PowerShell on Windows.
use vstd::prelude::*;
use crate::text::{
    chars_of, find_str, find_sub, first_with, has_prefix, lines, range_equals, same_text,
    split_lines, starts_with_at, string_of, trim, trim_range, CharClass,
};

verus! {

/// The texts of a list of strings.
pub open spec fn texts(v: Seq<String>) -> Seq<Seq<char>> {
    v.map_values(|s: String| s@)
}

/// `l` with `x` added at the end unless it is already there.
pub open spec fn add_unique(l: Seq<Seq<char>>, x: Seq<char>) -> Seq<Seq<char>> {
    if l.contains(x) {
        l
    } else {
        l.push(x)
    }
}

/// Whether no text occurs twice in `l`.
pub open spec fn no_duplicates(l: Seq<Seq<char>>) -> bool {
    forall|i: int, j: int| 0 <= i < j < l.len() ==> l[i] != l[j]
}

/// Whether `list` holds the text of `s`.
pub fn contains_text(list: &Vec<String>, s: &String) -> (res: bool)
    ensures
        res == texts(list@).contains(s@),
{
    let mut i: usize = 0;
    while i < list.len()
        invariant
            i <= list@.len(),
            forall|j: int| 0 <= j < i ==> list@[j]@ != s@,
        decreases list@.len() - i,
    {
        if same_text(&list[i], s) {
            assert(texts(list@)[i as int] == s@);
            return true;
        }
        i = i + 1;
    }
    assert forall|j: int| 0 <= j < texts(list@).len() implies texts(list@)[j] != s@ by {
        assert(texts(list@)[j] == list@[j]@);
    }
    false
}

/// Adds `name` at the end of `list` unless the list already holds it.
pub fn push_unique(list: &mut Vec<String>, name: String)
    ensures
        texts(final(list)@) == add_unique(texts(old(list)@), name@),
{
    if !contains_text(list, &name) {
        let ghost before = list@;
        list.push(name);
        assert(texts(list@) == texts(before).push(name@));
    }
}

/// Adding a text unless present keeps a list free of duplicates.
pub proof fn lemma_add_unique_keeps(l: Seq<Seq<char>>, x: Seq<char>)
    requires
        no_duplicates(l),
    ensures
        no_duplicates(add_unique(l, x)),
        forall|y: Seq<char>| l.contains(y) ==> add_unique(l, x).contains(y),
        add_unique(l, x).contains(x),
{
    if !l.contains(x) {
        let r = l.push(x);
        assert forall|y: Seq<char>| l.contains(y) implies r.contains(y) by {
            let k = choose|k: int| 0 <= k < l.len() && l[k] == y;
            assert(r[k] == y);
        }
        assert(r[l.len() as int] == x);
    }
}

/// The model name that one line of an NVIDIA `information` file gives: for a line
/// that begins with `Model:`, the rest without surrounding whitespace.
pub open spec fn model_line(l: Seq<char>) -> Option<Seq<char>> {
    if has_prefix(l, "Model:"@) {
        Some(trim(l.skip("Model:"@.len() as int), CharClass::Whitespace))
    } else {
        None
    }
}

/// `gpus` after adding, unless present, the model of each line of `ls` in order.
pub open spec fn add_models(gpus: Seq<Seq<char>>, ls: Seq<Seq<char>>) -> Seq<Seq<char>>
    decreases ls.len(),
{
    if ls.len() == 0 {
        gpus
    } else {
        match model_line(ls.last()) {
            Some(m) => add_unique(add_models(gpus, ls.drop_last()), m),
            None => add_models(gpus, ls.drop_last()),
        }
    }
}

/// `gpus` after adding the models of each NVIDIA information text of `infos` in order.
pub open spec fn add_nvidia(gpus: Seq<Seq<char>>, infos: Seq<Seq<char>>) -> Seq<Seq<char>>
    decreases infos.len(),
{
    if infos.len() == 0 {
        gpus
    } else {
        add_models(add_nvidia(gpus, infos.drop_last()), lines(infos.last()))
    }
}

/// Adds to `gpus` the model names in the text of one NVIDIA `information` file.
pub fn add_nvidia_models(gpus: &mut Vec<String>, info: &str)
    ensures
        texts(final(gpus)@) == add_models(texts(old(gpus)@), lines(info@)),
{
    let cs = chars_of(info);
    let ls = split_lines(&cs);
    let ghost all = lines(cs@);
    let ghost start = texts(gpus@);
    let pat = chars_of("Model:");
    let mut i: usize = 0;
    while i < ls.len()
        invariant
            i <= ls@.len() == all.len(),
            all == lines(cs@),
            pat@ == "Model:"@,
            forall|j: int|
                0 <= j < ls@.len() ==> {
                    &&& (#[trigger] ls@[j]).0 <= ls@[j].1 <= cs@.len()
                    &&& cs@.subrange(ls@[j].0 as int, ls@[j].1 as int) == all[j]
                },
            texts(gpus@) == add_models(start, all.take(i as int)),
        decreases ls@.len() - i,
    {
        let (lo, hi) = ls[i];
        let ghost l = cs@.subrange(lo as int, hi as int);
        proof {
            assert(all.take(i + 1).drop_last() == all.take(i as int));
            assert(all.take(i + 1).last() == all[i as int]);
        }
        if starts_with_at(&cs, lo, hi, &pat) {
            let (a, b) = trim_range(&cs, lo + pat.len(), hi, CharClass::Whitespace);
            assert(l.skip(pat@.len() as int) == cs@.subrange(lo + pat@.len(), hi as int));
            push_unique(gpus, string_of(&cs, a, b));
        }
        i = i + 1;
    }
    assert(all.take(ls@.len() as int) == all);
}

/// Whether some text of `l` holds `pat`.
pub open spec fn any_holds(l: Seq<Seq<char>>, pat: Seq<char>) -> bool {
    exists|i: int| 0 <= i < l.len() && (#[trigger] find_sub(l[i], pat)) is Some
}

/// Whether some string of `list` holds the text `pat`.
pub fn any_contains(list: &Vec<String>, pat: &Vec<char>) -> (res: bool)
    ensures
        res == any_holds(texts(list@), pat@),
{
    let ghost l = texts(list@);
    let mut i: usize = 0;
    while i < list.len()
        invariant
            i <= list@.len(),
            l == texts(list@),
            forall|j: int| 0 <= j < i ==> (#[trigger] find_sub(l[j], pat@)) is None,
        decreases list@.len() - i,
    {
        let cs = chars_of(list[i].as_str());
        assert(l[i as int] == cs@);
        assert(cs@.subrange(0, cs@.len() as int) == cs@);
        if find_str(&cs, 0, cs.len(), pat).is_some() {
            return true;
        }
        i = i + 1;
    }
    false
}

/// A device entry of the DRM class directory: its name, and the texts of its
/// `device/product_name` and `device/vendor` files when they could be read.
pub struct DrmCard {
    pub name: String,
    pub product_name: Option<String>,
    pub vendor: Option<String>,
}

/// The adapter label for a PCI vendor identifier, for the vendors that have one.
pub open spec fn vendor_label(id: Seq<char>) -> Option<Seq<char>> {
    if id == "0x10de"@ {
        Some("NVIDIA GPU"@)
    } else if id == "0x1002"@ {
        Some("AMD GPU"@)
    } else if id == "0x8086"@ {
        Some("Intel GPU"@)
    } else if id == "0x1414"@ {
        Some("Microsoft Virtual GPU"@)
    } else {
        None
    }
}

/// Whether a DRM entry name is a display adapter: `card` then no `-` (connector
/// entries such as `card0-HDMI-A-1` have one).
pub open spec fn is_card_name(name: Seq<char>) -> bool {
    has_prefix(name, "card"@) && first_with(name, CharClass::Is('-'), true) == name.len()
}

/// `gpus` after one DRM entry: nothing for an entry that is not an adapter; for one
/// with a non-empty product name, that name unless it is already known (a specific
/// model of its vendor then being known, no vendor label is added); otherwise the
/// label of its vendor, unless it is NVIDIA and a name holding `NVIDIA` is already
/// known.
pub open spec fn card_step(
    gpus: Seq<Seq<char>>,
    name: Seq<char>,
    product: Option<Seq<char>>,
    vendor: Option<Seq<char>>,
) -> Seq<Seq<char>> {
    if !is_card_name(name) {
        gpus
    } else {
        let p = match product {
            Some(t) => trim(t, CharClass::Whitespace),
            None => Seq::empty(),
        };
        if product is Some && p.len() > 0 {
            if gpus.contains(p) {
                gpus
            } else {
                gpus.push(p)
            }
        } else {
            match vendor {
                None => gpus,
                Some(v) => {
                    let id = trim(v, CharClass::Whitespace);
                    if id == "0x10de"@ && any_holds(gpus, "NVIDIA"@) {
                        gpus
                    } else {
                        match vendor_label(id) {
                            Some(label) => add_unique(gpus, label),
                            None => gpus,
                        }
                    }
                },
            }
        }
    }
}

/// The label of the vendor identifier `cs[a..b]`, if it has one.
fn vendor_label_of(cs: &Vec<char>, a: usize, b: usize) -> (res: Option<&'static str>)
    requires
        a <= b <= cs@.len(),
    ensures
        match res {
            Some(l) => vendor_label(cs@.subrange(a as int, b as int)) == Some(l@),
            None => vendor_label(cs@.subrange(a as int, b as int)) is None,
        },
{
    if range_equals(cs, a, b, &chars_of("0x10de")) {
        Some("NVIDIA GPU")
    } else if range_equals(cs, a, b, &chars_of("0x1002")) {
        Some("AMD GPU")
    } else if range_equals(cs, a, b, &chars_of("0x8086")) {
        Some("Intel GPU")
    } else if range_equals(cs, a, b, &chars_of("0x1414")) {
        Some("Microsoft Virtual GPU")
    } else {
        None
    }
}

/// Whether `name` is a display adapter entry (see `is_card_name`).
fn card_name_ok(name: &String) -> (res: bool)
    ensures
        res == is_card_name(name@),
{
    let cs = chars_of(name.as_str());
    assert(cs@.subrange(0, cs@.len() as int) == cs@);
    starts_with_at(&cs, 0, cs.len(), &chars_of("card"))
        && crate::text::find_with(&cs, 0, cs.len(), CharClass::Is('-'), true) == cs.len()
}

/// Adds to `gpus` what the DRM entry `card` gives (see `card_step`).
pub fn add_card(gpus: &mut Vec<String>, card: &DrmCard)
    ensures
        texts(final(gpus)@) == card_step(
            texts(old(gpus)@),
            card.name@,
            crate::text::opt_text(card.product_name),
            crate::text::opt_text(card.vendor),
        ),
{
    if !card_name_ok(&card.name) {
        return;
    }
    if let Some(p) = &card.product_name {
        let cs = chars_of(p.as_str());
        assert(cs@.subrange(0, cs@.len() as int) == cs@);
        let (a, b) = trim_range(&cs, 0, cs.len(), CharClass::Whitespace);
        let t = string_of(&cs, a, b);
        if a < b {
            if !contains_text(gpus, &t) {
                let ghost before = gpus@;
                gpus.push(t);
                assert(texts(gpus@) == texts(before).push(t@));
            }
            return;
        }
    }
    if let Some(v) = &card.vendor {
        let cs = chars_of(v.as_str());
        assert(cs@.subrange(0, cs@.len() as int) == cs@);
        let (a, b) = trim_range(&cs, 0, cs.len(), CharClass::Whitespace);
        if range_equals(&cs, a, b, &chars_of("0x10de")) && any_contains(gpus, &chars_of("NVIDIA")) {
            return;
        }
        if let Some(label) = vendor_label_of(&cs, a, b) {
            push_unique(gpus, label.to_string());
        }
    }
}

/// Whether `a` comes before `b` or equals it in the order of their characters
/// (the order in which file names sort).
pub open spec fn text_le(a: Seq<char>, b: Seq<char>) -> bool
    decreases a.len(),
{
    if a.len() == 0 {
        true
    } else if b.len() == 0 {
        false
    } else if a[0] != b[0] {
        a[0] < b[0]
    } else {
        text_le(a.drop_first(), b.drop_first())
    }
}

/// `text_le` orders any two texts one way or the other.
pub proof fn lemma_text_le_total(a: Seq<char>, b: Seq<char>)
    ensures
        text_le(a, b) || text_le(b, a),
    decreases a.len(),
{
    if a.len() > 0 && b.len() > 0 && a[0] == b[0] {
        lemma_text_le_total(a.drop_first(), b.drop_first());
    }
}

/// `text_le` is transitive.
pub proof fn lemma_text_le_transitive(a: Seq<char>, b: Seq<char>, c: Seq<char>)
    requires
        text_le(a, b),
        text_le(b, c),
    ensures
        text_le(a, c),
    decreases a.len(),
{
    if a.len() > 0 && b.len() > 0 && c.len() > 0 && a[0] == b[0] && b[0] == c[0] {
        lemma_text_le_transitive(a.drop_first(), b.drop_first(), c.drop_first());
    }
}

/// Whether the text `a` comes before `b` or equals it (see `text_le`).
fn text_le_exec(a: &Vec<char>, b: &Vec<char>) -> (res: bool)
    ensures
        res == text_le(a@, b@),
{
    let mut i: usize = 0;
    assert(a@.skip(0) == a@ && b@.skip(0) == b@);
    loop
        invariant
            i <= a@.len(),
            i <= b@.len(),
            text_le(a@, b@) == text_le(a@.skip(i as int), b@.skip(i as int)),
        decreases a@.len() - i,
    {
        if i == a.len() {
            return true;
        }
        if i == b.len() {
            return false;
        }
        assert(a@.skip(i as int)[0] == a@[i as int] && b@.skip(i as int)[0] == b@[i as int]);
        if a[i] != b[i] {
            return a[i] < b[i];
        }
        assert(a@.skip(i as int).drop_first() == a@.skip(i + 1));
        assert(b@.skip(i as int).drop_first() == b@.skip(i + 1));
        i = i + 1;
    }
}

/// `s` with `c` inserted after the last entry whose name is not after `c`'s, so that
/// entries of equal names keep their order.
pub open spec fn insert_by_name(s: Seq<DrmCard>, c: DrmCard) -> Seq<DrmCard>
    decreases s.len(),
{
    if s.len() == 0 {
        seq![c]
    } else if text_le(s.last().name@, c.name@) {
        s.push(c)
    } else {
        insert_by_name(s.drop_last(), c).push(s.last())
    }
}

/// The entries of `s` sorted by name, entries of equal names in their order in `s`
/// (what a stable sort by name gives).
pub open spec fn sort_by_name(s: Seq<DrmCard>) -> Seq<DrmCard>
    decreases s.len(),
{
    if s.len() == 0 {
        s
    } else {
        insert_by_name(sort_by_name(s.drop_last()), s.last())
    }
}

/// Inserting at the first index from which every name is after `c`'s, with the
/// name before it not after, is `insert_by_name`.
proof fn lemma_insert_by_name_at(s: Seq<DrmCard>, c: DrmCard, j: int)
    requires
        0 <= j <= s.len(),
        forall|k: int| j <= k < s.len() ==> !text_le(#[trigger] s[k].name@, c.name@),
        j == 0 || text_le(s[j - 1].name@, c.name@),
    ensures
        insert_by_name(s, c) == s.insert(j, c),
    decreases s.len(),
{
    if s.len() == 0 {
        assert(s.insert(j, c) == seq![c]);
    } else if j == s.len() {
        assert(s.insert(j, c) == s.push(c));
    } else {
        assert(!text_le(s.last().name@, c.name@));
        let t = s.drop_last();
        assert forall|k: int| j <= k < t.len() implies !text_le(#[trigger] t[k].name@, c.name@) by {
            assert(t[k] == s[k]);
        }
        lemma_insert_by_name_at(t, c, j);
        assert(t.insert(j, c).push(s.last()) == s.insert(j, c));
    }
}

/// Sorts DRM entries by name (see `sort_by_name`).
pub fn sort_cards(cards: Vec<DrmCard>) -> (res: Vec<DrmCard>)
    ensures
        res@ == sort_by_name(cards@),
{
    let ghost all = cards@;
    let mut input = cards;
    let mut res: Vec<DrmCard> = Vec::new();
    let ghost mut k: int = 0;
    assert(all.take(0) == Seq::<DrmCard>::empty());
    assert(all.skip(0) == all);
    while input.len() > 0
        invariant
            0 <= k <= all.len(),
            input@ == all.skip(k),
            res@ == sort_by_name(all.take(k)),
        decreases input@.len(),
    {
        let c = input.remove(0);
        proof {
            assert(c == all[k]);
            assert(all.take(k + 1).drop_last() == all.take(k));
            assert(all.take(k + 1).last() == all[k]);
            assert(input@ == all.skip(k + 1));
        }
        let cn = chars_of(c.name.as_str());
        let mut j = res.len();
        while j > 0
            invariant
                j <= res@.len(),
                cn@ == c.name@,
                forall|m: int| j <= m < res@.len() ==> !text_le(#[trigger] res@[m].name@, c.name@),
            ensures
                j <= res@.len(),
                forall|m: int| j <= m < res@.len() ==> !text_le(#[trigger] res@[m].name@, c.name@),
                j == 0 || text_le(res@[j - 1].name@, c.name@),
            decreases j,
        {
            let rn = chars_of(res[j - 1].name.as_str());
            if text_le_exec(&rn, &cn) {
                break;
            }
            j = j - 1;
        }
        proof {
            lemma_insert_by_name_at(res@, c, j as int);
            k = k + 1;
        }
        res.insert(j, c);
    }
    assert(all.take(k) == all);
    res
}

/// Whether the entries of `s` are in order of their names.
pub open spec fn sorted_by_name(s: Seq<DrmCard>) -> bool {
    forall|i: int, j: int|
        #![trigger s[i], s[j]]
        0 <= i < j < s.len() ==> text_le(s[i].name@, s[j].name@)
}

/// Inserting by name into entries sorted by name keeps them sorted and adds just `c`.
proof fn lemma_insert_by_name_sorted(s: Seq<DrmCard>, c: DrmCard)
    requires
        sorted_by_name(s),
    ensures
        sorted_by_name(insert_by_name(s, c)),
        insert_by_name(s, c).to_multiset() == s.to_multiset().insert(c),
    decreases s.len(),
{
    broadcast use vstd::seq_lib::group_to_multiset_ensures;

    if s.len() == 0 {
        assert(seq![c] == Seq::<DrmCard>::empty().push(c));
    } else if text_le(s.last().name@, c.name@) {
        let r = s.push(c);
        assert forall|i: int, j: int| 0 <= i < j < r.len() implies text_le(
            r[i].name@,
            r[j].name@,
        ) by {
            assert(r[i] == s[i]);
            if j < s.len() {
                assert(r[j] == s[j]);
                assert(text_le(s[i].name@, s[j].name@));
            } else {
                assert(r[j] == c);
                if i < s.len() - 1 {
                    assert(text_le(s[i].name@, s[s.len() - 1].name@));
                    lemma_text_le_transitive(s[i].name@, s.last().name@, c.name@);
                }
            }
        }
    } else {
        let t = s.drop_last();
        let x = s.last();
        assert forall|i: int, j: int| 0 <= i < j < t.len() implies text_le(
            t[i].name@,
            t[j].name@,
        ) by {
            assert(t[i] == s[i] && t[j] == s[j]);
        }
        lemma_insert_by_name_sorted(t, c);
        let u = insert_by_name(t, c);
        let r = u.push(x);
        lemma_text_le_total(x.name@, c.name@);
        assert(s == t.push(x));
        assert forall|i: int| 0 <= i < u.len() implies text_le(#[trigger] u[i].name@, x.name@) by {
            assert(u.to_multiset().count(u[i]) > 0);
            if u[i] != c {
                assert(t.to_multiset().count(u[i]) > 0);
                assert(t.contains(u[i]));
                let m = choose|m: int| 0 <= m < t.len() && t[m] == u[i];
                assert(s[m] == t[m]);
            }
        }
        assert forall|i: int, j: int| 0 <= i < j < r.len() implies text_le(
            r[i].name@,
            r[j].name@,
        ) by {
            if j == u.len() {
                assert(r[i] == u[i]);
                assert(r[j] == x);
                assert(text_le(u[i].name@, x.name@));
            } else {
                assert(r[i] == u[i] && r[j] == u[j]);
                assert(text_le(u[i].name@, u[j].name@));
            }
        }
    }
}

/// Sorting DRM entries by name puts them in order of their names and keeps exactly
/// the same entries.
pub proof fn law_sort_by_name(s: Seq<DrmCard>)
    ensures
        sorted_by_name(sort_by_name(s)),
        sort_by_name(s).to_multiset() == s.to_multiset(),
    decreases s.len(),
{
    broadcast use vstd::seq_lib::group_to_multiset_ensures;

    if s.len() > 0 {
        law_sort_by_name(s.drop_last());
        lemma_insert_by_name_sorted(sort_by_name(s.drop_last()), s.last());
        assert(s == s.drop_last().push(s.last()));
    }
}

/// `gpus` after each DRM entry of `cards` in order (see `card_step`).
pub open spec fn cards_scan(gpus: Seq<Seq<char>>, cards: Seq<DrmCard>) -> Seq<Seq<char>>
    decreases cards.len(),
{
    if cards.len() == 0 {
        gpus
    } else {
        let c = cards.last();
        card_step(
            cards_scan(gpus, cards.drop_last()),
            c.name@,
            crate::text::opt_text(c.product_name),
            crate::text::opt_text(c.vendor),
        )
    }
}

/// The graphics adapters of a Linux machine: first the models that the NVIDIA
/// information texts `infos` name, then what the DRM entries `cards` give, taken in
/// order of their names.
pub open spec fn linux_gpu_names(infos: Seq<Seq<char>>, cards: Seq<DrmCard>) -> Seq<Seq<char>> {
    cards_scan(add_nvidia(Seq::empty(), infos), sort_by_name(cards))
}

/// The graphics adapters of a Linux machine from the texts of the NVIDIA driver's
/// `information` files and the entries of the DRM class directory (see
/// `linux_gpu_names`).
pub fn detect_gpu_names_linux(nvidia_infos: &Vec<String>, cards: Vec<DrmCard>) -> (res: Vec<
    String,
>)
    ensures
        texts(res@) == linux_gpu_names(texts(nvidia_infos@), cards@),
{
    let ghost infos = texts(nvidia_infos@);
    let mut gpus: Vec<String> = Vec::new();
    let mut i: usize = 0;
    while i < nvidia_infos.len()
        invariant
            i <= nvidia_infos@.len(),
            infos == texts(nvidia_infos@),
            texts(gpus@) == add_nvidia(Seq::empty(), infos.take(i as int)),
        decreases nvidia_infos@.len() - i,
    {
        proof {
            assert(infos.take(i + 1).drop_last() == infos.take(i as int));
            assert(infos.take(i + 1).last() == nvidia_infos@[i as int]@);
        }
        add_nvidia_models(&mut gpus, nvidia_infos[i].as_str());
        i = i + 1;
    }
    assert(infos.take(i as int) == infos);
    assert(texts(Seq::<String>::empty()) == Seq::<Seq<char>>::empty());
    let sorted = sort_cards(cards);
    let ghost start = texts(gpus@);
    let mut k: usize = 0;
    while k < sorted.len()
        invariant
            k <= sorted@.len(),
            texts(gpus@) == cards_scan(start, sorted@.take(k as int)),
        decreases sorted@.len() - k,
    {
        proof {
            assert(sorted@.take(k + 1).drop_last() == sorted@.take(k as int));
            assert(sorted@.take(k + 1).last() == sorted@[k as int]);
        }
        add_card(&mut gpus, &sorted[k]);
        k = k + 1;
    }
    assert(sorted@.take(k as int) == sorted@);
    gpus
}

/// Adding the models of some lines keeps a list free of duplicates.
proof fn lemma_add_models_unique(gpus: Seq<Seq<char>>, ls: Seq<Seq<char>>)
    requires
        no_duplicates(gpus),
    ensures
        no_duplicates(add_models(gpus, ls)),
    decreases ls.len(),
{
    if ls.len() > 0 {
        lemma_add_models_unique(gpus, ls.drop_last());
        if let Some(m) = model_line(ls.last()) {
            lemma_add_unique_keeps(add_models(gpus, ls.drop_last()), m);
        }
    }
}

/// Adding NVIDIA models keeps a list free of duplicates.
proof fn lemma_add_nvidia_unique(gpus: Seq<Seq<char>>, infos: Seq<Seq<char>>)
    requires
        no_duplicates(gpus),
    ensures
        no_duplicates(add_nvidia(gpus, infos)),
    decreases infos.len(),
{
    if infos.len() > 0 {
        lemma_add_nvidia_unique(gpus, infos.drop_last());
        lemma_add_models_unique(add_nvidia(gpus, infos.drop_last()), lines(infos.last()));
    }
}

/// One DRM entry keeps a list free of duplicates.
proof fn lemma_card_step_unique(
    gpus: Seq<Seq<char>>,
    name: Seq<char>,
    product: Option<Seq<char>>,
    vendor: Option<Seq<char>>,
)
    requires
        no_duplicates(gpus),
    ensures
        no_duplicates(card_step(gpus, name, product, vendor)),
{
    if is_card_name(name) {
        let p = match product {
            Some(t) => trim(t, CharClass::Whitespace),
            None => Seq::empty(),
        };
        if product is Some && p.len() > 0 {
            lemma_add_unique_keeps(gpus, p);
        } else if let Some(v) = vendor {
            let id = trim(v, CharClass::Whitespace);
            if let Some(label) = vendor_label(id) {
                lemma_add_unique_keeps(gpus, label);
            }
        }
    }
}

/// DRM entries keep a list free of duplicates.
proof fn lemma_cards_scan_unique(gpus: Seq<Seq<char>>, cards: Seq<DrmCard>)
    requires
        no_duplicates(gpus),
    ensures
        no_duplicates(cards_scan(gpus, cards)),
    decreases cards.len(),
{
    if cards.len() > 0 {
        lemma_cards_scan_unique(gpus, cards.drop_last());
        let c = cards.last();
        lemma_card_step_unique(
            cards_scan(gpus, cards.drop_last()),
            c.name@,
            crate::text::opt_text(c.product_name),
            crate::text::opt_text(c.vendor),
        );
    }
}

/// No adapter name appears twice among the graphics adapters of a Linux machine.
pub proof fn law_linux_gpu_names_unique(infos: Seq<Seq<char>>, cards: Seq<DrmCard>)
    ensures
        no_duplicates(linux_gpu_names(infos, cards)),
{
    lemma_add_nvidia_unique(Seq::empty(), infos);
    lemma_cards_scan_unique(add_nvidia(Seq::empty(), infos), sort_by_name(cards));
}

/// The adapter that one line of `system_profiler SPDisplaysDataType` names: for a
/// line that, without surrounding whitespace, begins with `Chipset Model: `, the rest
/// without surrounding whitespace.
pub open spec fn chipset_line(l: Seq<char>) -> Option<Seq<char>> {
    let t = trim(l, CharClass::Whitespace);
    if has_prefix(t, "Chipset Model: "@) {
        Some(trim(t.skip("Chipset Model: "@.len() as int), CharClass::Whitespace))
    } else {
        None
    }
}

/// `gpus` after adding, unless present, the adapter of each line of `ls` in order.
pub open spec fn add_chipsets(gpus: Seq<Seq<char>>, ls: Seq<Seq<char>>) -> Seq<Seq<char>>
    decreases ls.len(),
{
    if ls.len() == 0 {
        gpus
    } else {
        match chipset_line(ls.last()) {
            Some(m) => add_unique(add_chipsets(gpus, ls.drop_last()), m),
            None => add_chipsets(gpus, ls.drop_last()),
        }
    }
}

/// The graphics adapters that the text printed by `system_profiler
/// SPDisplaysDataType` names (see `chipset_line`), each once, in order.
pub fn gpu_names_from_profiler_text(text: &str) -> (res: Vec<String>)
    ensures
        texts(res@) == add_chipsets(Seq::empty(), lines(text@)),
{
    let cs = chars_of(text);
    let ls = split_lines(&cs);
    let ghost all = lines(cs@);
    let pat = chars_of("Chipset Model: ");
    let mut gpus: Vec<String> = Vec::new();
    let mut i: usize = 0;
    assert(texts(gpus@) == Seq::<Seq<char>>::empty());
    while i < ls.len()
        invariant
            i <= ls@.len() == all.len(),
            all == lines(cs@),
            pat@ == "Chipset Model: "@,
            forall|j: int|
                0 <= j < ls@.len() ==> {
                    &&& (#[trigger] ls@[j]).0 <= ls@[j].1 <= cs@.len()
                    &&& cs@.subrange(ls@[j].0 as int, ls@[j].1 as int) == all[j]
                },
            texts(gpus@) == add_chipsets(Seq::empty(), all.take(i as int)),
        decreases ls@.len() - i,
    {
        let (lo, hi) = ls[i];
        proof {
            assert(all.take(i + 1).drop_last() == all.take(i as int));
            assert(all.take(i + 1).last() == all[i as int]);
        }
        let (a, b) = trim_range(&cs, lo, hi, CharClass::Whitespace);
        let ghost t = cs@.subrange(a as int, b as int);
        if starts_with_at(&cs, a, b, &pat) {
            let (c, d) = trim_range(&cs, a + pat.len(), b, CharClass::Whitespace);
            assert(t.skip(pat@.len() as int) == cs@.subrange(a + pat@.len(), b as int));
            push_unique(&mut gpus, string_of(&cs, c, d));
        }
        i = i + 1;
    }
    assert(all.take(ls@.len() as int) == all);
    gpus
}

/// The graphics adapters of a Mac from the bytes that `system_profiler
/// SPDisplaysDataType` printed, read as UTF-8 with replacement of invalid sequences.
pub fn detect_gpu_names_macos(stdout: &[u8]) -> (res: Vec<String>)
    ensures
        texts(res@) == add_chipsets(Seq::empty(), lines(crate::text::lossy_utf8(stdout@))),
{
    let text = crate::text::text_from_bytes_lossy(stdout);
    gpu_names_from_profiler_text(text.as_str())
}

/// No adapter name appears twice among those that `system_profiler` text names.
pub proof fn law_profiler_gpu_names_unique(ls: Seq<Seq<char>>)
    ensures
        no_duplicates(add_chipsets(Seq::empty(), ls)),
    decreases ls.len(),
{
    if ls.len() > 0 {
        law_profiler_gpu_names_unique(ls.drop_last());
        if let Some(m) = chipset_line(ls.last()) {
            lemma_add_unique_keeps(add_chipsets(Seq::empty(), ls.drop_last()), m);
        }
    }
}

/// The lines of `ls` without surrounding whitespace, leaving out those that become
/// empty.
pub open spec fn nonblank_lines(ls: Seq<Seq<char>>) -> Seq<Seq<char>>
    decreases ls.len(),
{
    if ls.len() == 0 {
        Seq::empty()
    } else {
        let t = trim(ls.last(), CharClass::Whitespace);
        if t.len() > 0 {
            nonblank_lines(ls.drop_last()).push(t)
        } else {
            nonblank_lines(ls.drop_last())
        }
    }
}

/// The graphics adapters in the text that PowerShell printed for the names of the
/// video controllers: its non-blank lines, without surrounding whitespace.
pub fn gpu_names_from_powershell_text(text: &str) -> (res: Vec<String>)
    ensures
        texts(res@) == nonblank_lines(lines(text@)),
{
    let cs = chars_of(text);
    let ls = split_lines(&cs);
    let ghost all = lines(cs@);
    let mut gpus: Vec<String> = Vec::new();
    let mut i: usize = 0;
    assert(texts(gpus@) == Seq::<Seq<char>>::empty());
    while i < ls.len()
        invariant
            i <= ls@.len() == all.len(),
            all == lines(cs@),
            forall|j: int|
                0 <= j < ls@.len() ==> {
                    &&& (#[trigger] ls@[j]).0 <= ls@[j].1 <= cs@.len()
                    &&& cs@.subrange(ls@[j].0 as int, ls@[j].1 as int) == all[j]
                },
            texts(gpus@) == nonblank_lines(all.take(i as int)),
        decreases ls@.len() - i,
    {
        let (lo, hi) = ls[i];
        proof {
            assert(all.take(i + 1).drop_last() == all.take(i as int));
            assert(all.take(i + 1).last() == all[i as int]);
        }
        let (a, b) = trim_range(&cs, lo, hi, CharClass::Whitespace);
        if a < b {
            let t = string_of(&cs, a, b);
            let ghost before = gpus@;
            gpus.push(t);
            assert(texts(gpus@) == texts(before).push(t@));
        }
        i = i + 1;
    }
    assert(all.take(ls@.len() as int) == all);
    gpus
}

/// The graphics adapters of a Windows machine from the bytes that PowerShell printed
/// for the names of its video controllers, read as UTF-8 with replacement of invalid
/// sequences.
pub fn detect_gpu_names_windows(stdout: &[u8]) -> (res: Vec<String>)
    ensures
        texts(res@) == nonblank_lines(lines(crate::text::lossy_utf8(stdout@))),
{
    let text = crate::text::text_from_bytes_lossy(stdout);
    gpu_names_from_powershell_text(text.as_str())
}

/// An NVIDIA card (vendor `0x10de`) without a product name of its own adds no label
/// once some listed name holds `NVIDIA`, such as a model read from the driver's
/// information files.
pub proof fn law_nvidia_card_after_nvidia_name(
    gpus: Seq<Seq<char>>,
    name: Seq<char>,
    product: Option<Seq<char>>,
    vendor: Seq<char>,
    k: int,
)
    requires
        is_card_name(name),
        product matches Some(t) ==> trim(t, CharClass::Whitespace).len() == 0,
        trim(vendor, CharClass::Whitespace) == "0x10de"@,
        0 <= k < gpus.len(),
        find_sub(gpus[k], "NVIDIA"@) is Some,
    ensures
        card_step(gpus, name, product, Some(vendor)) == gpus,
{
}

/// An NVIDIA card (vendor `0x10de`) without a product name of its own adds the label
/// `NVIDIA GPU` (once) when no listed name holds `NVIDIA`.
pub proof fn law_nvidia_card_without_nvidia_name(
    gpus: Seq<Seq<char>>,
    name: Seq<char>,
    product: Option<Seq<char>>,
    vendor: Seq<char>,
)
    requires
        is_card_name(name),
        product matches Some(t) ==> trim(t, CharClass::Whitespace).len() == 0,
        trim(vendor, CharClass::Whitespace) == "0x10de"@,
        forall|k: int| 0 <= k < gpus.len() ==> (#[trigger] find_sub(gpus[k], "NVIDIA"@)) is None,
    ensures
        card_step(gpus, name, product, Some(vendor)) == add_unique(gpus, "NVIDIA GPU"@),
{
}

} // verus!
