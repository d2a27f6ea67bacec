//! Character-level text utilities shared by the collectors and the views.
//!
//! Strings are modelled by their character sequences (`s@`); byte lengths are
//! the lengths of the UTF-8 encodings of those sequences.
use vstd::prelude::*;
use vstd::utf8::*;
use vstd::std_specs::iter::IteratorSpec;

verus! {

broadcast use vstd::string::group_string_axioms;

// ---------------------------------------------------------------------------
// UTF-8 widths
// ---------------------------------------------------------------------------
/// Number of bytes that the UTF-8 encoding of `s` occupies (what `str::len` returns).
pub open spec fn byte_len(s: Seq<char>) -> nat {
    encode_utf8(s).len()
}

/// Number of bytes of the UTF-8 encoding of one character.
pub open spec fn char_width(c: char) -> nat {
    encode_scalar(c as u32).len()
}

pub proof fn lemma_byte_len_concat(a: Seq<char>, b: Seq<char>)
    ensures
        byte_len(a + b) == byte_len(a) + byte_len(b),
    decreases a.len(),
{
    if a.len() == 0 {
        assert(a + b =~= b);
    } else {
        assert((a + b).drop_first() =~= a.drop_first() + b);
        lemma_byte_len_concat(a.drop_first(), b);
    }
}

pub proof fn lemma_byte_len_push(a: Seq<char>, c: char)
    ensures
        byte_len(a.push(c)) == byte_len(a) + char_width(c),
{
    lemma_byte_len_concat(a, seq![c]);
    assert(a + seq![c] =~= a.push(c));
    assert(seq![c].drop_first() =~= Seq::<char>::empty());
    assert(encode_utf8(Seq::<char>::empty()) =~= Seq::<u8>::empty());
    assert(encode_utf8(seq![c]) =~= encode_scalar(c as u32));
}

pub proof fn lemma_char_width_bounds(c: char)
    ensures
        1 <= char_width(c) <= 4,
{
    char_is_scalar(c);
}

/// Width in bytes of the UTF-8 encoding of `c` (what `char::len_utf8` returns).
pub fn char_byte_width(c: char) -> (w: usize)
    ensures
        w == char_width(c),
        1 <= w <= 4,
{
    proof {
        char_is_scalar(c);
    }
    let v = c as u32;
    if v <= 0x7f {
        1
    } else if v <= 0x7ff {
        2
    } else if v <= 0xffff {
        3
    } else {
        4
    }
}

// ---------------------------------------------------------------------------
// Conversions between strings and character vectors
// ---------------------------------------------------------------------------
/// `String::push`: appends one character at the end.
#[verifier::external_body]
pub(crate) fn string_push(s: &mut String, c: char)
    ensures
        final(s)@ == old(s)@.push(c),
{
    s.push(c)
}

/// `String::pop`: removes and returns the last character, if there is one.
#[verifier::external_body]
pub(crate) fn string_pop(s: &mut String) -> (r: Option<char>)
    ensures
        old(s)@.len() == 0 ==> r is None && final(s)@ == old(s)@,
        old(s)@.len() > 0 ==> r == Some(old(s)@.last()) && final(s)@ == old(s)@.drop_last(),
{
    s.pop()
}

/// The characters of `s`, in order.
pub fn chars_of(s: &str) -> (v: Vec<char>)
    ensures
        v@ == s@,
{
    let mut v: Vec<char> = Vec::new();
    let mut it = s.chars();
    loop
        invariant
            it.obeys_prophetic_iter_laws(),
            it.decrease() is Some,
            v@ + it.remaining() == s@,
        ensures
            v@ == s@,
        decreases it.decrease()->0,
    {
        match it.next() {
            Some(c) => {
                assert(v@.push(c) + it.remaining() =~= s@);
                v.push(c);
            },
            None => {
                assert(v@ =~= s@);
                break ;
            },
        }
    }
    v
}

/// The string made of the characters `v[lo..hi]`.
pub fn string_of_range(v: &Vec<char>, lo: usize, hi: usize) -> (s: String)
    requires
        lo <= hi <= v.len(),
    ensures
        s@ == v@.subrange(lo as int, hi as int),
{
    let mut s = String::new();
    let mut i = lo;
    while i < hi
        invariant
            lo <= i <= hi <= v.len(),
            s@ == v@.subrange(lo as int, i as int),
        decreases hi - i,
    {
        string_push(&mut s, v[i]);
        i = i + 1;
        assert(s@ =~= v@.subrange(lo as int, i as int));
    }
    s
}

/// The string made of all the characters of `v`.
pub fn string_of(v: &Vec<char>) -> (s: String)
    ensures
        s@ == v@,
{
    let s = string_of_range(v, 0, v.len());
    assert(v@.subrange(0, v@.len() as int) =~= v@);
    s
}

/// The string `a` followed by `b`.
pub fn concat(a: &str, b: &str) -> (s: String)
    ensures
        s@ == a@ + b@,
{
    let va = chars_of(a);
    let vb = chars_of(b);
    let mut s = string_of(&va);
    let mut i: usize = 0;
    while i < vb.len()
        invariant
            i <= vb.len(),
            vb@ == b@,
            s@ == a@ + b@.take(i as int),
        decreases vb.len() - i,
    {
        string_push(&mut s, vb[i]);
        i = i + 1;
        assert(s@ =~= a@ + b@.take(i as int));
    }
    assert(b@.take(vb.len() as int) =~= b@);
    s
}

// ---------------------------------------------------------------------------
// Prefixes and substrings
// ---------------------------------------------------------------------------
/// `s` begins with `p`.
pub open spec fn has_prefix(s: Seq<char>, p: Seq<char>) -> bool {
    p.len() <= s.len() && s.take(p.len() as int) == p
}

/// `h` contains `n` as a contiguous run of characters.
pub open spec fn has_substring(h: Seq<char>, n: Seq<char>) -> bool {
    exists|i: int| 0 <= i && i + n.len() <= h.len() && #[trigger] h.subrange(i, i + n.len()) == n
}

/// Whether `s` begins with `p` (what `str::starts_with` answers for a string pattern).
pub fn starts_with(s: &str, p: &str) -> (b: bool)
    ensures
        b == has_prefix(s@, p@),
{
    let vs = chars_of(s);
    let vp = chars_of(p);
    if vp.len() > vs.len() {
        return false;
    }
    let mut i: usize = 0;
    while i < vp.len()
        invariant
            vp.len() <= vs.len(),
            vs@ == s@,
            vp@ == p@,
            i <= vp.len(),
            forall|j: int| 0 <= j < i ==> vs@[j] == vp@[j],
        decreases vp.len() - i,
    {
        if vs[i] != vp[i] {
            assert(s@.take(p@.len() as int)[i as int] != p@[i as int]);
            return false;
        }
        i = i + 1;
    }
    assert(s@.take(p@.len() as int) =~= p@);
    true
}

/// Whether `v[at..]` begins with `w`.
fn occurs_at(v: &Vec<char>, at: usize, w: &Vec<char>) -> (b: bool)
    requires
        at + w@.len() <= v@.len(),
    ensures
        b == (v@.subrange(at as int, at + w@.len()) == w@),
{
    let vl = v.len();
    let mut j: usize = 0;
    while j < w.len()
        invariant
            vl == v@.len(),
            at + w@.len() <= v@.len(),
            j <= w@.len(),
            forall|t: int| 0 <= t < j ==> v@[at + t] == w@[t],
        decreases w@.len() - j,
    {
        if v[at + j] != w[j] {
            assert(v@.subrange(at as int, at + w@.len())[j as int] != w@[j as int]);
            return false;
        }
        j = j + 1;
    }
    assert(v@.subrange(at as int, at + w@.len()) =~= w@);
    true
}

/// Whether `n` occurs in `h` (what `str::contains` answers for a string pattern).
pub fn contains_text(h: &str, n: &str) -> (b: bool)
    ensures
        b == has_substring(h@, n@),
{
    let hv = chars_of(h);
    let nv = chars_of(n);
    if nv.len() > hv.len() {
        return false;
    }
    let last = hv.len() - nv.len();
    let mut i: usize = 0;
    while i <= last
        invariant
            hv@ == h@,
            nv@ == n@,
            last == hv@.len() - nv@.len(),
            nv@.len() <= hv@.len(),
            i <= last + 1,
            forall|j: int| 0 <= j < i ==> #[trigger] h@.subrange(j, j + n@.len()) != n@,
        decreases last + 1 - i,
    {
        if occurs_at(&hv, i, &nv) {
            assert(h@.subrange(i as int, i + n@.len()) == n@);
            return true;
        }
        if i == last {
            return false;
        }
        i = i + 1;
    }
    false
}

/// What `str::to_lowercase` returns for a string with the given characters.
pub uninterp spec fn lowercase(s: Seq<char>) -> Seq<char>;

/// Every character is ASCII.
pub open spec fn all_ascii(s: Seq<char>) -> bool {
    forall|i: int| 0 <= i < s.len() ==> (#[trigger] s[i] as u32) < 128
}

/// An ASCII letter in lower case; any other character as it is.
pub open spec fn ascii_lower_char(c: char) -> char {
    if 'A' <= c <= 'Z' {
        ((c as u32) + 32) as char
    } else {
        c
    }
}

/// An ASCII letter in upper case; any other character as it is.
pub open spec fn ascii_upper_char(c: char) -> char {
    if 'a' <= c <= 'z' {
        ((c as u32) - 32) as char
    } else {
        c
    }
}

/// `s` with its ASCII letters in lower case.
pub open spec fn ascii_lower(s: Seq<char>) -> Seq<char> {
    s.map_values(|c: char| ascii_lower_char(c))
}

/// `s` with its ASCII letters in upper case.
pub open spec fn ascii_upper(s: Seq<char>) -> Seq<char> {
    s.map_values(|c: char| ascii_upper_char(c))
}

/// The lowercase form of `s` by Unicode's case mapping, under which ASCII
/// text only has its letters `A`-`Z` turned into `a`-`z`.
pub open spec fn lowercased(s: Seq<char>) -> Seq<char> {
    if all_ascii(s) {
        ascii_lower(s)
    } else {
        lowercase(s)
    }
}

/// `str::to_lowercase`: the lowercase form of `s`, by Unicode's case mapping.
#[verifier::external_body]
fn to_lowercase(s: &str) -> (r: String)
    ensures
        r@ == lowercase(s@),
        all_ascii(s@) ==> r@ == ascii_lower(s@),
{
    s.to_lowercase()
}

/// Whether a list item passes the user's filter: an empty filter passes every
/// item, otherwise the lowercased item must contain the lowercased filter.
pub open spec fn matches_filter(item: Seq<char>, filter: Seq<char>) -> bool {
    filter.len() == 0 || has_substring(lowercased(item), lowercased(filter))
}

/// Case-insensitive filter test used by every list view.
pub fn item_matches(item: &str, filter: &str) -> (b: bool)
    ensures
        b == matches_filter(item@, filter@),
{
    if filter.is_empty() {
        return true;
    }
    let li = to_lowercase(item);
    let lf = to_lowercase(filter);
    contains_text(li.as_str(), lf.as_str())
}

/// An empty filter passes every item.
pub proof fn law_empty_filter_passes(item: Seq<char>)
    ensures
        matches_filter(item, Seq::empty()),
{
}

/// For ASCII filters, a longer filter never passes more items: an item that
/// passes `f + g` passes `f`.
pub proof fn law_longer_filter_narrows(item: Seq<char>, f: Seq<char>, g: Seq<char>)
    requires
        all_ascii(f),
        all_ascii(g),
    ensures
        matches_filter(item, f + g) ==> matches_filter(item, f),
{
    if f.len() > 0 && matches_filter(item, f + g) {
        assert(all_ascii(f + g)) by {
            assert forall|i: int| 0 <= i < (f + g).len() implies ((#[trigger] (f + g)[i]) as u32)
                < 128 by {
                if i < f.len() {
                    assert((f + g)[i] == f[i]);
                } else {
                    assert((f + g)[i] == g[i - f.len()]);
                }
            }
        }
        lemma_ascii_lower_concat(f, g);
        let h = lowercased(item);
        let lf = ascii_lower(f);
        let lg = ascii_lower(g);
        let w = lf + lg;
        assert(lowercased(f + g) == w);
        assert(has_substring(h, w));
        let i = choose|i: int| 0 <= i && i + w.len() <= h.len() && #[trigger] h.subrange(i, i + w.len()) == w;
        assert(h.subrange(i, i + lf.len()) =~= lf) by {
            assert forall|t: int| 0 <= t < lf.len() implies h.subrange(i, i + lf.len())[t] == lf[t] by {
                assert(h.subrange(i, i + w.len())[t] == w[t]);
            }
        }
        assert(has_substring(h, lf));
    }
}

/// For ASCII text, the filter ignores the case of letters: upper-casing the
/// item and lower-casing the filter give the same answer.
pub proof fn law_filter_ignores_case(item: Seq<char>, f: Seq<char>)
    requires
        all_ascii(item),
        all_ascii(f),
    ensures
        matches_filter(ascii_upper(item), ascii_lower(f)) == matches_filter(item, f),
{
    lemma_ascii_case(item);
    lemma_ascii_case(f);
    assert(ascii_lower(ascii_upper(item)) =~= ascii_lower(item));
    assert(ascii_lower(ascii_lower(f)) =~= ascii_lower(f));
}

proof fn lemma_ascii_case(s: Seq<char>)
    requires
        all_ascii(s),
    ensures
        all_ascii(ascii_upper(s)),
        all_ascii(ascii_lower(s)),
        ascii_lower(ascii_upper(s)) =~= ascii_lower(s),
        ascii_lower(ascii_lower(s)) =~= ascii_lower(s),
{
    assert forall|i: int| 0 <= i < s.len() implies (#[trigger] ascii_upper(s)[i] as u32) < 128
        && (ascii_lower(s)[i] as u32) < 128 && ascii_lower_char(ascii_upper_char(s[i]))
        == ascii_lower_char(s[i]) && ascii_lower_char(ascii_lower_char(s[i])) == ascii_lower_char(
        s[i],
    ) by {
        let c = s[i];
        vstd::utf8::char_u32_cast(c, c as u32);
        if 'a' <= c <= 'z' {
            let u = ((c as u32) - 32) as char;
            assert((u as u32) == (c as u32) - 32);
        }
        if 'A' <= c <= 'Z' {
            let l = ((c as u32) + 32) as char;
            assert((l as u32) == (c as u32) + 32);
        }
    }
}

proof fn lemma_ascii_lower_concat(f: Seq<char>, g: Seq<char>)
    ensures
        ascii_lower(f + g) =~= ascii_lower(f) + ascii_lower(g),
{
}

// ---------------------------------------------------------------------------
// Whitespace and trimming
// ---------------------------------------------------------------------------
/// Characters with the Unicode `White_Space` property (what `char::is_whitespace` tests).
pub open spec fn is_white_space(c: char) -> bool {
    let v = c as u32;
    (0x09 <= v && v <= 0x0d) || v == 0x20 || v == 0x85 || v == 0xa0 || v == 0x1680 || (0x2000
        <= v && v <= 0x200a) || v == 0x2028 || v == 0x2029 || v == 0x202f || v == 0x205f || v
        == 0x3000
}

/// Whether `c` is a whitespace character.
pub fn white_space(c: char) -> (b: bool)
    ensures
        b == is_white_space(c),
{
    let v = c as u32;
    (0x09 <= v && v <= 0x0d) || v == 0x20 || v == 0x85 || v == 0xa0 || v == 0x1680 || (0x2000
        <= v && v <= 0x200a) || v == 0x2028 || v == 0x2029 || v == 0x202f || v == 0x205f || v
        == 0x3000
}

/// `s` without its leading whitespace.
pub open spec fn trim_start(s: Seq<char>) -> Seq<char>
    decreases s.len(),
{
    if s.len() > 0 && is_white_space(s[0]) {
        trim_start(s.drop_first())
    } else {
        s
    }
}

/// `s` without its trailing whitespace.
pub open spec fn trim_end(s: Seq<char>) -> Seq<char>
    decreases s.len(),
{
    if s.len() > 0 && is_white_space(s.last()) {
        trim_end(s.drop_last())
    } else {
        s
    }
}

/// `s` without leading and trailing whitespace (what `str::trim` returns).
pub open spec fn trim(s: Seq<char>) -> Seq<char> {
    trim_end(trim_start(s))
}

proof fn lemma_trim_start_skip(s: Seq<char>, i: int)
    requires
        0 <= i <= s.len(),
        forall|j: int| 0 <= j < i ==> is_white_space(#[trigger] s[j]),
    ensures
        trim_start(s) == trim_start(s.subrange(i, s.len() as int)),
    decreases i,
{
    if i > 0 {
        assert(is_white_space(s[0]));
        lemma_trim_start_skip(s.drop_first(), i - 1);
        assert(s.drop_first().subrange(i - 1, s.drop_first().len() as int) =~= s.subrange(
            i,
            s.len() as int,
        ));
    } else {
        assert(s.subrange(0, s.len() as int) =~= s);
    }
}

proof fn lemma_trim_end_skip(s: Seq<char>, k: int)
    requires
        0 <= k <= s.len(),
        forall|j: int| k <= j < s.len() ==> is_white_space(#[trigger] s[j]),
    ensures
        trim_end(s) == trim_end(s.subrange(0, k)),
    decreases s.len() - k,
{
    if k < s.len() {
        assert(is_white_space(s.last()));
        lemma_trim_end_skip(s.drop_last(), k);
        assert(s.drop_last().subrange(0, k) =~= s.subrange(0, k));
    } else {
        assert(s.subrange(0, k) =~= s);
    }
}

/// Bounds `(lo, hi)` of the trimmed part of `v[from..to]`.
pub fn trim_bounds(v: &Vec<char>, from: usize, to: usize) -> (r: (usize, usize))
    requires
        from <= to <= v.len(),
    ensures
        from <= r.0 <= r.1 <= to,
        v@.subrange(r.0 as int, r.1 as int) == trim(v@.subrange(from as int, to as int)),
{
    let ghost s = v@.subrange(from as int, to as int);
    let mut lo = from;
    while lo < to && white_space(v[lo])
        invariant
            from <= lo <= to <= v.len(),
            s == v@.subrange(from as int, to as int),
            forall|j: int| from <= j < lo ==> is_white_space(#[trigger] v@[j]),
        decreases to - lo,
    {
        lo = lo + 1;
    }
    proof {
        assert forall|j: int| 0 <= j < lo - from implies is_white_space(#[trigger] s[j]) by {
            assert(s[j] == v@[from + j]);
        }
        lemma_trim_start_skip(s, lo - from);
        assert(s.subrange(lo - from, s.len() as int) =~= v@.subrange(lo as int, to as int));
        if lo < to {
            assert(!is_white_space(v@[lo as int]));
        }
    }
    let ghost t = v@.subrange(lo as int, to as int);
    assert(trim_start(s) == t || lo == to);
    let mut hi = to;
    while hi > lo && white_space(v[hi - 1])
        invariant
            from <= lo <= hi <= to <= v.len(),
            t == v@.subrange(lo as int, to as int),
            forall|j: int| hi <= j < to ==> is_white_space(#[trigger] v@[j]),
        decreases hi - lo,
    {
        hi = hi - 1;
    }
    proof {
        assert forall|j: int| hi - lo <= j < t.len() implies is_white_space(#[trigger] t[j]) by {
            assert(t[j] == v@[lo + j]);
        }
        lemma_trim_end_skip(t, hi - lo);
        assert(t.subrange(0, hi - lo) =~= v@.subrange(lo as int, hi as int));
        if hi > lo {
            assert(!is_white_space(v@.subrange(lo as int, hi as int).last()));
        }
        if lo == to {
            assert(trim_start(s) =~= Seq::<char>::empty()) by {
                lemma_trim_start_skip(s, lo - from);
                assert(s.subrange(lo - from, s.len() as int) =~= Seq::<char>::empty());
            }
            assert(v@.subrange(lo as int, hi as int) =~= Seq::<char>::empty());
        } else {
            assert(trim_start(s) == t);
        }
    }
    (lo, hi)
}

// ---------------------------------------------------------------------------
// Searching and splitting into lines
// ---------------------------------------------------------------------------
/// Position of the first `c` in `s`, or `s.len()` when `s` holds no `c`.
pub open spec fn index_of(s: Seq<char>, c: char) -> int
    decreases s.len(),
{
    if s.len() == 0 {
        0
    } else if s[0] == c {
        0
    } else {
        1 + index_of(s.drop_first(), c)
    }
}

pub proof fn lemma_index_of(s: Seq<char>, c: char)
    ensures
        0 <= index_of(s, c) <= s.len(),
        forall|j: int| 0 <= j < index_of(s, c) ==> s[j] != c,
        index_of(s, c) < s.len() ==> s[index_of(s, c)] == c,
    decreases s.len(),
{
    if s.len() > 0 && s[0] != c {
        lemma_index_of(s.drop_first(), c);
        assert forall|j: int| 0 <= j < index_of(s, c) implies s[j] != c by {
            if j > 0 {
                assert(s[j] == s.drop_first()[j - 1]);
            }
        }
    }
}

/// `index_of` is determined by the facts that characterize it.
pub proof fn lemma_index_of_unique(s: Seq<char>, c: char, i: int)
    requires
        0 <= i <= s.len(),
        forall|j: int| 0 <= j < i ==> s[j] != c,
        i < s.len() ==> s[i] == c,
    ensures
        index_of(s, c) == i,
{
    lemma_index_of(s, c);
    if index_of(s, c) < i {
        assert(s[index_of(s, c)] == c);
    }
    if index_of(s, c) > i {
        assert(s[i] != c);
    }
}

/// Position of the first `c` in `v[from..]`, counted from the start of `v`;
/// `v.len()` when there is none.
pub fn find_char_from(v: &Vec<char>, from: usize, c: char) -> (r: usize)
    requires
        from <= v.len(),
    ensures
        from <= r <= v.len(),
        r - from == index_of(v@.subrange(from as int, v.len() as int), c),
{
    let mut i = from;
    while i < v.len() && v[i] != c
        invariant
            from <= i <= v.len(),
            forall|j: int| from <= j < i ==> v@[j] != c,
        decreases v.len() - i,
    {
        i = i + 1;
    }
    proof {
        let t = v@.subrange(from as int, v.len() as int);
        assert forall|j: int| 0 <= j < i - from implies t[j] != c by {
            assert(t[j] == v@[from + j]);
        }
        lemma_index_of_unique(t, c, i - from);
    }
    i
}

/// A line without the carriage return that preceded its line feed.
pub open spec fn strip_cr(s: Seq<char>) -> Seq<char> {
    if s.len() > 0 && s.last() == '\r' {
        s.drop_last()
    } else {
        s
    }
}

/// The lines of `s` as `str::lines` yields them: split at each line feed, a
/// carriage return right before a line feed dropped, no empty piece after a
/// final line feed.
pub open spec fn lines_of(s: Seq<char>) -> Seq<Seq<char>>
    decreases s.len(),
{
    if s.len() == 0 {
        seq![]
    } else {
        let i = index_of(s, '\n');
        if 0 <= i < s.len() {
            seq![strip_cr(s.take(i))] + lines_of(s.skip(i + 1))
        } else {
            seq![s]
        }
    }
}

/// The views of a vector of strings.
pub open spec fn views(v: Seq<String>) -> Seq<Seq<char>> {
    v.map_values(|x: String| x@)
}

/// The lines of `s`.
pub fn lines(s: &str) -> (r: Vec<String>)
    ensures
        views(r@) == lines_of(s@),
{
    let v = chars_of(s);
    let mut r: Vec<String> = Vec::new();
    let mut p: usize = 0;
    assert(v@.skip(0) =~= s@);
    assert(views(r@) + lines_of(v@.skip(0)) =~= lines_of(s@));
    while p < v.len()
        invariant
            v@ == s@,
            p <= v.len(),
            views(r@) + lines_of(v@.skip(p as int)) == lines_of(s@),
        decreases v.len() - p,
    {
        let q = find_char_from(&v, p, '\n');
        let ghost rest = v@.skip(p as int);
        proof {
            lemma_index_of(rest, '\n');
            assert(v@.subrange(p as int, v.len() as int) =~= rest);
        }
        if q < v.len() {
            let mut hi = q;
            if hi > p && v[hi - 1] == '\r' {
                hi = hi - 1;
            }
            let line = string_of_range(&v, p, hi);
            proof {
                assert(line@ =~= strip_cr(rest.take(q - p)));
                assert(rest.skip(q - p + 1) =~= v@.skip(q + 1));
                assert(views(r@.push(line)) =~= views(r@).push(line@));
                assert(lines_of(rest) == seq![strip_cr(rest.take(q - p))] + lines_of(
                    rest.skip(q - p + 1),
                ));
            }
            r.push(line);
            p = q + 1;
        } else {
            let line = string_of_range(&v, p, v.len());
            proof {
                assert(line@ =~= rest);
                assert(views(r@.push(line)) =~= views(r@).push(line@));
                assert(v@.skip(v.len() as int) =~= Seq::<char>::empty());
            }
            r.push(line);
            p = v.len();
        }
        assert(views(r@) + lines_of(v@.skip(p as int)) =~= lines_of(s@));
    }
    assert(v@.skip(p as int) =~= Seq::<char>::empty());
    assert(views(r@) + lines_of(v@.skip(p as int)) =~= views(r@));
    r
}

/// Number of lines of `s`.
pub fn line_count(s: &str) -> (n: usize)
    ensures
        n == lines_of(s@).len(),
{
    let r = lines(s);
    assert(views(r@).len() == r@.len());
    r.len()
}

// ---------------------------------------------------------------------------
// Decimal numbers
// ---------------------------------------------------------------------------
/// The decimal digit character for `d < 10`.
pub open spec fn digit_char(d: nat) -> char {
    if d == 0 {
        '0'
    } else if d == 1 {
        '1'
    } else if d == 2 {
        '2'
    } else if d == 3 {
        '3'
    } else if d == 4 {
        '4'
    } else if d == 5 {
        '5'
    } else if d == 6 {
        '6'
    } else if d == 7 {
        '7'
    } else if d == 8 {
        '8'
    } else {
        '9'
    }
}

/// The decimal notation of `n`, without sign or leading zeros (what `Display` prints).
pub open spec fn decimal(n: nat) -> Seq<char>
    decreases n,
{
    if n < 10 {
        seq![digit_char(n)]
    } else {
        decimal(n / 10).push(digit_char(n % 10))
    }
}

fn digit_to_char(d: u64) -> (c: char)
    requires
        d < 10,
    ensures
        c == digit_char(d as nat),
{
    if d == 0 {
        '0'
    } else if d == 1 {
        '1'
    } else if d == 2 {
        '2'
    } else if d == 3 {
        '3'
    } else if d == 4 {
        '4'
    } else if d == 5 {
        '5'
    } else if d == 6 {
        '6'
    } else if d == 7 {
        '7'
    } else if d == 8 {
        '8'
    } else {
        '9'
    }
}

/// The decimal notation of `n`.
pub fn decimal_string(n: u64) -> (s: String)
    ensures
        s@ == decimal(n as nat),
    decreases n,
{
    if n < 10 {
        let mut s = String::new();
        string_push(&mut s, digit_to_char(n));
        assert(s@ =~= seq![digit_char(n as nat)]);
        s
    } else {
        let mut s = decimal_string(n / 10);
        string_push(&mut s, digit_to_char(n % 10));
        s
    }
}

/// Whether `c` is one of the ASCII digits `0`..`9`.
pub open spec fn is_digit(c: char) -> bool {
    '0' <= c <= '9'
}

/// The value of a digit character.
pub open spec fn digit_value(c: char) -> nat {
    (c as u32 - '0' as u32) as nat
}

/// The value of a run of decimal digits.
pub open spec fn digits_value(s: Seq<char>) -> nat
    decreases s.len(),
{
    if s.len() == 0 {
        0
    } else {
        digits_value(s.drop_last()) * 10 + digit_value(s.last())
    }
}

/// The digits part of an unsigned number: a leading `+` is allowed.
pub open spec fn unsigned_body(s: Seq<char>) -> Seq<char> {
    if s.len() > 0 && s[0] == '+' {
        s.drop_first()
    } else {
        s
    }
}

/// What `str::parse::<usize>` gives: an optional `+`, then at least one
/// digit and nothing else, with a value that fits in `usize`.
pub open spec fn parsed_usize(s: Seq<char>) -> Option<usize> {
    let d = unsigned_body(s);
    if d.len() > 0 && (forall|i: int| 0 <= i < d.len() ==> is_digit(#[trigger] d[i]))
        && digits_value(d) <= usize::MAX {
        Some(digits_value(d) as usize)
    } else {
        None
    }
}

proof fn lemma_digits_value_grows(s: Seq<char>, i: int)
    requires
        0 <= i <= s.len(),
    ensures
        digits_value(s.take(i)) <= digits_value(s),
    decreases s.len() - i,
{
    if i < s.len() {
        lemma_digits_value_grows(s, i + 1);
        assert(s.take(i + 1).drop_last() =~= s.take(i));
    } else {
        assert(s.take(i) =~= s);
    }
}

/// Parses an unsigned decimal number as `str::parse::<usize>` does.
pub fn parse_usize(s: &str) -> (r: Option<usize>)
    ensures
        r == parsed_usize(s@),
{
    let v = chars_of(s);
    let mut start: usize = 0;
    if v.len() > 0 && v[0] == '+' {
        start = 1;
    }
    let ghost d = unsigned_body(s@);
    assert(d =~= v@.skip(start as int));
    if start == v.len() {
        return None;
    }
    let mut value: usize = 0;
    let mut i = start;
    while i < v.len()
        invariant
            v@ == s@,
            d == unsigned_body(s@),
            d == v@.skip(start as int),
            start <= i <= v.len(),
            start < v.len(),
            forall|j: int| 0 <= j < i - start ==> is_digit(#[trigger] d[j]),
            value == digits_value(d.take(i - start)),
        decreases v.len() - i,
    {
        let c = v[i];
        assert(d[i - start] == c);
        assert(d.take(i - start + 1).last() == c);
        if !('0' <= c && c <= '9') {
            assert(!is_digit(d[i - start]));
            assert(!(forall|j: int| 0 <= j < d.len() ==> is_digit(#[trigger] d[j])));
            return None;
        }
        let dv = (c as u32 - '0' as u32) as usize;
        assert(d.take(i - start + 1).drop_last() =~= d.take(i - start));
        assert(digits_value(d.take(i - start + 1)) == value * 10 + dv);
        match value.checked_mul(10) {
            Some(m) => match m.checked_add(dv) {
                Some(nv) => {
                    value = nv;
                },
                None => {
                    proof {
                        lemma_digits_value_grows(d, i - start + 1);
                    }
                    return None;
                },
            },
            None => {
                proof {
                    lemma_digits_value_grows(d, i - start + 1);
                }
                return None;
            },
        }
        i = i + 1;
    }
    assert(d.take(d.len() as int) =~= d);
    Some(value)
}

// ---------------------------------------------------------------------------
// Truncation at a byte length
// ---------------------------------------------------------------------------
/// Byte offset `n` of `s` falls between two characters.
pub open spec fn on_char_boundary(s: Seq<char>, n: nat) -> bool {
    exists|k: int| 0 <= k <= s.len() && #[trigger] byte_len(s.take(k)) == n
}

/// The characters that the first `n` bytes of `s` encode (meaningful on a boundary).
pub open spec fn byte_prefix(s: Seq<char>, n: nat) -> Seq<char> {
    s.take(choose|k: int| 0 <= k <= s.len() && #[trigger] byte_len(s.take(k)) == n)
}

/// The horizontal ellipsis appended to shortened previews.
pub open spec fn ellipsis() -> char {
    '\u{2026}'
}

/// A preview of `s` limited to `n` bytes: longer text is cut after `n` bytes
/// and followed by an ellipsis.
pub open spec fn shortened(s: Seq<char>, n: nat) -> Seq<char> {
    if byte_len(s) > n {
        byte_prefix(s, n).push(ellipsis())
    } else {
        s
    }
}

/// `shortened` is defined: `s` is short enough or `n` is a character boundary.
pub open spec fn can_shorten(s: Seq<char>, n: nat) -> bool {
    byte_len(s) <= n || on_char_boundary(s, n)
}

proof fn lemma_byte_len_take_mono(s: Seq<char>, a: int, b: int)
    requires
        0 <= a < b <= s.len(),
    ensures
        byte_len(s.take(a)) < byte_len(s.take(b)),
    decreases b - a,
{
    lemma_byte_len_push(s.take(b - 1), s[b - 1]);
    assert(s.take(b - 1).push(s[b - 1]) =~= s.take(b));
    lemma_char_width_bounds(s[b - 1]);
    if a < b - 1 {
        lemma_byte_len_take_mono(s, a, b - 1);
    }
}

/// Cuts `s` after `n` bytes and appends an ellipsis when `s` is longer than that.
pub fn shorten(s: &str, n: usize) -> (r: String)
    requires
        can_shorten(s@, n as nat),
    ensures
        r@ == shortened(s@, n as nat),
{
    let v = chars_of(s);
    let mut k: usize = 0;
    let mut acc: u128 = 0;
    assert(s@.take(0) =~= Seq::<char>::empty());
    assert(encode_utf8(Seq::<char>::empty()) =~= Seq::<u8>::empty());
    while k < v.len() && acc < n as u128
        invariant
            v@ == s@,
            k <= v.len(),
            acc == byte_len(s@.take(k as int)),
            acc <= n + 4,
            k == 0 || byte_len(s@.take(k - 1)) < n,
        decreases v.len() - k,
    {
        proof {
            lemma_byte_len_push(s@.take(k as int), s@[k as int]);
            assert(s@.take(k as int).push(s@[k as int]) =~= s@.take(k + 1));
            assert(s@.take(k + 1 - 1) =~= s@.take(k as int));
        }
        acc = acc + char_byte_width(v[k]) as u128;
        k = k + 1;
    }
    if acc <= n as u128 && k == v.len() {
        assert(s@.take(k as int) =~= s@);
        return s.to_owned();
    }
    // Here `acc >= n`; the boundary hypothesis makes it exactly `n`.
    proof {
        if byte_len(s@) > n {
            let k0 = choose|j: int| 0 <= j <= s@.len() && #[trigger] byte_len(s@.take(j)) == n;
            if k0 < k - 1 {
                lemma_byte_len_take_mono(s@, k0, k - 1);
            }
            if k0 < k {
                lemma_byte_len_take_mono(s@, k0, k as int);
            }
            if k < k0 {
                lemma_byte_len_take_mono(s@, k as int, k0);
            }
            assert(k0 == k);
        } else {
            if k < v.len() {
                lemma_byte_len_take_mono(s@, k as int, v.len() as int);
            }
            assert(s@.take(v.len() as int) =~= s@);
        }
    }
    if k == v.len() {
        // The whole text is exactly `n` bytes long.
        assert(s@.take(k as int) =~= s@);
        return s.to_owned();
    }
    proof {
        lemma_byte_len_take_mono(s@, k as int, v.len() as int);
        assert(s@.take(v.len() as int) =~= s@);
    }
    let mut r = string_of_range(&v, 0, k);
    assert(v@.subrange(0, k as int) =~= s@.take(k as int));
    string_push(&mut r, '\u{2026}');
    r
}

/// Whether the UTF-8 encoding of `s` is shorter than `limit` bytes.
pub fn byte_len_below(s: &str, limit: usize) -> (b: bool)
    ensures
        b == (byte_len(s@) < limit),
{
    let v = chars_of(s);
    let mut k: usize = 0;
    let mut acc: u128 = 0;
    assert(s@.take(0) =~= Seq::<char>::empty());
    assert(encode_utf8(Seq::<char>::empty()) =~= Seq::<u8>::empty());
    while k < v.len() && acc < limit as u128
        invariant
            v@ == s@,
            k <= v.len(),
            acc == byte_len(s@.take(k as int)),
            acc <= limit + 4,
        decreases v.len() - k,
    {
        proof {
            lemma_byte_len_push(s@.take(k as int), s@[k as int]);
            assert(s@.take(k as int).push(s@[k as int]) =~= s@.take(k + 1));
        }
        acc = acc + char_byte_width(v[k]) as u128;
        k = k + 1;
    }
    proof {
        if k < v.len() {
            lemma_byte_len_take_mono(s@, k as int, v.len() as int);
        }
        assert(s@.take(v.len() as int) =~= s@);
    }
    acc < limit as u128
}

// ---------------------------------------------------------------------------
// Other character filters
// ---------------------------------------------------------------------------
/// `s` without its line feeds and carriage returns.
pub open spec fn without_line_breaks(s: Seq<char>) -> Seq<char>
    decreases s.len(),
{
    if s.len() == 0 {
        s
    } else if s.last() == '\n' || s.last() == '\r' {
        without_line_breaks(s.drop_last())
    } else {
        without_line_breaks(s.drop_last()).push(s.last())
    }
}

/// Removes every line feed and carriage return from `s`.
pub fn remove_line_breaks(s: &str) -> (r: String)
    ensures
        r@ == without_line_breaks(s@),
{
    let v = chars_of(s);
    let mut r = String::new();
    let mut i: usize = 0;
    while i < v.len()
        invariant
            v@ == s@,
            i <= v.len(),
            r@ == without_line_breaks(s@.take(i as int)),
        decreases v.len() - i,
    {
        assert(s@.take(i + 1).drop_last() =~= s@.take(i as int));
        if v[i] != '\n' && v[i] != '\r' {
            string_push(&mut r, v[i]);
        }
        i = i + 1;
    }
    assert(s@.take(v.len() as int) =~= s@);
    r
}

/// `s` with every leading repetition of the non-empty `p` removed
/// (what `str::trim_start_matches` returns for a string pattern).
pub open spec fn strip_repeated_prefix(s: Seq<char>, p: Seq<char>) -> Seq<char>
    decreases s.len(),
{
    if p.len() > 0 && has_prefix(s, p) {
        strip_repeated_prefix(s.skip(p.len() as int), p)
    } else {
        s
    }
}

/// `s` with every leading repetition of the non-empty `p` removed.
pub fn strip_repeated_prefix_of(s: &str, p: &str) -> (r: String)
    requires
        p@.len() > 0,
    ensures
        r@ == strip_repeated_prefix(s@, p@),
{
    let v = chars_of(s);
    let w = chars_of(p);
    let mut i: usize = 0;
    assert(v@.skip(0) =~= s@);
    loop
        invariant
            v@ == s@,
            w@ == p@,
            w@.len() > 0,
            i <= v@.len(),
            strip_repeated_prefix(s@, p@) == strip_repeated_prefix(v@.skip(i as int), p@),
        decreases v@.len() - i,
    {
        let ghost rest = v@.skip(i as int);
        // Does `p` occur at position `i`?
        let vl = v.len();
        let mut ok = w.len() <= vl - i;
        let mut j: usize = 0;
        while ok && j < w.len()
            invariant
                v@ == s@,
                w@ == p@,
                vl == v@.len(),
                i <= v@.len(),
                j <= w@.len(),
                ok ==> w@.len() <= v@.len() - i,
                ok ==> forall|t: int| 0 <= t < j ==> v@[i + t] == w@[t],
                !ok ==> !has_prefix(v@.skip(i as int), w@),
            decreases w@.len() - j,
        {
            assert(i + j < v@.len());
            if v[i + j] != w[j] {
                ok = false;
                assert(v@.skip(i as int).take(w@.len() as int)[j as int] != w@[j as int]);
            }
            j = j + 1;
        }
        if ok {
            assert(v@.skip(i as int).take(w@.len() as int) =~= w@);
            assert(v@.skip(i as int).skip(w@.len() as int) =~= v@.skip(i + w@.len()));
            i = i + w.len();
        } else {
            let r = string_of_range(&v, i, v.len());
            assert(v@.subrange(i as int, v@.len() as int) =~= rest);
            return r;
        }
    }
}

} // verus!
