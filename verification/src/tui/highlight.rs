//! Splitting a line of JSON text into colourable segments.
use vstd::prelude::*;
use crate::text::{
    chars_of, find_char_from, index_of, is_white_space, lemma_index_of, string_of_range, trim,
    trim_bounds, trim_end, trim_start,
};

verus! {

/// A piece of a highlighted line.
#[derive(Debug, PartialEq, Eq, Clone)]
pub enum Segment {
    /// Text shown as it is: punctuation, whitespace, unrecognised text.
    Plain(String),
    /// A quoted string followed by `:`, an object key.
    Key(String),
    /// Any other quoted string.
    Quoted(String),
    /// `true` or `false`, without the whitespace around it.
    Boolean(String),
    /// `null`.
    Null,
    /// Another bare token: shown trimmed in the number colour when it reads as
    /// a number, else as it is.
    Word { raw: String, trimmed: String },
}

/// A segment as values.
pub ghost enum SegmentView {
    Plain(Seq<char>),
    Key(Seq<char>),
    Quoted(Seq<char>),
    Boolean(Seq<char>),
    Null,
    Word { raw: Seq<char>, trimmed: Seq<char> },
}

impl View for Segment {
    type V = SegmentView;

    open spec fn view(&self) -> SegmentView {
        match self {
            Segment::Plain(s) => SegmentView::Plain(s@),
            Segment::Key(s) => SegmentView::Key(s@),
            Segment::Quoted(s) => SegmentView::Quoted(s@),
            Segment::Boolean(s) => SegmentView::Boolean(s@),
            Segment::Null => SegmentView::Null,
            Segment::Word { raw, trimmed } => SegmentView::Word { raw: raw@, trimmed: trimmed@ },
        }
    }
}

/// The views of a list of segments.
pub open spec fn segment_views(v: Seq<Segment>) -> Seq<SegmentView> {
    v.map_values(|x: Segment| x@)
}

/// How a bare token between punctuation is shown.
pub open spec fn token(buf: Seq<char>) -> SegmentView {
    let t = trim(buf);
    if t.len() == 0 {
        SegmentView::Plain(buf)
    } else if t == "true"@ || t == "false"@ {
        SegmentView::Boolean(t)
    } else if t == "null"@ {
        SegmentView::Null
    } else {
        SegmentView::Word { raw: buf, trimmed: t }
    }
}

/// Text without quotes: each `:` and `,` ends the pending token (even an empty
/// one) and is shown plain; what remains at the end is a token when not empty.
pub open spec fn plain_from(s: Seq<char>, buf: Seq<char>) -> Seq<SegmentView>
    decreases s.len(),
{
    if s.len() == 0 {
        if buf.len() > 0 {
            seq![token(buf)]
        } else {
            seq![]
        }
    } else if s[0] == ':' || s[0] == ',' {
        seq![token(buf), SegmentView::Plain(seq![s[0]])] + plain_from(s.drop_first(), seq![])
    } else {
        plain_from(s.drop_first(), buf.push(s[0]))
    }
}

/// The segments of a stretch of text without quotes.
pub open spec fn plain_run(s: Seq<char>) -> Seq<SegmentView> {
    plain_from(s, seq![])
}

/// The segments of a line: each quoted string (from a `"` to the next `"`,
/// or to the end of the line when it is not closed) is a key when `:`
/// follows it right away, else a quoted string; the text between is split by
/// `plain_run`.
pub open spec fn highlighted(s: Seq<char>) -> Seq<SegmentView>
    decreases s.len(),
{
    if s.len() == 0 {
        seq![]
    } else {
        let pos = index_of(s, '"');
        if pos < 0 || pos >= s.len() {
            plain_run(s)
        } else {
            let rem = s.skip(pos);
            let rest = rem.drop_first();
            let q = index_of(rest, '"');
            let qe = if 0 <= q < rest.len() {
                q + 2
            } else {
                rem.len() as int
            };
            let tok = rem.take(qe);
            let after = rem.skip(qe);
            let seg = if after.len() > 0 && after[0] == ':' {
                SegmentView::Key(tok)
            } else {
                SegmentView::Quoted(tok)
            };
            if 0 <= qe <= rem.len() {
                plain_run(s.take(pos)) + seq![seg] + highlighted(after)
            } else {
                seq![]
            }
        }
    }
}

fn same_chars(v: &Vec<char>, lo: usize, hi: usize, w: &str) -> (b: bool)
    requires
        lo <= hi <= v@.len(),
    ensures
        b == (v@.subrange(lo as int, hi as int) == w@),
{
    let wv = chars_of(w);
    if hi - lo != wv.len() {
        return false;
    }
    let mut i: usize = 0;
    while i < wv.len()
        invariant
            lo <= hi <= v@.len(),
            hi - lo == wv@.len(),
            wv@ == w@,
            i <= wv@.len(),
            forall|j: int| 0 <= j < i ==> v@[lo + j] == wv@[j],
        decreases wv@.len() - i,
    {
        if v[lo + i] != wv[i] {
            assert(v@.subrange(lo as int, hi as int)[i as int] != w@[i as int]);
            return false;
        }
        i = i + 1;
    }
    assert(v@.subrange(lo as int, hi as int) =~= w@);
    true
}

/// The segment of the token `v[lo..hi]`.
fn token_segment(v: &Vec<char>, lo: usize, hi: usize) -> (r: Segment)
    requires
        lo <= hi <= v@.len(),
    ensures
        r@ == token(v@.subrange(lo as int, hi as int)),
{
    let (a, b) = trim_bounds(v, lo, hi);
    if a == b {
        assert(v@.subrange(a as int, b as int) =~= Seq::<char>::empty());
        return Segment::Plain(string_of_range(v, lo, hi));
    }
    if same_chars(v, a, b, "true") || same_chars(v, a, b, "false") {
        Segment::Boolean(string_of_range(v, a, b))
    } else if same_chars(v, a, b, "null") {
        Segment::Null
    } else {
        Segment::Word { raw: string_of_range(v, lo, hi), trimmed: string_of_range(v, a, b) }
    }
}

proof fn lemma_plain_step(s: Seq<char>, b: int, i: int)
    requires
        0 <= b <= i < s.len(),
        s[i] != ':' && s[i] != ',',
    ensures
        plain_from(s.skip(i), s.subrange(b, i)) == plain_from(s.skip(i + 1), s.subrange(b, i + 1)),
{
    assert(s.skip(i).drop_first() =~= s.skip(i + 1));
    assert(s.subrange(b, i).push(s[i]) =~= s.subrange(b, i + 1));
}

/// Appends the segments of the quote-free text `v[lo..hi]` to `out`.
fn push_plain(v: &Vec<char>, lo: usize, hi: usize, out: &mut Vec<Segment>)
    requires
        lo <= hi <= v@.len(),
    ensures
        segment_views(final(out)@) == segment_views(old(out)@) + plain_run(
            v@.subrange(lo as int, hi as int),
        ),
{
    let ghost s = v@.subrange(lo as int, hi as int);
    let ghost start = segment_views(out@);
    let mut b = lo;
    let mut i = lo;
    assert(s.skip(0) =~= s);
    assert(v@.subrange(lo as int, lo as int) =~= Seq::<char>::empty());
    while i < hi
        invariant
            lo <= b <= i <= hi <= v@.len(),
            s == v@.subrange(lo as int, hi as int),
            segment_views(out@) + plain_from(
                s.skip(i - lo),
                v@.subrange(b as int, i as int),
            ) == start + plain_run(s),
        decreases hi - i,
    {
        let c = v[i];
        assert(s[i - lo] == c);
        if c == ':' || c == ',' {
            let t = token_segment(v, b, i);
            let p = Segment::Plain(string_of_range(v, i, i + 1));
            proof {
                assert(v@.subrange(i as int, i + 1) =~= seq![c]);
                assert(s.skip(i - lo).drop_first() =~= s.skip(i + 1 - lo));
                assert(v@.subrange(i + 1, i + 1) =~= Seq::<char>::empty());
                assert(segment_views(out@.push(t).push(p)) =~= segment_views(out@) + seq![
                    t@,
                    p@,
                ]);
            }
            out.push(t);
            out.push(p);
            b = i + 1;
        } else {
            proof {
                lemma_plain_step(v@.subrange(lo as int, hi as int), b - lo, i - lo);
                assert(v@.subrange(lo as int, hi as int).subrange(b - lo, i - lo) =~= v@.subrange(
                    b as int,
                    i as int,
                ));
                assert(v@.subrange(lo as int, hi as int).subrange(b - lo, i + 1 - lo)
                    =~= v@.subrange(b as int, i + 1));
            }
        }
        i = i + 1;
    }
    assert(s.skip(hi - lo) =~= Seq::<char>::empty());
    if b < hi {
        let t = token_segment(v, b, hi);
        assert(segment_views(out@.push(t)) =~= segment_views(out@) + seq![t@]);
        out.push(t);
    } else {
        assert(v@.subrange(b as int, hi as int) =~= Seq::<char>::empty());
        assert(segment_views(out@) + Seq::<SegmentView>::empty() =~= segment_views(out@));
    }
}

/// Splits a line of JSON text into segments for highlighting.
pub fn highlight_json_line(line: &str) -> (r: Vec<Segment>)
    ensures
        segment_views(r@) == highlighted(line@),
{
    let v = chars_of(line);
    let n = v.len();
    let mut out: Vec<Segment> = Vec::new();
    let mut p: usize = 0;
    assert(v@.skip(0) =~= line@);
    while p < n
        invariant
            v@ == line@,
            n == v@.len(),
            p <= n,
            segment_views(out@) + highlighted(v@.skip(p as int)) == highlighted(line@),
        decreases n - p,
    {
        let ghost s = v@.skip(p as int);
        let pos = find_char_from(&v, p, '"');
        proof {
            assert(v@.subrange(p as int, n as int) =~= s);
            lemma_index_of(s, '"');
        }
        if pos == n {
            push_plain(&v, p, n, &mut out);
            proof {
                assert(v@.subrange(p as int, n as int) =~= s);
                assert(v@.skip(n as int) =~= Seq::<char>::empty());
            }
            p = n;
        } else {
            push_plain(&v, p, pos, &mut out);
            let close = find_char_from(&v, pos + 1, '"');
            let qe = if close < n {
                close + 1
            } else {
                n
            };
            let tok = string_of_range(&v, pos, qe);
            let is_key = qe < n && v[qe] == ':';
            let seg = if is_key {
                Segment::Key(tok)
            } else {
                Segment::Quoted(tok)
            };
            proof {
                let rem = s.skip(pos - p);
                assert(rem =~= v@.skip(pos as int));
                assert(rem.drop_first() =~= v@.subrange(pos + 1, n as int));
                lemma_index_of(rem.drop_first(), '"');
                assert(v@.subrange(p as int, pos as int) =~= s.take(pos - p));
                assert(tok@ =~= rem.take(qe - pos));
                assert(rem.skip(qe - pos) =~= v@.skip(qe as int));
                assert(segment_views(out@.push(seg)) =~= segment_views(out@) + seq![seg@]);
            }
            out.push(seg);
            p = qe;
        }
        assert(segment_views(out@) + highlighted(v@.skip(p as int)) =~= highlighted(line@));
    }
    assert(v@.skip(n as int) =~= Seq::<char>::empty());
    assert(segment_views(out@) + highlighted(Seq::<char>::empty()) =~= segment_views(out@));
    out
}

/// Whether `p` holds no double quote.
pub open spec fn unquoted(p: Seq<char>) -> bool {
    forall|j: int| 0 <= j < p.len() ==> p[j] != '"'
}

/// Whether `p` is one whole quoted string of the line, where `rest` is the
/// text after it: a `"`, then text without `"` up to a closing `"`, or, when
/// nothing follows (an unclosed quote), up to the end of the line.
pub open spec fn quoted_piece(p: Seq<char>, rest: Seq<char>) -> bool {
    &&& p.len() > 0 && p[0] == '"'
    &&& (p.len() >= 2 && p.last() == '"' && unquoted(p.subrange(1, p.len() - 1))) || (rest.len()
        == 0 && unquoted(p.drop_first()))
}

/// How a segment outside quotes stands for the stretch `p` of the line: it
/// shows `p` as it is, but for `true`, `false` and `null`, which drop the
/// whitespace around them (a bare word also carries its trimmed form).
pub open spec fn bare_stands(g: SegmentView, p: Seq<char>) -> bool {
    match g {
        SegmentView::Plain(t) => t == p && unquoted(p),
        SegmentView::Boolean(t) => t == trim(p) && unquoted(p),
        SegmentView::Null => trim(p) == "null"@ && unquoted(p),
        SegmentView::Word { raw, trimmed } => raw == p && trimmed == trim(p) && unquoted(p),
        _ => false,
    }
}

/// How segment `g` stands for the stretch `p` of the line that `rest`
/// follows: a key or quoted segment is a whole quoted string, a key exactly
/// when `:` comes right after it; any other segment is as `bare_stands` says.
pub open spec fn stands_for(g: SegmentView, p: Seq<char>, rest: Seq<char>) -> bool {
    match g {
        SegmentView::Key(t) => t == p && quoted_piece(p, rest) && rest.len() > 0 && rest[0] == ':',
        SegmentView::Quoted(t) => t == p && quoted_piece(p, rest) && !(rest.len() > 0 && rest[0]
            == ':'),
        _ => bare_stands(g, p),
    }
}

/// The stretches of text that the segments of `plain_from(s, buf)` come from.
pub open spec fn plain_pieces(s: Seq<char>, buf: Seq<char>) -> Seq<Seq<char>>
    decreases s.len(),
{
    if s.len() == 0 {
        if buf.len() > 0 {
            seq![buf]
        } else {
            seq![]
        }
    } else if s[0] == ':' || s[0] == ',' {
        seq![buf, seq![s[0]]] + plain_pieces(s.drop_first(), seq![])
    } else {
        plain_pieces(s.drop_first(), buf.push(s[0]))
    }
}

/// The stretches of the line that the segments of `highlighted(s)` come from.
pub open spec fn line_pieces(s: Seq<char>) -> Seq<Seq<char>>
    decreases s.len(),
{
    if s.len() == 0 {
        seq![]
    } else {
        let pos = index_of(s, '"');
        if pos < 0 || pos >= s.len() {
            plain_pieces(s, seq![])
        } else {
            let rem = s.skip(pos);
            let rest = rem.drop_first();
            let q = index_of(rest, '"');
            let qe = if 0 <= q < rest.len() {
                q + 2
            } else {
                rem.len() as int
            };
            if 0 <= qe <= rem.len() {
                plain_pieces(s.take(pos), seq![]) + seq![rem.take(qe)] + line_pieces(rem.skip(qe))
            } else {
                seq![]
            }
        }
    }
}

proof fn lemma_token_stands(buf: Seq<char>)
    requires
        unquoted(buf),
    ensures
        bare_stands(token(buf), buf),
{
}

proof fn lemma_flatten_two(a: Seq<char>, b: Seq<char>)
    ensures
        seq![a, b].flatten() == a + b,
{
    let ps = seq![a, b];
    assert(ps.drop_first() =~= seq![b]);
    assert(ps.drop_first().drop_first() =~= Seq::<Seq<char>>::empty());
    assert(seq![b].flatten() == b + Seq::<Seq<char>>::empty().flatten());
    assert(b + Seq::<char>::empty() =~= b);
}

proof fn lemma_flatten_one(a: Seq<char>)
    ensures
        seq![a].flatten() == a,
{
    seq![a].lemma_flatten_one_element();
    assert(seq![a].first() == a);
}

proof fn lemma_plain_pieces(s: Seq<char>, buf: Seq<char>)
    requires
        unquoted(s),
        unquoted(buf),
    ensures
        plain_pieces(s, buf).len() == plain_from(s, buf).len(),
        plain_pieces(s, buf).flatten() == buf + s,
        forall|i: int|
            0 <= i < plain_from(s, buf).len() ==> bare_stands(
                #[trigger] plain_from(s, buf)[i],
                plain_pieces(s, buf)[i],
            ),
    decreases s.len(),
{
    if s.len() == 0 {
        assert(buf + s =~= buf);
        if buf.len() > 0 {
            lemma_flatten_one(buf);
            lemma_token_stands(buf);
        } else {
            assert(buf =~= Seq::<char>::empty());
        }
    } else if s[0] == ':' || s[0] == ',' {
        let rest = s.drop_first();
        assert(unquoted(rest)) by {
            assert forall|j: int| 0 <= j < rest.len() implies rest[j] != '"' by {
                assert(rest[j] == s[j + 1]);
            }
        }
        lemma_plain_pieces(rest, seq![]);
        lemma_token_stands(buf);
        let head = seq![buf, seq![s[0]]];
        vstd::seq_lib::lemma_flatten_concat(head, plain_pieces(rest, seq![]));
        lemma_flatten_two(buf, seq![s[0]]);
        assert(Seq::<char>::empty() + rest =~= rest);
        assert(buf + s =~= (buf + seq![s[0]]) + rest);
        let r = plain_from(s, buf);
        let t = plain_from(rest, seq![]);
        let pr = plain_pieces(s, buf);
        let pt = plain_pieces(rest, seq![]);
        assert forall|i: int| 0 <= i < r.len() implies bare_stands(#[trigger] r[i], pr[i]) by {
            if i >= 2 {
                assert(r[i] == t[i - 2]);
                assert(pr[i] == pt[i - 2]);
            } else if i == 1 {
                assert(r[i] == SegmentView::Plain(seq![s[0]]));
                assert(pr[i] == seq![s[0]]);
            } else {
                assert(r[i] == token(buf));
                assert(pr[i] == buf);
            }
        }
    } else {
        let rest = s.drop_first();
        assert(unquoted(rest)) by {
            assert forall|j: int| 0 <= j < rest.len() implies rest[j] != '"' by {
                assert(rest[j] == s[j + 1]);
            }
        }
        assert(unquoted(buf.push(s[0]))) by {
            assert forall|j: int| 0 <= j < buf.push(s[0]).len() implies buf.push(s[0])[j] != '"' by {
                if j < buf.len() {
                    assert(buf.push(s[0])[j] == buf[j]);
                }
            }
        }
        lemma_plain_pieces(rest, buf.push(s[0]));
        assert(buf.push(s[0]) + rest =~= buf + s);
    }
}

/// Highlighting cuts the line into stretches, one per segment, that make up
/// the whole line in order. Each quoted string of the line is one whole key or
/// quoted segment, a key exactly when `:` follows it right away; every other
/// segment shows its stretch as it is, except that `true`, `false` and `null`
/// drop the whitespace around them.
pub proof fn law_highlight_pieces(s: Seq<char>)
    ensures
        line_pieces(s).len() == highlighted(s).len(),
        line_pieces(s).flatten() == s,
        forall|i: int|
            0 <= i < highlighted(s).len() ==> stands_for(
                #[trigger] highlighted(s)[i],
                line_pieces(s)[i],
                line_pieces(s).skip(i + 1).flatten(),
            ),
    decreases s.len(),
{
    if s.len() > 0 {
        let pos = index_of(s, '"');
        lemma_index_of(s, '"');
        if pos < 0 || pos >= s.len() {
            lemma_plain_pieces(s, seq![]);
            assert(Seq::<char>::empty() + s =~= s);
            let h = highlighted(s);
            let ps = line_pieces(s);
            assert forall|i: int| 0 <= i < h.len() implies stands_for(
                #[trigger] h[i],
                ps[i],
                ps.skip(i + 1).flatten(),
            ) by {
                assert(bare_stands(h[i], ps[i]));
            }
        } else {
            let rem = s.skip(pos);
            let rest = rem.drop_first();
            let q = index_of(rest, '"');
            lemma_index_of(rest, '"');
            let qe = if 0 <= q < rest.len() {
                q + 2
            } else {
                rem.len() as int
            };
            let tok = rem.take(qe);
            let after = rem.skip(qe);
            let seg = if after.len() > 0 && after[0] == ':' {
                SegmentView::Key(tok)
            } else {
                SegmentView::Quoted(tok)
            };
            let pre = s.take(pos);
            assert(unquoted(pre)) by {
                assert forall|j: int| 0 <= j < pre.len() implies pre[j] != '"' by {
                    assert(pre[j] == s[j]);
                }
            }
            lemma_plain_pieces(pre, seq![]);
            law_highlight_pieces(after);
            let a = plain_run(pre);
            let pa = plain_pieces(pre, seq![]);
            let b = highlighted(after);
            let pb = line_pieces(after);
            let h = highlighted(s);
            let ps = line_pieces(s);
            assert(h == a + seq![seg] + b);
            assert(ps == pa + seq![tok] + pb);
            vstd::seq_lib::lemma_flatten_concat(pa + seq![tok], pb);
            vstd::seq_lib::lemma_flatten_concat(pa, seq![tok]);
            lemma_flatten_one(tok);
            assert(Seq::<char>::empty() + pre =~= pre);
            assert(s =~= (pre + tok) + after);
            assert(rem[0] == '"');
            assert(quoted_piece(tok, after)) by {
                if 0 <= q < rest.len() {
                    assert(tok.last() == rest[q]);
                    let inner = tok.subrange(1, tok.len() - 1);
                    assert forall|j: int| 0 <= j < inner.len() implies #[trigger] inner[j] != '"' by {
                        assert(inner[j] == rest[j]);
                    }
                } else {
                    assert(after.len() == 0);
                    let tail = tok.drop_first();
                    assert forall|j: int| 0 <= j < tail.len() implies #[trigger] tail[j] != '"' by {
                        assert(tail[j] == rest[j]);
                    }
                }
            }
            assert forall|i: int| 0 <= i < h.len() implies stands_for(
                #[trigger] h[i],
                ps[i],
                ps.skip(i + 1).flatten(),
            ) by {
                if i < a.len() {
                    assert(h[i] == a[i]);
                    assert(ps[i] == pa[i]);
                    assert(bare_stands(a[i], pa[i]));
                } else if i == a.len() {
                    assert(h[i] == seg);
                    assert(ps[i] == tok);
                    assert(ps.skip(i + 1) =~= pb);
                } else {
                    let k = i - a.len() - 1;
                    assert(h[i] == b[k]);
                    assert(ps[i] == pb[k]);
                    assert(ps.skip(i + 1) =~= pb.skip(k + 1));
                }
            }
        }
    }
}

/// The text that a segment shows (a bare token as it stands in the line).
pub open spec fn seg_text(g: SegmentView) -> Seq<char> {
    match g {
        SegmentView::Plain(t) => t,
        SegmentView::Key(t) => t,
        SegmentView::Quoted(t) => t,
        SegmentView::Boolean(t) => t,
        SegmentView::Null => "null"@,
        SegmentView::Word { raw, trimmed: _ } => raw,
    }
}

/// The texts of segments, one after the other.
pub open spec fn texts(v: Seq<SegmentView>) -> Seq<char>
    decreases v.len(),
{
    if v.len() == 0 {
        seq![]
    } else {
        seg_text(v[0]) + texts(v.drop_first())
    }
}

/// The characters of `s` that are not whitespace, in order.
pub open spec fn non_ws(s: Seq<char>) -> Seq<char> {
    s.filter(|c: char| !is_white_space(c))
}

proof fn lemma_non_ws_add(a: Seq<char>, b: Seq<char>)
    ensures
        non_ws(a + b) == non_ws(a) + non_ws(b),
{
    Seq::filter_distributes_over_add(a, b, |c: char| !is_white_space(c));
}

proof fn lemma_non_ws_one(c: char)
    ensures
        non_ws(seq![c]) == if is_white_space(c) {
            Seq::<char>::empty()
        } else {
            seq![c]
        },
{
    reveal_with_fuel(Seq::filter, 2);
    assert(seq![c].drop_last() =~= Seq::<char>::empty());
    assert(seq![c].last() == c);
    assert(Seq::<char>::empty().filter(|c: char| !is_white_space(c)) =~= Seq::<char>::empty());
    assert(Seq::<char>::empty().push(c) =~= seq![c]);
}

proof fn lemma_non_ws_trim_start(s: Seq<char>)
    ensures
        non_ws(trim_start(s)) == non_ws(s),
    decreases s.len(),
{
    if s.len() > 0 && is_white_space(s[0]) {
        lemma_non_ws_trim_start(s.drop_first());
        assert(s =~= seq![s[0]] + s.drop_first());
        lemma_non_ws_add(seq![s[0]], s.drop_first());
        lemma_non_ws_one(s[0]);
        assert(Seq::<char>::empty() + non_ws(s.drop_first()) =~= non_ws(s.drop_first()));
    }
}

proof fn lemma_non_ws_trim_end(s: Seq<char>)
    ensures
        non_ws(trim_end(s)) == non_ws(s),
    decreases s.len(),
{
    if s.len() > 0 && is_white_space(s.last()) {
        lemma_non_ws_trim_end(s.drop_last());
        assert(s =~= s.drop_last() + seq![s.last()]);
        lemma_non_ws_add(s.drop_last(), seq![s.last()]);
        lemma_non_ws_one(s.last());
        assert(non_ws(s.drop_last()) + Seq::<char>::empty() =~= non_ws(s.drop_last()));
    }
}

/// Trimming drops whitespace only.
pub proof fn lemma_non_ws_trim(s: Seq<char>)
    ensures
        non_ws(trim(s)) == non_ws(s),
{
    lemma_non_ws_trim_end(trim_start(s));
    lemma_non_ws_trim_start(s);
}

proof fn lemma_texts_add(a: Seq<SegmentView>, b: Seq<SegmentView>)
    ensures
        texts(a + b) == texts(a) + texts(b),
    decreases a.len(),
{
    if a.len() == 0 {
        assert(a + b =~= b);
        assert(Seq::<char>::empty() + texts(b) =~= texts(b));
    } else {
        lemma_texts_add(a.drop_first(), b);
        assert((a + b).drop_first() =~= a.drop_first() + b);
        assert((a + b)[0] == a[0]);
        assert(seg_text(a[0]) + (texts(a.drop_first()) + texts(b)) =~= (seg_text(a[0]) + texts(
            a.drop_first(),
        )) + texts(b));
    }
}

proof fn lemma_texts_one(g: SegmentView)
    ensures
        texts(seq![g]) == seg_text(g),
{
    assert(seq![g].drop_first() =~= Seq::<SegmentView>::empty());
    assert(texts(Seq::<SegmentView>::empty()) == Seq::<char>::empty());
    assert(seq![g][0] == g);
    assert(seg_text(g) + Seq::<char>::empty() =~= seg_text(g));
}

proof fn lemma_token_keeps_text(buf: Seq<char>)
    ensures
        non_ws(seg_text(token(buf))) == non_ws(buf),
{
    lemma_non_ws_trim(buf);
}

proof fn lemma_plain_from_keeps_text(s: Seq<char>, buf: Seq<char>)
    ensures
        non_ws(texts(plain_from(s, buf))) == non_ws(buf + s),
    decreases s.len(),
{
    if s.len() == 0 {
        assert(buf + s =~= buf);
        if buf.len() > 0 {
            lemma_texts_one(token(buf));
            lemma_token_keeps_text(buf);
        } else {
            assert(buf =~= Seq::<char>::empty());
            reveal_with_fuel(Seq::filter, 1);
        }
    } else if s[0] == ':' || s[0] == ',' {
        let rest = s.drop_first();
        let head = seq![token(buf), SegmentView::Plain(seq![s[0]])];
        lemma_plain_from_keeps_text(rest, seq![]);
        lemma_texts_add(head, plain_from(rest, seq![]));
        assert(head =~= seq![token(buf)] + seq![SegmentView::Plain(seq![s[0]])]);
        lemma_texts_add(seq![token(buf)], seq![SegmentView::Plain(seq![s[0]])]);
        lemma_texts_one(token(buf));
        lemma_texts_one(SegmentView::Plain(seq![s[0]]));
        lemma_token_keeps_text(buf);
        assert(Seq::<char>::empty() + rest =~= rest);
        let tt = seg_text(token(buf));
        let tr = texts(plain_from(rest, seq![]));
        lemma_non_ws_add(tt + seq![s[0]], tr);
        lemma_non_ws_add(tt, seq![s[0]]);
        assert(buf + s =~= (buf + seq![s[0]]) + rest);
        lemma_non_ws_add(buf + seq![s[0]], rest);
        lemma_non_ws_add(buf, seq![s[0]]);
    } else {
        lemma_plain_from_keeps_text(s.drop_first(), buf.push(s[0]));
        assert(buf.push(s[0]) + s.drop_first() =~= buf + s);
    }
}

/// Highlighting keeps every character of the line that is not whitespace, in
/// order: the segments' texts, one after the other, differ from the line at
/// most in whitespace (which trimmed `true`, `false` and `null` drop).
#[verifier::spinoff_prover]
pub proof fn law_highlight_keeps_text(s: Seq<char>)
    ensures
        non_ws(texts(highlighted(s))) == non_ws(s),
    decreases s.len(),
{
    if s.len() == 0 {
        reveal_with_fuel(Seq::filter, 1);
    } else {
        let pos = index_of(s, '"');
        lemma_index_of(s, '"');
        if pos < 0 || pos >= s.len() {
            lemma_plain_from_keeps_text(s, seq![]);
            assert(Seq::<char>::empty() + s =~= s);
        } else {
            let rem = s.skip(pos);
            let rest = rem.drop_first();
            let q = index_of(rest, '"');
            lemma_index_of(rest, '"');
            let qe = if 0 <= q < rest.len() {
                q + 2
            } else {
                rem.len() as int
            };
            let tok = rem.take(qe);
            let after = rem.skip(qe);
            let seg = if after.len() > 0 && after[0] == ':' {
                SegmentView::Key(tok)
            } else {
                SegmentView::Quoted(tok)
            };
            let a = plain_run(s.take(pos));
            law_highlight_keeps_text(after);
            lemma_plain_from_keeps_text(s.take(pos), seq![]);
            assert(Seq::<char>::empty() + s.take(pos) =~= s.take(pos));
            assert(highlighted(s) == a + seq![seg] + highlighted(after));
            lemma_texts_add(a + seq![seg], highlighted(after));
            lemma_texts_add(a, seq![seg]);
            lemma_texts_one(seg);
            assert(seg_text(seg) == tok);
            lemma_non_ws_add(texts(a) + tok, texts(highlighted(after)));
            lemma_non_ws_add(texts(a), tok);
            assert(s =~= (s.take(pos) + tok) + after);
            lemma_non_ws_add(s.take(pos) + tok, after);
            lemma_non_ws_add(s.take(pos), tok);
        }
    }
}

/// Every key and quoted segment is a whole quoted string: it begins with a
/// double quote.
pub proof fn law_quotes_kept_whole(s: Seq<char>)
    ensures
        forall|i: int|
            0 <= i < highlighted(s).len() ==> match #[trigger] highlighted(s)[i] {
                SegmentView::Key(t) => t.len() > 0 && t[0] == '"',
                SegmentView::Quoted(t) => t.len() > 0 && t[0] == '"',
                _ => true,
            },
    decreases s.len(),
{
    if s.len() > 0 {
        let pos = index_of(s, '"');
        lemma_index_of(s, '"');
        if 0 <= pos < s.len() {
            let rem = s.skip(pos);
            let rest = rem.drop_first();
            let q = index_of(rest, '"');
            lemma_index_of(rest, '"');
            let qe = if 0 <= q < rest.len() {
                q + 2
            } else {
                rem.len() as int
            };
            let after = rem.skip(qe);
            law_quotes_kept_whole(after);
            lemma_plain_run_unquoted(s.take(pos));
            let a = plain_run(s.take(pos));
            let h = highlighted(s);
            assert forall|i: int| 0 <= i < h.len() implies match #[trigger] h[i] {
                SegmentView::Key(t) => t.len() > 0 && t[0] == '"',
                SegmentView::Quoted(t) => t.len() > 0 && t[0] == '"',
                _ => true,
            } by {
                if i < a.len() {
                    assert(h[i] == a[i]);
                } else if i == a.len() {
                    assert(rem.take(qe)[0] == s[pos]);
                } else {
                    assert(h[i] == highlighted(after)[i - a.len() - 1]);
                }
            }
        } else {
            lemma_plain_run_unquoted(s);
        }
    }
}

/// Text outside quotes yields no key or quoted segment.
proof fn lemma_plain_run_unquoted(s: Seq<char>)
    ensures
        forall|i: int|
            0 <= i < plain_run(s).len() ==> !(#[trigger] plain_run(s)[i] is Key) && !(plain_run(
                s,
            )[i] is Quoted),
{
    lemma_plain_from_unquoted(s, seq![]);
}

proof fn lemma_plain_from_unquoted(s: Seq<char>, buf: Seq<char>)
    ensures
        forall|i: int|
            0 <= i < plain_from(s, buf).len() ==> !(#[trigger] plain_from(s, buf)[i] is Key) && !(
            plain_from(s, buf)[i] is Quoted),
    decreases s.len(),
{
    if s.len() > 0 {
        if s[0] == ':' || s[0] == ',' {
            lemma_plain_from_unquoted(s.drop_first(), seq![]);
            let r = plain_from(s, buf);
            let t = plain_from(s.drop_first(), seq![]);
            assert forall|i: int| 0 <= i < r.len() implies !(#[trigger] r[i] is Key) && !(
            r[i] is Quoted) by {
                if i >= 2 {
                    assert(r[i] == t[i - 2]);
                }
            }
        } else {
            lemma_plain_from_unquoted(s.drop_first(), buf.push(s[0]));
        }
    }
}


/// A bare token is shown by what its text is, the whitespace around it
/// aside: `true` and `false` alike as a boolean carrying that text, `null` as
/// null, only whitespace as plain text, and anything else as a word that
/// keeps its text.
pub proof fn law_token_kinds(buf: Seq<char>)
    ensures
        (trim(buf) == "true"@ || trim(buf) == "false"@) <==> token(buf) == SegmentView::Boolean(
            trim(buf),
        ),
        trim(buf) == "null"@ <==> token(buf) == SegmentView::Null,
        trim(buf).len() == 0 <==> token(buf) == SegmentView::Plain(buf),
        (trim(buf).len() > 0 && trim(buf) != "true"@ && trim(buf) != "false"@ && trim(buf)
            != "null"@) <==> token(buf) == (SegmentView::Word { raw: buf, trimmed: trim(buf) }),
{
    reveal_strlit("true");
    reveal_strlit("false");
    reveal_strlit("null");
    assert("null"@[0] == 'n' && "true"@[0] == 't');
    assert("null"@ != "true"@);
    assert("null"@ != "false"@ && "null"@.len() != "false"@.len());
}

} // verus!
