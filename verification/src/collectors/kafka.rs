//! Deciding what to read from a Kafka cluster.
use vstd::prelude::*;
use vstd::utf8::{decode_utf8, valid_utf8};
use crate::collectors::{unprefixed, without_prefixed};
use crate::text::{
    chars_of, find_char_from, index_of, lemma_index_of, string_of_range, trim, trim_bounds, views,
};

verus! {

/// Topics whose recent messages are read each round.
pub const TOPICS_SAMPLED: usize = 5;

/// How many of the latest messages are read from a topic.
pub const MESSAGES_PER_TOPIC: i64 = 10;

/// Topics shown: internal topics, whose names begin with `__`, are left out.
pub open spec fn shown_topics(names: Seq<Seq<char>>) -> Seq<Seq<char>> {
    unprefixed(names, "__"@)
}

/// The topics to show, from all the topic names of the cluster.
pub fn visible_topics(names: &Vec<String>) -> (r: Vec<String>)
    ensures
        views(r@) == shown_topics(views(names@)),
{
    without_prefixed(names, "__")
}

/// Offset from which a partition's latest messages are fetched, given its
/// high watermark: nothing is fetched from an empty partition; otherwise the
/// last `MESSAGES_PER_TOPIC` offsets, or all of them when there are fewer.
pub open spec fn start_offset(watermark: i64) -> Option<i64> {
    if watermark > 0 {
        Some(if watermark > MESSAGES_PER_TOPIC {
            (watermark - MESSAGES_PER_TOPIC) as i64
        } else {
            0
        })
    } else {
        None
    }
}

/// Where to start fetching from a partition with the given high watermark.
pub fn fetch_start_offset(watermark: i64) -> (r: Option<i64>)
    ensures
        r == start_offset(watermark),
{
    if watermark > 0 {
        Some(if watermark > MESSAGES_PER_TOPIC {
            watermark - MESSAGES_PER_TOPIC
        } else {
            0
        })
    } else {
        None
    }
}

/// What `String::from_utf8_lossy` makes of the bytes `b`.
pub uninterp spec fn lossy_text(b: Seq<u8>) -> Seq<char>;

/// `String::from_utf8_lossy`: the text of the bytes, with each invalid
/// sequence replaced by U+FFFD; valid UTF-8 decodes as it is.
#[verifier::external_body]
fn utf8_lossy(b: &[u8]) -> (r: String)
    ensures
        r@ == lossy_text(b@),
        valid_utf8(b@) ==> r@ == decode_utf8(b@),
{
    String::from_utf8_lossy(b).to_string()
}

/// The texts of the records that carry a value, in order.
pub open spec fn record_texts(values: Seq<Option<Vec<u8>>>) -> Seq<Seq<char>>
    decreases values.len(),
{
    if values.len() == 0 {
        seq![]
    } else {
        match values.last() {
            Some(b) => record_texts(values.drop_last()).push(lossy_text(b@)),
            None => record_texts(values.drop_last()),
        }
    }
}

/// The messages shown for a topic, from the values of its fetched records.
pub fn messages_from_values(values: &Vec<Option<Vec<u8>>>) -> (r: Vec<String>)
    ensures
        views(r@) == record_texts(values@),
{
    let mut r: Vec<String> = Vec::new();
    let mut i: usize = 0;
    assert(values@.take(0) =~= Seq::<Option<Vec<u8>>>::empty());
    while i < values.len()
        invariant
            i <= values@.len(),
            views(r@) == record_texts(values@.take(i as int)),
        decreases values@.len() - i,
    {
        assert(values@.take(i + 1).drop_last() =~= values@.take(i as int));
        match &values[i] {
            Some(b) => {
                let t = utf8_lossy(b.as_slice());
                assert(views(r@.push(t)) =~= views(r@).push(t@));
                r.push(t);
            },
            None => {},
        }
        i = i + 1;
    }
    assert(values@.take(values@.len() as int) =~= values@);
    r
}

/// The fetch starts inside the partition and covers at most the last
/// `MESSAGES_PER_TOPIC` offsets; nothing is fetched from an empty partition.
pub proof fn law_fetch_window(watermark: i64)
    ensures
        watermark <= 0 ==> start_offset(watermark) is None,
        start_offset(watermark) matches Some(st) ==> 0 <= st < watermark && watermark - st
            <= MESSAGES_PER_TOPIC,
{
}

/// The pieces of `s` between commas, in order (one piece when there is no comma).
pub open spec fn comma_pieces(s: Seq<char>) -> Seq<Seq<char>>
    decreases s.len(),
{
    let i = index_of(s, ',');
    if 0 <= i < s.len() {
        seq![s.take(i)] + comma_pieces(s.skip(i + 1))
    } else {
        seq![s]
    }
}

/// The pieces without surrounding whitespace, leaving out those that are empty.
pub open spec fn trimmed_nonempty(pieces: Seq<Seq<char>>) -> Seq<Seq<char>>
    decreases pieces.len(),
{
    if pieces.len() == 0 {
        seq![]
    } else {
        (if trim(pieces[0]).len() > 0 {
            seq![trim(pieces[0])]
        } else {
            seq![]
        }) + trimmed_nonempty(pieces.drop_first())
    }
}

/// The brokers of a comma-separated list: each entry without surrounding
/// whitespace, empty entries left out.
pub open spec fn brokers_of(s: Seq<char>) -> Seq<Seq<char>> {
    trimmed_nonempty(comma_pieces(s))
}

/// The brokers named by the Kafka setting, a comma-separated list.
pub fn broker_list(brokers: &str) -> (r: Vec<String>)
    ensures
        views(r@) == brokers_of(brokers@),
{
    let v = chars_of(brokers);
    let n = v.len();
    let mut r: Vec<String> = Vec::new();
    let mut p: usize = 0;
    assert(v@.skip(0) =~= brokers@);
    loop
        invariant
            v@ == brokers@,
            n == v@.len(),
            p <= n,
            views(r@) + trimmed_nonempty(comma_pieces(v@.skip(p as int))) == brokers_of(brokers@),
        decreases n - p,
    {
        let ghost rest = v@.skip(p as int);
        let q = find_char_from(&v, p, ',');
        proof {
            assert(v@.subrange(p as int, n as int) =~= rest);
            lemma_index_of(rest, ',');
        }
        let (lo, hi) = trim_bounds(&v, p, q);
        let ghost piece = v@.subrange(p as int, q as int);
        assert(piece =~= rest.take(q - p));
        let ghost before = views(r@);
        if lo < hi {
            let b = string_of_range(&v, lo, hi);
            assert(views(r@.push(b)) =~= views(r@).push(b@));
            r.push(b);
        }
        if q == n {
            proof {
                assert(comma_pieces(rest) == seq![rest]);
                assert(rest.take(q - p) =~= rest);
                assert(trimmed_nonempty(Seq::<Seq<char>>::empty()) =~= Seq::<Seq<char>>::empty());
                assert(trimmed_nonempty(seq![rest]) =~= (if trim(rest).len() > 0 {
                    seq![trim(rest)]
                } else {
                    Seq::<Seq<char>>::empty()
                })) by {
                    assert(seq![rest].drop_first() =~= Seq::<Seq<char>>::empty());
                }
                assert(views(r@) =~= before + trimmed_nonempty(comma_pieces(rest)));
            }
            return r;
        }
        proof {
            let tail = rest.skip(q - p + 1);
            assert(tail =~= v@.skip(q + 1));
            let cp = seq![rest.take(q - p)] + comma_pieces(tail);
            assert(comma_pieces(rest) == cp);
            assert(cp[0] == rest.take(q - p));
            assert(cp.drop_first() =~= comma_pieces(tail));
            assert(views(r@) + trimmed_nonempty(comma_pieces(tail)) =~= before + trimmed_nonempty(cp));
        }
        p = q + 1;
    }
}

} // verus!
