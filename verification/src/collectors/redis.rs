//! Reading the answers of a Redis server.
use vstd::prelude::*;
use crate::text::{
    chars_of, find_char_from, has_prefix, index_of, lemma_index_of, lines, lines_of, parse_usize,
    parsed_usize, starts_with, string_of_range, strip_repeated_prefix, strip_repeated_prefix_of, views,
};

verus! {

/// Keys fetched per database.
pub const KEYS_PER_DB: usize = 20;

/// Databases assumed when the server does not say how many it has.
pub const DEFAULT_DB_COUNT: usize = 16;

/// The `INFO` field that holds the memory in use, in human units.
pub open spec fn memory_field() -> Seq<char> {
    "used_memory_human:"@
}

/// The memory figure of an `INFO` reply, given as its lines: the value of the
/// last line that starts with the memory field, or `0KB` when none does.
pub open spec fn memory_in(lines: Seq<Seq<char>>) -> Seq<char>
    decreases lines.len(),
{
    if lines.len() == 0 {
        "0KB"@
    } else if has_prefix(lines.last(), memory_field()) {
        strip_repeated_prefix(lines.last(), memory_field())
    } else {
        memory_in(lines.drop_last())
    }
}

/// The memory in use that an `INFO` reply reports.
pub fn memory_from_info(info: &str) -> (r: String)
    ensures
        r@ == memory_in(lines_of(info@)),
{
    let ls = lines(info);
    let ghost lv = lines_of(info@);
    let field = "used_memory_human:";
    proof {
        reveal_strlit("used_memory_human:");
    }
    let mut mem = String::from_str("0KB");
    let mut i: usize = 0;
    assert(lv.take(0) =~= Seq::<Seq<char>>::empty());
    while i < ls.len()
        invariant
            views(ls@) == lv,
            lv == lines_of(info@),
            field@ == memory_field(),
            field@.len() > 0,
            i <= ls@.len(),
            mem@ == memory_in(lv.take(i as int)),
        decreases ls@.len() - i,
    {
        assert(ls@[i as int]@ == lv[i as int]);
        assert(lv.take(i + 1).drop_last() =~= lv.take(i as int));
        if starts_with(ls[i].as_str(), field) {
            mem = strip_repeated_prefix_of(ls[i].as_str(), field);
        }
        i = i + 1;
    }
    assert(lv.take(ls@.len() as int) =~= lv);
    mem
}

/// The number of databases that the reply to `CONFIG GET databases` gives:
/// its second element as a number when the reply has exactly two elements;
/// otherwise, or when the number does not parse, the default.
pub open spec fn db_count_in(reply: Option<Seq<String>>) -> usize {
    match reply {
        Some(r) => if r.len() == 2 {
            match parsed_usize(r[1]@) {
                Some(n) => n,
                None => DEFAULT_DB_COUNT,
            }
        } else {
            DEFAULT_DB_COUNT
        },
        None => DEFAULT_DB_COUNT,
    }
}

/// Number of databases to scan, from the reply to `CONFIG GET databases`
/// (`None` when the command failed).
pub fn database_count(reply: Option<Vec<String>>) -> (n: usize)
    ensures
        n == db_count_in(
            match reply {
                Some(r) => Some(r@),
                None => None,
            },
        ),
{
    match reply {
        Some(r) => {
            if r.len() == 2 {
                match parse_usize(r[1].as_str()) {
                    Some(n) => n,
                    None => DEFAULT_DB_COUNT,
                }
            } else {
                DEFAULT_DB_COUNT
            }
        },
        None => DEFAULT_DB_COUNT,
    }
}

/// The database number of a keyspace line such as `db3:keys=1,expires=0`:
/// the part before the first `:` with its `db` prefix removed, as a number.
pub open spec fn keyspace_db(line: Seq<char>) -> Option<usize> {
    if has_prefix(line, "db"@) {
        parsed_usize(line.take(index_of(line, ':')).skip(2))
    } else {
        None
    }
}

/// The databases listed in an `INFO keyspace` reply, given as its lines.
pub open spec fn keyspace_dbs(lines: Seq<Seq<char>>) -> Seq<usize>
    decreases lines.len(),
{
    if lines.len() == 0 {
        seq![]
    } else {
        match keyspace_db(lines.last()) {
            Some(n) => keyspace_dbs(lines.drop_last()).push(n),
            None => keyspace_dbs(lines.drop_last()),
        }
    }
}

/// The databases that hold keys, from an `INFO keyspace` reply.
pub fn active_databases(keyspace: &str) -> (r: Vec<usize>)
    ensures
        r@ == keyspace_dbs(lines_of(keyspace@)),
{
    let ls = lines(keyspace);
    let ghost lv = lines_of(keyspace@);
    let mut r: Vec<usize> = Vec::new();
    let mut i: usize = 0;
    proof {
        reveal_strlit("db");
    }
    assert(lv.take(0) =~= Seq::<Seq<char>>::empty());
    while i < ls.len()
        invariant
            views(ls@) == lv,
            lv == lines_of(keyspace@),
            i <= ls@.len(),
            r@ == keyspace_dbs(lv.take(i as int)),
        decreases ls@.len() - i,
    {
        let line = ls[i].as_str();
        assert(line@ == lv[i as int]);
        assert(lv.take(i + 1).drop_last() =~= lv.take(i as int));
        if starts_with(line, "db") {
            let v = chars_of(line);
            let colon = find_char_from(&v, 0, ':');
            assert(v@.subrange(0, v@.len() as int) =~= v@);
            proof {
                reveal_strlit("db");
                lemma_index_of(v@, ':');
                assert(v@.len() >= 2);
                assert(v@[0] == 'd' && v@[1] == 'b') by {
                    assert(v@.take(2) == "db"@);
                    assert(v@.take(2)[0] == v@[0]);
                    assert(v@.take(2)[1] == v@[1]);
                }
            }
            let lo: usize = if colon >= 2 {
                2
            } else {
                colon
            };
            let num = string_of_range(&v, lo, colon);
            assert(num@ =~= v@.take(index_of(v@, ':')).skip(2));
            match parse_usize(num.as_str()) {
                Some(n) => r.push(n),
                None => {},
            }
        }
        i = i + 1;
    }
    assert(lv.take(ls@.len() as int) =~= lv);
    r
}

/// How a key's value is fetched, by the type name that `TYPE` reports.
#[derive(Debug, PartialEq, Eq, Structural, Clone, Copy)]
pub enum ValueKind {
    Text,
    Hash,
    List,
    Members,
    SortedSet,
    Unsupported,
}

/// The kind of value that a `TYPE` reply names.
pub open spec fn kind_of(reported: Seq<char>) -> ValueKind {
    if reported == "string"@ {
        ValueKind::Text
    } else if reported == "hash"@ {
        ValueKind::Hash
    } else if reported == "list"@ {
        ValueKind::List
    } else if reported == "set"@ {
        ValueKind::Members
    } else if reported == "zset"@ {
        ValueKind::SortedSet
    } else {
        ValueKind::Unsupported
    }
}

fn same_text(a: &str, b: &str) -> (r: bool)
    ensures
        r == (a@ == b@),
{
    let va = chars_of(a);
    let vb = chars_of(b);
    if va.len() != vb.len() {
        return false;
    }
    let mut i: usize = 0;
    while i < va.len()
        invariant
            va@ == a@,
            vb@ == b@,
            va@.len() == vb@.len(),
            i <= va@.len(),
            forall|j: int| 0 <= j < i ==> va@[j] == vb@[j],
        decreases va@.len() - i,
    {
        if va[i] != vb[i] {
            return false;
        }
        i = i + 1;
    }
    assert(va@ =~= vb@);
    true
}

/// Classifies the reply of `TYPE`.
pub fn classify_type(reported: &str) -> (k: ValueKind)
    ensures
        k == kind_of(reported@),
{
    if same_text(reported, "string") {
        ValueKind::Text
    } else if same_text(reported, "hash") {
        ValueKind::Hash
    } else if same_text(reported, "list") {
        ValueKind::List
    } else if same_text(reported, "set") {
        ValueKind::Members
    } else if same_text(reported, "zset") {
        ValueKind::SortedSet
    } else {
        ValueKind::Unsupported
    }
}

} // verus!
