//! Reading the queues of a RabbitMQ broker through its management API.
use vstd::prelude::*;
use crate::collectors::state::AppState;
use crate::text::{
    chars_of, concat, decimal, decimal_string, find_char_from, has_prefix, index_of, starts_with,
    string_of_range,
};

verus! {

/// Host used when the address is not an `amqp://` URL.
pub open spec fn fallback_host() -> Seq<char> {
    "127.0.0.1"@
}

/// The management host: after `amqp://`, everything up to the first `:`.
pub open spec fn mgmt_host(uri: Seq<char>) -> Seq<char> {
    if has_prefix(uri, "amqp://"@) {
        let rest = uri.skip(7);
        rest.take(index_of(rest, ':'))
    } else {
        fallback_host()
    }
}

/// The management API's base address for an AMQP address.
pub open spec fn mgmt_url(uri: Seq<char>) -> Seq<char> {
    "http://"@ + mgmt_host(uri) + ":15672"@
}

/// The base address of the management API of the broker at `amqp_uri`.
pub fn mgmt_base_url(amqp_uri: &str) -> (r: String)
    ensures
        r@ == mgmt_url(amqp_uri@),
{
    proof {
        reveal_strlit("amqp://");
    }
    let host = if starts_with(amqp_uri, "amqp://") {
        let v = chars_of(amqp_uri);
        let end = find_char_from(&v, 7, ':');
        let h = string_of_range(&v, 7, end);
        assert(v@.subrange(7, v@.len() as int) =~= amqp_uri@.skip(7));
        assert(h@ =~= amqp_uri@.skip(7).take(index_of(amqp_uri@.skip(7), ':')));
        h
    } else {
        String::from_str("127.0.0.1")
    };
    let head = concat("http://", host.as_str());
    concat(head.as_str(), ":15672")
}

/// The line shown beside a queue: its message count and ` msgs`.
pub open spec fn count_label(n: nat) -> Seq<char> {
    decimal(n) + " msgs"@
}

/// The queue list shown: each name with its message count label.
pub open spec fn queue_rows_of(queues: Seq<(String, u64)>) -> Seq<(Seq<char>, Seq<char>)> {
    queues.map_values(|q: (String, u64)| (q.0@, count_label(q.1 as nat)))
}

/// The names of the queues, as a set.
pub open spec fn queue_names(queues: Seq<(String, u64)>) -> Set<Seq<char>> {
    Set::new(|k: Seq<char>| exists|i: int| 0 <= i < queues.len() && #[trigger] queues[i].0@ == k)
}

/// The views of a list of rows.
pub open spec fn row_views(rows: Seq<(String, String)>) -> Seq<(Seq<char>, Seq<char>)> {
    rows.map_values(|r: (String, String)| (r.0@, r.1@))
}

impl AppState {
    /// Records the broker's queues (name and message count); the messages of
    /// queues that no longer exist are forgotten.
    pub fn set_rabbitmq_queues(&mut self, queues: &Vec<(String, u64)>)
        ensures
            row_views(final(self).rabbitmq_queues@) == queue_rows_of(queues@),
            final(self).rabbitmq_messages@ == old(self).rabbitmq_messages@.restrict(
                queue_names(queues@),
            ),
            *final(self) == (AppState {
                rabbitmq_queues: final(self).rabbitmq_queues,
                rabbitmq_messages: final(self).rabbitmq_messages,
                ..*old(self)
            }),
    {
        let mut rows: Vec<(String, String)> = Vec::new();
        let mut names: Vec<String> = Vec::new();
        let mut i: usize = 0;
        while i < queues.len()
            invariant
                i <= queues@.len(),
                row_views(rows@) == queue_rows_of(queues@.take(i as int)),
                names@.len() == i,
                forall|j: int| 0 <= j < i ==> #[trigger] names@[j]@ == queues@[j].0@,
            decreases queues@.len() - i,
        {
            let n = decimal_string(queues[i].1);
            let label = concat(n.as_str(), " msgs");
            let row = (queues[i].0.clone(), label);
            assert(row.0@ == queues@[i as int].0@);
            assert(row_views(rows@.push(row)) =~= row_views(rows@).push((row.0@, row.1@)));
            assert(queue_rows_of(queues@.take(i + 1)) =~= queue_rows_of(queues@.take(i as int)).push(
                (queues@[i as int].0@, count_label(queues@[i as int].1 as nat)),
            ));
            rows.push(row);
            names.push(queues[i].0.clone());
            i = i + 1;
        }
        assert(queues@.take(queues@.len() as int) =~= queues@);
        self.rabbitmq_queues = rows;
        let ghost before = self.rabbitmq_messages@;
        self.rabbitmq_messages.retain_keys(&names);
        proof {
            let kept = Set::new(
                |key: Seq<char>| exists|a: int| 0 <= a < names@.len() && #[trigger] names@[a]@ == key,
            );
            assert(kept =~= queue_names(queues@)) by {
                assert forall|k: Seq<char>| kept.contains(k) implies queue_names(queues@).contains(
                    k,
                ) by {
                    let a = choose|a: int| 0 <= a < names@.len() && #[trigger] names@[a]@ == k;
                    assert(queues@[a].0@ == k);
                }
                assert forall|k: Seq<char>| queue_names(queues@).contains(k) implies kept.contains(
                    k,
                ) by {
                    let a = choose|a: int| 0 <= a < queues@.len() && #[trigger] queues@[a].0@ == k;
                    assert(names@[a]@ == k);
                }
            }
        }
    }
}

} // verus!
