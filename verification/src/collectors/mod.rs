//! What the collectors decide once a round of fetching is over: the online
//! flags and the error log.
use vstd::prelude::*;
use crate::text::{concat, has_prefix, starts_with, views};
use crate::collectors::state::AppState;

pub mod influxdb;
pub mod kafka;
pub mod mongodb;
pub mod rabbitmq;
pub mod redis;
pub mod state;

verus! {

/// The services that a collector watches.
#[derive(Debug, PartialEq, Eq, Structural, Clone, Copy)]
pub enum Service {
    MongoDb,
    Redis,
    Kafka,
    RabbitMq,
    InfluxDb,
}

/// The most entries the log keeps before it drops the oldest one.
pub const LOG_CAPACITY: usize = 100;

/// The name under which a service's errors are logged.
pub open spec fn service_label(s: Service) -> Seq<char> {
    match s {
        Service::MongoDb => "Mongo"@,
        Service::Redis => "Redis"@,
        Service::Kafka => "Kafka"@,
        Service::RabbitMq => "RabbitMQ"@,
        Service::InfluxDb => "InfluxDB"@,
    }
}

/// The log line recorded for a failed round: `"<label> Error: <detail>"`.
pub open spec fn error_line(s: Service, detail: Seq<char>) -> Seq<char> {
    service_label(s) + " Error: "@ + detail
}

/// The log after recording `msg`: a message equal to the last entry is not
/// repeated; otherwise, when the log holds more than `LOG_CAPACITY` entries,
/// the oldest is dropped before `msg` is appended.
pub open spec fn logged(logs: Seq<Seq<char>>, msg: Seq<char>) -> Seq<Seq<char>> {
    if logs.len() > 0 && logs.last() == msg {
        logs
    } else if logs.len() > LOG_CAPACITY {
        logs.drop_first().push(msg)
    } else {
        logs.push(msg)
    }
}

/// Whether the service is marked online in `st`.
pub open spec fn is_online(st: &AppState, s: Service) -> bool {
    match s {
        Service::MongoDb => st.mongo_online,
        Service::Redis => st.redis_online,
        Service::Kafka => st.kafka_online,
        Service::RabbitMq => st.rabbitmq_online,
        Service::InfluxDb => st.influxdb_online,
    }
}

/// `a` and `b` agree on everything but the online flags and the log.
pub open spec fn same_data(a: &AppState, b: &AppState) -> bool {
    &&& a.mongo_dbs == b.mongo_dbs
    &&& a.mongo_collections == b.mongo_collections
    &&& a.mongo_docs == b.mongo_docs
    &&& a.mongo_db_size == b.mongo_db_size
    &&& a.redis_dbs == b.redis_dbs
    &&& a.redis_keys == b.redis_keys
    &&& a.redis_vals == b.redis_vals
    &&& a.redis_mem == b.redis_mem
    &&& a.redis_streams == b.redis_streams
    &&& a.redis_stream_entries == b.redis_stream_entries
    &&& a.kafka_topics == b.kafka_topics
    &&& a.kafka_messages == b.kafka_messages
    &&& a.rabbitmq_queues == b.rabbitmq_queues
    &&& a.rabbitmq_messages == b.rabbitmq_messages
    &&& a.influxdb_orgs == b.influxdb_orgs
    &&& a.influxdb_buckets == b.influxdb_buckets
}

/// The flags of the services other than `s` are the same in `a` and `b`.
pub open spec fn other_flags_kept(a: &AppState, b: &AppState, s: Service) -> bool {
    forall|t: Service| t != s ==> is_online(a, t) == is_online(b, t)
}

/// Appends `msg` to the log as `logged` describes.
pub fn push_log(logs: &mut Vec<String>, msg: String)
    ensures
        crate::text::views(final(logs)@) == logged(crate::text::views(old(logs)@), msg@),
{
    let n = logs.len();
    let ghost before = crate::text::views(logs@);
    if n > 0 && logs[n - 1] == msg {
        return;
    }
    if n > LOG_CAPACITY {
        logs.remove(0);
        assert(crate::text::views(logs@) =~= before.drop_first());
    }
    logs.push(msg);
    assert(crate::text::views(logs@) =~= logged(before, msg@));
}

fn service_label_string(s: Service) -> (r: String)
    ensures
        r@ == service_label(s),
{
    match s {
        Service::MongoDb => String::from_str("Mongo"),
        Service::Redis => String::from_str("Redis"),
        Service::Kafka => String::from_str("Kafka"),
        Service::RabbitMq => String::from_str("RabbitMQ"),
        Service::InfluxDb => String::from_str("InfluxDB"),
    }
}

fn set_online(st: &mut AppState, s: Service, on: bool)
    ensures
        is_online(final(st), s) == on,
        other_flags_kept(old(st), final(st), s),
        same_data(old(st), final(st)),
        final(st).logs == old(st).logs,
{
    match s {
        Service::MongoDb => st.mongo_online = on,
        Service::Redis => st.redis_online = on,
        Service::Kafka => st.kafka_online = on,
        Service::RabbitMq => st.rabbitmq_online = on,
        Service::InfluxDb => st.influxdb_online = on,
    }
}

impl AppState {
    /// A round of fetching from `s` succeeded: the service is online.
    pub fn record_success(&mut self, s: Service)
        ensures
            is_online(final(self), s),
            other_flags_kept(old(self), final(self), s),
            same_data(old(self), final(self)),
            final(self).logs == old(self).logs,
    {
        set_online(self, s, true);
    }

    /// A round of fetching from `s` failed with the message `detail`: the
    /// service is offline and the failure is logged.
    pub fn record_failure(&mut self, s: Service, detail: &str)
        ensures
            !is_online(final(self), s),
            other_flags_kept(old(self), final(self), s),
            same_data(old(self), final(self)),
            crate::text::views(final(self).logs@) == logged(
                crate::text::views(old(self).logs@),
                error_line(s, detail@),
            ),
    {
        set_online(self, s, false);
        let label = service_label_string(s);
        let head = concat(label.as_str(), " Error: ");
        let msg = concat(head.as_str(), detail);
        push_log(&mut self.logs, msg);
    }
}

/// The names that do not begin with `p`, in their order.
pub open spec fn unprefixed(names: Seq<Seq<char>>, p: Seq<char>) -> Seq<Seq<char>>
    decreases names.len(),
{
    if names.len() == 0 {
        seq![]
    } else if has_prefix(names.last(), p) {
        unprefixed(names.drop_last(), p)
    } else {
        unprefixed(names.drop_last(), p).push(names.last())
    }
}

/// Keeps the names that do not begin with `p` (how internal topics and
/// buckets are left out).
pub fn without_prefixed(names: &Vec<String>, p: &str) -> (r: Vec<String>)
    ensures
        views(r@) == unprefixed(views(names@), p@),
{
    let ghost nv = views(names@);
    let mut r: Vec<String> = Vec::new();
    let mut i: usize = 0;
    assert(nv.take(0) =~= Seq::<Seq<char>>::empty());
    while i < names.len()
        invariant
            nv == views(names@),
            i <= names@.len(),
            views(r@) == unprefixed(nv.take(i as int), p@),
        decreases names@.len() - i,
    {
        assert(nv.take(i + 1).drop_last() =~= nv.take(i as int));
        assert(nv[i as int] == names@[i as int]@);
        if !starts_with(names[i].as_str(), p) {
            let n = names[i].clone();
            assert(views(r@.push(n)) =~= views(r@).push(n@));
            r.push(n);
        }
        i = i + 1;
    }
    assert(nv.take(names@.len() as int) =~= nv);
    r
}

/// The first `n` names (all of them when there are fewer).
pub fn first_names(names: &Vec<String>, n: usize) -> (r: Vec<String>)
    ensures
        views(r@) == views(names@).take(if n < names@.len() { n as int } else { names@.len() as int }),
{
    let stop = if n < names.len() {
        n
    } else {
        names.len()
    };
    let mut r: Vec<String> = Vec::new();
    let mut i: usize = 0;
    while i < stop
        invariant
            stop <= names@.len(),
            i <= stop,
            views(r@) == views(names@).take(i as int),
        decreases stop - i,
    {
        let x = names[i].clone();
        assert(x@ == names@[i as int]@);
        assert(views(r@.push(x)) =~= views(r@).push(x@));
        assert(views(names@).take(i + 1) =~= views(names@).take(i as int).push(names@[i as int]@));
        r.push(x);
        i = i + 1;
    }
    r
}

/// The log never grows past `LOG_CAPACITY + 1` entries.
pub proof fn law_log_bounded(logs: Seq<Seq<char>>, msg: Seq<char>)
    requires
        logs.len() <= LOG_CAPACITY + 1,
    ensures
        logged(logs, msg).len() <= LOG_CAPACITY + 1,
{
}

/// After recording a message, it is the last entry of the log.
pub proof fn law_log_ends_with_message(logs: Seq<Seq<char>>, msg: Seq<char>)
    ensures
        logged(logs, msg).len() > 0,
        logged(logs, msg).last() == msg,
{
}

/// Recording the same message again changes nothing: repeated failures are
/// logged once.
pub proof fn law_log_no_repeat(logs: Seq<Seq<char>>, msg: Seq<char>)
    ensures
        logged(logged(logs, msg), msg) == logged(logs, msg),
{
}

/// Recording keeps the older entries in order, dropping only the oldest one
/// when the log is over capacity.
pub proof fn law_log_keeps_history(logs: Seq<Seq<char>>, msg: Seq<char>)
    ensures
        logs.len() <= LOG_CAPACITY && (logs.len() == 0 || logs.last() != msg) ==> logged(
            logs,
            msg,
        ) == logs.push(msg),
        logs.len() > LOG_CAPACITY && logs.last() != msg ==> logged(logs, msg) == logs.drop_first().push(
            msg,
        ),
{
}

} // verus!
