//! The data that the collectors gather and the views display.
use vstd::prelude::*;
use crate::table::Table;

verus! {

/// Everything known about the monitored services.
#[derive(Debug)]
pub struct AppState {
    // MongoDB
    pub mongo_online: bool,
    pub mongo_dbs: Vec<String>,
    pub mongo_collections: Table<String, Vec<String>>,
    pub mongo_docs: Table<(String, String), Vec<String>>,
    pub mongo_db_size: String,
    // Redis
    pub redis_online: bool,
    pub redis_dbs: usize,
    pub redis_keys: Table<usize, Vec<(String, String)>>,
    pub redis_vals: Table<(usize, String), String>,
    pub redis_mem: String,
    // Redis Streams
    pub redis_streams: Vec<String>,
    pub redis_stream_entries: Table<String, Vec<String>>,
    // Kafka
    pub kafka_online: bool,
    pub kafka_topics: Vec<String>,
    pub kafka_messages: Table<String, Vec<String>>,
    // RabbitMQ
    pub rabbitmq_online: bool,
    pub rabbitmq_queues: Vec<(String, String)>,
    pub rabbitmq_messages: Table<String, Vec<String>>,
    // InfluxDB
    pub influxdb_online: bool,
    pub influxdb_orgs: Vec<String>,
    pub influxdb_buckets: Vec<String>,
    // Logs
    pub logs: Vec<String>,
}

impl AppState {
    /// Nothing is online and nothing has been collected yet.
    pub open spec fn is_blank(&self) -> bool {
        &&& !self.mongo_online
        &&& self.mongo_dbs@.len() == 0
        &&& self.mongo_collections@ == Map::<Seq<char>, Vec<String>>::empty()
        &&& self.mongo_docs@ == Map::<(Seq<char>, Seq<char>), Vec<String>>::empty()
        &&& self.mongo_db_size@.len() == 0
        &&& !self.redis_online
        &&& self.redis_dbs == 0
        &&& self.redis_keys@ == Map::<usize, Vec<(String, String)>>::empty()
        &&& self.redis_vals@ == Map::<(usize, Seq<char>), String>::empty()
        &&& self.redis_mem@.len() == 0
        &&& self.redis_streams@.len() == 0
        &&& self.redis_stream_entries@ == Map::<Seq<char>, Vec<String>>::empty()
        &&& !self.kafka_online
        &&& self.kafka_topics@.len() == 0
        &&& self.kafka_messages@ == Map::<Seq<char>, Vec<String>>::empty()
        &&& !self.rabbitmq_online
        &&& self.rabbitmq_queues@.len() == 0
        &&& self.rabbitmq_messages@ == Map::<Seq<char>, Vec<String>>::empty()
        &&& !self.influxdb_online
        &&& self.influxdb_orgs@.len() == 0
        &&& self.influxdb_buckets@.len() == 0
        &&& self.logs@.len() == 0
    }
}

impl Default for AppState {
    fn default() -> (s: Self)
        ensures
            s.is_blank(),
    {
        AppState {
            mongo_online: false,
            mongo_dbs: Vec::new(),
            mongo_collections: Table::new(),
            mongo_docs: Table::new(),
            mongo_db_size: String::new(),
            redis_online: false,
            redis_dbs: 0,
            redis_keys: Table::new(),
            redis_vals: Table::new(),
            redis_mem: String::new(),
            redis_streams: Vec::new(),
            redis_stream_entries: Table::new(),
            kafka_online: false,
            kafka_topics: Vec::new(),
            kafka_messages: Table::new(),
            rabbitmq_online: false,
            rabbitmq_queues: Vec::new(),
            rabbitmq_messages: Table::new(),
            influxdb_online: false,
            influxdb_orgs: Vec::new(),
            influxdb_buckets: Vec::new(),
            logs: Vec::new(),
        }
    }
}

} // verus!
