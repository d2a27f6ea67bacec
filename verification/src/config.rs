//! Where each service is reached: command-line options first, then the
//! configuration file, then the local default address.
use vstd::prelude::*;
use crate::text::{chars_of, concat, is_digit};

verus! {

/// Settings read from `config.toml`.
#[derive(Debug, Clone)]
pub struct AppConfig {
    pub redis: Option<String>,
    pub mongodb: Option<String>,
    pub kafka: Option<String>,
    pub rabbitmq: Option<String>,
    pub influxdb: Option<String>,
    pub influxdb_token: Option<String>,
}

impl Default for AppConfig {
    fn default() -> (c: Self)
        ensures
            c.redis is None && c.mongodb is None && c.kafka is None && c.rabbitmq is None
                && c.influxdb is None && c.influxdb_token is None,
    {
        AppConfig {
            redis: None,
            mongodb: None,
            kafka: None,
            rabbitmq: None,
            influxdb: None,
            influxdb_token: None,
        }
    }
}

/// Settings given on the command line.
#[derive(Debug, Clone)]
pub struct CliArgs {
    /// Redis connection URL or port
    pub redis: Option<String>,
    /// MongoDB connection URL
    pub mongodb: Option<String>,
    /// Kafka brokers (comma separated)
    pub kafka: Option<String>,
    /// RabbitMQ connection URL
    pub rabbitmq: Option<String>,
    /// InfluxDB base URL
    pub influxdb: Option<String>,
    /// InfluxDB API token
    pub influxdb_token: Option<String>,
    /// Set a trace ID to filter logs or Gantt view
    pub trace_id: Option<String>,
}

/// The settings in effect.
#[derive(Debug, Clone)]
pub struct Config {
    pub redis: String,
    pub mongodb: String,
    pub kafka: String,
    pub rabbitmq: String,
    pub influxdb: String,
    pub influxdb_token: Option<String>,
    pub trace_id: Option<String>,
}

/// The first setting that is given: the command line's, then the file's,
/// else the default.
pub open spec fn chosen(cli: Option<String>, file: Option<String>, default: Seq<char>) -> Seq<char> {
    match cli {
        Some(s) => s@,
        None => match file {
            Some(s) => s@,
            None => default,
        },
    }
}

/// The command line's setting if given, else the file's.
pub open spec fn chosen_opt(cli: Option<String>, file: Option<String>) -> Option<String> {
    match cli {
        Some(s) => Some(s),
        None => file,
    }
}

pub open spec fn default_redis() -> Seq<char> {
    "redis://127.0.0.1:6379"@
}

/// A Redis setting given as a bare port (digits only) stands for that port
/// on the local host; any other setting is an address as it is.
pub open spec fn redis_address(s: Seq<char>) -> Seq<char> {
    if s.len() > 0 && (forall|i: int| 0 <= i < s.len() ==> is_digit(#[trigger] s[i])) {
        "redis://127.0.0.1:"@ + s
    } else {
        s
    }
}

/// The Redis address for a setting that may be a bare port.
pub fn redis_address_of(setting: String) -> (r: String)
    ensures
        r@ == redis_address(setting@),
{
    let v = chars_of(setting.as_str());
    if v.len() == 0 {
        return setting;
    }
    let mut i: usize = 0;
    while i < v.len()
        invariant
            v@ == setting@,
            i <= v@.len(),
            forall|j: int| 0 <= j < i ==> is_digit(#[trigger] v@[j]),
        decreases v@.len() - i,
    {
        if !('0' <= v[i] && v[i] <= '9') {
            assert(!is_digit(setting@[i as int]));
            return setting;
        }
        i = i + 1;
    }
    concat("redis://127.0.0.1:", setting.as_str())
}

pub open spec fn default_mongodb() -> Seq<char> {
    "mongodb://127.0.0.1:27017"@
}

pub open spec fn default_kafka() -> Seq<char> {
    "127.0.0.1:9092"@
}

pub open spec fn default_rabbitmq() -> Seq<char> {
    "amqp://127.0.0.1:5672/%2f"@
}

pub open spec fn default_influxdb() -> Seq<char> {
    "http://127.0.0.1:8086"@
}

fn choose_setting(cli: Option<String>, file: Option<String>, default: &str) -> (r: String)
    ensures
        r@ == chosen(cli, file, default@),
{
    match cli {
        Some(s) => s,
        None => match file {
            Some(s) => s,
            None => String::from_str(default),
        },
    }
}

impl Config {
    /// Combines the command line and the configuration file.
    pub fn resolve(cli: CliArgs, file: AppConfig) -> (c: Config)
        ensures
            c.redis@ == redis_address(chosen(cli.redis, file.redis, default_redis())),
            c.mongodb@ == chosen(cli.mongodb, file.mongodb, default_mongodb()),
            c.kafka@ == chosen(cli.kafka, file.kafka, default_kafka()),
            c.rabbitmq@ == chosen(cli.rabbitmq, file.rabbitmq, default_rabbitmq()),
            c.influxdb@ == chosen(cli.influxdb, file.influxdb, default_influxdb()),
            c.influxdb_token == chosen_opt(cli.influxdb_token, file.influxdb_token),
            c.trace_id == cli.trace_id,
    {
        let token = match cli.influxdb_token {
            Some(t) => Some(t),
            None => file.influxdb_token,
        };
        Config {
            redis: redis_address_of(choose_setting(cli.redis, file.redis, "redis://127.0.0.1:6379")),
            mongodb: choose_setting(cli.mongodb, file.mongodb, "mongodb://127.0.0.1:27017"),
            kafka: choose_setting(cli.kafka, file.kafka, "127.0.0.1:9092"),
            rabbitmq: choose_setting(cli.rabbitmq, file.rabbitmq, "amqp://127.0.0.1:5672/%2f"),
            influxdb: choose_setting(cli.influxdb, file.influxdb, "http://127.0.0.1:8086"),
            influxdb_token: token,
            trace_id: cli.trace_id,
        }
    }
}

/// A setting given on the command line wins over the file, and the file
/// wins over the default.
pub proof fn law_setting_precedence(cli: Option<String>, file: Option<String>, d: Seq<char>)
    ensures
        cli matches Some(c) ==> chosen(cli, file, d) == c@,
        cli is None && file is Some ==> chosen(cli, file, d) == file->0@,
        cli is None && file is None ==> chosen(cli, file, d) == d,
{
}

/// `--redis 6380` means port 6380 on the local host; an address (such as the
/// default) is kept as it is.
pub proof fn law_redis_port(setting: Seq<char>)
    ensures
        setting.len() > 0 && (forall|i: int| 0 <= i < setting.len() ==> is_digit(#[trigger] setting[i]))
            ==> redis_address(setting) == "redis://127.0.0.1:"@ + setting,
        redis_address(default_redis()) == default_redis(),
{
    reveal_strlit("redis://127.0.0.1:6379");
    assert(!is_digit(default_redis()[0]));
}

} // verus!
