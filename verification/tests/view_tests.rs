use vigil::collectors::state::AppState;
use vigil::config::{AppConfig, CliArgs, Config};
use vigil::tui::app::{App, ViewMode};
use vigil::tui::highlight::{highlight_json_line, Segment};
use vigil::tui::views::{
    dashboard_panels, kafka_panels, mongo_lists, mongo_panels, rabbitmq_panels, redis_panels,
    redis_streams_panels, status_text, CountLevel,
};

fn app() -> App {
    let cli = CliArgs {
        redis: None,
        mongodb: None,
        kafka: None,
        rabbitmq: None,
        influxdb: None,
        influxdb_token: None,
        trace_id: None,
    };
    App::new(Config::resolve(cli, AppConfig::default()))
}

fn strings(v: &[&str]) -> Vec<String> {
    v.iter().map(|s| s.to_string()).collect()
}

fn plain(s: &str) -> Segment {
    Segment::Plain(s.to_string())
}

#[test]
fn status_bar_text() {
    let mut a = app();
    assert_eq!(status_text(&a), " [Mode: Dashboard] [Press '?' for Help] [Press 'q' to Quit] ");
    a.mode = ViewMode::RabbitMQViewer;
    a.filter_mode = true;
    assert_eq!(
        status_text(&a),
        " [Mode: RabbitMQViewer] [Filter: ]  [Press '?' for Help] [Press 'q' to Quit] "
    );
    a.filter_mode = false;
    a.filter_input = "ab".to_string();
    assert_eq!(
        status_text(&a),
        " [Mode: RabbitMQViewer] [Filter: ab]  [Press '?' for Help] [Press 'q' to Quit] "
    );
}

#[test]
fn json_keys_values_and_words() {
    let segs = highlight_json_line("  \"name\": \"ann\", \"age\": 42, \"ok\": true, \"x\": null");
    assert_eq!(
        segs,
        vec![
            plain("  "),
            Segment::Key("\"name\"".to_string()),
            plain(""),
            plain(":"),
            plain(" "),
            Segment::Quoted("\"ann\"".to_string()),
            plain(""),
            plain(","),
            plain(" "),
            Segment::Key("\"age\"".to_string()),
            plain(""),
            plain(":"),
            Segment::Word { raw: " 42".to_string(), trimmed: "42".to_string() },
            plain(","),
            plain(" "),
            Segment::Key("\"ok\"".to_string()),
            plain(""),
            plain(":"),
            Segment::Boolean("true".to_string()),
            plain(","),
            plain(" "),
            Segment::Key("\"x\"".to_string()),
            plain(""),
            plain(":"),
            Segment::Null,
        ]
    );
}

#[test]
fn json_unclosed_quote_and_plain_lines() {
    assert_eq!(highlight_json_line("\"open"), vec![Segment::Quoted("\"open".to_string())]);
    assert_eq!(highlight_json_line("}"), vec![Segment::Word { raw: "}".to_string(), trimmed: "}".to_string() }]);
    assert_eq!(highlight_json_line(""), Vec::<Segment>::new());
    assert_eq!(highlight_json_line("  "), vec![plain("  ")]);
    assert_eq!(highlight_json_line("\"a\" :1"), vec![
        Segment::Quoted("\"a\"".to_string()),
        plain(" "),
        plain(":"),
        Segment::Word { raw: "1".to_string(), trimmed: "1".to_string() },
    ]);
}

#[test]
fn mongo_panels_with_placeholders() {
    let a = app();
    let d = AppState::default();
    let p = mongo_panels(&a, &d);
    assert_eq!(p.dbs, strings(&["Loading..."]));
    assert_eq!(p.cols, strings(&["None/Loading..."]));
    assert_eq!(p.docs, strings(&["No documents found"]));
}

#[test]
fn mongo_panels_with_data_and_filter() {
    let mut a = app();
    let mut d = AppState::default();
    d.mongo_dbs = strings(&["admin", "shop"]);
    d.mongo_collections.insert("shop".to_string(), strings(&["orders", "users"]));
    let long = format!("{{\"k\": \"{}\"}}", "x".repeat(200));
    d.mongo_docs.insert(
        ("shop".to_string(), "users".to_string()),
        vec!["{\n\"n\": 1\r\n}".to_string(), long.clone()],
    );
    a.states.mongo_explorer = [7, 1, 0];
    let p = mongo_panels(&a, &d);
    assert_eq!(p.dbs, strings(&["admin", "shop"]));
    assert_eq!(p.cols, strings(&["orders", "users"]));
    assert_eq!(p.docs[0], "{\"n\": 1}");
    assert_eq!(p.docs[1], format!("{}\u{2026}", &long[..120]));
    a.filter_input = "SH".to_string();
    let f = mongo_panels(&a, &d);
    assert_eq!(f.dbs, strings(&["shop"]));
    assert_eq!(f.cols, Vec::<String>::new());
    assert_eq!(f.docs, Vec::<String>::new());
}

#[test]
fn redis_panels_values() {
    let mut a = app();
    let mut d = AppState::default();
    let p = redis_panels(&a, &d);
    assert_eq!(p.db_rows, 16);
    assert_eq!(p.selected_db, 0);
    assert_eq!(p.value, "Select a key");
    d.redis_dbs = 4;
    d.redis_keys.insert(3, vec![("a".to_string(), "string".to_string()), ("b".to_string(), "hash".to_string())]);
    d.redis_vals.insert((3, "b".to_string()), "{x: 1}".to_string());
    a.states.redis_explorer = [10, 1, 0];
    let p = redis_panels(&a, &d);
    assert_eq!(p.db_rows, 4);
    assert_eq!(p.selected_db, 3);
    assert_eq!(p.keys.len(), 2);
    assert_eq!(p.value, "{x: 1}");
    a.states.redis_explorer = [3, 0, 0];
    assert_eq!(redis_panels(&a, &d).value, "Loading...");
    a.filter_input = "B".to_string();
    let f = redis_panels(&a, &d);
    assert_eq!(f.keys, vec![("b".to_string(), "hash".to_string())]);
    assert_eq!(f.value, "{x: 1}");
}

#[test]
fn list_viewers() {
    let mut a = app();
    let mut d = AppState::default();
    let s = redis_streams_panels(&a, &d);
    assert_eq!(s.items, strings(&["None/Loading..."]));
    assert!(s.entries.is_empty());
    d.kafka_topics = strings(&["orders", "audit"]);
    d.kafka_messages.insert("audit".to_string(), strings(&["m1", "m2"]));
    a.states.kafka_viewer = [1, 0];
    let k = kafka_panels(&a, &d);
    assert_eq!(k.items, strings(&["orders", "audit"]));
    assert_eq!(k.entries, strings(&["m1", "m2"]));
    a.states.kafka_viewer = [5, 0];
    assert!(kafka_panels(&a, &d).entries.is_empty());
    let r = rabbitmq_panels(&a, &d);
    assert_eq!(r.queues, vec![("None/Loading...".to_string(), String::new())]);
    d.rabbitmq_queues = vec![("jobs".to_string(), "2 msgs".to_string())];
    d.rabbitmq_messages.insert("jobs".to_string(), strings(&["j"]));
    a.states.rabbitmq_viewer = [3, 0];
    let r = rabbitmq_panels(&a, &d);
    assert_eq!(r.queues.len(), 1);
    assert!(r.messages.is_empty());
    a.states.rabbitmq_viewer = [0, 0];
    assert_eq!(rabbitmq_panels(&a, &d).messages, strings(&["j"]));
}

#[test]
fn dashboard_figures() {
    let mut a = app();
    let mut d = AppState::default();
    let p = dashboard_panels(&a, &d);
    assert_eq!(p.logs, "No logs yet. Logs will appear here...");
    assert_eq!(p.redis_keys, 0);
    assert_eq!(p.row_collapsed, [false, false, false]);
    d.redis_keys.insert(0, vec![("a".to_string(), "string".to_string())]);
    d.redis_keys.insert(1, vec![("b".to_string(), "string".to_string()), ("c".to_string(), "set".to_string())]);
    d.mongo_collections.insert("db".to_string(), strings(&["x", "y", "z"]));
    d.redis_streams = strings(&["events", "empty", "missing"]);
    d.redis_stream_entries.insert("events".to_string(), vec!["e1".to_string(), "y".repeat(80)]);
    d.redis_stream_entries.insert("empty".to_string(), Vec::new());
    d.logs = strings(&["one", "two"]);
    d.kafka_online = true;
    a.dashboard_collapsed = [true, true, true, false, true, false, true];
    let p = dashboard_panels(&a, &d);
    assert_eq!(p.row_collapsed, [true, false, true]);
    assert!(p.kafka_online);
    assert_eq!(p.redis_keys, 3);
    assert_eq!(p.mongo_collections, 3);
    assert_eq!(p.stream_count, 3);
    assert_eq!(p.stream_entries, 2);
    assert_eq!(p.streams[0].entries, 2);
    assert_eq!(p.streams[0].latest, format!("{}\u{2026}", "y".repeat(50)));
    assert_eq!(p.streams[0].level, CountLevel::Few);
    assert_eq!(p.streams[1].latest, "\u{2014}");
    assert_eq!(p.streams[1].level, CountLevel::Empty);
    assert_eq!(p.streams[2].entries, 0);
    assert_eq!(p.logs, "one\ntwo");
}

#[test]
fn enter_opens_the_document_the_panel_shows() {
    let mut a = app();
    let mut d = AppState::default();
    d.mongo_dbs = strings(&["admin", "shop"]);
    d.mongo_collections.insert("shop".to_string(), strings(&["orders"]));
    d.mongo_docs.insert(("shop".to_string(), "orders".to_string()), strings(&["{\"a\": 1}", "{\"b\": 2}"]));
    a.mode = ViewMode::MongoExplorer;
    a.active_panel = 2;
    a.states.mongo_explorer = [1, 0, 5];
    let shown = mongo_lists(&a, &d).docs;
    a.handle_key(vigil::tui::app::KeyInput { code: vigil::tui::app::KeyCode::Enter, shift: false }, &d);
    assert_eq!(a.expanded_doc.as_deref(), Some(shown[shown.len() - 1].as_str()));
}

fn app_with_trace(t: &str) -> App {
    let cli = CliArgs {
        redis: None,
        mongodb: None,
        kafka: None,
        rabbitmq: None,
        influxdb: None,
        influxdb_token: None,
        trace_id: Some(t.to_string()),
    };
    App::new(Config::resolve(cli, AppConfig::default()))
}

#[test]
fn trace_id_filters_the_logs() {
    let a = app_with_trace("abc");
    let mut d = AppState::default();
    d.logs = strings(&["start abc", "other", "abc end", "ab c"]);
    assert_eq!(dashboard_panels(&a, &d).logs, "start abc\nabc end");
    d.logs = strings(&["other"]);
    assert_eq!(dashboard_panels(&a, &d).logs, "");
    d.logs = Vec::new();
    assert_eq!(dashboard_panels(&a, &d).logs, "No logs yet. Logs will appear here...");
}

#[test]
fn collapsed_streams_panel_reads_no_entry() {
    let mut a = app();
    let mut d = AppState::default();
    d.redis_streams = strings(&["s"]);
    d.redis_stream_entries.insert("s".to_string(), vec![format!("a{}", "\u{e9}".repeat(40))]);
    a.dashboard_collapsed[5] = true;
    let p = dashboard_panels(&a, &d);
    assert!(p.streams.is_empty());
    assert_eq!(p.stream_count, 1);
    assert_eq!(p.stream_entries, 1);
}

fn shown(segs: &[Segment]) -> String {
    let mut out = String::new();
    for g in segs {
        match g {
            Segment::Plain(t) | Segment::Key(t) | Segment::Quoted(t) | Segment::Boolean(t) => out.push_str(t),
            Segment::Null => out.push_str("null"),
            Segment::Word { raw, .. } => out.push_str(raw),
        }
    }
    out
}

fn visible(s: &str) -> String {
    s.chars().filter(|c| !c.is_whitespace()).collect()
}

#[test]
fn highlighting_keeps_the_visible_text() {
    for line in [
        "  \"a\": true, \"b\" : null ,\"c\":[ 1, 2 ]",
        "{\"k\": \"v w\", \"n\": -3.5 }",
        "\"open",
        "",
        "   ",
    ] {
        assert_eq!(visible(&shown(&highlight_json_line(line))), visible(line));
    }
}

#[test]
fn quoted_text_with_separators_stays_one_segment() {
    assert_eq!(highlight_json_line("\"a:b,c\":\"d\""), vec![
        Segment::Key("\"a:b,c\"".to_string()),
        plain(""),
        plain(":"),
        Segment::Quoted("\"d\"".to_string()),
    ]);
}
