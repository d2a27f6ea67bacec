//! What each panel shows, computed from the interface state and the
//! collected data; drawing it on the terminal is left to the caller.
use vstd::prelude::*;
use crate::collectors::state::AppState;
use crate::table::{lemma_entries_total, map_total, total_items, Table, TableKey};
use crate::text::{
    can_shorten, concat, contains_text, has_substring, string_push, matches_filter, remove_line_breaks, shorten, shortened,
    views, without_line_breaks,
};
use crate::tui::app::{clamp_row, opt_view, picked_name, selected_doc, App, ViewMode};
pub use crate::text::item_matches;

verus! {

// ---------------------------------------------------------------------------
// Status bar
// ---------------------------------------------------------------------------
/// The name under which the status bar shows a view.
pub open spec fn mode_name(m: ViewMode) -> Seq<char> {
    match m {
        ViewMode::Dashboard => "Dashboard"@,
        ViewMode::Topology => "Topology"@,
        ViewMode::Gantt => "Gantt"@,
        ViewMode::RedisExplorer => "RedisExplorer"@,
        ViewMode::RedisStreams => "RedisStreams"@,
        ViewMode::MongoExplorer => "MongoExplorer"@,
        ViewMode::KafkaViewer => "KafkaViewer"@,
        ViewMode::RabbitMQViewer => "RabbitMQViewer"@,
    }
}

fn mode_name_string(m: ViewMode) -> (r: String)
    ensures
        r@ == mode_name(m),
{
    match m {
        ViewMode::Dashboard => String::from_str("Dashboard"),
        ViewMode::Topology => String::from_str("Topology"),
        ViewMode::Gantt => String::from_str("Gantt"),
        ViewMode::RedisExplorer => String::from_str("RedisExplorer"),
        ViewMode::RedisStreams => String::from_str("RedisStreams"),
        ViewMode::MongoExplorer => String::from_str("MongoExplorer"),
        ViewMode::KafkaViewer => String::from_str("KafkaViewer"),
        ViewMode::RabbitMQViewer => String::from_str("RabbitMQViewer"),
    }
}

/// The status bar: the view's name, the filter while it is edited or not
/// empty, and the two key hints.
pub open spec fn status_line(m: ViewMode, filter_mode: bool, filter: Seq<char>) -> Seq<char> {
    let filter_part = if filter_mode || filter.len() > 0 {
        " [Filter: "@ + filter + "] "@
    } else {
        Seq::empty()
    };
    " [Mode: "@ + mode_name(m) + "]"@ + filter_part + " [Press '?' for Help] [Press 'q' to Quit] "@
}

/// The text of the status bar.
pub fn status_text(app: &App) -> (r: String)
    ensures
        r@ == status_line(app.mode, app.filter_mode, app.filter_input@),
{
    let name = mode_name_string(app.mode);
    let a = concat(" [Mode: ", name.as_str());
    let mut s = concat(a.as_str(), "]");
    if app.filter_mode || !app.filter_input.as_str().is_empty() {
        let f1 = concat(" [Filter: ", app.filter_input.as_str());
        let f2 = concat(f1.as_str(), "] ");
        s = concat(s.as_str(), f2.as_str());
    } else {
        assert(s@ + Seq::<char>::empty() =~= s@);
    }
    concat(s.as_str(), " [Press '?' for Help] [Press 'q' to Quit] ")
}

// ---------------------------------------------------------------------------
// Lists
// ---------------------------------------------------------------------------
/// The items that pass the filter, in order.
pub open spec fn filter_views(items: Seq<Seq<char>>, f: Seq<char>) -> Seq<Seq<char>>
    decreases items.len(),
{
    if items.len() == 0 {
        seq![]
    } else if matches_filter(items.last(), f) {
        filter_views(items.drop_last(), f).push(items.last())
    } else {
        filter_views(items.drop_last(), f)
    }
}

/// The items that pass the filter.
pub fn filter_names(items: &Vec<String>, f: &str) -> (r: Vec<String>)
    ensures
        views(r@) == filter_views(views(items@), f@),
{
    let ghost iv = views(items@);
    let mut r: Vec<String> = Vec::new();
    let mut i: usize = 0;
    assert(iv.take(0) =~= Seq::<Seq<char>>::empty());
    while i < items.len()
        invariant
            iv == views(items@),
            i <= items@.len(),
            views(r@) == filter_views(iv.take(i as int), f@),
        decreases items@.len() - i,
    {
        assert(iv.take(i + 1).drop_last() =~= iv.take(i as int));
        assert(iv[i as int] == items@[i as int]@);
        if item_matches(items[i].as_str(), f) {
            let x = items[i].clone();
            assert(x@ == items@[i as int]@);
            assert(views(r@.push(x)) =~= views(r@).push(x@));
            r.push(x);
        }
        i = i + 1;
    }
    assert(iv.take(items@.len() as int) =~= iv);
    r
}

/// The views of a list of pairs of strings.
pub open spec fn pair_views(v: Seq<(String, String)>) -> Seq<(Seq<char>, Seq<char>)> {
    v.map_values(|p: (String, String)| (p.0@, p.1@))
}

/// The pairs whose first part passes the filter, in order.
pub open spec fn filter_pairs(items: Seq<(Seq<char>, Seq<char>)>, f: Seq<char>) -> Seq<
    (Seq<char>, Seq<char>),
>
    decreases items.len(),
{
    if items.len() == 0 {
        seq![]
    } else if matches_filter(items.last().0, f) {
        filter_pairs(items.drop_last(), f).push(items.last())
    } else {
        filter_pairs(items.drop_last(), f)
    }
}

fn filter_key_pairs(items: &Vec<(String, String)>, f: &str) -> (r: Vec<(String, String)>)
    ensures
        pair_views(r@) == filter_pairs(pair_views(items@), f@),
{
    let ghost iv = pair_views(items@);
    let mut r: Vec<(String, String)> = Vec::new();
    let mut i: usize = 0;
    assert(iv.take(0) =~= Seq::<(Seq<char>, Seq<char>)>::empty());
    while i < items.len()
        invariant
            iv == pair_views(items@),
            i <= items@.len(),
            pair_views(r@) == filter_pairs(iv.take(i as int), f@),
        decreases items@.len() - i,
    {
        assert(iv.take(i + 1).drop_last() =~= iv.take(i as int));
        assert(iv[i as int] == (items@[i as int].0@, items@[i as int].1@));
        if item_matches(items[i].0.as_str(), f) {
            let x = (items[i].0.clone(), items[i].1.clone());
            assert(x.0@ == items@[i as int].0@ && x.1@ == items@[i as int].1@);
            assert(pair_views(r@.push(x)) =~= pair_views(r@).push((x.0@, x.1@)));
            r.push(x);
        }
        i = i + 1;
    }
    assert(iv.take(items@.len() as int) =~= iv);
    r
}

/// A list shown in a panel: a placeholder line stands in for an empty list
/// when no filter is active.
pub open spec fn with_placeholder(l: Seq<Seq<char>>, f: Seq<char>, ph: Seq<char>) -> Seq<Seq<char>> {
    if l.len() == 0 && f.len() == 0 {
        seq![ph]
    } else {
        l
    }
}

/// The entry at the picked row of a shown list, or the empty name.
pub open spec fn picked(l: Seq<Seq<char>>, sel: usize) -> Seq<char> {
    if l.len() > 0 {
        l[clamp_row(sel, l.len())]
    } else {
        Seq::empty()
    }
}

/// The entry at row `sel` of a shown list, or the empty name past its end.
pub open spec fn at_row(l: Seq<Seq<char>>, sel: usize) -> Seq<char> {
    if sel < l.len() {
        l[sel as int]
    } else {
        Seq::empty()
    }
}

/// The names stored under `k` in a table, or none.
pub open spec fn names_under<K: TableKey>(m: Map<K::V, Vec<String>>, k: K::V) -> Seq<Seq<char>> {
    if m.contains_key(k) {
        views(m[k]@)
    } else {
        seq![]
    }
}

fn clone_names(v: &Vec<String>) -> (r: Vec<String>)
    ensures
        views(r@) == views(v@),
{
    let mut r: Vec<String> = Vec::new();
    let mut i: usize = 0;
    while i < v.len()
        invariant
            i <= v@.len(),
            views(r@) == views(v@).take(i as int),
        decreases v@.len() - i,
    {
        let x = v[i].clone();
        assert(x@ == v@[i as int]@);
        assert(views(r@.push(x)) =~= views(r@).push(x@));
        assert(views(v@).take(i + 1) =~= views(v@).take(i as int).push(v@[i as int]@));
        r.push(x);
        i = i + 1;
    }
    assert(views(v@).take(v@.len() as int) =~= views(v@));
    r
}

fn names_in<K: TableKey>(t: &Table<K, Vec<String>>, k: &K) -> (r: Vec<String>)
    ensures
        views(r@) == names_under::<K>(t@, k@),
{
    match t.get(k) {
        Some(v) => clone_names(v),
        None => Vec::new(),
    }
}

fn picked_row(l: &Vec<String>, sel: usize) -> (r: String)
    ensures
        r@ == picked(views(l@), sel),
{
    if l.len() > 0 {
        let i = if sel < l.len() {
            sel
        } else {
            l.len() - 1
        };
        l[i].clone()
    } else {
        String::new()
    }
}

fn placeholder_if_empty(l: &mut Vec<String>, filter: &str, ph: &str)
    ensures
        views(final(l)@) == with_placeholder(views(old(l)@), filter@, ph@),
{
    if l.len() == 0 && filter.is_empty() {
        l.push(String::from_str(ph));
        assert(views(l@) =~= seq![ph@]);
    }
}

// ---------------------------------------------------------------------------
// MongoDB explorer
// ---------------------------------------------------------------------------
/// Longest document preview, in bytes.
pub const DOC_PREVIEW_BYTES: usize = 120;

/// The databases listed.
pub open spec fn mongo_db_list(data: &AppState, f: Seq<char>) -> Seq<Seq<char>> {
    with_placeholder(filter_views(views(data.mongo_dbs@), f), f, "Loading..."@)
}

/// The collections listed, those of the picked database.
pub open spec fn mongo_col_list(data: &AppState, f: Seq<char>, sel: Seq<usize>) -> Seq<Seq<char>> {
    let db = picked(mongo_db_list(data, f), sel[0]);
    with_placeholder(
        filter_views(names_under::<String>(data.mongo_collections@, db), f),
        f,
        "None/Loading..."@,
    )
}

/// The documents listed, those of the picked collection.
pub open spec fn mongo_doc_list(data: &AppState, f: Seq<char>, sel: Seq<usize>) -> Seq<Seq<char>> {
    let db = picked(mongo_db_list(data, f), sel[0]);
    let col = picked(mongo_col_list(data, f, sel), sel[1]);
    with_placeholder(
        filter_views(names_under::<(String, String)>(data.mongo_docs@, (db, col)), f),
        f,
        "No documents found"@,
    )
}

/// The one-line preview of a document: without line breaks, shortened.
pub open spec fn doc_preview(d: Seq<char>) -> Seq<char> {
    shortened(without_line_breaks(d), DOC_PREVIEW_BYTES as nat)
}

/// Every listed document has a preview: its text without line breaks is
/// short or can be cut at the preview length.
pub open spec fn previews_defined(docs: Seq<Seq<char>>) -> bool {
    forall|i: int|
        0 <= i < docs.len() ==> can_shorten(
            without_line_breaks(#[trigger] docs[i]),
            DOC_PREVIEW_BYTES as nat,
        )
}

/// What the MongoDB explorer shows.
pub struct MongoPanels {
    pub dbs: Vec<String>,
    pub cols: Vec<String>,
    /// One preview line per listed document.
    pub docs: Vec<String>,
}

/// The three lists of the MongoDB explorer, documents in full.
pub fn mongo_lists(app: &App, data: &AppState) -> (r: MongoPanels)
    requires
        app.states.mongo_explorer@.len() == 3,
    ensures
        views(r.dbs@) == mongo_db_list(data, app.filter_input@),
        views(r.cols@) == mongo_col_list(data, app.filter_input@, app.states.mongo_explorer@),
        views(r.docs@) == mongo_doc_list(data, app.filter_input@, app.states.mongo_explorer@),
{
    let f = app.filter_input.as_str();
    let sel = app.states.mongo_explorer;
    let mut dbs = filter_names(&data.mongo_dbs, f);
    placeholder_if_empty(&mut dbs, f, "Loading...");
    let db_name = picked_row(&dbs, sel[0]);
    let col_names = names_in(&data.mongo_collections, &db_name);
    let mut cols = filter_names(&col_names, f);
    placeholder_if_empty(&mut cols, f, "None/Loading...");
    let col_name = picked_row(&cols, sel[1]);
    let key = (db_name, col_name);
    let doc_texts = names_in(&data.mongo_docs, &key);
    let mut docs = filter_names(&doc_texts, f);
    placeholder_if_empty(&mut docs, f, "No documents found");
    MongoPanels { dbs, cols, docs }
}

/// The panels of the MongoDB explorer, documents as one-line previews.
pub fn mongo_panels(app: &App, data: &AppState) -> (r: MongoPanels)
    requires
        app.states.mongo_explorer@.len() == 3,
        previews_defined(
            mongo_doc_list(data, app.filter_input@, app.states.mongo_explorer@),
        ),
    ensures
        views(r.dbs@) == mongo_db_list(data, app.filter_input@),
        views(r.cols@) == mongo_col_list(data, app.filter_input@, app.states.mongo_explorer@),
        views(r.docs@) == mongo_doc_list(data, app.filter_input@, app.states.mongo_explorer@).map_values(
            |d: Seq<char>| doc_preview(d),
        ),
{
    let lists = mongo_lists(app, data);
    let docs = lists.docs;
    let ghost listed = views(docs@);
    let mut previews: Vec<String> = Vec::new();
    let mut i: usize = 0;
    while i < docs.len()
        invariant
            listed == views(docs@),
            previews_defined(listed),
            i <= docs@.len(),
            views(previews@) == listed.take(i as int).map_values(|d: Seq<char>| doc_preview(d)),
        decreases docs@.len() - i,
    {
        assert(listed[i as int] == docs@[i as int]@);
        let compact = remove_line_breaks(docs[i].as_str());
        let p = shorten(compact.as_str(), DOC_PREVIEW_BYTES);
        assert(p@ == doc_preview(listed[i as int]));
        assert(views(previews@.push(p)) =~= views(previews@).push(p@));
        assert(listed.take(i + 1).map_values(|d: Seq<char>| doc_preview(d)) =~= listed.take(
            i as int,
        ).map_values(|d: Seq<char>| doc_preview(d)).push(doc_preview(listed[i as int])));
        previews.push(p);
        i = i + 1;
    }
    assert(listed.take(docs@.len() as int) =~= listed);
    MongoPanels { dbs: lists.dbs, cols: lists.cols, docs: previews }
}

// ---------------------------------------------------------------------------
// Redis explorer
// ---------------------------------------------------------------------------
/// Databases listed when the server has not reported how many it has.
pub const DEFAULT_DB_ROWS: usize = 16;

/// Number of databases listed.
pub open spec fn redis_db_rows(data: &AppState) -> usize {
    if data.redis_dbs > 0 {
        data.redis_dbs
    } else {
        DEFAULT_DB_ROWS
    }
}

/// The database whose keys are shown: the selection, held to the last database.
pub open spec fn redis_selected_db(data: &AppState, sel: Seq<usize>) -> usize {
    clamp_row(sel[0], redis_db_rows(data) as nat) as usize
}

/// The keys listed (name and type) for the selected database.
pub open spec fn redis_key_list(data: &AppState, f: Seq<char>, sel: Seq<usize>) -> Seq<
    (Seq<char>, Seq<char>),
> {
    let db = redis_selected_db(data, sel);
    filter_pairs(
        if data.redis_keys@.contains_key(db) {
            pair_views(data.redis_keys@[db]@)
        } else {
            seq![]
        },
        f,
    )
}

/// The value panel: the selected key's value, `Loading...` while it is not
/// known, or `Select a key` when no listed key is selected.
pub open spec fn redis_value_text(data: &AppState, f: Seq<char>, sel: Seq<usize>) -> Seq<char> {
    let keys = redis_key_list(data, f, sel);
    let db = redis_selected_db(data, sel);
    if sel[1] < keys.len() {
        let k = keys[sel[1] as int].0;
        if data.redis_vals@.contains_key((db, k)) {
            data.redis_vals@[(db, k)]@
        } else {
            "Loading..."@
        }
    } else {
        "Select a key"@
    }
}

/// What the Redis explorer shows.
pub struct RedisPanels {
    pub db_rows: usize,
    pub selected_db: usize,
    pub keys: Vec<(String, String)>,
    pub value: String,
}

/// The panels of the Redis explorer.
pub fn redis_panels(app: &App, data: &AppState) -> (r: RedisPanels)
    requires
        app.states.redis_explorer@.len() == 3,
    ensures
        r.db_rows == redis_db_rows(data),
        r.selected_db == redis_selected_db(data, app.states.redis_explorer@),
        pair_views(r.keys@) == redis_key_list(data, app.filter_input@, app.states.redis_explorer@),
        r.value@ == redis_value_text(data, app.filter_input@, app.states.redis_explorer@),
{
    let f = app.filter_input.as_str();
    let sel = app.states.redis_explorer;
    let db_rows = if data.redis_dbs > 0 {
        data.redis_dbs
    } else {
        DEFAULT_DB_ROWS
    };
    let selected_db = if sel[0] < db_rows {
        sel[0]
    } else {
        db_rows - 1
    };
    let empty: Vec<(String, String)> = Vec::new();
    let all = match data.redis_keys.get(&selected_db) {
        Some(k) => k,
        None => &empty,
    };
    let keys = filter_key_pairs(all, f);
    let value = if sel[1] < keys.len() {
        let key = (selected_db, keys[sel[1]].0.clone());
        match data.redis_vals.get(&key) {
            Some(v) => v.clone(),
            None => String::from_str("Loading..."),
        }
    } else {
        String::from_str("Select a key")
    };
    RedisPanels { db_rows, selected_db, keys, value }
}

// ---------------------------------------------------------------------------
// Two-panel viewers
// ---------------------------------------------------------------------------
/// A list that shows a placeholder line when it is empty.
pub open spec fn or_placeholder(l: Seq<Seq<char>>) -> Seq<Seq<char>> {
    if l.len() == 0 {
        seq!["None/Loading..."@]
    } else {
        l
    }
}

/// What a viewer with a list and the entries of the selected item shows.
pub struct ListPanels {
    pub items: Vec<String>,
    pub entries: Vec<String>,
}

/// The items listed (a placeholder when there are none) and the entries of
/// the item at the selected row (none when the row is past the list).
pub open spec fn list_and_entries(
    names: Seq<String>,
    entries: Map<Seq<char>, Vec<String>>,
    sel: usize,
) -> (Seq<Seq<char>>, Seq<Seq<char>>) {
    let items = or_placeholder(views(names));
    (items, names_under::<String>(entries, at_row(items, sel)))
}

fn list_panels(names: &Vec<String>, entries: &Table<String, Vec<String>>, sel: usize) -> (r:
    ListPanels)
    ensures
        (views(r.items@), views(r.entries@)) == list_and_entries(names@, entries@, sel),
{
    let mut items = clone_names(names);
    if items.len() == 0 {
        items.push(String::from_str("None/Loading..."));
        assert(views(items@) =~= seq!["None/Loading..."@]);
    }
    let selected = if sel < items.len() {
        items[sel].clone()
    } else {
        String::new()
    };
    let e = names_in(entries, &selected);
    ListPanels { items, entries: e }
}

/// The Redis streams viewer: the streams, and the entries of the selected one.
pub fn redis_streams_panels(app: &App, data: &AppState) -> (r: ListPanels)
    requires
        app.states.redis_streams@.len() == 2,
    ensures
        (views(r.items@), views(r.entries@)) == list_and_entries(
            data.redis_streams@,
            data.redis_stream_entries@,
            app.states.redis_streams@[0],
        ),
{
    list_panels(&data.redis_streams, &data.redis_stream_entries, app.states.redis_streams[0])
}

/// The Kafka viewer: the topics, and the messages of the selected one.
pub fn kafka_panels(app: &App, data: &AppState) -> (r: ListPanels)
    requires
        app.states.kafka_viewer@.len() == 2,
    ensures
        (views(r.items@), views(r.entries@)) == list_and_entries(
            data.kafka_topics@,
            data.kafka_messages@,
            app.states.kafka_viewer@[0],
        ),
{
    list_panels(&data.kafka_topics, &data.kafka_messages, app.states.kafka_viewer[0])
}

/// What the RabbitMQ viewer shows.
pub struct QueuePanels {
    pub queues: Vec<(String, String)>,
    pub messages: Vec<String>,
}

/// The queues listed (a placeholder with an empty count when there are none)
/// and the messages of the queue at the selected row.
pub open spec fn queues_and_messages(data: &AppState, sel: usize) -> (
    Seq<(Seq<char>, Seq<char>)>,
    Seq<Seq<char>>,
) {
    let rows = if data.rabbitmq_queues@.len() == 0 {
        seq![("None/Loading..."@, Seq::<char>::empty())]
    } else {
        pair_views(data.rabbitmq_queues@)
    };
    let name = if sel < rows.len() {
        rows[sel as int].0
    } else {
        Seq::empty()
    };
    (rows, names_under::<String>(data.rabbitmq_messages@, name))
}

/// The RabbitMQ viewer: the queues, and the messages of the selected one.
pub fn rabbitmq_panels(app: &App, data: &AppState) -> (r: QueuePanels)
    requires
        app.states.rabbitmq_viewer@.len() == 2,
    ensures
        (pair_views(r.queues@), views(r.messages@)) == queues_and_messages(
            data,
            app.states.rabbitmq_viewer@[0],
        ),
{
    let sel = app.states.rabbitmq_viewer[0];
    let mut queues: Vec<(String, String)> = Vec::new();
    if data.rabbitmq_queues.len() == 0 {
        queues.push((String::from_str("None/Loading..."), String::new()));
        assert(pair_views(queues@) =~= seq![("None/Loading..."@, Seq::<char>::empty())]);
    } else {
        let mut i: usize = 0;
        while i < data.rabbitmq_queues.len()
            invariant
                i <= data.rabbitmq_queues@.len(),
                pair_views(queues@) == pair_views(data.rabbitmq_queues@).take(i as int),
            decreases data.rabbitmq_queues@.len() - i,
        {
            let q = &data.rabbitmq_queues[i];
            let x = (q.0.clone(), q.1.clone());
            assert(x.0@ == q.0@ && x.1@ == q.1@);
            assert(pair_views(queues@.push(x)) =~= pair_views(queues@).push((x.0@, x.1@)));
            assert(pair_views(data.rabbitmq_queues@).take(i + 1) =~= pair_views(
                data.rabbitmq_queues@,
            ).take(i as int).push((q.0@, q.1@)));
            queues.push(x);
            i = i + 1;
        }
        assert(pair_views(data.rabbitmq_queues@).take(data.rabbitmq_queues@.len() as int)
            =~= pair_views(data.rabbitmq_queues@));
    }
    let name = if sel < queues.len() {
        queues[sel].0.clone()
    } else {
        String::new()
    };
    let messages = names_in(&data.rabbitmq_messages, &name);
    QueuePanels { queues, messages }
}

// ---------------------------------------------------------------------------
// Dashboard
// ---------------------------------------------------------------------------
/// Longest preview of a stream's latest entry, in bytes.
pub const ENTRY_PREVIEW_BYTES: usize = 50;

fn sum_items<K: TableKey, T>(t: &Table<K, Vec<T>>) -> (n: usize)
    requires
        map_total(t@) <= usize::MAX,
    ensures
        n == map_total(t@),
{
    let count: usize = t.len();
    proof {
        t.lemma_pairs();
        lemma_entries_total(t.pairs());
    }
    let mut n: usize = 0;
    let mut i: usize = 0;
    let ghost p = t.pairs();
    assert(p.take(0) =~= Seq::<(K, Vec<T>)>::empty());
    while i < count
        invariant
            p == t.pairs(),
            count == p.len(),
            total_items(p) <= usize::MAX,
            i <= p.len(),
            n == total_items(p.take(i as int)),
        decreases p.len() - i,
    {
        let (_, v) = t.entry(i);
        assert(p.take(i + 1).drop_last() =~= p.take(i as int));
        proof {
            lemma_total_items_prefix(p, i + 1);
        }
        n = n + v.len();
        i = i + 1;
    }
    assert(p.take(p.len() as int) =~= p);
    n
}

proof fn lemma_total_items_prefix<K, T>(p: Seq<(K, Vec<T>)>, k: int)
    requires
        0 <= k <= p.len(),
    ensures
        total_items(p.take(k)) <= total_items(p),
    decreases p.len() - k,
{
    if k < p.len() {
        lemma_total_items_prefix(p, k + 1);
        assert(p.take(k + 1).drop_last() =~= p.take(k));
    } else {
        assert(p.take(k) =~= p);
    }
}

/// How an entry count is coloured.
#[derive(Debug, PartialEq, Eq, Structural, Clone, Copy)]
pub enum CountLevel {
    /// No entries.
    Empty,
    /// Fewer than a hundred.
    Few,
    /// A hundred or more.
    Many,
}

/// The level of an entry count.
pub open spec fn count_level(n: nat) -> CountLevel {
    if n == 0 {
        CountLevel::Empty
    } else if n < 100 {
        CountLevel::Few
    } else {
        CountLevel::Many
    }
}

/// The entries of a stream, or none.
pub open spec fn stream_entries(data: &AppState, name: Seq<char>) -> Seq<Seq<char>> {
    names_under::<String>(data.redis_stream_entries@, name)
}

/// The latest entry of a stream, shortened, or a dash when it has none.
pub open spec fn latest_preview(entries: Seq<Seq<char>>) -> Seq<char> {
    if entries.len() > 0 {
        shortened(entries.last(), ENTRY_PREVIEW_BYTES as nat)
    } else {
        seq!['\u{2014}']
    }
}

/// One line of the streams overview.
pub struct StreamRow {
    pub name: String,
    pub entries: usize,
    pub latest: String,
    pub level: CountLevel,
}

/// The lines of the streams overview, one per stream, in order.
pub open spec fn stream_rows_match(rows: Seq<StreamRow>, data: &AppState) -> bool {
    &&& rows.len() == data.redis_streams@.len()
    &&& forall|i: int|
        0 <= i < rows.len() ==> {
            let name = data.redis_streams@[i]@;
            let e = stream_entries(data, name);
            &&& (#[trigger] rows[i]).name@ == name
            &&& rows[i].entries == e.len()
            &&& rows[i].latest@ == latest_preview(e)
            &&& rows[i].level == count_level(e.len())
        }
}

/// Every stream's latest entry has a preview.
pub open spec fn stream_previews_defined(data: &AppState) -> bool {
    forall|i: int|
        0 <= i < data.redis_streams@.len() ==> {
            let e = stream_entries(data, (#[trigger] data.redis_streams@[i])@);
            e.len() > 0 ==> can_shorten(e.last(), ENTRY_PREVIEW_BYTES as nat)
        }
}

/// The log lines joined by line feeds.
pub open spec fn joined(lines: Seq<Seq<char>>) -> Seq<char>
    decreases lines.len(),
{
    if lines.len() == 0 {
        Seq::empty()
    } else if lines.len() == 1 {
        lines[0]
    } else {
        joined(lines.drop_last()) + "\n"@ + lines.last()
    }
}

/// The log lines shown: with a trace id, only those that contain it.
pub open spec fn traced(logs: Seq<Seq<char>>, trace: Option<Seq<char>>) -> Seq<Seq<char>>
    decreases logs.len(),
{
    match trace {
        None => logs,
        Some(t) => if logs.len() == 0 {
            logs
        } else if has_substring(logs.last(), t) {
            traced(logs.drop_last(), trace).push(logs.last())
        } else {
            traced(logs.drop_last(), trace)
        },
    }
}

/// The logs panel: the shown log lines one per line, or a hint while there
/// are no logs at all.
pub open spec fn logs_text(logs: Seq<Seq<char>>, trace: Option<Seq<char>>) -> Seq<char> {
    if logs.len() == 0 {
        "No logs yet. Logs will appear here..."@
    } else {
        joined(traced(logs, trace))
    }
}

/// The log lines that contain the trace id, or all of them without one.
fn traced_lines(logs: &Vec<String>, trace: &Option<String>) -> (r: Vec<String>)
    ensures
        views(r@) == traced(views(logs@), opt_view(*trace)),
{
    match trace {
        None => clone_names(logs),
        Some(t) => {
            let ghost lv = views(logs@);
            let mut r: Vec<String> = Vec::new();
            let mut i: usize = 0;
            assert(lv.take(0) =~= Seq::<Seq<char>>::empty());
            while i < logs.len()
                invariant
                    lv == views(logs@),
                    *trace == Some(*t),
                    i <= logs@.len(),
                    views(r@) == traced(lv.take(i as int), Some(t@)),
                decreases logs@.len() - i,
            {
                assert(lv.take(i + 1).drop_last() =~= lv.take(i as int));
                assert(lv[i as int] == logs@[i as int]@);
                if contains_text(logs[i].as_str(), t.as_str()) {
                    let x = logs[i].clone();
                    assert(x@ == logs@[i as int]@);
                    assert(views(r@.push(x)) =~= views(r@).push(x@));
                    r.push(x);
                }
                i = i + 1;
            }
            assert(lv.take(logs@.len() as int) =~= lv);
            r
        },
    }
}

fn join_lines(lines: &Vec<String>) -> (r: String)
    ensures
        r@ == joined(views(lines@)),
{
    let ghost lv = views(lines@);
    let mut r = String::new();
    let mut i: usize = 0;
    assert(lv.take(0) =~= Seq::<Seq<char>>::empty());
    while i < lines.len()
        invariant
            lv == views(lines@),
            i <= lines@.len(),
            r@ == joined(lv.take(i as int)),
        decreases lines@.len() - i,
    {
        assert(lv.take(i + 1).drop_last() =~= lv.take(i as int));
        assert(lv[i as int] == lines@[i as int]@);
        if i == 0 {
            assert(lv.take(1)[0] == lv[0]);
            r = lines[i].clone();
        } else {
            let with_break = concat(r.as_str(), "\n");
            r = concat(with_break.as_str(), lines[i].as_str());
        }
        i = i + 1;
    }
    assert(lv.take(lines@.len() as int) =~= lv);
    r
}

/// What the dashboard shows.
pub struct DashboardPanels {
    /// Whether each of the three rows of panels is collapsed to its borders.
    pub row_collapsed: [bool; 3],
    pub kafka_online: bool,
    pub kafka_topics: usize,
    pub redis_online: bool,
    pub redis_dbs: usize,
    pub redis_keys: usize,
    pub redis_mem: String,
    pub rabbitmq_online: bool,
    pub rabbitmq_queues: usize,
    pub mongo_online: bool,
    pub mongo_dbs: usize,
    pub mongo_collections: usize,
    pub mongo_size: String,
    pub influxdb_online: bool,
    pub influxdb_orgs: usize,
    pub influxdb_buckets: usize,
    pub stream_count: usize,
    pub stream_entries: usize,
    pub streams: Vec<StreamRow>,
    pub logs: String,
}

/// The lines of the streams overview.
fn stream_rows(data: &AppState) -> (r: Vec<StreamRow>)
    requires
        stream_previews_defined(data),
    ensures
        stream_rows_match(r@, data),
{
    let mut streams: Vec<StreamRow> = Vec::new();
    let mut i: usize = 0;
    while i < data.redis_streams.len()
        invariant
            stream_previews_defined(data),
            i <= data.redis_streams@.len(),
            streams@.len() == i,
            forall|j: int|
                0 <= j < i ==> {
                    let name = data.redis_streams@[j]@;
                    let e = stream_entries(data, name);
                    &&& (#[trigger] streams@[j]).name@ == name
                    &&& streams@[j].entries == e.len()
                    &&& streams@[j].latest@ == latest_preview(e)
                    &&& streams@[j].level == count_level(e.len())
                },
        decreases data.redis_streams@.len() - i,
    {
        let name = &data.redis_streams[i];
        let ghost e = stream_entries(data, name@);
        let (count, latest) = match data.redis_stream_entries.get(name) {
            Some(entries) => {
                assert(views(entries@) == e);
                let latest = if entries.len() > 0 {
                    let last = &entries[entries.len() - 1];
                    assert(last@ == e.last());
                    shorten(last.as_str(), ENTRY_PREVIEW_BYTES)
                } else {
                    let mut dash = String::new();
                    string_push(&mut dash, '\u{2014}');
                    assert(dash@ =~= seq!['\u{2014}']);
                    dash
                };
                (entries.len(), latest)
            },
            None => {
                let mut dash = String::new();
                string_push(&mut dash, '\u{2014}');
                assert(dash@ =~= seq!['\u{2014}']);
                (0, dash)
            },
        };
        let level = if count == 0 {
            CountLevel::Empty
        } else if count < 100 {
            CountLevel::Few
        } else {
            CountLevel::Many
        };
        streams.push(StreamRow { name: name.clone(), entries: count, latest, level });
        i = i + 1;
    }
    streams
}

/// The figures of the dashboard.
pub fn dashboard_panels(app: &App, data: &AppState) -> (r: DashboardPanels)
    requires
        map_total(data.redis_keys@) <= usize::MAX,
        map_total(data.mongo_collections@) <= usize::MAX,
        map_total(data.redis_stream_entries@) <= usize::MAX,
        !app.dashboard_collapsed[5] ==> stream_previews_defined(data),
    ensures
        r.row_collapsed@ == seq![
            app.dashboard_collapsed[0] && app.dashboard_collapsed[1] && app.dashboard_collapsed[2],
            app.dashboard_collapsed[3] && app.dashboard_collapsed[4] && app.dashboard_collapsed[5],
            app.dashboard_collapsed[6],
        ],
        r.kafka_online == data.kafka_online,
        r.kafka_topics == data.kafka_topics@.len(),
        r.redis_online == data.redis_online,
        r.redis_dbs == data.redis_dbs,
        r.redis_keys == map_total(data.redis_keys@),
        r.redis_mem@ == data.redis_mem@,
        r.rabbitmq_online == data.rabbitmq_online,
        r.rabbitmq_queues == data.rabbitmq_queues@.len(),
        r.mongo_online == data.mongo_online,
        r.mongo_dbs == data.mongo_dbs@.len(),
        r.mongo_collections == map_total(data.mongo_collections@),
        r.mongo_size@ == data.mongo_db_size@,
        r.influxdb_online == data.influxdb_online,
        r.influxdb_orgs == data.influxdb_orgs@.len(),
        r.influxdb_buckets == data.influxdb_buckets@.len(),
        r.stream_count == data.redis_streams@.len(),
        r.stream_entries == map_total(data.redis_stream_entries@),
        !app.dashboard_collapsed[5] ==> stream_rows_match(r.streams@, data),
        app.dashboard_collapsed[5] ==> r.streams@.len() == 0,
        r.logs@ == logs_text(views(data.logs@), opt_view(app.config.trace_id)),
{
    let c = app.dashboard_collapsed;
    let streams = if !c[5] {
        stream_rows(data)
    } else {
        Vec::new()
    };
    let logs = if data.logs.len() == 0 {
        String::from_str("No logs yet. Logs will appear here...")
    } else {
        join_lines(&traced_lines(&data.logs, &app.config.trace_id))
    };
    DashboardPanels {
        row_collapsed: [c[0] && c[1] && c[2], c[3] && c[4] && c[5], c[6]],
        kafka_online: data.kafka_online,
        kafka_topics: data.kafka_topics.len(),
        redis_online: data.redis_online,
        redis_dbs: data.redis_dbs,
        redis_keys: sum_items(&data.redis_keys),
        redis_mem: data.redis_mem.clone(),
        rabbitmq_online: data.rabbitmq_online,
        rabbitmq_queues: data.rabbitmq_queues.len(),
        mongo_online: data.mongo_online,
        mongo_dbs: data.mongo_dbs.len(),
        mongo_collections: sum_items(&data.mongo_collections),
        mongo_size: data.mongo_db_size.clone(),
        influxdb_online: data.influxdb_online,
        influxdb_orgs: data.influxdb_orgs.len(),
        influxdb_buckets: data.influxdb_buckets.len(),
        stream_count: data.redis_streams.len(),
        stream_entries: sum_items(&data.redis_stream_entries),
        streams,
        logs,
    }
}

/// An empty filter lets every item through, in order.
pub proof fn law_empty_filter_keeps_all(items: Seq<Seq<char>>)
    ensures
        filter_views(items, Seq::empty()) == items,
    decreases items.len(),
{
    if items.len() > 0 {
        law_empty_filter_keeps_all(items.drop_last());
        assert(items.drop_last().push(items.last()) =~= items);
    }
}

/// Filtering never adds items: every item that passes was in the list.
pub proof fn law_filter_selects(items: Seq<Seq<char>>, f: Seq<char>)
    ensures
        filter_views(items, f).len() <= items.len(),
        forall|i: int|
            0 <= i < filter_views(items, f).len() ==> items.contains(
                #[trigger] filter_views(items, f)[i],
            ) && matches_filter(filter_views(items, f)[i], f),
    decreases items.len(),
{
    if items.len() > 0 {
        law_filter_selects(items.drop_last(), f);
        let r = filter_views(items, f);
        let d = filter_views(items.drop_last(), f);
        assert forall|i: int| 0 <= i < r.len() implies items.contains(#[trigger] r[i])
            && matches_filter(r[i], f) by {
            if i < d.len() {
                assert(r[i] == d[i]);
                assert(items.drop_last().contains(d[i]));
                let j = choose|j: int| 0 <= j < items.drop_last().len() && items.drop_last()[j] == d[i];
                assert(items[j] == d[i]);
            } else {
                assert(r[i] == items.last());
                assert(items[items.len() - 1] == items.last());
            }
        }
    }
}

/// Without a filter, Enter in the documents panel opens the document that the
/// panel shows at the selected row (when the database, collection and
/// document lists are not empty).
pub proof fn law_enter_opens_shown_document(data: &AppState, sel: Seq<usize>)
    requires
        sel.len() == 3,
        data.mongo_dbs@.len() > 0,
        data.mongo_collections@.contains_key(picked_name(data.mongo_dbs@, sel[0])),
        data.mongo_collections@[picked_name(data.mongo_dbs@, sel[0])]@.len() > 0,
        data.mongo_docs@.contains_key(
            (
                picked_name(data.mongo_dbs@, sel[0]),
                picked_name(data.mongo_collections@[picked_name(data.mongo_dbs@, sel[0])]@, sel[1]),
            ),
        ),
        data.mongo_docs@[(
            picked_name(data.mongo_dbs@, sel[0]),
            picked_name(data.mongo_collections@[picked_name(data.mongo_dbs@, sel[0])]@, sel[1]),
        )]@.len() > 0,
    ensures
        selected_doc(sel, data) == Some(
            mongo_doc_list(data, Seq::empty(), sel)[clamp_row(
                sel[2],
                mongo_doc_list(data, Seq::empty(), sel).len(),
            )],
        ),
{
    let f = Seq::<char>::empty();
    let dbs = data.mongo_dbs@;
    law_empty_filter_keeps_all(views(dbs));
    assert(mongo_db_list(data, f) == views(dbs));
    let db = picked_name(dbs, sel[0]);
    assert(picked(mongo_db_list(data, f), sel[0]) == db);
    let cols = data.mongo_collections@[db]@;
    law_empty_filter_keeps_all(views(cols));
    assert(mongo_col_list(data, f, sel) == views(cols));
    let col = picked_name(cols, sel[1]);
    assert(picked(mongo_col_list(data, f, sel), sel[1]) == col);
    let docs = data.mongo_docs@[(db, col)]@;
    law_empty_filter_keeps_all(views(docs));
    assert(mongo_doc_list(data, f, sel) == views(docs));
}

/// With a trace id, the logs panel keeps exactly the log lines that contain
/// it, in order; without one it keeps them all.
pub proof fn law_trace_filters_logs(logs: Seq<Seq<char>>, t: Seq<char>)
    ensures
        traced(logs, None) == logs,
        forall|i: int|
            0 <= i < traced(logs, Some(t)).len() ==> has_substring(
                #[trigger] traced(logs, Some(t))[i],
                t,
            ) && logs.contains(traced(logs, Some(t))[i]),
        forall|i: int|
            0 <= i < logs.len() && has_substring(#[trigger] logs[i], t) ==> traced(
                logs,
                Some(t),
            ).contains(logs[i]),
    decreases logs.len(),
{
    if logs.len() > 0 {
        let d = logs.drop_last();
        law_trace_filters_logs(d, t);
        let r = traced(logs, Some(t));
        let rd = traced(d, Some(t));
        assert forall|i: int| 0 <= i < r.len() implies has_substring(#[trigger] r[i], t)
            && logs.contains(r[i]) by {
            if i < rd.len() {
                assert(r[i] == rd[i]);
                let j = choose|j: int| 0 <= j < d.len() && d[j] == rd[i];
                assert(logs[j] == rd[i]);
            } else {
                assert(r[i] == logs.last());
                assert(logs[logs.len() - 1] == logs.last());
            }
        }
        assert forall|i: int| 0 <= i < logs.len() && has_substring(#[trigger] logs[i], t) implies r.contains(
            logs[i],
        ) by {
            if i < logs.len() - 1 {
                assert(logs[i] == d[i]);
                let k = choose|k: int| 0 <= k < rd.len() && rd[k] == d[i];
                assert(r[k] == rd[k]);
            } else {
                assert(r[r.len() - 1] == logs.last());
            }
        }
    }
}


/// The test that the filter applies to a name.
pub open spec fn passes(f: Seq<char>) -> spec_fn(Seq<char>) -> bool {
    |c: Seq<char>| matches_filter(c, f)
}

/// The test that the filter applies to a (name, type) pair: its name.
pub open spec fn pair_passes(f: Seq<char>) -> spec_fn((Seq<char>, Seq<char>)) -> bool {
    |p: (Seq<char>, Seq<char>)| matches_filter(p.0, f)
}

/// Filtering a list keeps exactly the items that pass, each once, in their
/// order: none is dropped and none is added.
pub proof fn law_filter_keeps_exactly_passing(items: Seq<Seq<char>>, f: Seq<char>)
    ensures
        filter_views(items, f) == items.filter(passes(f)),
        forall|j: int|
            0 <= j < items.len() && matches_filter(#[trigger] items[j], f) ==> filter_views(
                items,
                f,
            ).contains(items[j]),
    decreases items.len(),
{
    reveal_with_fuel(Seq::filter, 1);
    if items.len() > 0 {
        law_filter_keeps_exactly_passing(items.drop_last(), f);
    }
    assert forall|j: int| 0 <= j < items.len() && matches_filter(#[trigger] items[j], f) implies filter_views(
        items,
        f,
    ).contains(items[j]) by {
        items.lemma_filter_contains(passes(f), j);
    }
}

/// Filtering keys keeps exactly the (name, type) pairs whose name passes,
/// each once, in their order: none is dropped and none is added.
pub proof fn law_key_filter_keeps_exactly_passing(
    items: Seq<(Seq<char>, Seq<char>)>,
    f: Seq<char>,
)
    ensures
        filter_pairs(items, f) == items.filter(pair_passes(f)),
        forall|j: int|
            0 <= j < items.len() && matches_filter(#[trigger] items[j].0, f) ==> filter_pairs(
                items,
                f,
            ).contains(items[j]),
    decreases items.len(),
{
    reveal_with_fuel(Seq::filter, 1);
    if items.len() > 0 {
        law_key_filter_keeps_exactly_passing(items.drop_last(), f);
    }
    assert forall|j: int| 0 <= j < items.len() && matches_filter(#[trigger] items[j].0, f) implies filter_pairs(
        items,
        f,
    ).contains(items[j]) by {
        items.lemma_filter_contains(pair_passes(f), j);
    }
}

/// The Redis explorer lists every key of the selected database (the
/// selected row, or the last database row when the selection is past it)
/// whose name passes the filter, with its type, in order, and no other.
pub proof fn law_redis_keys_are_the_passing_keys(data: &AppState, f: Seq<char>, sel: Seq<usize>)
    requires
        sel.len() == 3,
    ensures
        ({
            let rows = redis_db_rows(data);
            let db: usize = if sel[0] < rows {
                sel[0]
            } else {
                (rows - 1) as usize
            };
            let all = if data.redis_keys@.contains_key(db) {
                pair_views(data.redis_keys@[db]@)
            } else {
                seq![]
            };
            redis_key_list(data, f, sel) == all.filter(pair_passes(f))
        }),
{
    let db = redis_selected_db(data, sel);
    let all = if data.redis_keys@.contains_key(db) {
        pair_views(data.redis_keys@[db]@)
    } else {
        seq![]
    };
    law_key_filter_keeps_exactly_passing(all, f);
}

/// The row of a shown list that a selection stands on: the selected row, or
/// the last one when the selection is past the end; the empty name when the
/// list is empty.
pub open spec fn shown_at(l: Seq<Seq<char>>, sel: usize) -> Seq<char> {
    if l.len() == 0 {
        Seq::empty()
    } else if sel < l.len() {
        l[sel as int]
    } else {
        l.last()
    }
}

/// A list as shown: the items that pass the filter, or the placeholder alone
/// when nothing passes and there is no filter.
pub open spec fn shown_list(items: Seq<Seq<char>>, f: Seq<char>, ph: Seq<char>) -> Seq<Seq<char>> {
    let l = items.filter(passes(f));
    if l.len() == 0 && f.len() == 0 {
        seq![ph]
    } else {
        l
    }
}

/// The MongoDB explorer's lists follow what is shown: the databases that
/// pass the filter; the collections of the database on which the selection
/// stands in that shown list; the documents of that database and of the
/// collection on which the selection stands in the shown collection list.
pub proof fn law_mongo_lists_follow_shown_rows(data: &AppState, f: Seq<char>, sel: Seq<usize>)
    requires
        sel.len() == 3,
    ensures
        ({
            let dbs = mongo_db_list(data, f);
            let db = shown_at(dbs, sel[0]);
            let cols = mongo_col_list(data, f, sel);
            let col = shown_at(cols, sel[1]);
            &&& dbs == shown_list(views(data.mongo_dbs@), f, "Loading..."@)
            &&& cols == shown_list(
                names_under::<String>(data.mongo_collections@, db),
                f,
                "None/Loading..."@,
            )
            &&& mongo_doc_list(data, f, sel) == shown_list(
                names_under::<(String, String)>(data.mongo_docs@, (db, col)),
                f,
                "No documents found"@,
            )
        }),
{
    let dbs = mongo_db_list(data, f);
    let db = shown_at(dbs, sel[0]);
    let cols = mongo_col_list(data, f, sel);
    let col = shown_at(cols, sel[1]);
    law_filter_keeps_exactly_passing(views(data.mongo_dbs@), f);
    law_filter_keeps_exactly_passing(names_under::<String>(data.mongo_collections@, db), f);
    law_filter_keeps_exactly_passing(
        names_under::<(String, String)>(data.mongo_docs@, (db, col)),
        f,
    );
    assert(picked(dbs, sel[0]) == db);
    assert(picked(cols, sel[1]) == col);
}


/// A two-panel viewer lists every item in order (a placeholder alone when
/// there is none), and shows the stored entries of the item at the selected
/// row (none when nothing is stored for it).
pub proof fn law_viewer_entries_follow_row(
    names: Seq<String>,
    entries: Map<Seq<char>, Vec<String>>,
    sel: usize,
)
    ensures
        names.len() > 0 ==> list_and_entries(names, entries, sel).0 == views(names),
        names.len() == 0 ==> list_and_entries(names, entries, sel).0 == seq!["None/Loading..."@],
        sel < names.len() ==> list_and_entries(names, entries, sel).1 == if entries.contains_key(
            names[sel as int]@,
        ) {
            views(entries[names[sel as int]@]@)
        } else {
            Seq::<Seq<char>>::empty()
        },
{
}

/// The RabbitMQ viewer lists every queue with its count in order (a
/// placeholder with an empty count alone when there is none), and shows the
/// stored messages of the queue at the selected row.
pub proof fn law_queue_messages_follow_row(data: &AppState, sel: usize)
    ensures
        data.rabbitmq_queues@.len() > 0 ==> queues_and_messages(data, sel).0 == pair_views(
            data.rabbitmq_queues@,
        ),
        sel < data.rabbitmq_queues@.len() ==> ({
            let q = data.rabbitmq_queues@[sel as int].0@;
            queues_and_messages(data, sel).1 == if data.rabbitmq_messages@.contains_key(q) {
                views(data.rabbitmq_messages@[q]@)
            } else {
                Seq::<Seq<char>>::empty()
            }
        }),
{
}

} // verus!
