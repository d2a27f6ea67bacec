//! The interactive state of the terminal interface and how it reacts to keys
//! and mouse clicks.
use vstd::prelude::*;
use vstd::string::StrSliceExecFns;
use crate::collectors::state::AppState;
use crate::config::Config;
use crate::text::{byte_len, byte_len_below, line_count, lines_of, string_pop, string_push};
use crate::tui::layout::{all_wf, screen_rows, spans_rows, view_panel_areas};

verus! {

// ---------------------------------------------------------------------------
// Views and their tabs
// ---------------------------------------------------------------------------
/// The screens of the interface, in tab order.
#[derive(Debug, PartialEq, Eq, Structural, Clone, Copy)]
pub enum ViewMode {
    Dashboard,
    Topology,
    Gantt,
    RedisExplorer,
    RedisStreams,
    MongoExplorer,
    KafkaViewer,
    RabbitMQViewer,
}

impl Default for ViewMode {
    fn default() -> (m: Self)
        ensures
            m == ViewMode::Dashboard,
    {
        ViewMode::Dashboard
    }
}

/// Number of views (and of tabs).
pub const VIEW_COUNT: usize = 8;

/// Position of a view in the tab bar.
pub open spec fn mode_index(m: ViewMode) -> nat {
    match m {
        ViewMode::Dashboard => 0,
        ViewMode::Topology => 1,
        ViewMode::Gantt => 2,
        ViewMode::RedisExplorer => 3,
        ViewMode::RedisStreams => 4,
        ViewMode::MongoExplorer => 5,
        ViewMode::KafkaViewer => 6,
        ViewMode::RabbitMQViewer => 7,
    }
}

/// The view of tab `i`; any position past the last tab means the last view.
pub open spec fn mode_at(i: int) -> ViewMode {
    if i <= 0 {
        ViewMode::Dashboard
    } else if i == 1 {
        ViewMode::Topology
    } else if i == 2 {
        ViewMode::Gantt
    } else if i == 3 {
        ViewMode::RedisExplorer
    } else if i == 4 {
        ViewMode::RedisStreams
    } else if i == 5 {
        ViewMode::MongoExplorer
    } else if i == 6 {
        ViewMode::KafkaViewer
    } else {
        ViewMode::RabbitMQViewer
    }
}

/// The view that follows `m` when cycling; the last one wraps to the first.
pub open spec fn next_mode(m: ViewMode) -> ViewMode {
    match m {
        ViewMode::Dashboard => ViewMode::Topology,
        ViewMode::Topology => ViewMode::Gantt,
        ViewMode::Gantt => ViewMode::RedisExplorer,
        ViewMode::RedisExplorer => ViewMode::RedisStreams,
        ViewMode::RedisStreams => ViewMode::MongoExplorer,
        ViewMode::MongoExplorer => ViewMode::KafkaViewer,
        ViewMode::KafkaViewer => ViewMode::RabbitMQViewer,
        ViewMode::RabbitMQViewer => ViewMode::Dashboard,
    }
}

/// Number of panels that a view shows.
pub open spec fn panel_count(m: ViewMode) -> nat {
    match m {
        ViewMode::Dashboard => 7,
        ViewMode::MongoExplorer | ViewMode::RedisExplorer => 3,
        ViewMode::RedisStreams | ViewMode::KafkaViewer | ViewMode::RabbitMQViewer => 2,
        ViewMode::Topology | ViewMode::Gantt => 1,
    }
}

impl ViewMode {
    /// Position of the view in the tab bar.
    pub fn index(self) -> (i: usize)
        ensures
            i == mode_index(self),
    {
        match self {
            ViewMode::Dashboard => 0,
            ViewMode::Topology => 1,
            ViewMode::Gantt => 2,
            ViewMode::RedisExplorer => 3,
            ViewMode::RedisStreams => 4,
            ViewMode::MongoExplorer => 5,
            ViewMode::KafkaViewer => 6,
            ViewMode::RabbitMQViewer => 7,
        }
    }

    /// The view of tab `i` (the last view for any `i` past the end).
    pub fn from_index(i: usize) -> (m: ViewMode)
        ensures
            m == mode_at(i as int),
    {
        if i == 0 {
            ViewMode::Dashboard
        } else if i == 1 {
            ViewMode::Topology
        } else if i == 2 {
            ViewMode::Gantt
        } else if i == 3 {
            ViewMode::RedisExplorer
        } else if i == 4 {
            ViewMode::RedisStreams
        } else if i == 5 {
            ViewMode::MongoExplorer
        } else if i == 6 {
            ViewMode::KafkaViewer
        } else {
            ViewMode::RabbitMQViewer
        }
    }

    /// Number of panels that the view shows.
    pub fn panel_count(self) -> (n: usize)
        ensures
            n == panel_count(self),
    {
        match self {
            ViewMode::Dashboard => 7,
            ViewMode::MongoExplorer | ViewMode::RedisExplorer => 3,
            ViewMode::RedisStreams | ViewMode::KafkaViewer | ViewMode::RabbitMQViewer => 2,
            ViewMode::Topology | ViewMode::Gantt => 1,
        }
    }

    /// The view that follows this one when cycling.
    pub fn next(self) -> (m: ViewMode)
        ensures
            m == next_mode(self),
    {
        match self {
            ViewMode::Dashboard => ViewMode::Topology,
            ViewMode::Topology => ViewMode::Gantt,
            ViewMode::Gantt => ViewMode::RedisExplorer,
            ViewMode::RedisExplorer => ViewMode::RedisStreams,
            ViewMode::RedisStreams => ViewMode::MongoExplorer,
            ViewMode::MongoExplorer => ViewMode::KafkaViewer,
            ViewMode::KafkaViewer => ViewMode::RabbitMQViewer,
            ViewMode::RabbitMQViewer => ViewMode::Dashboard,
        }
    }
}

/// Title of tab `i`.
pub open spec fn title_text(i: int) -> &'static str {
    if i == 0 {
        "Dashboard"
    } else if i == 1 {
        "Topology"
    } else if i == 2 {
        "Gantt"
    } else if i == 3 {
        "Redis"
    } else if i == 4 {
        "Redis Streams"
    } else if i == 5 {
        "MongoDB"
    } else if i == 6 {
        "Kafka"
    } else {
        "RabbitMQ"
    }
}

/// The title shown on tab `i` (`i < VIEW_COUNT`).
pub fn view_title(i: usize) -> (t: &'static str)
    requires
        i < VIEW_COUNT,
    ensures
        t == title_text(i as int),
{
    if i == 0 {
        "Dashboard"
    } else if i == 1 {
        "Topology"
    } else if i == 2 {
        "Gantt"
    } else if i == 3 {
        "Redis"
    } else if i == 4 {
        "Redis Streams"
    } else if i == 5 {
        "MongoDB"
    } else if i == 6 {
        "Kafka"
    } else {
        "RabbitMQ"
    }
}

/// Number of characters of the title of tab `i`.
pub open spec fn title_width(i: int) -> int {
    title_text(i)@.len() as int
}

/// Column, relative to the inside of the tab bar, where tab `i` starts: each
/// tab is its title padded by one column on each side, and a three-column
/// divider separates consecutive tabs.
pub open spec fn tab_start(i: int) -> int
    decreases i,
{
    if i <= 0 {
        0
    } else {
        tab_start(i - 1) + title_width(i - 1) + 2 + (if i - 1 < VIEW_COUNT - 1 {
            3int
        } else {
            0int
        })
    }
}

/// Column just past the padded title of tab `i`.
pub open spec fn tab_end(i: int) -> int {
    tab_start(i) + title_width(i) + 2
}

/// The first tab among `i..VIEW_COUNT` whose padded title covers column `x`.
pub open spec fn tab_hit_from(x: int, i: int) -> Option<int>
    decreases VIEW_COUNT - i,
{
    if i >= VIEW_COUNT || i < 0 {
        None
    } else if tab_start(i) <= x < tab_end(i) {
        Some(i)
    } else {
        tab_hit_from(x, i + 1)
    }
}

/// The tab whose padded title covers column `x` of the tab bar's inside.
pub open spec fn tab_hit(x: int) -> Option<int> {
    tab_hit_from(x, 0)
}

/// The widths of the titles, as numbers.
pub proof fn lemma_title_widths()
    ensures
        title_width(0) == 9,
        title_width(1) == 8,
        title_width(2) == 5,
        title_width(3) == 5,
        title_width(4) == 13,
        title_width(5) == 7,
        title_width(6) == 5,
        title_width(7) == 8,
{
    reveal_strlit("Dashboard");
    reveal_strlit("Topology");
    reveal_strlit("Gantt");
    reveal_strlit("Redis");
    reveal_strlit("Redis Streams");
    reveal_strlit("MongoDB");
    reveal_strlit("Kafka");
    reveal_strlit("RabbitMQ");
}

/// Where the tabs lie: `[0, 11)`, `[14, 24)`, `[27, 34)`, `[37, 44)`,
/// `[47, 62)`, `[65, 74)`, `[77, 84)` and `[87, 97)`.
pub proof fn lemma_tab_layout()
    ensures
        tab_start(0) == 0 && tab_end(0) == 11,
        tab_start(1) == 14 && tab_end(1) == 24,
        tab_start(2) == 27 && tab_end(2) == 34,
        tab_start(3) == 37 && tab_end(3) == 44,
        tab_start(4) == 47 && tab_end(4) == 62,
        tab_start(5) == 65 && tab_end(5) == 74,
        tab_start(6) == 77 && tab_end(6) == 84,
        tab_start(7) == 87 && tab_end(7) == 97,
        tab_start(8) == 97,
{
    lemma_title_widths();
    reveal_with_fuel(tab_start, 10);
}

// ---------------------------------------------------------------------------
// Screen areas and input events
// ---------------------------------------------------------------------------
/// A rectangle of terminal cells.
#[derive(Debug, PartialEq, Eq, Structural, Clone, Copy)]
pub struct Area {
    pub x: u16,
    pub y: u16,
    pub width: u16,
    pub height: u16,
}

impl Area {
    /// The rectangle lies within the coordinate range (as every terminal area does).
    pub open spec fn wf(self) -> bool {
        self.x + self.width <= u16::MAX && self.y + self.height <= u16::MAX
    }

    /// The cell `(column, row)` lies in the rectangle.
    pub open spec fn holds(self, column: u16, row: u16) -> bool {
        self.x <= column < self.x + self.width && self.y <= row < self.y + self.height
    }

    /// Whether the cell `(column, row)` lies in the rectangle.
    pub fn contains(&self, column: u16, row: u16) -> (b: bool)
        requires
            self.wf(),
        ensures
            b == self.holds(column, row),
    {
        column >= self.x && column < self.x + self.width && row >= self.y && row < self.y
            + self.height
    }
}

/// The keys that the interface reacts to.
#[derive(Debug, PartialEq, Eq, Structural, Clone, Copy)]
pub enum KeyCode {
    Char(char),
    Enter,
    Esc,
    Backspace,
    Tab,
    BackTab,
    Up,
    Down,
    Left,
    Right,
    Other,
}

/// A key press, with whether Shift was held.
#[derive(Debug, PartialEq, Eq, Structural, Clone, Copy)]
pub struct KeyInput {
    pub code: KeyCode,
    pub shift: bool,
}

/// The kinds of mouse events; only a press of the left button acts.
#[derive(Debug, PartialEq, Eq, Structural, Clone, Copy)]
pub enum MouseKind {
    LeftDown,
    Other,
}

/// A mouse event at a terminal cell.
#[derive(Debug, PartialEq, Eq, Structural, Clone, Copy)]
pub struct MouseInput {
    pub kind: MouseKind,
    pub column: u16,
    pub row: u16,
}

// ---------------------------------------------------------------------------
// Selections in the list panels
// ---------------------------------------------------------------------------
/// The selected row of each list panel of the explorer views.
#[derive(Debug, Clone, Copy)]
pub struct ViewStates {
    pub redis_explorer: [usize; 3],
    pub redis_streams: [usize; 2],
    pub mongo_explorer: [usize; 3],
    pub kafka_viewer: [usize; 2],
    pub rabbitmq_viewer: [usize; 2],
}

/// The selections, as sequences.
#[verifier::ext_equal]
pub ghost struct Selections {
    pub redis_explorer: Seq<usize>,
    pub redis_streams: Seq<usize>,
    pub mongo_explorer: Seq<usize>,
    pub kafka_viewer: Seq<usize>,
    pub rabbitmq_viewer: Seq<usize>,
}

impl View for ViewStates {
    type V = Selections;

    open spec fn view(&self) -> Selections {
        Selections {
            redis_explorer: self.redis_explorer@,
            redis_streams: self.redis_streams@,
            mongo_explorer: self.mongo_explorer@,
            kafka_viewer: self.kafka_viewer@,
            rabbitmq_viewer: self.rabbitmq_viewer@,
        }
    }
}

impl Default for ViewStates {
    fn default() -> (s: Self)
        ensures
            s@.redis_explorer == seq![0usize, 0, 0],
            s@.redis_streams == seq![0usize, 0],
            s@.mongo_explorer == seq![0usize, 0, 0],
            s@.kafka_viewer == seq![0usize, 0],
            s@.rabbitmq_viewer == seq![0usize, 0],
    {
        ViewStates {
            redis_explorer: [0, 0, 0],
            redis_streams: [0, 0],
            mongo_explorer: [0, 0, 0],
            kafka_viewer: [0, 0],
            rabbitmq_viewer: [0, 0],
        }
    }
}

/// The selection list that panel `p` of view `m` navigates, if it has one.
pub open spec fn selection_list(s: Selections, m: ViewMode) -> Option<Seq<usize>> {
    match m {
        ViewMode::RedisExplorer => Some(s.redis_explorer),
        ViewMode::MongoExplorer => Some(s.mongo_explorer),
        ViewMode::RedisStreams => Some(s.redis_streams),
        ViewMode::KafkaViewer => Some(s.kafka_viewer),
        ViewMode::RabbitMQViewer => Some(s.rabbitmq_viewer),
        _ => None,
    }
}

/// The selected row of panel `p` of view `m`, when that panel is a list.
pub open spec fn selection(s: Selections, m: ViewMode, p: int) -> Option<usize> {
    match selection_list(s, m) {
        Some(l) => if 0 <= p < l.len() {
            Some(l[p])
        } else {
            None
        },
        None => None,
    }
}

/// The selections with the row of panel `p` of view `m` set to `v`.
pub open spec fn with_selection(s: Selections, m: ViewMode, p: int, v: usize) -> Selections {
    match m {
        ViewMode::RedisExplorer => Selections { redis_explorer: s.redis_explorer.update(p, v), ..s },
        ViewMode::MongoExplorer => Selections { mongo_explorer: s.mongo_explorer.update(p, v), ..s },
        ViewMode::RedisStreams => Selections { redis_streams: s.redis_streams.update(p, v), ..s },
        ViewMode::KafkaViewer => Selections { kafka_viewer: s.kafka_viewer.update(p, v), ..s },
        ViewMode::RabbitMQViewer => Selections {
            rabbitmq_viewer: s.rabbitmq_viewer.update(p, v),
            ..s
        },
        _ => s,
    }
}

// ---------------------------------------------------------------------------
// The interface state
// ---------------------------------------------------------------------------
/// The help text that `?` shows.
pub open spec fn help_text() -> Seq<char> {
    "Help:\n  Tab/Shift+Tab: switch focused panels\n  h/j/k/l or Arrows: navigate\n  c: Collapse dashboard panel\n  f or /: Filter items in list\n  Enter: Expand/collapse document (Mongo)\n  w: Toggle wrap mode\n  t: Cycle Views\n  q: Quit"@
}

/// Longest filter, in bytes, that still accepts typed characters.
pub const FILTER_LIMIT: usize = 64;

/// The state of the interface.
pub struct App {
    pub config: Config,
    pub mode: ViewMode,
    pub running: bool,
    pub filter_mode: bool,
    pub filter_input: String,
    pub tooltip: Option<String>,
    pub active_panel: usize,
    pub states: ViewStates,
    pub panel_areas: Vec<Area>,
    pub tab_area: Option<Area>,
    pub expanded_doc: Option<String>,
    pub wrap_enabled: bool,
    pub expanded_doc_scroll: usize,
    pub dashboard_collapsed: [bool; 7],
}

/// The state of the interface as values.
#[verifier::ext_equal]
pub ghost struct AppView {
    pub mode: ViewMode,
    pub running: bool,
    pub filter_mode: bool,
    pub filter_input: Seq<char>,
    pub tooltip: Option<Seq<char>>,
    pub active_panel: usize,
    pub states: Selections,
    pub panel_areas: Seq<Area>,
    pub tab_area: Option<Area>,
    pub expanded_doc: Option<Seq<char>>,
    pub wrap_enabled: bool,
    pub expanded_doc_scroll: usize,
    pub dashboard_collapsed: Seq<bool>,
}

/// The characters of an optional string.
pub open spec fn opt_view(o: Option<String>) -> Option<Seq<char>> {
    match o {
        Some(s) => Some(s@),
        None => None,
    }
}

impl View for App {
    type V = AppView;

    open spec fn view(&self) -> AppView {
        AppView {
            mode: self.mode,
            running: self.running,
            filter_mode: self.filter_mode,
            filter_input: self.filter_input@,
            tooltip: opt_view(self.tooltip),
            active_panel: self.active_panel,
            states: self.states@,
            panel_areas: self.panel_areas@,
            tab_area: self.tab_area,
            expanded_doc: opt_view(self.expanded_doc),
            wrap_enabled: self.wrap_enabled,
            expanded_doc_scroll: self.expanded_doc_scroll,
            dashboard_collapsed: self.dashboard_collapsed@,
        }
    }
}

/// The shape every state has, and the focused panel is one of the view's panels.
pub open spec fn app_wf(s: AppView) -> bool {
    &&& s.active_panel < panel_count(s.mode)
    &&& s.dashboard_collapsed.len() == 7
    &&& s.states.redis_explorer.len() == 3
    &&& s.states.redis_streams.len() == 2
    &&& s.states.mongo_explorer.len() == 3
    &&& s.states.kafka_viewer.len() == 2
    &&& s.states.rabbitmq_viewer.len() == 2
}

/// The state right after start-up.
pub open spec fn initial_view() -> AppView {
    AppView {
        mode: ViewMode::Dashboard,
        running: true,
        filter_mode: false,
        filter_input: Seq::empty(),
        tooltip: None,
        active_panel: 0,
        states: Selections {
            redis_explorer: seq![0usize, 0, 0],
            redis_streams: seq![0usize, 0],
            mongo_explorer: seq![0usize, 0, 0],
            kafka_viewer: seq![0usize, 0],
            rabbitmq_viewer: seq![0usize, 0],
        },
        panel_areas: Seq::empty(),
        tab_area: None,
        expanded_doc: None,
        wrap_enabled: false,
        expanded_doc_scroll: 0,
        dashboard_collapsed: seq![false, false, false, false, false, false, false],
    }
}

// ---------------------------------------------------------------------------
// Transitions
// ---------------------------------------------------------------------------
/// Shows view `m` with its first panel focused.
pub open spec fn switched_to(s: AppView, m: ViewMode) -> AppView {
    AppView { mode: m, active_panel: 0, ..s }
}

/// Stepping the focus forward adds one to the focused panel's number without
/// overflow.
pub open spec fn next_fits(s: AppView) -> bool {
    s.active_panel < usize::MAX
}

/// Stepping the focus back adds the view's panel count to the focused panel's
/// number (and then takes one away) without overflow.
pub open spec fn prev_fits(s: AppView) -> bool {
    s.active_panel + panel_count(s.mode) <= usize::MAX
}

/// Whether key `k` steps the focus back (outside filter mode).
pub open spec fn steps_back(s: AppView, k: KeyInput) -> bool {
    !s.filter_mode && if k.shift {
        k.code == KeyCode::BackTab
    } else {
        k.code == KeyCode::Left || k.code == KeyCode::Char('h')
    }
}

/// Whether key `k` steps the focus forward (outside filter mode).
pub open spec fn steps_forward(s: AppView, k: KeyInput) -> bool {
    !s.filter_mode && !k.shift && (k.code == KeyCode::Tab || k.code == KeyCode::Right || k.code
        == KeyCode::Char('l'))
}

/// What a key press needs of the focus: `c` on the dashboard flips the
/// focused panel, one of its seven, and a key that steps the focus does so
/// without overflow.
pub open spec fn key_ready(s: AppView, k: KeyInput) -> bool {
    &&& (!s.filter_mode && !k.shift && k.code == KeyCode::Char('c') && s.mode
        == ViewMode::Dashboard) ==> s.active_panel < 7
    &&& steps_back(s, k) ==> prev_fits(s)
    &&& steps_forward(s, k) ==> next_fits(s)
}

/// Focuses the next panel of the view, wrapping around.
pub open spec fn after_next_panel(s: AppView) -> AppView {
    AppView { active_panel: ((s.active_panel + 1) % (panel_count(s.mode) as int)) as usize, ..s }
}

/// Focuses the previous panel of the view, wrapping around.
pub open spec fn after_prev_panel(s: AppView) -> AppView {
    let c = panel_count(s.mode) as int;
    AppView { active_panel: ((s.active_panel + c - 1) % c) as usize, ..s }
}

/// Moves the focused list's selection one row down (saturating).
pub open spec fn after_next_item(s: AppView) -> AppView {
    match selection(s.states, s.mode, s.active_panel as int) {
        Some(v) => AppView {
            states: with_selection(
                s.states,
                s.mode,
                s.active_panel as int,
                if v == usize::MAX {
                    v
                } else {
                    (v + 1) as usize
                },
            ),
            ..s
        },
        None => s,
    }
}

/// Moves the focused list's selection one row up (stopping at the first row).
pub open spec fn after_prev_item(s: AppView) -> AppView {
    match selection(s.states, s.mode, s.active_panel as int) {
        Some(v) => AppView {
            states: with_selection(
                s.states,
                s.mode,
                s.active_panel as int,
                if v == 0 {
                    0
                } else {
                    (v - 1) as usize
                },
            ),
            ..s
        },
        None => s,
    }
}

/// Index of the row that selection `sel` picks from a list of `len` rows: the
/// selection, held to the last row.
pub open spec fn clamp_row(sel: usize, len: nat) -> int {
    if len == 0 {
        0
    } else if sel < len {
        sel as int
    } else {
        len - 1
    }
}

/// The name at the picked row of `names`, or the empty name when there is none.
pub open spec fn picked_name(names: Seq<String>, sel: usize) -> Seq<char> {
    if names.len() > 0 {
        names[clamp_row(sel, names.len())]@
    } else {
        Seq::empty()
    }
}

/// The document that the Mongo explorer's selections pick, from the collected
/// data (unfiltered): database, then collection, then document.
pub open spec fn selected_doc(sel: Seq<usize>, data: &AppState) -> Option<Seq<char>> {
    let db = picked_name(data.mongo_dbs@, sel[0]);
    let cols: Seq<String> = if data.mongo_collections@.contains_key(db) {
        data.mongo_collections@[db]@
    } else {
        Seq::empty()
    };
    let col = picked_name(cols, sel[1]);
    let docs: Seq<String> = if data.mongo_docs@.contains_key((db, col)) {
        data.mongo_docs@[(db, col)]@
    } else {
        Seq::empty()
    };
    if docs.len() > 0 {
        Some(docs[clamp_row(sel[2], docs.len())]@)
    } else {
        None
    }
}

/// Opens the picked document, or closes the one that is open.
pub open spec fn after_toggle_doc(s: AppView, doc: Option<Seq<char>>) -> AppView {
    if s.expanded_doc is Some {
        AppView { expanded_doc: None, ..s }
    } else {
        match doc {
            Some(d) => AppView { expanded_doc: Some(d), expanded_doc_scroll: 0, ..s },
            None => s,
        }
    }
}

/// Keys typed while the filter is being edited.
pub open spec fn on_filter_key(s: AppView, k: KeyInput) -> AppView {
    match k.code {
        KeyCode::Enter => AppView { filter_mode: false, ..s },
        KeyCode::Esc => AppView { filter_mode: false, filter_input: Seq::empty(), ..s },
        KeyCode::Char(c) => if byte_len(s.filter_input) < FILTER_LIMIT {
            AppView { filter_input: s.filter_input.push(c), ..s }
        } else {
            s
        },
        KeyCode::Backspace => if s.filter_input.len() > 0 {
            AppView { filter_input: s.filter_input.drop_last(), ..s }
        } else {
            s
        },
        _ => s,
    }
}

/// Keys pressed with Shift: capital letters jump to a view, Shift+Tab focuses
/// the previous panel.
pub open spec fn on_shift_key(s: AppView, k: KeyInput) -> AppView {
    match k.code {
        KeyCode::Char(c) => if c == 'R' {
            switched_to(s, ViewMode::RedisExplorer)
        } else if c == 'M' {
            switched_to(s, ViewMode::MongoExplorer)
        } else if c == 'S' {
            switched_to(s, ViewMode::RedisStreams)
        } else if c == 'K' {
            switched_to(s, ViewMode::KafkaViewer)
        } else if c == 'O' {
            switched_to(s, ViewMode::RabbitMQViewer)
        } else if c == 'D' {
            switched_to(s, ViewMode::Dashboard)
        } else if c == 'T' {
            switched_to(s, ViewMode::Topology)
        } else if c == 'G' {
            switched_to(s, ViewMode::Gantt)
        } else {
            s
        },
        KeyCode::BackTab => after_prev_panel(s),
        _ => s,
    }
}

/// The key moves up: the Up arrow or `k`.
pub open spec fn is_up_key(code: KeyCode) -> bool {
    code == KeyCode::Up || code == KeyCode::Char('k')
}

/// The key moves down: the Down arrow or `j`.
pub open spec fn is_down_key(code: KeyCode) -> bool {
    code == KeyCode::Down || code == KeyCode::Char('j')
}

/// The largest scroll offset of an open document: its last line.
pub open spec fn max_scroll(doc: Seq<char>) -> usize {
    if lines_of(doc).len() == 0 {
        0
    } else {
        (lines_of(doc).len() - 1) as usize
    }
}

/// Keys of the normal mode.
pub open spec fn on_plain_key(s: AppView, k: KeyInput, doc: Option<Seq<char>>) -> AppView {
    match k.code {
        KeyCode::Char(c) => if c == 'q' {
            AppView { running: false, ..s }
        } else if c == 'c' {
            if s.mode == ViewMode::Dashboard {
                AppView {
                    dashboard_collapsed: s.dashboard_collapsed.update(
                        s.active_panel as int,
                        !s.dashboard_collapsed[s.active_panel as int],
                    ),
                    ..s
                }
            } else {
                s
            }
        } else if c == 't' {
            switched_to(s, next_mode(s.mode))
        } else if c == 'f' || c == '/' {
            AppView { filter_mode: true, ..s }
        } else if c == 'h' {
            after_prev_panel(s)
        } else if c == 'l' {
            after_next_panel(s)
        } else if c == 'k' {
            after_prev_item(s)
        } else if c == 'j' {
            after_next_item(s)
        } else if c == '?' {
            if s.tooltip is Some {
                AppView { tooltip: None, ..s }
            } else {
                AppView { tooltip: Some(help_text()), ..s }
            }
        } else if c == 'w' {
            AppView { wrap_enabled: !s.wrap_enabled, ..s }
        } else {
            s
        },
        KeyCode::Tab => after_next_panel(s),
        KeyCode::Left => after_prev_panel(s),
        KeyCode::Right => after_next_panel(s),
        KeyCode::Up => after_prev_item(s),
        KeyCode::Down => after_next_item(s),
        KeyCode::Enter => if s.mode == ViewMode::MongoExplorer && s.active_panel == 2 {
            after_toggle_doc(s, doc)
        } else {
            s
        },
        KeyCode::Esc => if s.expanded_doc is Some {
            AppView { expanded_doc: None, expanded_doc_scroll: 0, ..s }
        } else if s.tooltip is Some {
            AppView { tooltip: None, ..s }
        } else {
            s
        },
        _ => s,
    }
}

/// How the interface reacts to key `k`; `doc` is the document that Enter in
/// the Mongo documents panel would open.
pub open spec fn on_key(s: AppView, k: KeyInput, doc: Option<Seq<char>>) -> AppView {
    if s.filter_mode {
        on_filter_key(s, k)
    } else if k.shift {
        on_shift_key(s, k)
    } else if s.expanded_doc is Some && is_up_key(k.code) {
        AppView {
            expanded_doc_scroll: if s.expanded_doc_scroll == 0 {
                0
            } else {
                (s.expanded_doc_scroll - 1) as usize
            },
            ..s
        }
    } else if s.expanded_doc is Some && is_down_key(k.code) {
        let m = max_scroll(s.expanded_doc->0);
        let up = if s.expanded_doc_scroll == usize::MAX {
            usize::MAX
        } else {
            (s.expanded_doc_scroll + 1) as usize
        };
        AppView { expanded_doc_scroll: if up < m {
            up
        } else {
            m
        }, ..s }
    } else {
        on_plain_key(s, k, doc)
    }
}

/// The first panel whose area holds the cell `(column, row)`.
pub open spec fn panel_hit_from(areas: Seq<Area>, column: u16, row: u16, i: int) -> Option<int>
    decreases areas.len() - i,
{
    if i < 0 || i >= areas.len() {
        None
    } else if areas[i].holds(column, row) {
        Some(i)
    } else {
        panel_hit_from(areas, column, row, i + 1)
    }
}

/// `x - y`, or 0 when `y > x`.
pub open spec fn sub_or_zero(x: int, y: int) -> int {
    if x >= y {
        x - y
    } else {
        0
    }
}

/// A click on panel `i` at `row`: the panel gets the focus and, when it is a
/// list, the clicked row is selected (rows start below the border; in the
/// Mongo documents panel every other row is a separator and selects nothing).
pub open spec fn clicked_panel(s: AppView, i: int, row: u16) -> AppView {
    let area = s.panel_areas[i];
    let inner_y = sub_or_zero(sub_or_zero(row as int, area.y as int), 1);
    let focused = AppView { active_panel: i as usize, ..s };
    let is_docs = s.mode == ViewMode::MongoExplorer && i == 2;
    match selection(s.states, s.mode, i) {
        Some(_) => if is_docs {
            if inner_y % 2 == 0 {
                AppView {
                    states: with_selection(s.states, s.mode, i, (inner_y / 2) as usize),
                    ..focused
                }
            } else {
                focused
            }
        } else {
            AppView { states: with_selection(s.states, s.mode, i, inner_y as usize), ..focused }
        },
        None => focused,
    }
}

/// The column of the tab bar's inside under the mouse.
pub open spec fn tab_column(t: Area, column: u16) -> int {
    sub_or_zero(column as int, t.x + 1)
}

/// Whether mouse event `m` is a left click on the tab bar's rows.
pub open spec fn on_tab_bar(s: AppView, m: MouseInput) -> bool {
    s.tab_area matches Some(t) && t.y <= m.row < t.y + t.height
}

/// Whether a left click lands past the tab bar's inside or on one of its tabs,
/// so that the tab bar takes it.
pub open spec fn tab_bar_takes(s: AppView, m: MouseInput) -> bool {
    on_tab_bar(s, m) && (tab_column(s.tab_area->0, m.column) >= sub_or_zero(
        s.tab_area->0.width as int,
        2,
    ) || tab_hit(tab_column(s.tab_area->0, m.column)) is Some)
}

/// How the interface reacts to mouse event `m`: a left click on a tab shows
/// its view; a left click on a panel focuses it and selects the clicked row.
pub open spec fn on_mouse(s: AppView, m: MouseInput) -> AppView {
    if m.kind != MouseKind::LeftDown {
        s
    } else {
        let on_tab_bar = on_tab_bar(s, m);
        if on_tab_bar && tab_column(s.tab_area->0, m.column) >= sub_or_zero(
            s.tab_area->0.width as int,
            2,
        ) {
            s
        } else if on_tab_bar && tab_hit(tab_column(s.tab_area->0, m.column)) is Some {
            switched_to(s, mode_at(tab_hit(tab_column(s.tab_area->0, m.column))->0))
        } else {
            match panel_hit_from(s.panel_areas, m.column, m.row, 0) {
                Some(i) => clicked_panel(s, i, m.row),
                None => s,
            }
        }
    }
}

/// What a mouse event requires of the recorded areas: the tab bar is a valid
/// area whose left edge leaves room for its border when the click falls on its
/// rows, and, when a left click gets past the tab bar to the panels, each
/// recorded panel is a valid area.
pub open spec fn areas_ready(s: AppView, m: MouseInput) -> bool {
    &&& s.tab_area matches Some(t) ==> {
        &&& t.wf()
        &&& (t.y <= m.row < t.y + t.height ==> t.x < u16::MAX)
    }
    &&& (m.kind == MouseKind::LeftDown && !tab_bar_takes(s, m)) ==> forall|i: int|
        0 <= i < s.panel_areas.len() ==> (#[trigger] s.panel_areas[i]).wf()
}

impl App {
    /// Lays out a screen of `size` for the current view, records where the
    /// tab bar and the view's panels lie, and returns the screen's rows: tab
    /// bar, view, status bar.
    pub fn lay_out(&mut self, size: Area) -> (rows: Vec<Area>)
        ensures
            rows@.len() == 3,
            forall|i: int|
                0 <= i < 3 ==> (#[trigger] rows@[i]).x == size.x && rows@[i].width == size.width,
            size.wf() ==> all_wf(rows@),
            final(self)@ == (AppView {
                tab_area: Some(rows@[0]),
                panel_areas: final(self)@.panel_areas,
                ..old(self)@
            }),
            final(self).config == old(self).config,
            final(self)@.panel_areas.len() == panel_count(final(self)@.mode),
            size.wf() ==> all_wf(final(self)@.panel_areas),
            final(self)@.mode != ViewMode::Dashboard ==> spans_rows(
                final(self)@.panel_areas,
                rows@[1],
            ),
            (final(self)@.mode == ViewMode::Topology || final(self)@.mode == ViewMode::Gantt)
                ==> final(self)@.panel_areas == seq![rows@[1]],
            size.wf() && size.x < u16::MAX ==> forall|m: MouseInput|
                areas_ready(final(self)@, m),
    {
        let rows = screen_rows(size);
        let c = self.dashboard_collapsed;
        let collapsed = [c[0] && c[1] && c[2], c[3] && c[4] && c[5], c[6]];
        self.tab_area = Some(rows[0]);
        self.panel_areas = view_panel_areas(self.mode, rows[1], collapsed);
        proof {
            if size.wf() && size.x < u16::MAX {
                assert(rows@[0].wf() && rows@[0].x == size.x);
                assert(rows@[1].wf());
                assert forall|m: MouseInput| areas_ready(self@, m) by {
                    assert(all_wf(self@.panel_areas));
                }
            }
        }
        rows
    }
}

impl App {
    /// The interface at start-up, showing the dashboard.
    pub fn new(config: Config) -> (a: App)
        ensures
            a@ == initial_view(),
            a.config == config,
            app_wf(a@),
    {
        App {
            config,
            mode: ViewMode::Dashboard,
            running: true,
            filter_mode: false,
            filter_input: String::new(),
            tooltip: None,
            active_panel: 0,
            states: ViewStates::default(),
            panel_areas: Vec::new(),
            tab_area: None,
            expanded_doc: None,
            wrap_enabled: false,
            expanded_doc_scroll: 0,
            dashboard_collapsed: [false, false, false, false, false, false, false],
        }
    }

    /// Number of panels of the current view.
    pub fn panel_count(&self) -> (n: usize)
        ensures
            n == panel_count(self.mode),
    {
        self.mode.panel_count()
    }

    /// Cycles to the next view.
    pub fn cycle_view(&mut self)
        ensures
            final(self)@ == switched_to(old(self)@, next_mode(old(self)@.mode)),
            final(self).config == old(self).config,
    {
        self.mode = self.mode.next();
        self.active_panel = 0;
    }

    /// Focuses the next panel.
    pub fn next_panel(&mut self)
        requires
            next_fits(old(self)@),
        ensures
            final(self)@ == after_next_panel(old(self)@),
            final(self).config == old(self).config,
    {
        let count = self.panel_count();
        if count > 0 {
            self.active_panel = (self.active_panel + 1) % count;
        }
    }

    /// Focuses the previous panel.
    pub fn prev_panel(&mut self)
        requires
            prev_fits(old(self)@),
        ensures
            final(self)@ == after_prev_panel(old(self)@),
            final(self).config == old(self).config,
    {
        let count = self.panel_count();
        if count > 0 {
            self.active_panel = (self.active_panel + count - 1) % count;
        }
    }

    /// The selected row of the focused panel, when it is a list.
    fn active_selection(&self) -> (r: Option<usize>)
        ensures
            r == selection(self@.states, self.mode, self.active_panel as int),
    {
        let p = self.active_panel;
        match self.mode {
            ViewMode::RedisExplorer => if p < 3 {
                Some(self.states.redis_explorer[p])
            } else {
                None
            },
            ViewMode::MongoExplorer => if p < 3 {
                Some(self.states.mongo_explorer[p])
            } else {
                None
            },
            ViewMode::RedisStreams => if p < 2 {
                Some(self.states.redis_streams[p])
            } else {
                None
            },
            ViewMode::KafkaViewer => if p < 2 {
                Some(self.states.kafka_viewer[p])
            } else {
                None
            },
            ViewMode::RabbitMQViewer => if p < 2 {
                Some(self.states.rabbitmq_viewer[p])
            } else {
                None
            },
            _ => None,
        }
    }

    /// Sets the selected row of the focused panel, which is a list.
    fn set_active_selection(&mut self, v: usize)
        requires
            (selection(old(self)@.states, old(self).mode, old(self).active_panel as int) is Some),
        ensures
            final(self)@ == (AppView {
                states: with_selection(
                    old(self)@.states,
                    old(self).mode,
                    old(self).active_panel as int,
                    v,
                ),
                ..old(self)@
            }),
            final(self).config == old(self).config,
    {
        let p = self.active_panel;
        match self.mode {
            ViewMode::RedisExplorer => {
                self.states.redis_explorer[p] = v;
            },
            ViewMode::MongoExplorer => {
                self.states.mongo_explorer[p] = v;
            },
            ViewMode::RedisStreams => {
                self.states.redis_streams[p] = v;
            },
            ViewMode::KafkaViewer => {
                self.states.kafka_viewer[p] = v;
            },
            ViewMode::RabbitMQViewer => {
                self.states.rabbitmq_viewer[p] = v;
            },
            _ => {},
        }
    }

    /// Moves the focused list's selection one row down.
    pub fn next_item(&mut self)
        ensures
            final(self)@ == after_next_item(old(self)@),
            final(self).config == old(self).config,
    {
        if let Some(v) = self.active_selection() {
            self.set_active_selection(v.saturating_add(1));
        }
    }

    /// Moves the focused list's selection one row up.
    pub fn prev_item(&mut self)
        ensures
            final(self)@ == after_prev_item(old(self)@),
            final(self).config == old(self).config,
    {
        if let Some(v) = self.active_selection() {
            self.set_active_selection(v.saturating_sub(1));
        }
    }

    /// Opens the document that the Mongo explorer's selections pick in `data`,
    /// or closes the open one.
    pub fn toggle_expand_doc(&mut self, data: &AppState)
        ensures
            final(self)@ == after_toggle_doc(
                old(self)@,
                selected_doc(old(self)@.states.mongo_explorer, data),
            ),
            final(self).config == old(self).config,
    {
        if self.expanded_doc.is_some() {
            self.expanded_doc = None;
            return;
        }
        let state = self.states.mongo_explorer;
        let dbs = &data.mongo_dbs;
        let db_name = if dbs.len() > 0 {
            let i = if state[0] < dbs.len() {
                state[0]
            } else {
                dbs.len() - 1
            };
            dbs[i].clone()
        } else {
            String::new()
        };
        let empty_cols: Vec<String> = Vec::new();
        let cols = match data.mongo_collections.get(&db_name) {
            Some(c) => c,
            None => &empty_cols,
        };
        let col_name = if cols.len() > 0 {
            let i = if state[1] < cols.len() {
                state[1]
            } else {
                cols.len() - 1
            };
            cols[i].clone()
        } else {
            String::new()
        };
        let key = (db_name, col_name);
        proof {
            assert(key@ == (
                picked_name(data.mongo_dbs@, state@[0]),
                picked_name(cols@, state@[1]),
            ));
        }
        match data.mongo_docs.get(&key) {
            Some(docs) => {
                if docs.len() > 0 {
                    let i = if state[2] < docs.len() {
                        state[2]
                    } else {
                        docs.len() - 1
                    };
                    self.expanded_doc = Some(docs[i].clone());
                    self.expanded_doc_scroll = 0;
                }
            },
            None => {},
        }
    }

    /// Reacts to a key press; `data` is what the collectors gathered.
    pub fn handle_key(&mut self, key: KeyInput, data: &AppState)
        requires
            key_ready(old(self)@, key),
        ensures
            final(self)@ == on_key(
                old(self)@,
                key,
                selected_doc(old(self)@.states.mongo_explorer, data),
            ),
            final(self).config == old(self).config,
    {
        if self.filter_mode {
            match key.code {
                KeyCode::Enter => self.filter_mode = false,
                KeyCode::Esc => {
                    self.filter_mode = false;
                    self.filter_input = String::new();
                },
                KeyCode::Char(c) => {
                    if byte_len_below(self.filter_input.as_str(), FILTER_LIMIT) {
                        string_push(&mut self.filter_input, c);
                    }
                },
                KeyCode::Backspace => {
                    string_pop(&mut self.filter_input);
                },
                _ => {},
            }
            return;
        }
        if key.shift {
            match key.code {
                KeyCode::Char(c) => {
                    if c == 'R' {
                        self.mode = ViewMode::RedisExplorer;
                        self.active_panel = 0;
                    } else if c == 'M' {
                        self.mode = ViewMode::MongoExplorer;
                        self.active_panel = 0;
                    } else if c == 'S' {
                        self.mode = ViewMode::RedisStreams;
                        self.active_panel = 0;
                    } else if c == 'K' {
                        self.mode = ViewMode::KafkaViewer;
                        self.active_panel = 0;
                    } else if c == 'O' {
                        self.mode = ViewMode::RabbitMQViewer;
                        self.active_panel = 0;
                    } else if c == 'D' {
                        self.mode = ViewMode::Dashboard;
                        self.active_panel = 0;
                    } else if c == 'T' {
                        self.mode = ViewMode::Topology;
                        self.active_panel = 0;
                    } else if c == 'G' {
                        self.mode = ViewMode::Gantt;
                        self.active_panel = 0;
                    }
                },
                KeyCode::BackTab => self.prev_panel(),
                _ => {},
            }
            return;
        }
        let up = key.code == KeyCode::Up || key.code == KeyCode::Char('k');
        let down = key.code == KeyCode::Down || key.code == KeyCode::Char('j');
        if let Some(doc) = &self.expanded_doc {
            let n = line_count(doc.as_str());
            let max_scroll = n.saturating_sub(1);
            if up {
                self.expanded_doc_scroll = self.expanded_doc_scroll.saturating_sub(1);
                return;
            }
            if down {
                let next = self.expanded_doc_scroll.saturating_add(1);
                self.expanded_doc_scroll = if next < max_scroll {
                    next
                } else {
                    max_scroll
                };
                return;
            }
        }
        match key.code {
            KeyCode::Char(c) => {
                if c == 'q' {
                    self.running = false;
                } else if c == 'c' {
                    if self.mode == ViewMode::Dashboard {
                        let p = self.active_panel;
                        self.dashboard_collapsed[p] = !self.dashboard_collapsed[p];
                    }
                } else if c == 't' {
                    self.cycle_view();
                } else if c == 'f' || c == '/' {
                    self.filter_mode = true;
                } else if c == 'h' {
                    self.prev_panel();
                } else if c == 'l' {
                    self.next_panel();
                } else if c == 'k' {
                    self.prev_item();
                } else if c == 'j' {
                    self.next_item();
                } else if c == '?' {
                    if self.tooltip.is_some() {
                        self.tooltip = None;
                    } else {
                        self.tooltip = Some(String::from_str("Help:\n  Tab/Shift+Tab: switch focused panels\n  h/j/k/l or Arrows: navigate\n  c: Collapse dashboard panel\n  f or /: Filter items in list\n  Enter: Expand/collapse document (Mongo)\n  w: Toggle wrap mode\n  t: Cycle Views\n  q: Quit"));
                    }
                } else if c == 'w' {
                    self.wrap_enabled = !self.wrap_enabled;
                }
            },
            KeyCode::Tab => self.next_panel(),
            KeyCode::Left => self.prev_panel(),
            KeyCode::Right => self.next_panel(),
            KeyCode::Up => self.prev_item(),
            KeyCode::Down => self.next_item(),
            KeyCode::Enter => {
                if self.mode == ViewMode::MongoExplorer && self.active_panel == 2 {
                    self.toggle_expand_doc(data);
                }
            },
            KeyCode::Esc => {
                if self.expanded_doc.is_some() {
                    self.expanded_doc = None;
                    self.expanded_doc_scroll = 0;
                } else if self.tooltip.is_some() {
                    self.tooltip = None;
                }
            },
            _ => {},
        }
    }

    /// Reacts to a mouse event, using the areas recorded by the last drawing.
    #[verifier::loop_isolation(false)]
    pub fn handle_mouse(&mut self, mouse: MouseInput)
        requires
            areas_ready(old(self)@, mouse),
        ensures
            final(self)@ == on_mouse(old(self)@, mouse),
            final(self).config == old(self).config,
    {
        if mouse.kind != MouseKind::LeftDown {
            return;
        }
        if let Some(tab_a) = self.tab_area {
            if mouse.row >= tab_a.y && mouse.row < tab_a.y + tab_a.height {
                let inner_x = mouse.column.saturating_sub(tab_a.x + 1);
                let inner_width = tab_a.width.saturating_sub(2);
                if inner_x >= inner_width {
                    return;
                }
                proof {
                    lemma_tab_layout();
                }
                let mut current_x: u16 = 0;
                let mut i: usize = 0;
                let mut hit: Option<usize> = None;
                while i < VIEW_COUNT
                    invariant
                        i <= VIEW_COUNT,
                        current_x == tab_start(i as int),
                        tab_hit(inner_x as int) == tab_hit_from(inner_x as int, i as int),
                        hit is None,
                    decreases VIEW_COUNT - i,
                {
                    let title = view_title(i);
                    let width = title.unicode_len() as u16;
                    proof {
                        lemma_title_widths();
                        assert(width == title_width(i as int));
                    }
                    let tab_right = current_x + 1 + width + 1;
                    if inner_x >= current_x && inner_x < tab_right {
                        hit = Some(i);
                        break;
                    }
                    current_x = tab_right + if i < VIEW_COUNT - 1 {
                        3
                    } else {
                        0
                    };
                    i = i + 1;
                }
                if let Some(j) = hit {
                    self.mode = ViewMode::from_index(j);
                    self.active_panel = 0;
                    return;
                }
            }
        }
        let ghost s0 = self@;
        let n = self.panel_areas.len();
        let mut i: usize = 0;
        while i < n
            invariant
                i <= n,
                n == self.panel_areas@.len(),
                self@ == s0,
                self.config == old(self).config,
                panel_hit_from(s0.panel_areas, mouse.column, mouse.row, 0) == panel_hit_from(
                    s0.panel_areas,
                    mouse.column,
                    mouse.row,
                    i as int,
                ),
                forall|j: int| 0 <= j < n ==> (#[trigger] s0.panel_areas[j]).wf(),
            decreases n - i,
        {
            let area = self.panel_areas[i];
            if area.contains(mouse.column, mouse.row) {
                let is_mongo_docs = self.mode == ViewMode::MongoExplorer && i == 2;
                self.active_panel = i;
                if let Some(_) = self.active_selection() {
                    let inner_y = mouse.row.saturating_sub(area.y).saturating_sub(1);
                    if is_mongo_docs && inner_y % 2 == 0 {
                        self.set_active_selection((inner_y / 2) as usize);
                    } else if !is_mongo_docs {
                        self.set_active_selection(inner_y as usize);
                    }
                }
                return;
            }
            i = i + 1;
        }
    }
}

// ---------------------------------------------------------------------------
// Laws
// ---------------------------------------------------------------------------
/// The key `t` without Shift.
pub open spec fn key_t() -> KeyInput {
    KeyInput { code: KeyCode::Char('t'), shift: false }
}

/// Cycling goes through the views in tab order and comes back to the first
/// view after the last; the tab index and the view agree.
pub proof fn law_cycle_follows_tabs(m: ViewMode)
    ensures
        mode_index(next_mode(m)) as int == (mode_index(m) as int + 1) % (VIEW_COUNT as int),
        mode_at(mode_index(m) as int) == m,
        next_mode(next_mode(next_mode(next_mode(next_mode(next_mode(next_mode(next_mode(m))))))))
            == m,
{
}

/// Outside filter editing, `t` shows the next view with its first panel focused.
pub proof fn law_t_cycles(s: AppView, doc: Option<Seq<char>>)
    requires
        !s.filter_mode,
    ensures
        on_key(s, key_t(), doc) == switched_to(s, next_mode(s.mode)),
{
}

/// Focusing the next panel and then the previous one comes back to the same panel.
pub proof fn law_next_then_prev_panel(s: AppView)
    requires
        app_wf(s),
    ensures
        after_prev_panel(after_next_panel(s)) == s,
{
    let c = panel_count(s.mode) as int;
    let a = s.active_panel as int;
    assert(0 <= a < c);
    if a + 1 < c {
        assert((a + 1) % c == a + 1) by (nonlinear_arith)
            requires
                0 <= a + 1 < c,
        ;
        assert((a + c) % c == a) by (nonlinear_arith)
            requires
                0 <= a < c,
        ;
    } else {
        assert((a + 1) % c == 0) by (nonlinear_arith)
            requires
                a + 1 == c,
                c > 0,
        ;
        assert((0 + c - 1) % c == c - 1) by (nonlinear_arith)
            requires
                c > 0,
        ;
    }
    assert(after_prev_panel(after_next_panel(s)) =~= s);
}

proof fn lemma_mod_below(a: int, c: int)
    requires
        c > 0,
        a >= 0,
    ensures
        0 <= a % c < c,
{
}

/// Every key keeps the focus on one of the view's panels.
pub proof fn law_key_keeps_wf(s: AppView, k: KeyInput, doc: Option<Seq<char>>)
    requires
        app_wf(s),
    ensures
        app_wf(on_key(s, k, doc)),
{
    let c = panel_count(s.mode) as int;
    lemma_mod_below(s.active_panel + 1, c);
    lemma_mod_below(s.active_panel + c - 1, c);
}

proof fn lemma_panel_hit_bounds(areas: Seq<Area>, column: u16, row: u16, i: int)
    requires
        0 <= i,
    ensures
        panel_hit_from(areas, column, row, i) matches Some(j) ==> i <= j < areas.len(),
    decreases areas.len() - i,
{
    if i < areas.len() && !areas[i].holds(column, row) {
        lemma_panel_hit_bounds(areas, column, row, i + 1);
    }
}

/// Every mouse event keeps the focus on one of the view's panels, when the
/// recorded panels are those of the current view.
pub proof fn law_mouse_keeps_wf(s: AppView, m: MouseInput)
    requires
        app_wf(s),
        s.panel_areas.len() <= panel_count(s.mode),
    ensures
        app_wf(on_mouse(s, m)),
{
    lemma_panel_hit_bounds(s.panel_areas, m.column, m.row, 0);
}

/// A key never makes the filter longer than the limit plus one character.
pub proof fn law_filter_stays_short(s: AppView, k: KeyInput, doc: Option<Seq<char>>)
    requires
        byte_len(s.filter_input) < FILTER_LIMIT + 4,
    ensures
        byte_len(on_key(s, k, doc).filter_input) < FILTER_LIMIT + 4,
{
    if s.filter_mode {
        if let KeyCode::Char(c) = k.code {
            crate::text::lemma_byte_len_push(s.filter_input, c);
            crate::text::lemma_char_width_bounds(c);
        }
        if k.code == KeyCode::Backspace && s.filter_input.len() > 0 {
            crate::text::lemma_byte_len_push(s.filter_input.drop_last(), s.filter_input.last());
            assert(s.filter_input.drop_last().push(s.filter_input.last()) =~= s.filter_input);
        }
        if k.code == KeyCode::Esc {
            assert(vstd::utf8::encode_utf8(Seq::<char>::empty()) =~= Seq::<u8>::empty());
        }
    }
}

/// While the filter is edited, Esc leaves the editing and clears the filter,
/// and Enter leaves the editing and keeps it.
pub proof fn law_filter_esc_and_enter(s: AppView, doc: Option<Seq<char>>)
    requires
        s.filter_mode,
    ensures
        !on_key(s, KeyInput { code: KeyCode::Esc, shift: false }, doc).filter_mode,
        on_key(s, KeyInput { code: KeyCode::Esc, shift: false }, doc).filter_input.len() == 0,
        !on_key(s, KeyInput { code: KeyCode::Enter, shift: false }, doc).filter_mode,
        on_key(s, KeyInput { code: KeyCode::Enter, shift: false }, doc).filter_input
            == s.filter_input,
{
}

/// Pressing `w` twice restores the state; so does pressing `?` twice when no
/// tooltip was open.
pub proof fn law_toggles_undo(s: AppView, doc: Option<Seq<char>>)
    requires
        !s.filter_mode,
    ensures
        on_key(
            on_key(s, KeyInput { code: KeyCode::Char('w'), shift: false }, doc),
            KeyInput { code: KeyCode::Char('w'), shift: false },
            doc,
        ) == s,
        s.tooltip is None ==> on_key(
            on_key(s, KeyInput { code: KeyCode::Char('?'), shift: false }, doc),
            KeyInput { code: KeyCode::Char('?'), shift: false },
            doc,
        ) == s,
{
    assert(on_key(
        on_key(s, KeyInput { code: KeyCode::Char('w'), shift: false }, doc),
        KeyInput { code: KeyCode::Char('w'), shift: false },
        doc,
    ) =~= s);
    if s.tooltip is None {
        assert(on_key(
            on_key(s, KeyInput { code: KeyCode::Char('?'), shift: false }, doc),
            KeyInput { code: KeyCode::Char('?'), shift: false },
            doc,
        ) =~= s);
    }
}

/// Scrolling an open document never goes past its last line.
pub proof fn law_scroll_bounded(s: AppView, k: KeyInput, doc: Option<Seq<char>>)
    requires
        !s.filter_mode,
        !k.shift,
        s.expanded_doc is Some,
        s.expanded_doc_scroll <= max_scroll(s.expanded_doc->0),
    ensures
        on_key(s, k, doc).expanded_doc is Some ==> on_key(s, k, doc).expanded_doc_scroll
            <= max_scroll(on_key(s, k, doc).expanded_doc->0),
{
}

/// A click inside the padded title of tab `i` finds tab `i`.
pub proof fn law_tab_hit(i: int, x: int)
    requires
        0 <= i < VIEW_COUNT,
        tab_start(i) <= x < tab_end(i),
    ensures
        tab_hit(x) == Some(i),
{
    lemma_tab_layout();
    reveal_with_fuel(tab_hit_from, 9);
}


/// With a document open (outside filter mode, without Shift), Down or `j`
/// scrolls exactly one line further down but no further than the document's
/// last line, and Up or `k` scrolls exactly one line up but no further than
/// the first; nothing else changes.
pub proof fn law_scroll_moves_one_line(s: AppView, k: KeyInput, doc: Option<Seq<char>>)
    requires
        !s.filter_mode,
        !k.shift,
        s.expanded_doc is Some,
        lines_of(s.expanded_doc->0).len() <= usize::MAX,
    ensures
        ({
            let last = lines_of(s.expanded_doc->0).len() - 1;
            let down = s.expanded_doc_scroll + 1;
            (k.code == KeyCode::Down || k.code == KeyCode::Char('j')) ==> on_key(s, k, doc) == (
            AppView {
                expanded_doc_scroll: (if down <= last {
                    down
                } else if last >= 0 {
                    last
                } else {
                    0
                }) as usize,
                ..s
            })
        }),
        (k.code == KeyCode::Up || k.code == KeyCode::Char('k')) ==> on_key(s, k, doc) == (AppView {
            expanded_doc_scroll: (if s.expanded_doc_scroll >= 1 {
                s.expanded_doc_scroll - 1
            } else {
                0
            }) as usize,
            ..s
        }),
{
}

proof fn lemma_first_hit(areas: Seq<Area>, column: u16, row: u16, i: int, j: int)
    requires
        0 <= j <= i < areas.len(),
        areas[i].holds(column, row),
        forall|h: int| 0 <= h < i ==> !(#[trigger] areas[h]).holds(column, row),
    ensures
        panel_hit_from(areas, column, row, j) == Some(i),
    decreases i - j,
{
    if j < i {
        lemma_first_hit(areas, column, row, i, j + 1);
    }
}

/// A left click that the tab bar does not take, on a panel that lists rows
/// in any view, focuses the first panel under the mouse and selects the
/// clicked row below its top border; in the MongoDB documents panel, where
/// every other row separates two documents, an even row selects half its
/// number and an odd row keeps the selection. The other panels' selections,
/// and those of the other views, stay as they were.
pub proof fn law_click_selects_row(s: AppView, m: MouseInput, i: usize)
    requires
        m.kind == MouseKind::LeftDown,
        !tab_bar_takes(s, m),
        i < s.panel_areas.len(),
        s.panel_areas[i as int].holds(m.column, m.row),
        forall|j: int| 0 <= j < i ==> !(#[trigger] s.panel_areas[j]).holds(m.column, m.row),
        selection(s.states, s.mode, i as int) is Some,
    ensures
        ({
            let t = on_mouse(s, m);
            let below = m.row - s.panel_areas[i as int].y - 1;
            let clicked = if below > 0 {
                below
            } else {
                0
            };
            let old_rows = selection_list(s.states, s.mode)->0;
            let docs = s.mode == ViewMode::MongoExplorer && i == 2;
            &&& t.active_panel == i
            &&& t.mode == s.mode
            &&& !docs ==> selection_list(t.states, s.mode) == Some(
                old_rows.update(i as int, clicked as usize),
            )
            &&& docs ==> selection_list(t.states, s.mode) == Some(
                if clicked % 2 == 0 {
                    old_rows.update(i as int, (clicked / 2) as usize)
                } else {
                    old_rows
                },
            )
            &&& forall|v: ViewMode|
                v != s.mode ==> #[trigger] selection_list(t.states, v) == selection_list(
                    s.states,
                    v,
                )
        }),
{
    lemma_first_hit(s.panel_areas, m.column, m.row, i as int, 0);
    let t = on_mouse(s, m);
    assert(t == clicked_panel(s, i as int, m.row));
    let area = s.panel_areas[i as int];
    let inner_y = sub_or_zero(sub_or_zero(m.row as int, area.y as int), 1);
    let below = m.row - s.panel_areas[i as int].y - 1;
    assert(inner_y == if below > 0 {
        below
    } else {
        0
    });
    let v = if s.mode == ViewMode::MongoExplorer && i == 2 {
        (inner_y / 2) as usize
    } else {
        inner_y as usize
    };
    lemma_with_selection(s.states, s.mode, i as int, v);
    let clicked = if below > 0 {
        below
    } else {
        0
    };
    let old_rows = selection_list(s.states, s.mode)->0;
    let docs = s.mode == ViewMode::MongoExplorer && i == 2;
    assert(t.active_panel == i);
    assert(t.mode == s.mode);
    if !docs {
        assert(t.states == with_selection(s.states, s.mode, i as int, v));
        assert(selection_list(t.states, s.mode) == Some(old_rows.update(i as int, clicked as usize)));
    } else if clicked % 2 == 0 {
        assert(t.states == with_selection(s.states, s.mode, i as int, v));
    } else {
        assert(t.states == s.states);
    }
}

proof fn lemma_with_selection(st: Selections, mode: ViewMode, i: int, v: usize)
    requires
        selection_list(st, mode) is Some,
    ensures
        selection_list(with_selection(st, mode, i, v), mode) == Some(
            selection_list(st, mode)->0.update(i, v),
        ),
        forall|w: ViewMode|
            w != mode ==> #[trigger] selection_list(with_selection(st, mode, i, v), w)
                == selection_list(st, w),
{
}


/// Outside filter mode and without Shift, Tab, Right or `l` moves the focus
/// to the next panel of the view and from the last back to the first; Left
/// or `h` moves it to the previous one and from the first to the last.
/// Nothing else changes.
pub proof fn law_focus_moves_one_panel(s: AppView, k: KeyInput, doc: Option<Seq<char>>)
    requires
        app_wf(s),
        !s.filter_mode,
        !k.shift,
    ensures
        (k.code == KeyCode::Tab || k.code == KeyCode::Right || k.code == KeyCode::Char('l'))
            ==> on_key(s, k, doc) == (AppView {
            active_panel: (if s.active_panel + 1 < panel_count(s.mode) {
                s.active_panel + 1
            } else {
                0
            }) as usize,
            ..s
        }),
        (k.code == KeyCode::Left || k.code == KeyCode::Char('h')) ==> on_key(s, k, doc) == (
        AppView {
            active_panel: (if s.active_panel > 0 {
                s.active_panel - 1
            } else {
                panel_count(s.mode) - 1
            }) as usize,
            ..s
        }),
{
    let c = panel_count(s.mode) as int;
    let a = s.active_panel as int;
    assert((a + 1) % c == if a + 1 < c {
        a + 1
    } else {
        0
    }) by (nonlinear_arith)
        requires
            0 <= a < c,
    ;
    assert((a + c - 1) % c == if a > 0 {
        a - 1
    } else {
        c - 1
    }) by (nonlinear_arith)
        requires
            0 <= a < c,
    ;
}

/// With no document open (outside filter mode, without Shift), Down or `j`
/// moves the focused list's selection one row down and Up or `k` one row up
/// (not below the first), leaving every other selection as it was; in a
/// panel that is no list nothing changes.
pub proof fn law_rows_move_one_step(s: AppView, k: KeyInput, doc: Option<Seq<char>>)
    requires
        !s.filter_mode,
        !k.shift,
        s.expanded_doc is None,
    ensures
        ({
            let p = s.active_panel as int;
            let down = k.code == KeyCode::Down || k.code == KeyCode::Char('j');
            let up = k.code == KeyCode::Up || k.code == KeyCode::Char('k');
            let t = on_key(s, k, doc);
            match selection(s.states, s.mode, p) {
                Some(v) => {
                    let rows = selection_list(s.states, s.mode)->0;
                    &&& down ==> t == (AppView {
                        states: with_selection(s.states, s.mode, p, if v < usize::MAX {
                            (v + 1) as usize
                        } else {
                            v
                        }),
                        ..s
                    })
                    &&& up ==> t == (AppView {
                        states: with_selection(s.states, s.mode, p, if v > 0 {
                            (v - 1) as usize
                        } else {
                            0
                        }),
                        ..s
                    })
                    &&& (down || up) ==> selection_list(t.states, s.mode)->0.len() == rows.len()
                        && forall|j: int|
                        0 <= j < rows.len() && j != p ==> #[trigger] selection_list(
                            t.states,
                            s.mode,
                        )->0[j] == rows[j]
                },
                None => (down || up) ==> t == s,
            }
        }),
{
    let p = s.active_panel as int;
    if selection(s.states, s.mode, p) is Some {
        let v = selection(s.states, s.mode, p)->0;
        let n = if v < usize::MAX {
            (v + 1) as usize
        } else {
            v
        };
        let d = if v > 0 {
            (v - 1) as usize
        } else {
            0
        };
        lemma_with_selection(s.states, s.mode, p, n);
        lemma_with_selection(s.states, s.mode, p, d);
    }
}

} // verus!
