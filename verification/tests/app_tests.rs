use vigil::collectors::state::AppState;
use vigil::config::{AppConfig, CliArgs, Config};
use vigil::tui::app::{
    App, Area, KeyCode, KeyInput, MouseInput, MouseKind, ViewMode,
};

fn config() -> Config {
    let cli = CliArgs {
        redis: None,
        mongodb: None,
        kafka: None,
        rabbitmq: None,
        influxdb: None,
        influxdb_token: None,
        trace_id: None,
    };
    Config::resolve(cli, AppConfig::default())
}

fn key(c: char) -> KeyInput {
    KeyInput { code: KeyCode::Char(c), shift: false }
}

fn shift(c: char) -> KeyInput {
    KeyInput { code: KeyCode::Char(c), shift: true }
}

fn code(k: KeyCode) -> KeyInput {
    KeyInput { code: k, shift: false }
}

fn click(column: u16, row: u16) -> MouseInput {
    MouseInput { kind: MouseKind::LeftDown, column, row }
}

fn mongo_data() -> AppState {
    let mut d = AppState::default();
    d.mongo_dbs = vec!["admin".to_string(), "shop".to_string()];
    d.mongo_collections.insert("shop".to_string(), vec!["orders".to_string(), "users".to_string()]);
    d.mongo_docs.insert(
        ("shop".to_string(), "users".to_string()),
        vec!["{\n \"name\": \"ann\"\n}".to_string(), "{\"name\": \"bob\"}".to_string()],
    );
    d
}

#[test]
fn starts_on_the_dashboard() {
    let app = App::new(config());
    assert_eq!(app.mode, ViewMode::Dashboard);
    assert!(app.running);
    assert_eq!(app.active_panel, 0);
    assert_eq!(app.dashboard_collapsed, [false; 7]);
    assert!(app.panel_areas.is_empty());
}

#[test]
fn t_cycles_through_all_views_and_back() {
    let mut app = App::new(config());
    let data = AppState::default();
    let order = [
        ViewMode::Topology,
        ViewMode::Gantt,
        ViewMode::RedisExplorer,
        ViewMode::RedisStreams,
        ViewMode::MongoExplorer,
        ViewMode::KafkaViewer,
        ViewMode::RabbitMQViewer,
        ViewMode::Dashboard,
    ];
    for (i, m) in order.iter().enumerate() {
        app.handle_key(key('t'), &data);
        assert_eq!(app.mode, *m);
        assert_eq!(app.mode.index(), (i + 1) % 8);
        assert_eq!(app.active_panel, 0);
    }
}

#[test]
fn shift_letters_jump_to_views() {
    let mut app = App::new(config());
    let data = AppState::default();
    for (c, m) in [
        ('R', ViewMode::RedisExplorer),
        ('M', ViewMode::MongoExplorer),
        ('S', ViewMode::RedisStreams),
        ('K', ViewMode::KafkaViewer),
        ('O', ViewMode::RabbitMQViewer),
        ('T', ViewMode::Topology),
        ('G', ViewMode::Gantt),
        ('D', ViewMode::Dashboard),
    ]
    .iter()
    {
        app.active_panel = 0;
        app.handle_key(shift(*c), &data);
        assert_eq!(app.mode, *m);
    }
    app.handle_key(shift('q'), &data);
    assert!(app.running);
}

#[test]
fn panels_wrap_in_both_directions() {
    let mut app = App::new(config());
    let data = AppState::default();
    app.handle_key(shift('R'), &data);
    app.handle_key(code(KeyCode::Tab), &data);
    app.handle_key(key('l'), &data);
    assert_eq!(app.active_panel, 2);
    app.handle_key(code(KeyCode::Right), &data);
    assert_eq!(app.active_panel, 0);
    app.handle_key(code(KeyCode::Left), &data);
    assert_eq!(app.active_panel, 2);
    app.handle_key(KeyInput { code: KeyCode::BackTab, shift: true }, &data);
    assert_eq!(app.active_panel, 1);
    app.handle_key(key('h'), &data);
    assert_eq!(app.active_panel, 0);
}

#[test]
fn items_move_and_stop_at_the_top() {
    let mut app = App::new(config());
    let data = AppState::default();
    app.handle_key(shift('K'), &data);
    app.handle_key(key('j'), &data);
    app.handle_key(code(KeyCode::Down), &data);
    assert_eq!(app.states.kafka_viewer, [2, 0]);
    app.handle_key(key('k'), &data);
    app.handle_key(code(KeyCode::Up), &data);
    app.handle_key(code(KeyCode::Up), &data);
    assert_eq!(app.states.kafka_viewer, [0, 0]);
    // The dashboard has no lists: nothing moves.
    app.handle_key(shift('D'), &data);
    app.handle_key(key('j'), &data);
    assert_eq!(app.states.kafka_viewer, [0, 0]);
}

#[test]
fn filter_editing() {
    let mut app = App::new(config());
    let data = AppState::default();
    app.handle_key(key('/'), &data);
    assert!(app.filter_mode);
    for c in "Ab".chars() {
        app.handle_key(key(c), &data);
    }
    // Letters are typed into the filter, not taken as commands.
    app.handle_key(key('q'), &data);
    assert!(app.running);
    assert_eq!(app.filter_input, "Abq");
    app.handle_key(code(KeyCode::Backspace), &data);
    assert_eq!(app.filter_input, "Ab");
    app.handle_key(code(KeyCode::Enter), &data);
    assert!(!app.filter_mode);
    assert_eq!(app.filter_input, "Ab");
    app.handle_key(key('f'), &data);
    app.handle_key(code(KeyCode::Esc), &data);
    assert!(!app.filter_mode);
    assert_eq!(app.filter_input, "");
    app.handle_key(key('f'), &data);
    app.handle_key(code(KeyCode::Backspace), &data);
    assert_eq!(app.filter_input, "");
}

#[test]
fn filter_stops_at_sixty_four_bytes() {
    let mut app = App::new(config());
    let data = AppState::default();
    app.handle_key(key('f'), &data);
    for _ in 0..63 {
        app.handle_key(key('x'), &data);
    }
    app.handle_key(key('é'), &data);
    assert_eq!(app.filter_input.len(), 65);
    app.handle_key(key('y'), &data);
    assert_eq!(app.filter_input.len(), 65);
}

#[test]
fn help_wrap_collapse_and_quit() {
    let mut app = App::new(config());
    let data = AppState::default();
    app.handle_key(key('?'), &data);
    assert!(app.tooltip.as_deref().unwrap().starts_with("Help:\n  Tab/Shift+Tab"));
    app.handle_key(key('?'), &data);
    assert_eq!(app.tooltip, None);
    app.handle_key(key('?'), &data);
    app.handle_key(code(KeyCode::Esc), &data);
    assert_eq!(app.tooltip, None);
    app.handle_key(key('w'), &data);
    assert!(app.wrap_enabled);
    app.handle_key(key('w'), &data);
    assert!(!app.wrap_enabled);
    app.handle_key(code(KeyCode::Tab), &data);
    app.handle_key(key('c'), &data);
    assert_eq!(app.dashboard_collapsed, [false, true, false, false, false, false, false]);
    app.handle_key(key('c'), &data);
    assert_eq!(app.dashboard_collapsed, [false; 7]);
    app.handle_key(key('q'), &data);
    assert!(!app.running);
}

#[test]
fn enter_opens_the_selected_document_and_scrolls() {
    let mut app = App::new(config());
    let data = mongo_data();
    app.handle_key(shift('M'), &data);
    app.states.mongo_explorer = [9, 1, 0];
    // Enter only acts on the documents panel.
    app.handle_key(code(KeyCode::Enter), &data);
    assert_eq!(app.expanded_doc, None);
    app.active_panel = 2;
    app.handle_key(code(KeyCode::Enter), &data);
    assert_eq!(app.expanded_doc.as_deref(), Some("{\n \"name\": \"ann\"\n}"));
    app.handle_key(key('j'), &data);
    app.handle_key(key('j'), &data);
    app.handle_key(key('j'), &data);
    assert_eq!(app.expanded_doc_scroll, 2);
    app.handle_key(code(KeyCode::Up), &data);
    assert_eq!(app.expanded_doc_scroll, 1);
    // Selections do not move while a document is open.
    assert_eq!(app.states.mongo_explorer, [9, 1, 0]);
    app.handle_key(code(KeyCode::Enter), &data);
    assert_eq!(app.expanded_doc, None);
    app.handle_key(code(KeyCode::Enter), &data);
    app.handle_key(code(KeyCode::Esc), &data);
    assert_eq!(app.expanded_doc, None);
    assert_eq!(app.expanded_doc_scroll, 0);
}

#[test]
fn enter_with_nothing_to_open() {
    let mut app = App::new(config());
    let data = AppState::default();
    app.handle_key(shift('M'), &data);
    app.active_panel = 2;
    app.handle_key(code(KeyCode::Enter), &data);
    assert_eq!(app.expanded_doc, None);
}

fn tab_bar() -> Area {
    Area { x: 0, y: 0, width: 120, height: 3 }
}

#[test]
fn clicking_tabs() {
    let mut app = App::new(config());
    app.tab_area = Some(tab_bar());
    // Tab bar inside starts at column 1; "Redis" is tab 3 at [37, 44).
    app.handle_mouse(click(1 + 37, 1));
    assert_eq!(app.mode, ViewMode::RedisExplorer);
    app.handle_mouse(click(1 + 43, 0));
    assert_eq!(app.mode, ViewMode::RedisExplorer);
    // On a divider: nothing.
    app.handle_mouse(click(1 + 45, 1));
    assert_eq!(app.mode, ViewMode::RedisExplorer);
    app.handle_mouse(click(1 + 90, 2));
    assert_eq!(app.mode, ViewMode::RabbitMQViewer);
    app.handle_mouse(click(1 + 0, 1));
    assert_eq!(app.mode, ViewMode::Dashboard);
    // Right border: ignored.
    app.handle_mouse(click(119, 1));
    assert_eq!(app.mode, ViewMode::Dashboard);
    // Other buttons: ignored.
    app.handle_mouse(MouseInput { kind: MouseKind::Other, column: 1 + 15, row: 1 });
    assert_eq!(app.mode, ViewMode::Dashboard);
    app.handle_mouse(click(1 + 15, 1));
    assert_eq!(app.mode, ViewMode::Topology);
}

#[test]
fn clicking_panels_selects_rows() {
    let mut app = App::new(config());
    app.mode = ViewMode::MongoExplorer;
    app.tab_area = Some(tab_bar());
    app.panel_areas = vec![
        Area { x: 0, y: 3, width: 20, height: 20 },
        Area { x: 20, y: 3, width: 30, height: 20 },
        Area { x: 50, y: 3, width: 50, height: 20 },
    ];
    app.handle_mouse(click(5, 3 + 1 + 4));
    assert_eq!(app.active_panel, 0);
    assert_eq!(app.states.mongo_explorer, [4, 0, 0]);
    // Documents panel: even rows are documents, odd rows separators.
    app.handle_mouse(click(60, 3 + 1 + 6));
    assert_eq!(app.active_panel, 2);
    assert_eq!(app.states.mongo_explorer, [4, 0, 3]);
    app.handle_mouse(click(60, 3 + 1 + 5));
    assert_eq!(app.states.mongo_explorer, [4, 0, 3]);
    // Outside every panel: nothing changes.
    app.handle_mouse(click(110, 10));
    assert_eq!(app.active_panel, 2);
    // On the top border the row is the first one.
    app.handle_mouse(click(25, 3));
    assert_eq!(app.active_panel, 1);
    assert_eq!(app.states.mongo_explorer, [4, 0, 3]);
}

#[test]
fn clicking_dashboard_panels_only_focuses() {
    let mut app = App::new(config());
    app.panel_areas = (0..7).map(|i| Area { x: i * 10, y: 3, width: 10, height: 5 }).collect();
    app.handle_mouse(click(65, 4));
    assert_eq!(app.active_panel, 6);
}

#[test]
fn keys_other_than_c_accept_any_focus() {
    let data = AppState::default();
    let mut app = App::new(config());
    app.active_panel = 100;
    app.handle_key(code(KeyCode::Tab), &data);
    assert_eq!(app.active_panel, 3);
    app.active_panel = 100;
    app.handle_key(key('h'), &data);
    assert_eq!(app.active_panel, 1);
    app.active_panel = 100;
    app.handle_key(key('q'), &data);
    assert!(!app.running);
    assert_eq!(app.active_panel, 100);
}

#[test]
fn laying_out_records_the_view_panels() {
    let mut app = App::new(config());
    let screen = Area { x: 0, y: 0, width: 100, height: 30 };
    let rows = app.lay_out(screen);
    assert_eq!(rows, vec![
        Area { x: 0, y: 0, width: 100, height: 3 },
        Area { x: 0, y: 3, width: 100, height: 26 },
        Area { x: 0, y: 29, width: 100, height: 1 },
    ]);
    assert_eq!(app.tab_area, Some(rows[0]));
    assert_eq!(app.panel_areas.len(), 7);
    assert!(app.panel_areas.iter().all(|a| a.y >= 3 && a.y + a.height <= 29));
    app.handle_key(shift('R'), &AppState::default());
    app.lay_out(screen);
    assert_eq!(app.panel_areas, vec![
        Area { x: 0, y: 3, width: 20, height: 26 },
        Area { x: 20, y: 3, width: 30, height: 26 },
        Area { x: 50, y: 3, width: 50, height: 26 },
    ]);
    app.handle_mouse(click(25, 10));
    assert_eq!(app.active_panel, 1);
    app.handle_key(shift('T'), &AppState::default());
    app.lay_out(screen);
    assert_eq!(app.panel_areas, vec![rows[1]]);
}
