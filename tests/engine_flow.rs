use scout::{
    Application, CacheKey, Command, DrillContent, Engine, JsonNumber, JsonValue, Key, Options,
    Tab,
};

fn text(s: &str) -> JsonValue {
    JsonValue::Str(s.to_string())
}

fn num(n: i64) -> JsonValue {
    JsonValue::Number(JsonNumber { text: n.to_string(), milli: n * 1000 })
}

fn obj(members: Vec<(&str, JsonValue)>) -> JsonValue {
    JsonValue::Object(members.into_iter().map(|(k, v)| (k.to_string(), v)).collect())
}

fn app(id: u64, name: &str) -> Application {
    Application { id, name: name.to_string(), last_reported_at: String::new() }
}

fn picker_opts() -> Options {
    Options { app: None, tab: Tab::Endpoints, refresh_secs: 0, use_utc: true }
}

fn fetch_of(cmds: &[Command]) -> Option<(u64, CacheKey)> {
    cmds.iter().find_map(|c| match c {
        Command::Fetch { ticket, key } => Some((*ticket, *key)),
        _ => None,
    })
}

#[test]
fn shop_scenario_end_to_end() {
    let (mut e, cmds) = Engine::new(vec![app(1, "Shop")], &picker_opts(), 0);
    assert!(cmds.is_empty());
    e.type_char('s', 1000);
    e.type_char('h', 1010);
    assert!(e.tick(1100).is_empty());
    assert_eq!(e.search.committed, "");
    e.tick(1210);
    assert_eq!(e.search.committed, "sh");
    let screen = e.screen();
    assert_eq!(screen.rows, vec!["1  Shop".to_string()]);

    let cmds = e.handle_key(Key::Enter, 1300);
    assert_eq!(cmds.len(), 1);
    let (t0, key) = fetch_of(&cmds).unwrap();
    assert_eq!(key, CacheKey { app_id: 1, tab: Tab::Endpoints });
    assert_eq!(e.screen().breadcrumb, vec!["Shop".to_string(), "Endpoints".to_string()]);

    let payload = obj(vec![("endpoints", JsonValue::Array(vec![obj(vec![("name", text("GET /cart"))])]))]);
    e.complete_load(t0, key, Ok(payload));
    assert_eq!(e.screen().rows, vec!["GET /cart".to_string()]);

    let cmds = e.handle_key(Key::Right, 1400);
    assert_eq!(e.tab, Tab::Insights);
    let (t1, key1) = fetch_of(&cmds).unwrap();
    assert_eq!(key1, CacheKey { app_id: 1, tab: Tab::Insights });
    assert!(e.slots[Tab::Endpoints.index()].data.is_some());
    assert_eq!(e.busy(), 1);

    let cmds = e.handle_key(Key::Esc, 1500);
    assert!(e.current.is_none());
    assert!(matches!(cmds.as_slice(), [Command::Abort { ticket }] if *ticket == t1));
    for slot in e.slots.iter() {
        assert!(slot.data.is_none() && slot.pending.is_none() && slot.error.is_none());
    }
    assert_eq!(e.search.pending, "");
    assert_eq!(e.search.committed, "");
    assert_eq!(e.screen().breadcrumb, vec!["Select app".to_string()]);
}

#[test]
fn revisiting_a_loaded_tab_does_not_fetch_again() {
    let opts = Options { app: Some("shop".to_string()), tab: Tab::Endpoints, refresh_secs: 0, use_utc: true };
    let (mut e, cmds) = Engine::new(vec![app(7, "Shop")], &opts, 0);
    let (t0, key) = fetch_of(&cmds).unwrap();
    assert_eq!(key, CacheKey { app_id: 7, tab: Tab::Endpoints });
    e.complete_load(t0, key, Ok(JsonValue::Array(vec![])));
    let cmds = e.handle_key(Key::Left, 10);
    assert_eq!(e.tab, Tab::Errors);
    assert!(fetch_of(&cmds).is_some());
    let cmds = e.handle_key(Key::Right, 20);
    assert_eq!(e.tab, Tab::Endpoints);
    assert!(cmds.is_empty());
}

#[test]
fn stale_result_is_discarded_after_switching_apps() {
    let (mut e, _) = Engine::new(vec![app(1, "Shop"), app(2, "Blog")], &picker_opts(), 0);
    let cmds = e.handle_key(Key::Enter, 0);
    let (t_old, key_old) = fetch_of(&cmds).unwrap();
    e.handle_key(Key::Esc, 1);
    e.handle_key(Key::Down, 2);
    let cmds = e.handle_key(Key::Enter, 3);
    let (t_new, key_new) = fetch_of(&cmds).unwrap();
    assert_eq!(key_new.app_id, 2);
    assert_ne!(t_old, t_new);
    let payload = JsonValue::Array(vec![obj(vec![("name", text("old"))])]);
    e.complete_load(t_old, key_old, Ok(payload));
    assert!(e.slots[0].data.is_none());
    assert!(e.slots[0].pending == Some(t_new));
    e.complete_load(t_new, key_new, Err("boom".to_string()));
    assert_eq!(e.screen().text, Some("Error: boom".to_string()));
}

#[test]
fn second_metric_request_supersedes_the_first() {
    let opts = Options { app: Some("1".to_string()), tab: Tab::Metrics, refresh_secs: 0, use_utc: true };
    let (mut e, cmds) = Engine::new(vec![app(1, "Shop")], &opts, 0);
    let (t0, key) = fetch_of(&cmds).unwrap();
    let names = JsonValue::Array(vec![text("throughput"), text("apdex")]);
    e.complete_load(t0, key, Ok(names));
    assert_eq!(e.screen().rows, vec!["throughput".to_string(), "apdex".to_string()]);

    let cmds = e.handle_key(Key::Enter, 1);
    let first = match cmds.as_slice() {
        [Command::FetchSeries { ticket, app_id: 1, metric_type }] if metric_type == "throughput" => *ticket,
        other => panic!("unexpected commands {:?}", other),
    };
    assert!(matches!(e.drill.as_ref().unwrap().content, DrillContent::Loading));
    e.handle_key(Key::Esc, 2);
    e.handle_key(Key::Down, 3);
    let cmds = e.handle_key(Key::Enter, 4);
    let second = match cmds.as_slice() {
        [Command::FetchSeries { ticket, metric_type, .. }] if metric_type == "apdex" => *ticket,
        other => panic!("unexpected commands {:?}", other),
    };
    e.complete_series(first, Ok(JsonValue::Array(vec![])));
    assert!(matches!(e.drill.as_ref().unwrap().content, DrillContent::Loading));
    e.complete_series(second, Err("timeout".to_string()));
    match &e.drill.as_ref().unwrap().content {
        DrillContent::Preformatted(t) => assert_eq!(t, "Error: timeout"),
        _ => panic!("series error not shown"),
    }
}

#[test]
fn closing_a_pending_series_aborts_it() {
    let opts = Options { app: Some("1".to_string()), tab: Tab::Metrics, refresh_secs: 0, use_utc: true };
    let (mut e, cmds) = Engine::new(vec![app(1, "Shop")], &opts, 0);
    let (t0, key) = fetch_of(&cmds).unwrap();
    e.complete_load(t0, key, Ok(JsonValue::Array(vec![text("errors")])));
    e.handle_key(Key::Enter, 1);
    let first = e.series_ticket.unwrap();
    let cmds = e.handle_key(Key::Left, 2);
    assert!(matches!(cmds.as_slice(), [Command::Abort { ticket }] if *ticket == first));
    assert!(e.drill.is_none());
    e.complete_series(first, Ok(JsonValue::Array(vec![])));
    assert!(e.drill.is_none());
}

#[test]
fn cursor_stays_within_the_list_after_reload() {
    let opts = Options { app: Some("1".to_string()), tab: Tab::Errors, refresh_secs: 1, use_utc: true };
    let (mut e, cmds) = Engine::new(vec![app(1, "Shop")], &opts, 0);
    let (t0, key) = fetch_of(&cmds).unwrap();
    let three = JsonValue::Array(vec![
        obj(vec![("message", text("a")), ("last_seen", text("2024-01-03"))]),
        obj(vec![("message", text("b")), ("last_seen", text("2024-01-02"))]),
        obj(vec![("message", text("c")), ("last_seen", text("2024-01-01"))]),
    ]);
    e.complete_load(t0, key, Ok(three));
    e.handle_key(Key::Down, 1);
    e.handle_key(Key::Char('j'), 2);
    e.handle_key(Key::Down, 3);
    assert_eq!(e.selected, 2);
    let cmds = e.tick(1000);
    let (t1, key) = fetch_of(&cmds).unwrap();
    e.complete_load(t1, key, Ok(JsonValue::Array(vec![obj(vec![("message", text("only"))])])));
    assert_eq!(e.selected, 0);
    e.handle_key(Key::Up, 1001);
    assert_eq!(e.selected, 0);
}

#[test]
fn refresh_waits_for_its_interval() {
    let opts = Options { app: Some("1".to_string()), tab: Tab::Endpoints, refresh_secs: 5, use_utc: true };
    let (mut e, cmds) = Engine::new(vec![app(1, "Shop")], &opts, 100);
    let (t0, key) = fetch_of(&cmds).unwrap();
    e.complete_load(t0, key, Ok(JsonValue::Array(vec![])));
    assert!(e.tick(5099).is_empty());
    let cmds = e.tick(5100);
    assert_eq!(fetch_of(&cmds).map(|(_, k)| k), Some(CacheKey { app_id: 1, tab: Tab::Endpoints }));
    assert!(e.tick(10099).is_empty());
}

#[test]
fn record_drill_shows_detail_and_closes() {
    let opts = Options { app: Some("1".to_string()), tab: Tab::Errors, refresh_secs: 0, use_utc: true };
    let (mut e, cmds) = Engine::new(vec![app(1, "Shop")], &opts, 0);
    let (t0, key) = fetch_of(&cmds).unwrap();
    e.complete_load(t0, key, Ok(JsonValue::Array(vec![obj(vec![("message", text("oops")), ("count", num(3))])])));
    e.handle_key(Key::Enter, 1);
    let s = e.screen();
    assert_eq!(s.breadcrumb.last().unwrap(), "Error #1");
    assert_eq!(s.text.unwrap(), "  count    3\n  message  oops\n");
    e.handle_key(Key::Char('h'), 2);
    assert!(e.drill.is_none());
    assert_eq!(e.tab, Tab::Errors);
}

#[test]
fn quit_key_asks_to_quit() {
    let (mut e, _) = Engine::new(vec![app(1, "Shop")], &picker_opts(), 0);
    let cmds = e.handle_key(Key::Char('q'), 0);
    assert!(matches!(cmds.as_slice(), [Command::Quit]));
}

#[test]
fn confirming_in_an_empty_picker_does_nothing() {
    let (mut e, _) = Engine::new(vec![], &picker_opts(), 0);
    assert!(e.handle_key(Key::Enter, 0).is_empty());
    assert!(e.current.is_none());
    e.handle_key(Key::Down, 1);
    assert_eq!(e.app_selected, 0);
    assert_eq!(e.screen().rows.len(), 0);
    assert_eq!(e.screen().title, " Select an app (Enter to open, type to search) ");
}

#[test]
fn no_fetch_once_tickets_run_out() {
    let (mut e, _) = Engine::new(vec![app(1, "Shop")], &picker_opts(), 0);
    e.next_ticket = u64::MAX;
    let cmds = e.handle_key(Key::Enter, 0);
    assert!(cmds.is_empty());
    assert!(e.current.is_some());
    assert!(e.slots.iter().all(|s| s.pending.is_none()));
}

#[test]
fn picker_title_shows_the_filter() {
    let (mut e, _) = Engine::new(vec![app(1, "Shop"), app(2, "Blog")], &picker_opts(), 0);
    e.handle_key(Key::Char('b'), 0);
    e.tick(500);
    let s = e.screen();
    assert_eq!(s.title, " Select an app \u{2014} filter: \"b\" (Enter to open) ");
    assert_eq!(s.rows, vec!["2  Blog".to_string()]);
    e.handle_key(Key::Backspace, 600);
    e.tick(900);
    assert_eq!(e.screen().rows.len(), 2);
}

#[test]
fn loading_tab_shows_a_wait_message() {
    let opts = Options { app: Some("1".to_string()), tab: Tab::Insights, refresh_secs: 0, use_utc: true };
    let (e, _) = Engine::new(vec![app(1, "Shop")], &opts, 0);
    let s = e.screen();
    assert!(s.text.unwrap().starts_with("\u{27f3}  Loading insights\u{2026}"));
    assert_eq!(s.busy, 1);
    assert_eq!(s.title, " Insights ");
}
