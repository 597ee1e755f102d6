use scoreboard::model::{Competition, Event, Status, StatusType};
use scoreboard::state::{App, Key, Update};

fn status(state: &str, clock: &str) -> Status {
    Status {
        period: 1,
        display_clock: clock.to_string(),
        type_field: StatusType {
            state: state.to_string(),
            short_detail: String::new(),
            description: String::new(),
            detail: String::new(),
        },
    }
}

fn game(name: &str, state: &str) -> Event {
    Event {
        short_name: name.to_string(),
        competitions: vec![Competition {
            competitors: Vec::new(),
            status: status(state, "0:00"),
            situation: None,
            broadcasts: None,
        }],
        status: status(state, "0:00"),
    }
}

fn app_with(names_states: &[(&str, &str)]) -> App {
    let mut app = App::new();
    app.events = names_states.iter().map(|(n, s)| game(n, s)).collect();
    app
}

#[test]
fn next_then_previous_is_identity() {
    let mut app = app_with(&[("a", "pre"), ("b", "in"), ("c", "post")]);
    app.selected = Some(1);
    app.next();
    app.previous();
    assert_eq!(app.selected, Some(1));
}

#[test]
fn next_then_previous_is_identity_at_last() {
    let mut app = app_with(&[("a", "pre"), ("b", "in"), ("c", "post")]);
    app.selected = Some(2);
    app.next();
    assert_eq!(app.selected, Some(0));
    app.previous();
    assert_eq!(app.selected, Some(2));
}

#[test]
fn ring_closes_after_length_steps() {
    let mut app = app_with(&[("a", "pre"), ("b", "in"), ("c", "post"), ("d", "in")]);
    app.selected = Some(2);
    let n = app.filtered_events().len();
    assert_eq!(n, 4);
    for _ in 0..n {
        app.next();
    }
    assert_eq!(app.selected, Some(2));
}

#[test]
fn ring_closes_on_filtered_view() {
    let mut app = app_with(&[("a", "pre"), ("b", "in"), ("c", "post"), ("d", "in")]);
    app.filter_live = true;
    app.selected = Some(1);
    let n = app.filtered_events().len();
    assert_eq!(n, 2);
    for _ in 0..n {
        app.next();
    }
    assert_eq!(app.selected, Some(1));
}

#[test]
fn navigation_on_empty_view_is_noop() {
    let mut app = app_with(&[("a", "pre")]);
    app.filter_live = true;
    app.selected = Some(0);
    assert!(app.filtered_events().is_empty());
    app.next();
    assert_eq!(app.selected, Some(0));
    app.previous();
    assert_eq!(app.selected, Some(0));
}

#[test]
fn toggle_filter_resets_selection() {
    let mut app = app_with(&[("a", "in"), ("b", "in"), ("c", "in")]);
    app.selected = Some(2);
    app.toggle_live_filter();
    assert!(app.filter_live);
    assert_eq!(app.selected, Some(0));
    app.selected = Some(1);
    app.toggle_live_filter();
    assert!(!app.filter_live);
    assert_eq!(app.selected, Some(0));
}

#[test]
fn filtered_view_keeps_only_live_games() {
    let mut app = app_with(&[("a", "pre"), ("b", "in"), ("c", "post"), ("d", "in")]);
    let all: Vec<&str> = app.filtered_events().iter().map(|e| e.short_name.as_str()).collect();
    assert_eq!(all, vec!["a", "b", "c", "d"]);
    app.filter_live = true;
    let live: Vec<&str> = app.filtered_events().iter().map(|e| e.short_name.as_str()).collect();
    assert_eq!(live, vec!["b", "d"]);
}

#[test]
fn empty_snapshot_keeps_existing_events() {
    let mut app = app_with(&[("a", "in"), ("b", "pre")]);
    app.apply_update(Update::Snapshot(Vec::new()));
    assert_eq!(app.events.len(), 2);
    assert_eq!(app.events[0].short_name, "a");
    assert_eq!(app.events[1].short_name, "b");
}

#[test]
fn nonempty_snapshot_replaces_events_and_keeps_selection() {
    let mut app = app_with(&[("a", "in"), ("b", "pre")]);
    app.selected = Some(1);
    app.apply_update(Update::Snapshot(vec![game("x", "in"), game("y", "in"), game("z", "pre")]));
    assert_eq!(app.events.len(), 3);
    assert_eq!(app.events[0].short_name, "x");
    assert_eq!(app.selected, Some(1));
}

#[test]
fn on_key_bindings() {
    let mut app = app_with(&[("a", "in"), ("b", "in")]);
    app.selected = Some(0);
    app.on_key('j');
    assert_eq!(app.selected, Some(1));
    app.on_key('k');
    assert_eq!(app.selected, Some(0));
    app.on_key('l');
    assert!(app.filter_live);
    assert_eq!(app.selected, Some(0));
    app.on_key('x');
    assert!(app.filter_live);
    assert!(!app.should_quit);
    app.on_key('q');
    assert!(app.should_quit);
}

#[test]
fn handle_key_bindings() {
    let mut app = app_with(&[("a", "in"), ("b", "in")]);
    app.selected = Some(0);
    app.handle_key(Key::Down);
    assert_eq!(app.selected, Some(1));
    app.handle_key(Key::Up);
    assert_eq!(app.selected, Some(0));
    app.handle_key(Key::Char('l'));
    assert!(!app.show_logos);
    app.handle_key(Key::Char('f'));
    assert!(app.filter_live);
    assert_eq!(app.selected, Some(0));
    app.handle_key(Key::Char('q'));
    assert!(app.should_quit);
}

#[test]
fn fresh_app_defaults() {
    let app = App::new();
    assert!(!app.should_quit);
    assert!(app.events.is_empty());
    assert_eq!(app.selected, Some(0));
    assert!(!app.filter_live);
    assert!(app.show_logos);
}
