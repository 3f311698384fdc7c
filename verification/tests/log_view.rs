use focustrace::event::FocusEvent;
use focustrace::order::{sort_shown, SortKey};
use focustrace::settings::{SearchScope, Settings};
use focustrace::timestamp::Timestamp;
use focustrace::tray::MenuAction;
use focustrace::view::{row_texts, scope_label, transition_label, AppState, MenuEffect, Tab};

fn event(id: i64, secs: i64, app: &str, title: &str, prev: &str) -> FocusEvent {
    FocusEvent {
        id,
        ts: Timestamp { secs, nanos: 0 },
        app_name: app.to_string(),
        bundle_id: format!("com.example.{}", app.to_lowercase()),
        window_title: title.to_string(),
        previous_app: prev.to_string(),
    }
}

fn sample() -> Vec<FocusEvent> {
    vec![
        event(5, 1_700_000_500, "Safari", "Rust docs", "Mail"),
        event(4, 1_700_000_400, "Mail", "Inbox", "Terminal"),
        event(3, 1_700_000_300, "Terminal", "cargo build", "Safari"),
        event(2, 1_700_000_200, "Safari", "News", ""),
        event(1, 1_600_000_100, "Notes", "", "Safari"),
    ]
}

fn state(search: &str, scope: SearchScope, sort: Option<(SortKey, bool)>) -> AppState {
    let mut s = AppState::new(sample(), Settings::default());
    s.search = search.to_string();
    s.search_scope = scope;
    s.sort = sort;
    s
}

fn ids(s: &AppState) -> Vec<i64> {
    s.filtered_sorted().iter().map(|e| e.id).collect()
}

#[test]
fn new_state() {
    let settings = Settings {
        autostart: true,
        search_scope: SearchScope::Title,
        show_tray: false,
        start_minimized: false,
    };
    let s = AppState::new(sample(), settings);
    assert_eq!(s.events.len(), 5);
    assert_eq!(s.search, "");
    assert_eq!(s.search_scope, SearchScope::Title);
    assert_eq!(s.sort, None);
    assert_eq!(s.tab, Tab::Logs);
    assert_eq!(s.settings, settings);
    assert!(!s.quitting && !s.paused && !s.window_hidden);
}

#[test]
fn start_minimized_hides_the_window_at_start() {
    let settings = Settings { start_minimized: true, ..Settings::default() };
    let mut s = AppState::new(sample(), settings);
    assert!(s.window_hidden);
    assert!(s.reopen_requested(true));
    assert!(!s.window_hidden);
    let s = AppState::new(sample(), Settings::default());
    assert!(!s.window_hidden);
}

#[test]
fn empty_search_shows_everything_in_log_order() {
    for scope in [SearchScope::All, SearchScope::Time, SearchScope::App, SearchScope::Title, SearchScope::Prev] {
        assert_eq!(ids(&state("", scope, None)), vec![5, 4, 3, 2, 1]);
    }
    assert_eq!(state("", SearchScope::All, None).visible_indices(), vec![0, 1, 2, 3, 4]);
}

#[test]
fn search_ignores_case() {
    assert_eq!(ids(&state("SAFARI", SearchScope::App, None)), vec![5, 2]);
    assert_eq!(ids(&state("inBOX", SearchScope::Title, None)), vec![4]);
}

#[test]
fn search_scopes() {
    // "safari" is an app, a previous app and part of a bundle id.
    assert_eq!(ids(&state("safari", SearchScope::All, None)), vec![5, 3, 2, 1]);
    assert_eq!(ids(&state("safari", SearchScope::App, None)), vec![5, 2]);
    assert_eq!(ids(&state("safari", SearchScope::Prev, None)), vec![3, 1]);
    assert_eq!(ids(&state("safari", SearchScope::Title, None)), Vec::<i64>::new());
    // The bundle id counts for the app scope.
    assert_eq!(ids(&state("com.example.mail", SearchScope::App, None)), vec![4]);
    // Time is searched in its RFC 3339 text, lowercased.
    assert_eq!(ids(&state("2020-09-13t12", SearchScope::Time, None)), vec![1]);
    assert_eq!(ids(&state("+00:00", SearchScope::Time, None)), vec![5, 4, 3, 2, 1]);
    assert_eq!(ids(&state("2020-09", SearchScope::App, None)), Vec::<i64>::new());
    assert_eq!(ids(&state("2020-09", SearchScope::All, None)), vec![1]);
}

#[test]
fn every_scope_finds_within_all() {
    for q in ["safari", "a", "mail", "2023", "docs", "x"] {
        let all = ids(&state(q, SearchScope::All, None));
        for scope in [SearchScope::Time, SearchScope::App, SearchScope::Title, SearchScope::Prev] {
            for id in ids(&state(q, scope, None)) {
                assert!(all.contains(&id));
            }
        }
    }
}

#[test]
fn sort_by_app_keeps_ties_in_log_order() {
    assert_eq!(ids(&state("", SearchScope::All, Some((SortKey::App, true)))), vec![4, 1, 5, 2, 3]);
    assert_eq!(ids(&state("", SearchScope::All, Some((SortKey::App, false)))), vec![3, 5, 2, 1, 4]);
}

#[test]
fn sort_by_time() {
    assert_eq!(ids(&state("", SearchScope::All, Some((SortKey::Time, true)))), vec![1, 2, 3, 4, 5]);
    assert_eq!(ids(&state("", SearchScope::All, Some((SortKey::Time, false)))), vec![5, 4, 3, 2, 1]);
}

#[test]
fn sort_by_title_and_previous() {
    // Titles: "Rust docs", "Inbox", "cargo build", "News", "" (by code point).
    assert_eq!(ids(&state("", SearchScope::All, Some((SortKey::Title, true)))), vec![1, 4, 2, 5, 3]);
    // Previous apps: "Mail", "Terminal", "Safari", "", "Safari".
    assert_eq!(ids(&state("", SearchScope::All, Some((SortKey::Prev, true)))), vec![2, 5, 3, 1, 4]);
}

#[test]
fn descending_reverses_ascending_when_keys_differ() {
    let asc = ids(&state("", SearchScope::All, Some((SortKey::Title, true))));
    let mut desc = ids(&state("", SearchScope::All, Some((SortKey::Title, false))));
    desc.reverse();
    assert_eq!(asc, desc);
}

#[test]
fn sorting_only_reorders() {
    let mut plain = ids(&state("a", SearchScope::All, None));
    plain.sort();
    for key in [SortKey::Time, SortKey::App, SortKey::Title, SortKey::Prev] {
        for asc in [true, false] {
            let mut sorted = ids(&state("a", SearchScope::All, Some((key, asc))));
            sorted.sort();
            assert_eq!(sorted, plain);
        }
    }
}

#[test]
fn sort_and_filter_together() {
    assert_eq!(ids(&state("safari", SearchScope::All, Some((SortKey::Time, true)))), vec![1, 2, 3, 5]);
}

#[test]
fn sorting_a_subset_of_indices() {
    let events = sample();
    assert_eq!(sort_shown(&events, SortKey::App, true, &vec![0, 2, 3]), vec![0, 3, 2]);
    assert_eq!(sort_shown(&events, SortKey::App, false, &vec![0, 2, 3]), vec![2, 0, 3]);
    assert_eq!(sort_shown(&events, SortKey::Time, true, &vec![]), Vec::<usize>::new());
}

#[test]
fn header_clicks_cycle_the_sort() {
    let mut s = state("", SearchScope::All, None);
    s.cycle_sort(SortKey::App);
    assert_eq!(s.sort, Some((SortKey::App, true)));
    assert_eq!(s.header_label(SortKey::App, "App"), "App ^");
    assert_eq!(s.header_label(SortKey::Time, "Time"), "Time");
    s.cycle_sort(SortKey::App);
    assert_eq!(s.sort, Some((SortKey::App, false)));
    assert_eq!(s.header_label(SortKey::App, "App"), "App v");
    s.cycle_sort(SortKey::App);
    assert_eq!(s.sort, None);
    assert_eq!(s.header_label(SortKey::App, "App"), "App");
    s.cycle_sort(SortKey::App);
    s.cycle_sort(SortKey::Title);
    assert_eq!(s.sort, Some((SortKey::Title, true)));
}

#[test]
fn three_clicks_return_to_the_start() {
    let mut s = state("", SearchScope::All, Some((SortKey::Prev, false)));
    for _ in 0..3 {
        s.cycle_sort(SortKey::Prev);
    }
    assert_eq!(s.sort, Some((SortKey::Prev, false)));
}

#[test]
fn paused_state_refuses_events() {
    let mut s = state("", SearchScope::All, None);
    assert!(s.accepts_events());
    assert_eq!(s.apply_menu_action(MenuAction::Pause(true)), MenuEffect::Nothing);
    assert!(s.paused);
    assert!(!s.accepts_events());
    assert_eq!(s.apply_menu_action(MenuAction::Pause(false)), MenuEffect::Nothing);
    assert!(s.accepts_events());
}

#[test]
fn recorded_events_go_on_top() {
    let mut s = state("", SearchScope::All, None);
    s.record_stored(event(0, 1_700_000_600, "Finder", "Desktop", "Safari"), 6);
    assert_eq!(s.events.len(), 6);
    assert_eq!(s.events[0].id, 6);
    assert_eq!(s.events[0].app_name, "Finder");
    assert_eq!(s.events[1].id, 5);
    assert_eq!(ids(&s), vec![6, 5, 4, 3, 2, 1]);
}

#[test]
fn menu_actions() {
    let mut s = state("", SearchScope::All, None);
    s.window_hidden = true;
    assert_eq!(s.apply_menu_action(MenuAction::Open), MenuEffect::ShowWindow);
    assert!(!s.window_hidden);
    assert_eq!(s.apply_menu_action(MenuAction::Clear), MenuEffect::ClearLogs);
    assert_eq!(s.events.len(), 5);
    s.logs_cleared();
    assert!(s.events.is_empty());
    assert_eq!(s.apply_menu_action(MenuAction::Quit), MenuEffect::Nothing);
    assert!(s.quitting);
}

#[test]
fn closing_hides_and_relaunching_shows() {
    let mut s = state("", SearchScope::All, None);
    assert!(!s.reopen_requested(true));
    assert!(!s.close_requested(false));
    assert!(s.close_requested(true));
    assert!(s.window_hidden);
    assert!(!s.reopen_requested(false));
    assert!(s.window_hidden);
    assert!(s.reopen_requested(true));
    assert!(!s.window_hidden);
}

#[test]
fn closing_while_quitting_is_not_cancelled() {
    let mut s = state("", SearchScope::All, None);
    s.apply_menu_action(MenuAction::Quit);
    assert!(!s.close_requested(true));
    assert!(!s.window_hidden);
}

#[test]
fn picking_a_scope_updates_the_settings() {
    let mut s = state("", SearchScope::All, None);
    assert!(s.select_scope(SearchScope::Title));
    assert_eq!(s.search_scope, SearchScope::Title);
    assert_eq!(s.settings.search_scope, SearchScope::Title);
    assert!(!s.select_scope(SearchScope::Title));
}

#[test]
fn scope_labels() {
    assert_eq!(scope_label(SearchScope::All), "All columns");
    assert_eq!(scope_label(SearchScope::Time), "Time");
    assert_eq!(scope_label(SearchScope::App), "App");
    assert_eq!(scope_label(SearchScope::Title), "Window Title");
    assert_eq!(scope_label(SearchScope::Prev), "Previous App");
}

#[test]
fn transition_column() {
    assert_eq!(transition_label(&event(1, 0, "Mail", "", "Safari")), "Safari -> Mail");
    assert_eq!(transition_label(&event(1, 0, "Mail", "", "")), "- -> Mail");
}

#[test]
fn row_texts_of_an_event() {
    let r = row_texts(&event(1, 1_700_000_000, "Mail", "Inbox", ""));
    assert_eq!(r.app, "Mail");
    assert_eq!(r.title, "Inbox");
    assert_eq!(r.transition, "- -> Mail");
    let local = chrono::DateTime::from_timestamp(1_700_000_000, 0).unwrap().with_timezone(&chrono::Local);
    assert_eq!(r.time, local.format("%Y-%m-%d %H:%M:%S").to_string());
}

#[test]
fn settings_switches() {
    let mut s = state("", SearchScope::All, None);
    assert!(s.set_autostart(true));
    assert!(s.settings.autostart);
    assert!(!s.set_autostart(true));
    assert!(s.set_start_minimized(true));
    assert!(s.settings.start_minimized);
    assert!(!s.window_hidden);
    assert!(s.set_show_tray(false));
    assert!(!s.settings.show_tray);
    assert!(!s.set_show_tray(false));
    assert_eq!(s.settings.search_scope, SearchScope::All);
    assert_eq!(s.events.len(), 5);
}

#[test]
fn quit_button() {
    let mut s = state("", SearchScope::All, None);
    s.request_quit();
    assert!(s.quitting);
    assert!(!s.close_requested(true));
}
