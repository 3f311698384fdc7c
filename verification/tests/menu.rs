use focustrace::event::FocusEvent;
use focustrace::timestamp::Timestamp;
use focustrace::tray::{menu_action_for, recent_line, recent_texts, MenuAction, MenuIds, RECENT_SLOTS};

fn ids() -> MenuIds {
    MenuIds {
        open: "1".to_string(),
        quit: "4".to_string(),
        clear: "3".to_string(),
        pause: "2".to_string(),
    }
}

#[test]
fn menu_items_map_to_actions() {
    let m = ids();
    assert_eq!(menu_action_for(&m, &"1".to_string(), false), Some(MenuAction::Open));
    assert_eq!(menu_action_for(&m, &"4".to_string(), false), Some(MenuAction::Quit));
    assert_eq!(menu_action_for(&m, &"3".to_string(), true), Some(MenuAction::Clear));
    assert_eq!(menu_action_for(&m, &"2".to_string(), true), Some(MenuAction::Pause(true)));
    assert_eq!(menu_action_for(&m, &"2".to_string(), false), Some(MenuAction::Pause(false)));
    assert_eq!(menu_action_for(&m, &"9".to_string(), false), None);
}

#[test]
fn recent_lines() {
    assert_eq!(recent_line("10:11:12", "Safari", ""), "10:11:12  Safari");
    assert_eq!(recent_line("10:11:12", "", ""), "10:11:12  (unknown)");
    assert_eq!(recent_line("10:11:12", "Mail", "Inbox"), "10:11:12  Mail — Inbox");
    let long: String = "é".repeat(60);
    let line = recent_line("t", "A", &long);
    assert_eq!(line, format!("t  A — {}", "é".repeat(48)));
    let exact: String = "x".repeat(48);
    assert_eq!(recent_line("t", "A", &exact), format!("t  A — {}", exact));
}

fn event(id: i64, app: &str, title: &str) -> FocusEvent {
    FocusEvent {
        id,
        ts: Timestamp { secs: 1_700_000_000 + id, nanos: 0 },
        app_name: app.to_string(),
        bundle_id: String::new(),
        window_title: title.to_string(),
        previous_app: String::new(),
    }
}

#[test]
fn recent_slots_list_the_newest_events() {
    let events = vec![event(3, "Safari", "Docs"), event(2, "", ""), event(1, "Mail", "")];
    let texts = recent_texts(&events);
    assert_eq!(texts.len(), RECENT_SLOTS);
    assert!(texts[0].ends_with("  Safari — Docs"));
    assert!(texts[1].ends_with("  (unknown)"));
    assert!(texts[2].ends_with("  Mail"));
    assert_eq!(texts[0].chars().count(), 8 + "  Safari — Docs".chars().count());
    for (i, e) in events.iter().enumerate() {
        let local = chrono::DateTime::from_timestamp(e.ts.secs, 0).unwrap().with_timezone(&chrono::Local);
        assert!(texts[i].starts_with(&local.format("%H:%M:%S").to_string()));
    }
    for t in &texts[3..] {
        assert_eq!(t, "—");
    }
}

#[test]
fn recent_slots_hold_at_most_eight() {
    let events: Vec<FocusEvent> = (0..12).map(|i| event(i, &format!("App{}", i), "")).collect();
    let texts = recent_texts(&events);
    assert_eq!(texts.len(), 8);
    for (i, t) in texts.iter().enumerate() {
        assert!(t.ends_with(&format!("  App{}", i)));
    }
}
