use focustrace::event::{FocusEvent, FocusTracker, StoredRow};
use focustrace::settings::{SearchScope, Settings};
use focustrace::text::{chars_less, chars_of, contains_fragment};
use focustrace::timestamp::{timestamp_from_clock, Timestamp, MAX_SECS, MIN_SECS};
use focustrace::view::{row_texts, AppState};

fn event_at(ts: Timestamp, app: &str) -> FocusEvent {
    FocusEvent {
        id: 1,
        ts,
        app_name: app.to_string(),
        bundle_id: String::new(),
        window_title: String::new(),
        previous_app: String::new(),
    }
}

fn stored_text(ts: Timestamp) -> String {
    event_at(ts, "A").to_row().ts
}

fn read_back(text: &str) -> Timestamp {
    let row = StoredRow {
        ts: text.to_string(),
        app_name: String::new(),
        bundle_id: String::new(),
        window_title: String::new(),
        previous_app: String::new(),
    };
    FocusEvent::from_row_or(0, row, Timestamp { secs: 7, nanos: 7 }).ts
}

fn found(app: &str, search: &str) -> bool {
    let mut s = AppState::new(vec![event_at(Timestamp { secs: 0, nanos: 0 }, app)], Settings::default());
    s.search = search.to_string();
    s.search_scope = SearchScope::App;
    s.visible_indices().len() == 1
}

fn chars(s: &str) -> Vec<char> {
    s.chars().collect()
}

#[test]
fn chars_of_keeps_every_character() {
    assert_eq!(chars_of("añb—"), vec!['a', 'ñ', 'b', '—']);
    assert_eq!(chars_of(""), Vec::<char>::new());
}

#[test]
fn fragment_search() {
    assert!(contains_fragment(&chars("safari"), &chars("far")));
    assert!(contains_fragment(&chars("safari"), &chars("ri")));
    assert!(contains_fragment(&chars("safari"), &chars("")));
    assert!(contains_fragment(&chars(""), &chars("")));
    assert!(!contains_fragment(&chars("safari"), &chars("fax")));
    assert!(!contains_fragment(&chars("ab"), &chars("abc")));
    assert!(contains_fragment(&chars("Straße"), &chars("ße")));
}

#[test]
fn lexicographic_order() {
    assert!(chars_less(&chars("abc"), &chars("abd")));
    assert!(chars_less(&chars("ab"), &chars("abc")));
    assert!(!chars_less(&chars("abc"), &chars("ab")));
    assert!(!chars_less(&chars("abc"), &chars("abc")));
    assert!(chars_less(&chars("Zebra"), &chars("apple")));
    assert!(chars_less(&chars(""), &chars("a")));
    assert!(!chars_less(&chars(""), &chars("")));
    assert_eq!(chars_less(&chars("éa"), &chars("eb")), "éa" < "eb");
}

#[test]
fn search_lowercases_both_sides() {
    assert!(found("Safari", "SAFARI"));
    assert!(found("ÀÉÎ", "àéî"));
    assert!(found("ÀÉÎ", "ÀÉÎ"));
    assert!(!found("Safari", "safarix"));
}

#[test]
fn timestamps_order_by_second_then_nanosecond() {
    let a = Timestamp { secs: 10, nanos: 5 };
    let b = Timestamp { secs: 10, nanos: 6 };
    let c = Timestamp { secs: 11, nanos: 0 };
    assert!(a.is_earlier(&b));
    assert!(b.is_earlier(&c));
    assert!(!b.is_earlier(&a));
    assert!(!a.is_earlier(&a));
}

#[test]
fn timestamp_validity() {
    assert!(Timestamp { secs: 0, nanos: 0 }.is_valid());
    assert!(Timestamp { secs: MIN_SECS, nanos: 999_999_999 }.is_valid());
    assert!(Timestamp { secs: MAX_SECS, nanos: 1_999_999_999 }.is_valid());
    assert!(!Timestamp { secs: MAX_SECS + 1, nanos: 0 }.is_valid());
    assert!(!Timestamp { secs: MIN_SECS - 1, nanos: 0 }.is_valid());
    assert!(Timestamp { secs: 59, nanos: 1_500_000_000 }.is_valid());
    assert!(Timestamp { secs: -1, nanos: 1_500_000_000 }.is_valid());
    assert!(!Timestamp { secs: 58, nanos: 1_500_000_000 }.is_valid());
    assert!(!Timestamp { secs: 59, nanos: 2_000_000_000 }.is_valid());
}

#[test]
fn rfc3339_text_of_instants() {
    assert_eq!(stored_text(Timestamp { secs: 1424301369, nanos: 0 }), "2015-02-18T23:16:09+00:00");
    assert_eq!(
        stored_text(Timestamp { secs: 1424301369, nanos: 150_000_000 }),
        "2015-02-18T23:16:09.150+00:00"
    );
    assert_eq!(stored_text(Timestamp { secs: 0, nanos: 0 }), "1970-01-01T00:00:00+00:00");
}

#[test]
fn rfc3339_reading() {
    assert_eq!(read_back("2015-02-18T23:16:09Z"), Timestamp { secs: 1424301369, nanos: 0 });
    assert_eq!(
        read_back("2015-02-18T23:16:09.150+05:00"),
        Timestamp { secs: 1424301369 - 5 * 3600, nanos: 150_000_000 }
    );
    assert_eq!(read_back("yesterday"), Timestamp { secs: 7, nanos: 7 });
    assert_eq!(read_back(""), Timestamp { secs: 7, nanos: 7 });
}

#[test]
fn rfc3339_round_trip() {
    for ts in [
        Timestamp { secs: 1424301369, nanos: 0 },
        Timestamp { secs: 1_700_000_000, nanos: 123_456_789 },
        Timestamp { secs: -1, nanos: 999_999_999 },
        Timestamp { secs: 1424303999, nanos: 1_500_000_000 },
        Timestamp { secs: -62167219200, nanos: 0 },
        Timestamp { secs: 253402300799, nanos: 1 },
    ] {
        assert_eq!(read_back(&stored_text(ts)), ts);
    }
}

#[test]
fn clock_reads_a_plausible_instant() {
    let mut t = FocusTracker::new();
    let e = t.switch("A".to_string(), String::new(), String::new()).unwrap();
    assert!(e.ts.secs > 1_600_000_000);
    assert!(e.ts.nanos < 1_000_000_000);
}

#[test]
fn local_time_has_its_shape() {
    let r = row_texts(&event_at(Timestamp { secs: 1424301369, nanos: 0 }, "A"));
    assert_eq!(r.time.len(), 19);
    let local = chrono::DateTime::from_timestamp(1424301369, 0).unwrap().with_timezone(&chrono::Local);
    assert_eq!(r.time, local.format("%Y-%m-%d %H:%M:%S").to_string());
    assert_eq!(&r.time[4..5], "-");
    assert_eq!(&r.time[13..14], ":");
}

#[test]
fn extreme_instants_are_written() {
    let first = stored_text(Timestamp { secs: MIN_SECS, nanos: 0 });
    assert!(first.starts_with("-262143-01-01T00:00:00"));
    let last = stored_text(Timestamp { secs: MAX_SECS, nanos: 1_500_000_000 });
    assert!(last.starts_with("+262142-12-31T23:59:60.500"));
}

#[test]
fn instants_from_clock_readings() {
    assert_eq!(timestamp_from_clock(Some((1_700_000_000, 5))), Some(Timestamp { secs: 1_700_000_000, nanos: 5 }));
    assert_eq!(timestamp_from_clock(Some((0, 0))), Some(Timestamp { secs: 0, nanos: 0 }));
    assert_eq!(
        timestamp_from_clock(Some((MAX_SECS as u64, 999_999_999))),
        Some(Timestamp { secs: MAX_SECS, nanos: 999_999_999 })
    );
    assert_eq!(timestamp_from_clock(Some((MAX_SECS as u64 + 1, 0))), None);
    assert_eq!(timestamp_from_clock(None), None);
}

#[test]
fn now_reads_the_system_clock() {
    let before = std::time::SystemTime::now().duration_since(std::time::UNIX_EPOCH).unwrap().as_secs() as i64;
    let t = focustrace::timestamp::now().unwrap();
    let after = std::time::SystemTime::now().duration_since(std::time::UNIX_EPOCH).unwrap().as_secs() as i64;
    assert!(before <= t.secs && t.secs <= after);
}
