use screenshot_backup::cache::{
    advance, initial_state, is_outdated, CacheEvent, CacheState, Timestamp, Transition,
};
use screenshot_backup::catalog::{parse_catalog, read_catalog, read_entry, CatalogEntry, CatalogError};
use screenshot_backup::copy::{pending_copies, resolve, Resolution};
use screenshot_backup::locate::{folder_id, parse_decimal_u32, screenshot_folder_id};
use screenshot_backup::sanitize::{is_reserved_char, sanitize_name};
use screenshot_backup::table::AppTable;

const DAY: u64 = 86_400;

fn at(secs: u64) -> Timestamp {
    Timestamp { secs, nanos: 0 }
}

fn names(list: &[&str]) -> Vec<String> {
    list.iter().map(|s| s.to_string()).collect()
}

fn table_of(pairs: &[(u32, &str)]) -> AppTable {
    let entries: Vec<CatalogEntry> = pairs
        .iter()
        .map(|(id, name)| CatalogEntry { appid: *id, name: name.to_string() })
        .collect();
    AppTable::from_entries(&entries)
}

const TWO_APPS: &str =
    r#"{"applist":{"apps":[{"appid":400,"name":"Portal"},{"appid":440,"name":"TF2"}]}}"#;

#[test]
fn sanitize_removes_reserved_characters() {
    assert_eq!(sanitize_name("Half-Life: Source"), "Half-Life Source");
    assert_eq!(sanitize_name(r#"a\b/c?d:e*f"g<h>i|j"#), "abcdefghij");
    assert_eq!(sanitize_name("\"Portal\""), "Portal");
}

#[test]
fn sanitize_trims_white_space() {
    assert_eq!(sanitize_name("  Portal 2 \t\n"), "Portal 2");
    assert_eq!(sanitize_name(" : Game : "), "Game");
    assert_eq!(sanitize_name("\u{3000}Name\u{a0}"), "Name");
}

#[test]
fn sanitize_edge_cases() {
    assert_eq!(sanitize_name(""), "");
    assert_eq!(sanitize_name("?*:|"), "");
    assert_eq!(sanitize_name("   "), "");
    assert_eq!(sanitize_name("[Brackets]+Plus"), "[Brackets]+Plus");
}

#[test]
fn sanitize_output_has_no_reserved_character() {
    for input in ["a<b>c", " x|y ", "::", "Q?A", "plain", "ä/ö\\ü"] {
        let out = sanitize_name(input);
        assert!(out.chars().all(|c| !is_reserved_char(c)), "{out}");
    }
}

#[test]
fn sanitize_twice_is_sanitize_once() {
    for input in ["  a : b  ", "x\"y\"", " < > ", "Counter-Strike: Global Offensive", ""] {
        let once = sanitize_name(input);
        assert_eq!(sanitize_name(&once), once);
    }
}

#[test]
fn reserved_characters() {
    for c in ['\\', '/', '?', ':', '*', '"', '<', '>', '|'] {
        assert!(is_reserved_char(c));
    }
    for c in ['a', ' ', '[', ']', '+', '-', '.'] {
        assert!(!is_reserved_char(c));
    }
}

#[test]
fn cache_eight_days_old_is_outdated() {
    let now = at(1_700_000_000);
    assert!(is_outdated(at(1_700_000_000 - 8 * DAY), now));
}

#[test]
fn cache_six_days_old_is_fresh() {
    let now = at(1_700_000_000);
    assert!(!is_outdated(at(1_700_000_000 - 6 * DAY), now));
}

#[test]
fn cache_age_boundary() {
    let now = Timestamp { secs: 1_700_000_000, nanos: 500 };
    assert!(is_outdated(Timestamp { secs: 1_700_000_000 - 7 * DAY, nanos: 500 }, now));
    assert!(!is_outdated(Timestamp { secs: 1_700_000_000 - 7 * DAY, nanos: 501 }, now));
    assert!(!is_outdated(at(1_800_000_000), now));
    assert!(!is_outdated(now, now));
}

#[test]
fn cache_start_state() {
    assert_eq!(initial_state(false), CacheState::CheckCache);
    assert_eq!(initial_state(true), CacheState::Ready);
}

#[test]
fn cache_transitions() {
    let keep = |next| Transition { next, delete_cache: false };
    assert_eq!(advance(CacheState::CheckCache, CacheEvent::Absent), keep(CacheState::Fetch));
    assert_eq!(advance(CacheState::CheckCache, CacheEvent::Present), keep(CacheState::CheckAge));
    assert_eq!(advance(CacheState::Fetch, CacheEvent::Fetched), keep(CacheState::CheckCache));
    assert_eq!(advance(CacheState::Fetch, CacheEvent::FetchFailed), keep(CacheState::Failed));
    let now = at(10 * DAY);
    assert_eq!(
        advance(CacheState::CheckAge, CacheEvent::Modified { modified: at(2 * DAY), now }),
        Transition { next: CacheState::Fetch, delete_cache: true }
    );
    assert_eq!(
        advance(CacheState::CheckAge, CacheEvent::Modified { modified: at(4 * DAY), now }),
        keep(CacheState::Ready)
    );
    assert_eq!(advance(CacheState::Ready, CacheEvent::Absent), keep(CacheState::Ready));
    assert_eq!(advance(CacheState::Failed, CacheEvent::Fetched), keep(CacheState::Failed));
    assert_eq!(advance(CacheState::CheckCache, CacheEvent::Fetched), keep(CacheState::CheckCache));
}

#[test]
fn cache_refresh_cycle() {
    let now = at(30 * DAY);
    let mut state = initial_state(false);
    let mut deleted = false;
    let events = [
        CacheEvent::Present,
        CacheEvent::Modified { modified: at(20 * DAY), now },
        CacheEvent::Fetched,
        CacheEvent::Present,
        CacheEvent::Modified { modified: now, now },
    ];
    for event in events {
        let t = advance(state, event);
        deleted |= t.delete_cache;
        state = t.next;
    }
    assert!(deleted);
    assert_eq!(state, CacheState::Ready);
}

#[test]
fn catalog_parses_two_apps() {
    let entries = parse_catalog(TWO_APPS).unwrap();
    assert_eq!(entries.len(), 2);
    assert_eq!((entries[0].appid, entries[0].name.as_str()), (400, "Portal"));
    assert_eq!((entries[1].appid, entries[1].name.as_str()), (440, "TF2"));
}

#[test]
fn catalog_errors() {
    assert_eq!(parse_catalog("not json").err(), Some(CatalogError::NotJson));
    assert_eq!(parse_catalog("").err(), Some(CatalogError::NotJson));
    assert_eq!(parse_catalog(r#"{"apps":[]}"#).err(), Some(CatalogError::MissingAppList));
    assert_eq!(parse_catalog(r#"{"applist":{"apps":{}}}"#).err(), Some(CatalogError::MissingAppList));
    assert_eq!(
        parse_catalog(r#"{"applist":{"apps":[{"appid":1,"name":"a"},{"appid":"2","name":"b"}]}}"#).err(),
        Some(CatalogError::BadEntry { index: 1 })
    );
    assert_eq!(
        parse_catalog(r#"{"applist":{"apps":[{"appid":4294967296,"name":"big"}]}}"#).err(),
        Some(CatalogError::BadEntry { index: 0 })
    );
    assert_eq!(
        parse_catalog(r#"{"applist":{"apps":[{"appid":-1,"name":"neg"}]}}"#).err(),
        Some(CatalogError::BadEntry { index: 0 })
    );
    assert_eq!(
        parse_catalog(r#"{"applist":{"apps":[{"appid":3}]}}"#).err(),
        Some(CatalogError::BadEntry { index: 0 })
    );
}

#[test]
fn catalog_empty_list_and_largest_id() {
    assert_eq!(parse_catalog(r#"{"applist":{"apps":[]}}"#).unwrap().len(), 0);
    let entries =
        parse_catalog(r#"{"applist":{"apps":[{"appid":4294967295,"name":"max"}]}}"#).unwrap();
    assert_eq!(entries[0].appid, u32::MAX);
}

#[test]
fn catalog_read_from_document() {
    let doc: serde_json::Value = serde_json::from_str(TWO_APPS).unwrap();
    let entries = read_catalog(&doc).unwrap();
    assert_eq!(entries.len(), 2);
    let item: serde_json::Value = serde_json::from_str(r#"{"appid":7,"name":"Seven"}"#).unwrap();
    let e = read_entry(&item).unwrap();
    assert_eq!((e.appid, e.name.as_str()), (7, "Seven"));
    let bad: serde_json::Value = serde_json::from_str(r#"{"appid":7,"name":7}"#).unwrap();
    assert!(read_entry(&bad).is_none());
}

#[test]
fn table_from_two_apps() {
    let table = AppTable::from_entries(&parse_catalog(TWO_APPS).unwrap());
    assert_eq!(table.len(), 3);
    assert_eq!(table.name_of(0).map(|s| s.as_str()), Some("Empty"));
    assert_eq!(table.name_of(400).map(|s| s.as_str()), Some("Portal"));
    assert_eq!(table.name_of(440).map(|s| s.as_str()), Some("TF2"));
    assert_eq!(table.name_of(1), None);
}

#[test]
fn table_last_entry_wins() {
    let table = table_of(&[(5, "first"), (6, "other"), (5, "second"), (0, "zero")]);
    assert_eq!(table.len(), 3);
    assert_eq!(table.name_of(5).map(|s| s.as_str()), Some("second"));
    assert_eq!(table.name_of(0).map(|s| s.as_str()), Some("Empty"));
}

#[test]
fn id_parsing() {
    assert_eq!(folder_id("440"), 440);
    assert_eq!(folder_id("abc"), 0);
    assert_eq!(folder_id(""), 0);
    assert_eq!(folder_id("  440 \n"), 440);
    assert_eq!(folder_id("+12"), 12);
    assert_eq!(folder_id("-12"), 0);
    assert_eq!(folder_id("4294967295"), u32::MAX);
    assert_eq!(folder_id("4294967296"), 0);
    assert_eq!(folder_id("12a"), 0);
    assert_eq!(folder_id("007"), 7);
}

#[test]
fn decimal_parsing_matches_std() {
    for s in ["0", "+", "", "+0", "99999999999", "1 2", "٣", "429496729", "+4294967295"] {
        assert_eq!(parse_decimal_u32(s), s.parse::<u32>().ok(), "{s:?}");
    }
}

#[test]
fn screenshot_folders() {
    assert_eq!(screenshot_folder_id(true, "screenshots", "440"), Some(440));
    assert_eq!(screenshot_folder_id(true, "screenshots", "abc"), Some(0));
    assert_eq!(screenshot_folder_id(true, "screenshots", ""), Some(0));
    assert_eq!(screenshot_folder_id(false, "screenshots", "440"), None);
    assert_eq!(screenshot_folder_id(true, "Screenshots", "440"), None);
    assert_eq!(screenshot_folder_id(true, "screenshot", "440"), None);
    assert_eq!(screenshot_folder_id(true, "screenshots ", "440"), None);
}

#[test]
fn resolve_unknown_id_is_skipped() {
    let table = table_of(&[(200, "HalfLife")]);
    assert!(matches!(resolve(&table, 999999), Resolution::Unknown));
}

#[test]
fn resolve_reserved_and_game() {
    let table = table_of(&[(200, " Half-Life: Source ")]);
    match resolve(&table, 0) {
        Resolution::Reserved { name } => assert_eq!(name, "Empty"),
        _ => panic!("id 0 is reserved"),
    }
    match resolve(&table, 200) {
        Resolution::Game { name } => assert_eq!(name, "Half-Life Source"),
        _ => panic!("id 200 is a game"),
    }
}

#[test]
fn pending_skips_present_files() {
    let images = names(&["a.jpg", "b.jpg", "c.jpg"]);
    let present = names(&["b.jpg", "other.png"]);
    assert_eq!(pending_copies(&images, &present), names(&["a.jpg", "c.jpg"]));
    assert_eq!(pending_copies(&images, &Vec::new()), images);
    assert_eq!(pending_copies(&Vec::new(), &present), Vec::<String>::new());
}

#[test]
fn second_pass_copies_nothing() {
    let images = names(&["a.jpg", "b.jpg"]);
    let mut present = names(&["b.jpg"]);
    let first = pending_copies(&images, &present);
    assert_eq!(first, names(&["a.jpg"]));
    present.extend(first);
    assert!(pending_copies(&images, &present).is_empty());
}

#[test]
fn failed_copy_is_retried_alone() {
    let images = names(&["a.jpg", "b.jpg", "c.jpg"]);
    let mut present = Vec::new();
    let first = pending_copies(&images, &present);
    // a.jpg fails, the others are copied
    present.extend(first.into_iter().filter(|n| n != "a.jpg"));
    assert_eq!(present, names(&["b.jpg", "c.jpg"]));
    assert_eq!(pending_copies(&images, &present), names(&["a.jpg"]));
}

#[test]
fn end_to_end_single_screenshot() {
    let table = table_of(&[(200, "HalfLife")]);
    let id = screenshot_folder_id(true, "screenshots", "200").unwrap();
    let dir = match resolve(&table, id) {
        Resolution::Game { name } => name,
        _ => panic!("200 is a game"),
    };
    let files = pending_copies(&names(&["shot1.jpg"]), &Vec::new());
    let produced: Vec<String> = files.iter().map(|f| format!("{dir}/{f}")).collect();
    assert_eq!(produced, names(&["HalfLife/shot1.jpg"]));
}
