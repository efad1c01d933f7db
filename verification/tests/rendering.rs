//! Rendering, configuration, snapshots and the UI list, on concrete
//! values.

use liminal_docs::comms::initial_config;
use liminal_docs::note::Note;
use liminal_docs::render::format_seconds_as_hms;
use liminal_docs::render::u64_string;
use liminal_docs::store::NoteStore;
use liminal_docs::ui::NotesUi;

#[test]
fn elapsed_clock_formats_as_hms() {
    assert_eq!(format_seconds_as_hms(0), "[00:00:00]");
    assert_eq!(format_seconds_as_hms(3661), "[01:01:01]");
    assert_eq!(format_seconds_as_hms(59), "[00:00:59]");
    assert_eq!(format_seconds_as_hms(86399), "[23:59:59]");
    // Hours widen past two digits instead of wrapping.
    assert_eq!(format_seconds_as_hms(100 * 3600 + 61), "[100:01:01]");
}

#[test]
fn decimal_rendering_matches_std() {
    for n in [0u64, 7, 10, 12345, u64::MAX] {
        assert_eq!(u64_string(n), n.to_string());
    }
}

#[test]
fn first_run_config_hex_encodes_the_secret() {
    let c = initial_config(
        "downloads".to_string(),
        "store".to_string(),
        &vec![0x00, 0xff, 0x10, 0xab],
    );
    assert!(c.dark_mode);
    assert_eq!(c.download_path, "downloads");
    assert_eq!(c.store_path, "store");
    assert_eq!(c.secret_key, "00ff10ab");
    assert_eq!(c.doc_key, None);
    assert_eq!(c.author, None);
    assert_eq!(c.mothership, None);
}

#[test]
fn snapshot_export_names_entries_by_date_and_id() {
    let mut s = NoteStore::new();
    s.create("alpha".to_string(), "body".to_string(), 5).expect("create");
    s.create("hidden".to_string(), "gone".to_string(), 6).expect("create");
    s.set_delete("hidden".to_string()).expect("toggle");

    // Timestamp zero is the epoch: 1970-01-01.
    let (tag, entries) = s.bounce_down(0).expect("export");
    assert_eq!(tag, "notes-0");
    assert_eq!(entries.len(), 1);
    assert_eq!(entries[0].0, "notes/1970/01/01/alpha.md");
    assert_eq!(entries[0].1, "body");

    // A later date lands in the right directory (2026-10-12).
    let (tag, entries) = s.bounce_down(1_791_808_000).expect("export");
    assert_eq!(tag, "notes-1791808000");
    assert_eq!(entries[0].0, "notes/2026/10/12/alpha.md");

    // A timestamp before the epoch has no snapshot date here.
    assert!(s.bounce_down(-1).is_err());
}

#[test]
fn snapshot_import_recreates_notes_and_skips_bad_entries() {
    let mut s = NoteStore::new();
    let entries = vec![
        ("one".to_string(), "first".to_string()),
        ("two".to_string(), "second".to_string()),
        ("bad\u{0}id".to_string(), "ignored".to_string()),
        ("long".to_string(), "x".repeat(2001)),
    ];
    let imported = s.bounce_up(entries, 42);
    assert_eq!(imported, 2);
    assert_eq!(s.get_note("one".to_string()).text, "first");
    assert_eq!(s.get_note("two".to_string()).text, "second");
    assert_eq!(s.get_note("one".to_string()).created, 42);
    assert_eq!(s.get_note("long".to_string()).text, "");
}

#[test]
fn snapshot_round_trip_restores_texts() {
    let mut s = NoteStore::new();
    s.create("a".to_string(), "alpha text".to_string(), 1).expect("create");
    s.create("b".to_string(), "beta text".to_string(), 2).expect("create");
    let (_, entries) = s.bounce_down(0).expect("export");

    let mut fresh = NoteStore::new();
    let imported = fresh.bounce_up(entries, 99);
    assert_eq!(imported, 2);
    assert_eq!(
        fresh.get_note("notes/1970/01/01/a.md".to_string()).text,
        "alpha text"
    );
    assert_eq!(
        fresh.get_note("notes/1970/01/01/b.md".to_string()).text,
        "beta text"
    );
}

#[test]
fn ui_list_updates_selects_and_clears() {
    let mut ui = NotesUi::new();
    assert!(ui.rows_vec().is_empty());

    ui.update(vec!["a".to_string(), "b".to_string(), "c".to_string()]);
    let rows = ui.rows_vec();
    assert_eq!(rows.len(), 3);
    assert!(rows.iter().all(|r| !r.1));
    assert_eq!(rows[0].0, "a");
    assert_eq!(rows[2].0, "c");

    ui.set(Note::missing_note("b".to_string()));
    let rows = ui.rows_vec();
    assert_eq!(rows[1], ("b".to_string(), true));
    assert_eq!(rows[0], ("a".to_string(), false));

    // An unknown id is appended selected.
    ui.set(Note::missing_note("d".to_string()));
    let rows = ui.rows_vec();
    assert_eq!(rows.len(), 4);
    assert_eq!(rows[3], ("d".to_string(), true));

    ui.clear_selection();
    let rows = ui.rows_vec();
    assert_eq!(rows.len(), 4);
    assert!(rows.iter().all(|r| !r.1));
}
