//! The store's behaviour on concrete values: creation, reads, updates,
//! tombstones, purging and the key framing.

use liminal_docs::note::Note;
use liminal_docs::store::NoteError;
use liminal_docs::store::NoteStore;

fn ids_of(notes: &[Note]) -> Vec<String> {
    notes.iter().map(|n| n.id.clone()).collect()
}

#[test]
fn create_then_get_returns_the_note() {
    let mut s = NoteStore::new();
    let made = s
        .create("alpha".to_string(), "hello world".to_string(), 10)
        .expect("create");
    assert_eq!(made.id, "alpha");
    let n = s.get_note("alpha".to_string());
    assert_eq!(n.id, "alpha");
    assert_eq!(n.text, "hello world");
    assert_eq!(n.created, 10);
    assert_eq!(n.updated, 10);
    assert_eq!(n.created, n.updated);
    assert!(!n.is_delete);
}

#[test]
fn get_of_missing_id_is_the_placeholder() {
    let s = NoteStore::new();
    let n = s.get_note("nothing".to_string());
    assert_eq!(n.id, "nothing");
    assert_eq!(n.text, "");
    assert_eq!(n.created, 0);
    assert_eq!(n.updated, 0);
    assert!(!n.is_delete);
}

#[test]
fn update_moves_updated_and_keeps_created() {
    let mut s = NoteStore::new();
    s.create("a".to_string(), "one".to_string(), 10).expect("create");
    let before = s.get_note("a".to_string());
    s.update_note("a".to_string(), "two".to_string(), 20).expect("update");
    let after = s.get_note("a".to_string());
    assert_eq!(after.text, "two");
    assert_eq!(after.created, 10);
    assert_eq!(after.updated, 20);
    assert!(after.updated > before.updated);
}

#[test]
fn update_of_absent_id_starts_from_the_placeholder() {
    let mut s = NoteStore::new();
    s.update_note("ghost".to_string(), "text".to_string(), 7).expect("update");
    let n = s.get_note("ghost".to_string());
    assert_eq!(n.created, 0);
    assert_eq!(n.updated, 7);
    assert_eq!(n.text, "text");
}

#[test]
fn listing_excludes_tombstoned_and_sorts_by_updated() {
    let mut s = NoteStore::new();
    s.create("old".to_string(), "o".to_string(), 10).expect("create");
    s.create("new".to_string(), "n".to_string(), 30).expect("create");
    s.create("mid".to_string(), "m".to_string(), 20).expect("create");
    let notes = s.get_notes();
    assert_eq!(ids_of(&notes), vec!["new", "mid", "old"]);

    s.set_delete("mid".to_string()).expect("toggle");
    let notes = s.get_notes();
    assert_eq!(ids_of(&notes), vec!["new", "old"]);
    assert!(notes.iter().all(|n| !n.is_delete));

    s.set_delete("mid".to_string()).expect("toggle");
    let notes = s.get_notes();
    assert_eq!(ids_of(&notes), vec!["new", "mid", "old"]);
}

#[test]
fn note_vec_matches_listing() {
    let mut s = NoteStore::new();
    s.create("b".to_string(), "x".to_string(), 1).expect("create");
    s.create("a".to_string(), "y".to_string(), 2).expect("create");
    assert_eq!(s.get_note_vec(), vec!["a", "b"]);
}

#[test]
fn purge_is_idempotent_and_purged_reads_missing() {
    let mut s = NoteStore::new();
    s.create("keep".to_string(), "k".to_string(), 1).expect("create");
    s.create("drop".to_string(), "d".to_string(), 2).expect("create");
    s.set_delete("drop".to_string()).expect("toggle");

    s.delete_hidden();
    let once = ids_of(&s.get_notes());
    s.delete_hidden();
    let twice = ids_of(&s.get_notes());
    assert_eq!(once, vec!["keep"]);
    assert_eq!(once, twice);

    let gone = s.get_note("drop".to_string());
    assert_eq!(gone.text, "");
    assert_eq!(gone.created, 0);
    assert_eq!(gone.updated, 0);
    assert!(!gone.is_delete);

    // The tombstone is gone too: the id is free again.
    s.create("drop".to_string(), "again".to_string(), 9).expect("create");
    assert_eq!(s.get_note("drop".to_string()).text, "again");
}

#[test]
fn prefix_ids_stay_independent() {
    let mut s = NoteStore::new();
    s.create("a".to_string(), "first".to_string(), 1).expect("create");
    s.create("ab".to_string(), "second".to_string(), 2).expect("create");
    assert_eq!(s.get_note("a".to_string()).text, "first");
    assert_eq!(s.get_note("ab".to_string()).text, "second");

    // Writing the shorter id again must not clobber the longer one.
    s.update_note("a".to_string(), "rewritten".to_string(), 3).expect("update");
    assert_eq!(s.get_note("a".to_string()).text, "rewritten");
    assert_eq!(s.get_note("ab".to_string()).text, "second");

    // Purging the shorter id must not take the longer one with it.
    s.set_delete("a".to_string()).expect("toggle");
    s.delete_hidden();
    assert_eq!(s.get_note("a".to_string()).text, "");
    assert_eq!(s.get_note("ab".to_string()).text, "second");
}

#[test]
fn text_over_the_character_cap_is_refused() {
    let mut s = NoteStore::new();
    let long = "x".repeat(2001);
    assert_eq!(
        s.create("a".to_string(), long.clone(), 1),
        Err(NoteError::TextTooLong)
    );
    s.create("a".to_string(), "ok".to_string(), 1).expect("create");
    assert_eq!(s.update_note("a".to_string(), long, 2), Err(NoteError::TextTooLong));
    assert_eq!(s.get_note("a".to_string()).text, "ok");
}

#[test]
fn long_text_is_accepted_while_its_encoding_fits() {
    let mut s = NoteStore::new();
    let long = "y".repeat(1980);
    s.create("a".to_string(), long.clone(), 1).expect("create");
    assert_eq!(s.get_note("a".to_string()).text, long);
    // At the character cap the fixed encoding overhead tips the note
    // over the byte cap, which is a creation error, not truncation.
    let exact = "y".repeat(2000);
    assert_eq!(s.create("b".to_string(), exact, 1), Err(NoteError::NoteTooLarge));
}

#[test]
fn id_with_the_terminator_is_refused() {
    let mut s = NoteStore::new();
    assert_eq!(
        s.create("a\u{0}b".to_string(), "t".to_string(), 1),
        Err(NoteError::InvalidId)
    );
    assert_eq!(
        s.update_note("a\u{0}b".to_string(), "t".to_string(), 1),
        Err(NoteError::InvalidId)
    );
    assert_eq!(s.set_delete("a\u{0}b".to_string()), Err(NoteError::InvalidId));
}

#[test]
fn oversized_encoding_is_refused() {
    let mut s = NoteStore::new();
    // 2000 quote characters stay under the character cap but escape to
    // two bytes each, pushing the encoded note over the byte cap.
    let tricky = "\"".repeat(2000);
    assert_eq!(
        s.create("a".to_string(), tricky, 1),
        Err(NoteError::NoteTooLarge)
    );
}

#[test]
fn codec_round_trips_awkward_text() {
    let mut s = NoteStore::new();
    let text = "line one\nline two \"quoted\" \\ and some latin-1: äöü".to_string();
    s.create("weird".to_string(), text.clone(), -5).expect("create");
    let n = s.get_note("weird".to_string());
    assert_eq!(n.text, text);
    assert_eq!(n.created, -5);
}

#[test]
fn bad_note_and_missing_note_fields() {
    let b = Note::bad_note();
    assert_eq!(b.id, "bad_note");
    assert_eq!(b.text, "bad_note");
    assert_eq!(b.created, 0);
    assert_eq!(b.updated, 0);
    assert!(!b.is_delete);
    let m = Note::missing_note("m".to_string());
    assert_eq!(m.id, "m");
    assert_eq!(m.text, "");
}
