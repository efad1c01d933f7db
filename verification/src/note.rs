//! The note record: a textual entry with a tombstone flag.

use vstd::prelude::*;
use vstd::string::*;

verus! {

/// Upper bound on a note's text, in characters.
pub const MAX_TEXT_LEN: usize = 2000;

/// Upper bound on a note's encoded form, in bytes.
pub const MAX_NOTE_SIZE: usize = 2048;

/// The mathematical content of a note.
pub ghost struct NoteView {
    pub id: Seq<char>,
    pub text: Seq<char>,
    pub created: i64,
    pub updated: i64,
    pub is_delete: bool,
}

/// A single note. `is_delete` is the tombstone: a soft-deleted note stays
/// in the store until it is purged.
#[derive(Clone, Debug, PartialEq)]
pub struct Note {
    pub id: String,
    pub text: String,
    pub created: i64,
    pub updated: i64,
    pub is_delete: bool,
}

impl View for Note {
    type V = NoteView;

    open spec fn view(&self) -> NoteView {
        NoteView {
            id: self.id@,
            text: self.text@,
            created: self.created,
            updated: self.updated,
            is_delete: self.is_delete,
        }
    }
}

/// The placeholder a read returns when no entry exists for an id.
pub open spec fn missing_view(id: Seq<char>) -> NoteView {
    NoteView { id: id, text: Seq::empty(), created: 0, updated: 0, is_delete: false }
}

impl Note {
    /// The "missing" placeholder: empty text, zero timestamps, no tombstone.
    pub fn missing_note(id: String) -> (r: Note)
        ensures
            r@ == missing_view(id@),
    {
        let r = Note { id, text: String::new(), created: 0, updated: 0, is_delete: false };
        proof {
            assert(r@.text =~= missing_view(r@.id).text);
        }
        r
    }

    /// A sentinel note for display paths that have nothing better to show.
    pub fn bad_note() -> (r: Note)
        ensures
            r@.id == "bad_note"@,
            r@.text == "bad_note"@,
            r@.created == 0,
            r@.updated == 0,
            !r@.is_delete,
    {
        Note {
            id: String::from_str("bad_note"),
            text: String::from_str("bad_note"),
            created: 0,
            updated: 0,
            is_delete: false,
        }
    }
}

} // verus!
