//! The store's laws, stated over the model map the CRUD contracts use.
//!
//! Each law composes the contracts of two or more operations: what a
//! read returns after a write, how writes relate, and that a purge is
//! final and idempotent.

use vstd::prelude::*;
use crate::note::missing_view;
use crate::note::NoteView;
use crate::store::deleted_ids;
use crate::store::fresh_view;
use crate::store::model_note;
use crate::worker::toggled_view;
use crate::worker::updated_view;

verus! {

/// Law: after a create, a read of the same id gives a note with the
/// written text, equal timestamps, and no tombstone; the model is the
/// old one with just that note replaced.
pub proof fn lemma_create_then_get(
    m: Map<Seq<char>, NoteView>,
    id: Seq<char>,
    text: Seq<char>,
    now: i64,
)
    ensures
        ({
            let n = model_note(m.insert(id, fresh_view(id, text, now)), id);
            n.text == text && n.created == now && n.updated == now && !n.is_delete
        }),
{
}

/// Law: a write to one id leaves what a read of any other id returns
/// unchanged.
pub proof fn lemma_write_keeps_others(
    m: Map<Seq<char>, NoteView>,
    id: Seq<char>,
    n: NoteView,
    other: Seq<char>,
)
    requires
        other != id,
    ensures
        model_note(m.insert(id, n), other) == model_note(m, other),
{
}

/// Law: an update whose clock reads later than the stored note's
/// `updated` strictly increases `updated` and leaves `created` as it
/// was.
pub proof fn lemma_update_moves_clock(
    m: Map<Seq<char>, NoteView>,
    id: Seq<char>,
    text: Seq<char>,
    now: i64,
)
    requires
        now > model_note(m, id).updated,
    ensures
        ({
            let base = model_note(m, id);
            let n = model_note(m.insert(id, updated_view(base, id, text, now)), id);
            n.updated > base.updated && n.created == base.created
        }),
{
}

/// Law: a listed note never carries a tombstone, so a toggled-off note
/// appears under no id of any listing.
pub proof fn lemma_hidden_not_listed(
    s: crate::store::NoteStore,
    notes: Seq<crate::note::Note>,
    id: Seq<char>,
)
    requires
        s.listing_ok(notes),
        s.model().dom().contains(id),
        s.model()[id].is_delete,
    ensures
        forall|a: int| 0 <= a < notes.len() ==> (#[trigger] notes[a])@.id != id,
{
    assert forall|a: int| 0 <= a < notes.len() implies (#[trigger] notes[a])@.id != id by {
        if notes[a]@.id == id {
            assert(notes[a]@ == s.model()[id]);
        }
    }
}

/// Law: toggling a note's tombstone twice restores the model exactly.
pub proof fn lemma_toggle_twice(m: Map<Seq<char>, NoteView>, id: Seq<char>)
    requires
        m.dom().contains(id),
        m[id].id == id,
    ensures
        ({
            let m1 = m.insert(id, toggled_view(model_note(m, id), id));
            m1.insert(id, toggled_view(model_note(m1, id), id)) == m
        }),
{
    let m1 = m.insert(id, toggled_view(model_note(m, id), id));
    assert(m1.insert(id, toggled_view(model_note(m1, id), id)) =~= m);
}

/// Law: a purge is idempotent; a second purge with nothing toggled in
/// between removes nothing more.
pub proof fn lemma_purge_idempotent(m: Map<Seq<char>, NoteView>)
    ensures
        ({
            let p = m.remove_keys(deleted_ids(m));
            p.remove_keys(deleted_ids(p)) == p
        }),
{
    let p = m.remove_keys(deleted_ids(m));
    assert(p.remove_keys(deleted_ids(p)) =~= p);
}

/// Law: after a purge, a read of a purged id gives the missing
/// placeholder, not an error.
pub proof fn lemma_purged_reads_missing(m: Map<Seq<char>, NoteView>, id: Seq<char>)
    requires
        m.dom().contains(id),
        m[id].is_delete,
    ensures
        model_note(m.remove_keys(deleted_ids(m)), id) == missing_view(id),
{
}

} // verus!
