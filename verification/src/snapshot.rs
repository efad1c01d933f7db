//! Snapshot export and import: the notes as named text entries for a
//! dated backup collection, and the reverse.
//!
//! The content-addressed blob store that keeps a snapshot lives
//! outside; this module decides the entry names, the collection tag and
//! the entry contents, and re-creates notes from entries.

use vstd::prelude::*;
use vstd::string::*;
use chrono::Datelike;
use crate::note::NoteView;
use crate::render::dec_spec;
use crate::render::pad2_spec;
use crate::render::pad4_spec;
use crate::store::fresh_view;
use crate::store::storable;
use crate::store::NoteError;
use crate::store::NoteStore;

verus! {

/// The UTC calendar date (year, month, day) of a unix timestamp.
pub uninterp spec fn civil_of(ts: i64) -> (int, int, int);

/// Relies on chrono's DateTime::from_timestamp: the UTC calendar date
/// of a unix timestamp depends on the timestamp alone. `None` comes
/// only of an out-of-range timestamp; every timestamp from the epoch to
/// the end of year 9999 is in range, with the year between 1970 and
/// 9999 and ordinary month and day numbers.
#[verifier::external_body]
fn utc_date(ts: i64) -> (r: Option<(i64, u32, u32)>)
    ensures
        (match r {
            Some(d) => civil_of(ts) == (d.0 as int, d.1 as int, d.2 as int) && 1 <= d.1 <= 12 && 1
                <= d.2 <= 31 && (0 <= ts < 253_402_300_800i64 ==> 1970 <= d.0 <= 9999),
            None => !(0 <= ts < 253_402_300_800i64),
        }),
{
    match chrono::DateTime::from_timestamp(ts, 0) {
        Some(dt) => Some((dt.year() as i64, dt.month(), dt.day())),
        None => None,
    }
}

/// The dated directory a snapshot's entries are named under.
pub open spec fn dir_spec(y: int, mo: int, d: int) -> Seq<char> {
    "notes/"@ + pad4_spec(y as nat) + "/"@ + pad2_spec(mo as nat) + "/"@ + pad2_spec(d as nat)
        + "/"@
}

/// The name of one snapshot entry: the dated directory, the note id,
/// and a markdown extension.
pub open spec fn entry_name_spec(c: (int, int, int), id: Seq<char>) -> Seq<char> {
    dir_spec(c.0, c.1, c.2) + id + ".md"@
}

/// One exported entry names a stored, not soft-deleted note and
/// carries its text.
pub open spec fn entry_of_model(
    m: Map<Seq<char>, NoteView>,
    c: (int, int, int),
    e: (String, String),
) -> bool {
    exists|id: Seq<char>|
        {
            &&& #[trigger] m.dom().contains(id)
            &&& !m[id].is_delete
            &&& e.0@ == entry_name_spec(c, id)
            &&& e.1@ == m[id].text
        }
}

/// The tag the snapshot collection is stored under.
pub open spec fn tag_spec(ts: i64) -> Seq<char>
    recommends
        ts >= 0,
{
    "notes-"@ + dec_spec(ts as nat)
}

fn snapshot_dir(y: i64, mo: u32, d: u32) -> (r: String)
    requires
        0 <= y <= 9999,
        mo < 100,
        d < 100,
    ensures
        r@ == dir_spec(y as int, mo as int, d as int),
{
    let mut s = String::new();
    s.append("notes/");
    crate::render::push_pad4(&mut s, y as u64);
    s.append("/");
    crate::render::push_pad2(&mut s, mo as u64);
    s.append("/");
    crate::render::push_pad2(&mut s, d as u64);
    s.append("/");
    proof {
        assert(s@ =~= dir_spec(y as int, mo as int, d as int));
    }
    s
}

/// The model after importing entries in order: each entry that the
/// store accepts becomes a fresh note named by the entry, later entries
/// winning.
pub open spec fn import_model(
    m: Map<Seq<char>, NoteView>,
    entries: Seq<(String, String)>,
    now: i64,
) -> Map<Seq<char>, NoteView>
    decreases entries.len(),
{
    if entries.len() == 0 {
        m
    } else {
        let prev = import_model(m, entries.drop_last(), now);
        let e = entries.last();
        if storable(fresh_view(e.0@, e.1@, now)) {
            prev.insert(e.0@, fresh_view(e.0@, e.1@, now))
        } else {
            prev
        }
    }
}

impl NoteStore {
    /// Export a snapshot: a dated tag and one named text entry per note
    /// that is not soft-deleted. Fails only when the timestamp has no
    /// calendar date in the supported range.
    pub fn bounce_down(&self, now: i64) -> (r: Result<(String, Vec<(String, String)>), NoteError>)
        requires
            self.wf(),
        ensures
            0 <= now < 253_402_300_800i64 ==> r is Ok,
            r matches Err(e) ==> e == NoteError::DateOutOfRange,
            r matches Ok(out) ==> now >= 0 && out.0@ == tag_spec(now) && (forall|a: int|
                0 <= a < out.1@.len() ==> entry_of_model(
                    self.model(),
                    civil_of(now),
                    #[trigger] out.1@[a],
                )) && (forall|id: Seq<char>|
                #[trigger] self.model().dom().contains(id) && !self.model()[id].is_delete
                    ==> exists|a: int|
                    {
                        &&& 0 <= a < out.1@.len()
                        &&& out.1@[a].0@ == entry_name_spec(civil_of(now), id)
                        &&& out.1@[a].1@ == self.model()[id].text
                    }),
    {
        if now < 0 {
            return Err(NoteError::DateOutOfRange);
        }
        let date = match utc_date(now) {
            Some(d) => d,
            None => {
                return Err(NoteError::DateOutOfRange);
            },
        };
        let (y, mo, d) = date;
        if y < 0 || y > 9999 {
            return Err(NoteError::DateOutOfRange);
        }
        let dir = snapshot_dir(y, mo, d);
        let notes = self.get_notes();
        let mut entries: Vec<(String, String)> = Vec::new();
        let mut i: usize = 0;
        while i < notes.len()
            invariant
                i <= notes@.len(),
                self.wf(),
                self.listing_ok(notes@),
                dir@ == dir_spec(civil_of(now).0, civil_of(now).1, civil_of(now).2),
                entries@.len() == i,
                forall|a: int|
                    0 <= a < i ==> (#[trigger] entries@[a]).0@ == entry_name_spec(
                        civil_of(now),
                        notes@[a]@.id,
                    ) && entries@[a].1@ == notes@[a]@.text,
            decreases notes@.len() - i,
        {
            let name = dir.clone().concat(notes[i].id.as_str()).concat(".md");
            proof {
                reveal_strlit(".md");
                assert(name@ =~= entry_name_spec(civil_of(now), notes@[i as int]@.id));
            }
            let text = notes[i].text.clone();
            entries.push((name, text));
            i += 1;
        }
        let mut tag = String::new();
        tag.append("notes-");
        crate::render::push_u64(&mut tag, now as u64);
        let out = (tag, entries);
        proof {
            assert(out.0@ =~= tag_spec(now));
            assert(out.1@ == entries@);
            assert forall|id: Seq<char>|
                #[trigger] self.model().dom().contains(id) && !self.model()[id].is_delete
                    implies exists|a: int|
                {
                    &&& 0 <= a < out.1@.len()
                    &&& out.1@[a].0@ == entry_name_spec(civil_of(now), id)
                    &&& out.1@[a].1@ == self.model()[id].text
                } by {
                let a = choose|a: int| 0 <= a < notes@.len() && (#[trigger] notes@[a])@.id == id;
                assert(out.1@[a].0@ == entry_name_spec(civil_of(now), id));
                assert(out.1@[a].1@ == self.model()[id].text);
            }
            assert forall|a: int| 0 <= a < out.1@.len() implies entry_of_model(
                self.model(),
                civil_of(now),
                #[trigger] out.1@[a],
            ) by {
                let ghost id = notes@[a]@.id;
                assert(self.model().dom().contains(id) && !self.model()[id].is_delete
                    && out.1@[a].0@ == entry_name_spec(civil_of(now), id) && out.1@[a].1@
                    == self.model()[id].text);
            }
        }
        Ok(out)
    }

    /// Import a snapshot: re-create one note per entry, named by the
    /// entry, with fresh timestamps. An entry the store refuses is
    /// skipped; the rest of the batch goes on. Returns how many entries
    /// were imported.
    pub fn bounce_up(&mut self, entries: Vec<(String, String)>, now: i64) -> (imported: usize)
        requires
            old(self).wf(),
        ensures
            final(self).wf(),
            final(self).model() == import_model(old(self).model(), entries@, now),
            imported <= entries@.len(),
    {
        let mut imported: usize = 0;
        let mut i: usize = 0;
        while i < entries.len()
            invariant
                i <= entries@.len(),
                imported <= i,
                self.wf(),
                self.model() == import_model(old(self).model(), entries@.subrange(0, i as int), now),
            decreases entries@.len() - i,
        {
            let ghost pre_model = self.model();
            let name = entries[i].0.clone();
            let text = entries[i].1.clone();
            let r = self.create(name, text, now);
            if r.is_ok() {
                imported += 1;
            }
            proof {
                let sub1 = entries@.subrange(0, i as int + 1);
                assert(sub1.drop_last() =~= entries@.subrange(0, i as int));
                assert(sub1.last() == entries@[i as int]);
            }
            i += 1;
        }
        proof {
            assert(entries@.subrange(0, entries@.len() as int) =~= entries@);
        }
        imported
    }
}

} // verus!
