//! The note store: CRUD over the replicated document, with soft-delete
//! semantics, the key framing convention, and the size caps.
//!
//! The store's abstract state is `model()`: the map from note id to the
//! note the document holds for it. Every operation's contract is stated
//! against that map.

use vstd::prelude::*;
use vstd::string::*;
use crate::codec::decode_note;
use crate::codec::encode_note;
use crate::codec::note_dec;
use crate::codec::note_enc;
use crate::doc::DocModel;
use crate::keys::frame_key;
use crate::keys::frame_spec;
use crate::keys::id_is_ok;
use crate::keys::id_ok;
use crate::keys::is_framed;
use crate::keys::is_prefix_spec;
use crate::keys::lemma_frame_injective;
use crate::keys::lemma_frame_unframe;
use crate::keys::lemma_framed_prefix_is_equal;
use crate::keys::strict_prefix_spec;
use crate::keys::unframe_spec;
use crate::note::missing_view;
use crate::note::Note;
use crate::note::NoteView;
use crate::note::MAX_NOTE_SIZE;
use crate::note::MAX_TEXT_LEN;

verus! {

/// Why a write was refused.
#[derive(Clone, Copy, Debug, PartialEq, Eq, Structural)]
pub enum NoteError {
    /// The text exceeds the character cap.
    TextTooLong,
    /// The id contains the key terminator and cannot be framed.
    InvalidId,
    /// The encoded note exceeds the byte cap.
    NoteTooLarge,
    /// A timestamp has no calendar date.
    DateOutOfRange,
}

impl NoteError {
    pub open spec fn message_spec(self) -> Seq<char> {
        match self {
            NoteError::TextTooLong => "text is too long"@,
            NoteError::InvalidId => "note id may not contain the key terminator"@,
            NoteError::NoteTooLarge => "encoded note is too large"@,
            NoteError::DateOutOfRange => "timestamp is out of range"@,
        }
    }

    /// A short human-readable description.
    pub fn message(&self) -> (r: String)
        ensures
            r@ == self.message_spec(),
    {
        match self {
            NoteError::TextTooLong => String::from_str("text is too long"),
            NoteError::InvalidId => String::from_str("note id may not contain the key terminator"),
            NoteError::NoteTooLarge => String::from_str("encoded note is too large"),
            NoteError::DateOutOfRange => String::from_str("timestamp is out of range"),
        }
    }
}

/// The fields a freshly created note gets.
pub open spec fn fresh_view(id: Seq<char>, text: Seq<char>, now: i64) -> NoteView {
    NoteView { id: id, text: text, created: now, updated: now, is_delete: false }
}

/// A note the store accepts: text under the character cap, a framable
/// id, and an encoding under the byte cap.
pub open spec fn storable(n: NoteView) -> bool {
    &&& n.text.len() <= MAX_TEXT_LEN
    &&& id_ok(n.id)
    &&& note_enc(n).len() < MAX_NOTE_SIZE
}

/// What a read of `id` returns over a model map: the stored note, or
/// the missing placeholder.
pub open spec fn model_note(m: Map<Seq<char>, NoteView>, id: Seq<char>) -> NoteView {
    if m.dom().contains(id) {
        m[id]
    } else {
        missing_view(id)
    }
}

/// The ids a purge removes from a model map.
pub open spec fn deleted_ids(m: Map<Seq<char>, NoteView>) -> Set<Seq<char>> {
    Set::new(|id: Seq<char>| m.dom().contains(id) && m[id].is_delete)
}

/// One attached document's notes.
pub struct NoteStore {
    doc: DocModel,
}

impl NoteStore {
    /// The document holds only framed keys, each with a decodable note
    /// whose id matches its key.
    pub closed spec fn wf(self) -> bool {
        &&& self.doc.wf()
        &&& forall|k: Seq<char>| #[trigger]
            self.doc@.dom().contains(k) ==> is_framed(k) && (note_dec(self.doc@[k]) matches Some(n)
                && n.id == unframe_spec(k))
    }

    /// The abstract state: note id to stored note.
    pub closed spec fn model(self) -> Map<Seq<char>, NoteView> {
        Map::new(
            |id: Seq<char>| id_ok(id) && self.doc@.dom().contains(frame_spec(id)),
            |id: Seq<char>|
                match note_dec(self.doc@[frame_spec(id)]) {
                    Some(n) => n,
                    None => missing_view(id),
                },
        )
    }

    /// A store over a fresh, empty document.
    pub fn new() -> (r: NoteStore)
        ensures
            r.wf(),
            r.model() == Map::<Seq<char>, NoteView>::empty(),
    {
        let r = NoteStore { doc: DocModel::new() };
        proof {
            assert(r.model() =~= Map::<Seq<char>, NoteView>::empty());
        }
        r
    }

    /// Shared write path: encode, enforce the byte cap, store under the
    /// framed key. The framing proof shows the write destroys nothing.
    fn put(&mut self, note: Note) -> (r: Result<Note, NoteError>)
        requires
            old(self).wf(),
            id_ok(note@.id),
        ensures
            final(self).wf(),
            match r {
                Ok(n) => n == note && note_enc(note@).len() < MAX_NOTE_SIZE && final(self).model()
                    == old(self).model().insert(note@.id, note@),
                Err(e) => e == NoteError::NoteTooLarge && note_enc(note@).len() >= MAX_NOTE_SIZE
                    && final(self).model() == old(self).model() && *final(self) == *old(self),
            },
    {
        let ghost pre = *self;
        let bytes = encode_note(&note);
        if bytes.len() >= MAX_NOTE_SIZE {
            return Err(NoteError::NoteTooLarge);
        }
        let key = frame_key(&note.id);
        proof {
            lemma_frame_unframe(note@.id);
        }
        self.doc.set(key, bytes);
        proof {
            let fid = frame_spec(note@.id);
            // No stored key strictly extends a framed key.
            assert forall|k: Seq<char>| pre.doc@.dom().contains(k) implies !strict_prefix_spec(
                fid,
                k,
            ) by {
                if is_prefix_spec(fid, k) {
                    lemma_framed_prefix_is_equal(note@.id, k);
                }
            }
            assert(self.doc@ =~= pre.doc@.insert(fid, note_enc(note@)));
            assert forall|k: Seq<char>| #[trigger] self.doc@.dom().contains(k) implies is_framed(k)
                && (note_dec(self.doc@[k]) matches Some(n) && n.id == unframe_spec(k)) by {
                if k != fid {
                    assert(pre.doc@.dom().contains(k));
                }
            }
            assert(self.model() =~= pre.model().insert(note@.id, note@)) by {
                assert forall|id2: Seq<char>| id2 != note@.id && id_ok(id2) implies frame_spec(id2)
                    != fid by {
                    if frame_spec(id2) == fid {
                        lemma_frame_injective(id2, note@.id);
                    }
                }
            }
        }
        Ok(note)
    }

    /// Create a note: fresh timestamps, no tombstone. Replaces whatever
    /// the id held before.
    pub fn create(&mut self, id: String, text: String, now: i64) -> (r: Result<Note, NoteError>)
        requires
            old(self).wf(),
        ensures
            final(self).wf(),
            r is Ok <==> storable(fresh_view(id@, text@, now)),
            match r {
                Ok(n) => n@ == fresh_view(id@, text@, now) && final(self).model() == old(
                    self,
                ).model().insert(id@, n@),
                Err(e) => final(self).model() == old(self).model() && (
                (e == NoteError::TextTooLong && text@.len() > MAX_TEXT_LEN) || (e
                    == NoteError::InvalidId && text@.len() <= MAX_TEXT_LEN && !id_ok(id@)) || (e
                    == NoteError::NoteTooLarge && text@.len() <= MAX_TEXT_LEN && id_ok(id@)
                    && note_enc(fresh_view(id@, text@, now)).len() >= MAX_NOTE_SIZE)),
            },
    {
        if text.as_str().unicode_len() > MAX_TEXT_LEN {
            return Err(NoteError::TextTooLong);
        }
        if !id_is_ok(id.as_str()) {
            return Err(NoteError::InvalidId);
        }
        let note = Note { id, text, created: now, updated: now, is_delete: false };
        match self.put(note) {
            Ok(n) => Ok(n),
            Err(e) => Err(e),
        }
    }

    /// Read a note; a missing entry gives the placeholder, never an error.
    pub fn get_note(&self, id: String) -> (r: Note)
        requires
            self.wf(),
        ensures
            r@ == model_note(self.model(), id@),
            r@.id == id@,
    {
        let key = frame_key(&id);
        let found = self.doc.get(&key);
        match found {
            Some(bytes) => {
                proof {
                    assert(self.doc@.dom().contains(frame_spec(id@)));
                    assert(unframe_spec(frame_spec(id@)) =~= id@);
                    assert(self.model().dom().contains(id@));
                }
                match decode_note(&bytes) {
                    Some(n) => n,
                    None => {
                        proof {
                            assert(false);
                        }
                        Note::missing_note(id)
                    },
                }
            },
            None => {
                proof {
                    if self.model().dom().contains(id@) {
                        assert(self.doc@.dom().contains(frame_spec(id@)));
                    }
                }
                Note::missing_note(id)
            },
        }
    }

    /// Replace a note's text: `created` and the tombstone are kept, and
    /// `updated` becomes `now`. An absent id starts from the placeholder.
    pub fn update_note(&mut self, id: String, text: String, now: i64) -> (r: Result<
        (),
        NoteError,
    >)
        requires
            old(self).wf(),
        ensures
            final(self).wf(),
            ({
                let base = model_note(old(self).model(), id@);
                let newv = NoteView {
                    id: id@,
                    text: text@,
                    created: base.created,
                    updated: now,
                    is_delete: base.is_delete,
                };
                &&& (r is Ok <==> storable(newv))
                &&& match r {
                    Ok(()) => final(self).model() == old(self).model().insert(id@, newv),
                    Err(e) => final(self).model() == old(self).model() && ((e
                        == NoteError::TextTooLong && text@.len() > MAX_TEXT_LEN) || (e
                        == NoteError::InvalidId && text@.len() <= MAX_TEXT_LEN && !id_ok(id@)) || (
                    e == NoteError::NoteTooLarge && text@.len() <= MAX_TEXT_LEN && id_ok(id@)
                        && note_enc(newv).len() >= MAX_NOTE_SIZE)),
                }
            }),
    {
        if text.as_str().unicode_len() > MAX_TEXT_LEN {
            return Err(NoteError::TextTooLong);
        }
        if !id_is_ok(id.as_str()) {
            return Err(NoteError::InvalidId);
        }
        let mut note = self.get_note(id);
        note.text = text;
        note.updated = now;
        match self.put(note) {
            Ok(_) => Ok(()),
            Err(e) => Err(e),
        }
    }

    /// A note list the UI can show: exactly the notes that are not
    /// soft-deleted, each once.
    pub open spec fn listing_ok(self, notes: Seq<Note>) -> bool {
        &&& forall|a: int|
            0 <= a < notes.len() ==> !(#[trigger] notes[a])@.is_delete && self.model().dom().contains(
                notes[a]@.id,
            ) && notes[a]@ == self.model()[notes[a]@.id]
        &&& forall|id: Seq<char>|
            #[trigger] self.model().dom().contains(id) && !self.model()[id].is_delete ==> exists|
                a: int,
            | 0 <= a < notes.len() && notes[a]@.id == id
        &&& forall|a: int, b: int| 0 <= a < b < notes.len() ==> notes[a]@.id != notes[b]@.id
    }

    /// Every stored note that is not soft-deleted, in document order.
    #[verifier::loop_isolation(false)]
    #[verifier::rlimit(50)]
    fn collect_active(&self) -> (pool: Vec<Note>)
        requires
            self.wf(),
        ensures
            self.listing_ok(pool@),
    {
        let keys = self.doc.keys();
        let mut pool: Vec<Note> = Vec::new();
        let mut i: usize = 0;
        while i < keys.len()
            invariant
                i <= keys@.len(),
                forall|a: int|
                    0 <= a < pool@.len() ==> !(#[trigger] pool@[a])@.is_delete
                        && self.model().dom().contains(pool@[a]@.id) && pool@[a]@ == self.model()[pool@[a]@.id],
                forall|a: int|
                    0 <= a < pool@.len() ==> exists|j: int|
                        0 <= j < i && keys@[j]@ == frame_spec(#[trigger] pool@[a]@.id),
                forall|a: int, b: int| 0 <= a < b < pool@.len() ==> pool@[a]@.id != pool@[b]@.id,
                forall|j: int|
                    0 <= j < i && !self.model()[unframe_spec(#[trigger] keys@[j]@)].is_delete
                        ==> exists|a: int|
                        0 <= a < pool@.len() && pool@[a]@.id == unframe_spec(keys@[j]@),
            decreases keys@.len() - i,
        {
            let ghost k = keys@[i as int]@;
            proof {
                assert(self.doc@.dom().contains(k));
                assert(frame_spec(unframe_spec(k)) =~= k);
                assert(self.model().dom().contains(unframe_spec(k)));
            }
            let bytes = match self.doc.get(&keys[i]) {
                Some(b) => b,
                None => {
                    proof {
                        assert(false);
                    }
                    Vec::new()
                },
            };
            let note = match decode_note(&bytes) {
                Some(n) => n,
                None => {
                    proof {
                        assert(false);
                    }
                    Note::bad_note()
                },
            };
            proof {
                assert(note@ == self.model()[unframe_spec(k)]);
                assert(note@.id == unframe_spec(k));
            }
            let ghost pool0 = pool@;
            if !note.is_delete {
                pool.push(note);
                proof {
                    assert forall|a: int, b: int|
                        0 <= a < b < pool@.len() implies pool@[a]@.id != pool@[b]@.id by {
                        if b == pool@.len() - 1 {
                            let j = choose|j: int|
                                0 <= j < i && keys@[j]@ == frame_spec(pool0[a]@.id);
                            assert(keys@[j]@ != keys@[i as int]@);
                            assert(frame_spec(pool@[b]@.id) == k);
                        }
                    }
                    assert forall|a: int| 0 <= a < pool@.len() implies exists|j: int|
                        0 <= j < i + 1 && keys@[j]@ == frame_spec(#[trigger] pool@[a]@.id) by {
                        if a < pool0.len() {
                            let j = choose|j: int|
                                0 <= j < i && keys@[j]@ == frame_spec(pool0[a]@.id);
                            assert(0 <= j < i + 1 && keys@[j]@ == frame_spec(pool@[a]@.id));
                        } else {
                            assert(keys@[i as int]@ == frame_spec(pool@[a]@.id));
                        }
                    }
                }
            }
            proof {
                assert forall|j: int|
                    0 <= j < i + 1 && !self.model()[unframe_spec(#[trigger] keys@[j]@)].is_delete
                        implies exists|a: int|
                    0 <= a < pool@.len() && pool@[a]@.id == unframe_spec(keys@[j]@) by {
                    if j == i {
                        assert(pool@[pool@.len() - 1]@.id == unframe_spec(k));
                    } else {
                        let a = choose|a: int|
                            0 <= a < pool0.len() && pool0[a]@.id == unframe_spec(keys@[j]@);
                        assert(pool@[a]@.id == unframe_spec(keys@[j]@));
                    }
                }
            }
            i += 1;
        }
        proof {
            assert forall|id: Seq<char>|
                #[trigger] self.model().dom().contains(id) && !self.model()[id].is_delete
                    implies exists|a: int| 0 <= a < pool@.len() && pool@[a]@.id == id by {
                assert(self.doc@.dom().contains(frame_spec(id)));
                let j = choose|j: int| 0 <= j < keys@.len() && keys@[j]@ == frame_spec(id);
                assert(unframe_spec(frame_spec(id)) =~= id);
            }
        }
        pool
    }

    /// All notes that are not soft-deleted, most recently updated first.
    pub fn get_notes(&self) -> (r: Vec<Note>)
        requires
            self.wf(),
        ensures
            self.listing_ok(r@),
            forall|a: int, b: int| 0 <= a < b < r@.len() ==> r@[a]@.updated >= r@[b]@.updated,
    {
        let pool = self.collect_active();
        let ghost pv = pool@;
        let r = sort_by_updated_desc(pool);
        proof {
            assert forall|a: int| 0 <= a < r@.len() implies !(#[trigger] r@[a])@.is_delete
                && self.model().dom().contains(r@[a]@.id) && r@[a]@ == self.model()[r@[a]@.id] by {
                let b = choose|b: int| 0 <= b < pv.len() && pv[b] == r@[a];
                assert(pv[b]@ == r@[a]@);
            }
            assert forall|id: Seq<char>|
                #[trigger] self.model().dom().contains(id) && !self.model()[id].is_delete
                    implies exists|a: int| 0 <= a < r@.len() && r@[a]@.id == id by {
                let b = choose|b: int| 0 <= b < pv.len() && (#[trigger] pv[b])@.id == id;
                let a = choose|a: int| 0 <= a < r@.len() && r@[a] == pv[b];
                assert(r@[a]@.id == id);
            }
        }
        r
    }

    /// An id list the UI can show: every non-deleted note's id exactly
    /// once, most recently updated first.
    pub open spec fn id_listing_ok(self, ids: Seq<String>) -> bool {
        &&& forall|a: int|
            0 <= a < ids.len() ==> self.model().dom().contains((#[trigger] ids[a])@)
                && !self.model()[ids[a]@].is_delete
        &&& forall|id: Seq<char>|
            #[trigger] self.model().dom().contains(id) && !self.model()[id].is_delete ==> exists|
                a: int,
            | 0 <= a < ids.len() && ids[a]@ == id
        &&& forall|a: int, b: int| 0 <= a < b < ids.len() ==> ids[a]@ != ids[b]@
        &&& forall|a: int, b: int|
            0 <= a < b < ids.len() ==> self.model()[ids[a]@].updated >= self.model()[ids[b]@].updated
    }

    /// The ids of the listed notes, in the listed order.
    pub fn get_note_vec(&self) -> (r: Vec<String>)
        requires
            self.wf(),
        ensures
            self.id_listing_ok(r@),
    {
        let notes = self.get_notes();
        let mut r: Vec<String> = Vec::new();
        let mut i: usize = 0;
        while i < notes.len()
            invariant
                i <= notes@.len(),
                self.listing_ok(notes@),
                forall|a: int, b: int|
                    0 <= a < b < notes@.len() ==> notes@[a]@.updated >= notes@[b]@.updated,
                r@.len() == i,
                forall|a: int| 0 <= a < i ==> (#[trigger] r@[a])@ == notes@[a]@.id,
            decreases notes@.len() - i,
        {
            r.push(notes[i].id.clone());
            i += 1;
        }
        proof {
            assert forall|id: Seq<char>|
                #[trigger] self.model().dom().contains(id) && !self.model()[id].is_delete
                    implies exists|a: int| 0 <= a < r@.len() && r@[a]@ == id by {
                let a = choose|a: int| 0 <= a < notes@.len() && (#[trigger] notes@[a])@.id == id;
                assert(r@[a]@ == id);
            }
            assert forall|a: int, b: int|
                0 <= a < b < r@.len() implies self.model()[(#[trigger] r@[a])@].updated
                    >= self.model()[(#[trigger] r@[b])@].updated by {
                assert(self.model()[r@[a]@] == notes@[a]@);
                assert(self.model()[r@[b]@] == notes@[b]@);
            }
        }
        r
    }

    /// Hard-delete every note whose tombstone is set. The only
    /// irreversible operation: everything else survives in the store.
    #[verifier::loop_isolation(false)]
    #[verifier::rlimit(80)]
    pub fn delete_hidden(&mut self)
        requires
            old(self).wf(),
        ensures
            final(self).wf(),
            final(self).model() == old(self).model().remove_keys(deleted_ids(old(self).model())),
    {
        let ghost pre = *self;
        let keys = self.doc.keys();
        let mut victims: Vec<String> = Vec::new();
        let mut i: usize = 0;
        while i < keys.len()
            invariant
                i <= keys@.len(),
                *self == pre,
                forall|v: int, w: int|
                    0 <= v < w < victims@.len() ==> victims@[v]@ != victims@[w]@,
                forall|v: int|
                    0 <= v < victims@.len() ==> self.doc@.dom().contains(#[trigger] victims@[v]@)
                        && self.model()[unframe_spec(victims@[v]@)].is_delete,
                forall|v: int|
                    0 <= v < victims@.len() ==> exists|j: int|
                        0 <= j < i && keys@[j]@ == #[trigger] victims@[v]@,
                forall|j: int|
                    0 <= j < i && self.model()[unframe_spec(#[trigger] keys@[j]@)].is_delete
                        ==> exists|v: int| 0 <= v < victims@.len() && victims@[v]@ == keys@[j]@,
            decreases keys@.len() - i,
        {
            let ghost k = keys@[i as int]@;
            proof {
                assert(self.doc@.dom().contains(k));
                assert(frame_spec(unframe_spec(k)) =~= k);
                assert(self.model().dom().contains(unframe_spec(k)));
            }
            let bytes = match self.doc.get(&keys[i]) {
                Some(b) => b,
                None => {
                    proof {
                        assert(false);
                    }
                    Vec::new()
                },
            };
            let note = match decode_note(&bytes) {
                Some(n) => n,
                None => {
                    proof {
                        assert(false);
                    }
                    Note::bad_note()
                },
            };
            proof {
                assert(note@ == self.model()[unframe_spec(k)]);
            }
            let ghost victims0 = victims@;
            if note.is_delete {
                victims.push(keys[i].clone());
                proof {
                    assert(victims@[victims@.len() - 1]@ == k);
                    assert forall|v: int| 0 <= v < victims@.len() implies exists|j: int|
                        0 <= j < i + 1 && keys@[j]@ == #[trigger] victims@[v]@ by {
                        if v < victims0.len() {
                            let j = choose|j: int| 0 <= j < i && keys@[j]@ == victims0[v]@;
                            assert(0 <= j < i + 1 && keys@[j]@ == victims@[v]@);
                        } else {
                            assert(keys@[i as int]@ == victims@[v]@);
                        }
                    }
                    assert forall|v: int, w: int|
                        0 <= v < w < victims@.len() implies victims@[v]@ != victims@[w]@ by {
                        if w == victims@.len() - 1 {
                            let j = choose|j: int| 0 <= j < i && keys@[j]@ == victims0[v]@;
                            assert(keys@[j]@ != keys@[i as int]@);
                        }
                    }
                }
            }
            proof {
                assert forall|j: int|
                    0 <= j < i + 1 && self.model()[unframe_spec(#[trigger] keys@[j]@)].is_delete
                        implies exists|v: int|
                    0 <= v < victims@.len() && victims@[v]@ == keys@[j]@ by {
                    if j == i {
                        assert(victims@[victims@.len() - 1]@ == k);
                    } else {
                        let v = choose|v: int|
                            0 <= v < victims0.len() && victims0[v]@ == keys@[j]@;
                        assert(victims@[v]@ == keys@[j]@);
                    }
                }
            }
            i += 1;
        }
        // Distinct victims are in the document; delete them one by one.
        let n = victims.len();
        let mut v: usize = 0;
        while v < n
            invariant
                v <= n,
                n == victims@.len(),
                self.doc.wf(),
                self.doc@ == pre.doc@.remove_keys(
                    Set::new(|k: Seq<char>| exists|u: int| 0 <= u < v && victims@[u]@ == k),
                ),
            decreases n - v,
        {
            let ghost before = self.doc@;
            self.doc.del(&victims[v]);
            proof {
                let vk = victims@[v as int]@;
                assert(pre.doc@.dom().contains(vk));
                assert(is_framed(vk));
                assert(frame_spec(unframe_spec(vk)) =~= vk);
                assert(is_prefix_spec(vk, vk)) by {
                    assert(vk.subrange(0, vk.len() as int) =~= vk);
                }
                assert(self.doc@ =~= pre.doc@.remove_keys(
                    Set::new(|k: Seq<char>| exists|u: int| 0 <= u < v + 1 && victims@[u]@ == k),
                )) by {
                    assert forall|k: Seq<char>| before.dom().contains(k) && is_prefix_spec(vk, k)
                        implies k == vk by {
                        assert(pre.doc@.dom().contains(k));
                        assert(is_framed(k));
                        lemma_framed_prefix_is_equal(unframe_spec(vk), k);
                    }
                }
            }
            v += 1;
        }
        proof {
            let ghost vset = Set::new(
                |k: Seq<char>| exists|u: int| 0 <= u < victims@.len() && victims@[u]@ == k,
            );
            assert forall|k: Seq<char>| #[trigger] self.doc@.dom().contains(k) implies is_framed(k)
                && (note_dec(self.doc@[k]) matches Some(nn) && nn.id == unframe_spec(k)) by {
                assert(pre.doc@.dom().contains(k));
            }
            assert(final(self).model() =~= pre.model().remove_keys(deleted_ids(pre.model()))) by {
                assert forall|id: Seq<char>| id_ok(id) && pre.doc@.dom().contains(frame_spec(id))
                    implies (vset.contains(frame_spec(id)) <==> pre.model()[id].is_delete) by {
                    assert(unframe_spec(frame_spec(id)) =~= id);
                    if vset.contains(frame_spec(id)) {
                        let u = choose|u: int|
                            0 <= u < victims@.len() && victims@[u]@ == frame_spec(id);
                    }
                    if pre.model()[id].is_delete {
                        let j = choose|j: int|
                            0 <= j < keys@.len() && keys@[j]@ == frame_spec(id);
                    }
                }
            }
        }
    }

    /// Flip a note's tombstone in place; the entry itself stays.
    pub fn set_delete(&mut self, id: String) -> (r: Result<(), NoteError>)
        requires
            old(self).wf(),
        ensures
            final(self).wf(),
            ({
                let base = model_note(old(self).model(), id@);
                let newv = NoteView {
                    id: id@,
                    text: base.text,
                    created: base.created,
                    updated: base.updated,
                    is_delete: !base.is_delete,
                };
                &&& (r is Ok <==> id_ok(id@) && note_enc(newv).len() < MAX_NOTE_SIZE)
                &&& match r {
                    Ok(()) => final(self).model() == old(self).model().insert(id@, newv),
                    Err(e) => final(self).model() == old(self).model() && ((e
                        == NoteError::InvalidId && !id_ok(id@)) || (e == NoteError::NoteTooLarge
                        && id_ok(id@) && note_enc(newv).len() >= MAX_NOTE_SIZE)),
                }
            }),
    {
        if !id_is_ok(id.as_str()) {
            return Err(NoteError::InvalidId);
        }
        let mut note = self.get_note(id);
        note.is_delete = !note.is_delete;
        match self.put(note) {
            Ok(_) => Ok(()),
            Err(e) => Err(e),
        }
    }
}

/// A note occurs in a sequence.
pub open spec fn appears(s: Seq<Note>, n: Note) -> bool {
    exists|a: int| 0 <= a < s.len() && s[a] == n
}

/// Sort notes by `updated`, most recent first, keeping exactly the given
/// notes and their pairwise-distinct ids.
#[verifier::rlimit(50)]
fn sort_by_updated_desc(input: Vec<Note>) -> (r: Vec<Note>)
    requires
        forall|a: int, b: int| 0 <= a < b < input@.len() ==> input@[a]@.id != input@[b]@.id,
    ensures
        forall|a: int, b: int| 0 <= a < b < r@.len() ==> r@[a]@.updated >= r@[b]@.updated,
        forall|a: int, b: int| 0 <= a < b < r@.len() ==> r@[a]@.id != r@[b]@.id,
        forall|a: int| 0 <= a < r@.len() ==> appears(input@, #[trigger] r@[a]),
        forall|b: int| 0 <= b < input@.len() ==> appears(r@, #[trigger] input@[b]),
{
    let ghost iv = input@;
    let mut pool = input;
    let mut out: Vec<Note> = Vec::new();
    proof {
        assert forall|b: int| 0 <= b < iv.len() implies appears(pool@, #[trigger] iv[b]) by {
            assert(pool@[b] == iv[b]);
        }
    }
    while pool.len() > 0
        invariant
            forall|a: int, b: int| 0 <= a < b < pool@.len() ==> pool@[a]@.id != pool@[b]@.id,
            forall|a: int, b: int| 0 <= a < b < out@.len() ==> out@[a]@.id != out@[b]@.id,
            forall|a: int, b: int|
                0 <= a < out@.len() && 0 <= b < pool@.len() ==> out@[a]@.id != pool@[b]@.id,
            forall|a: int, b: int| 0 <= a < b < out@.len() ==> out@[a]@.updated >= out@[b]@.updated,
            forall|a: int, b: int|
                0 <= a < out@.len() && 0 <= b < pool@.len() ==> out@[a]@.updated
                    >= pool@[b]@.updated,
            forall|a: int| 0 <= a < out@.len() ==> appears(iv, #[trigger] out@[a]),
            forall|a: int| 0 <= a < pool@.len() ==> appears(iv, #[trigger] pool@[a]),
            forall|b: int| 0 <= b < iv.len() ==> appears(out@, #[trigger] iv[b]) || appears(pool@, iv[b]),
        decreases pool@.len(),
    {
        let mut best: usize = 0;
        let mut bi: usize = 1;
        while bi < pool.len()
            invariant
                0 < pool@.len(),
                best < bi,
                bi <= pool@.len(),
                forall|c: int|
                    0 <= c < bi ==> pool@[best as int]@.updated >= (#[trigger] pool@[c])@.updated,
            decreases pool@.len() - bi,
        {
            if pool[bi].updated > pool[best].updated {
                best = bi;
            }
            bi += 1;
        }
        let ghost pool0 = pool@;
        let ghost out0 = out@;
        let chosen = pool.remove(best);
        out.push(chosen);
        proof {
            assert(pool@ == pool0.remove(best as int));
            assert(out@ == out0.push(chosen));
            assert forall|c: int| 0 <= c < pool@.len() implies exists|d: int|
                0 <= d < pool0.len() && d != best && pool0[d] == #[trigger] pool@[c] by {
                if c < best {
                    assert(pool0[c] == pool@[c]);
                } else {
                    assert(pool0[c + 1] == pool@[c]);
                }
            }
            assert forall|a: int| 0 <= a < out@.len() implies appears(iv, #[trigger] out@[a]) by {
                if a < out0.len() {
                    assert(out@[a] == out0[a]);
                } else {
                    assert(out@[a] == pool0[best as int]);
                }
            }
            assert forall|b: int| 0 <= b < iv.len() implies appears(out@, #[trigger] iv[b])
                || appears(pool@, iv[b]) by {
                if appears(out0, iv[b]) {
                    let a = choose|a: int| 0 <= a < out0.len() && out0[a] == iv[b];
                    assert(out@[a] == iv[b]);
                } else if appears(pool0, iv[b]) {
                    let a = choose|a: int| 0 <= a < pool0.len() && pool0[a] == iv[b];
                    if a == best {
                        assert(out@[out@.len() - 1] == iv[b]);
                    } else if a < best {
                        assert(pool@[a] == iv[b]);
                    } else {
                        assert(pool@[a - 1] == iv[b]);
                    }
                }
            }
        }
    }
    out
}

} // verus!
