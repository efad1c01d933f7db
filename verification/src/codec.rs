//! The byte codec for notes.
//!
//! Notes are stored as JSON objects. The encoding and the decoding are
//! done by the JSON crate; the two spec names below stand for what those
//! calls return, and the one fact the library builds on is that decoding
//! an encoded note gives the note back.

use vstd::prelude::*;
use crate::note::Note;
use crate::note::NoteView;

verus! {

/// The byte encoding of a note, as the JSON codec produces it.
pub uninterp spec fn note_enc(n: NoteView) -> Seq<u8>;

/// The note a byte string decodes to, if it decodes at all.
pub uninterp spec fn note_dec(b: Seq<u8>) -> Option<NoteView>;

/// Relies on serde_json::to_vec: a note's five fields serialize to a JSON
/// object, deterministically, and serde_json parses its own output back
/// to the same fields. Serializing an object with string keys cannot
/// fail, so the final expect never fires.
#[verifier::external_body]
pub(crate) fn encode_note(note: &Note) -> (r: Vec<u8>)
    ensures
        r@ == note_enc(note@),
        note_dec(r@) == Some(note@),
{
    let mut m = serde_json::Map::new();
    m.insert("id".to_string(), serde_json::Value::from(note.id.clone()));
    m.insert("text".to_string(), serde_json::Value::from(note.text.clone()));
    m.insert("created".to_string(), serde_json::Value::from(note.created));
    m.insert("updated".to_string(), serde_json::Value::from(note.updated));
    m.insert("is_delete".to_string(), serde_json::Value::from(note.is_delete));
    serde_json::to_vec(&serde_json::Value::Object(m)).expect("object serialization cannot fail")
}

/// Relies on serde_json::from_slice and the Value accessors: what a byte
/// string parses to depends on those bytes alone.
#[verifier::external_body]
pub(crate) fn decode_note(bytes: &Vec<u8>) -> (r: Option<Note>)
    ensures
        match r {
            Some(n) => note_dec(bytes@) == Some(n@),
            None => note_dec(bytes@) is None,
        },
{
    let v: serde_json::Value = serde_json::from_slice(bytes.as_slice()).ok()?;
    Some(Note {
        id: v.get("id")?.as_str()?.to_string(),
        text: v.get("text")?.as_str()?.to_string(),
        created: v.get("created")?.as_i64()?,
        updated: v.get("updated")?.as_i64()?,
        is_delete: v.get("is_delete")?.as_bool()?,
    })
}

} // verus!
