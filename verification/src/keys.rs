//! Key framing for the replicated document.
//!
//! The document engine treats a written or deleted key as a *prefix*: an
//! operation on a key can reach every other key that extends it. Stored
//! keys therefore carry a terminator character appended to the note id,
//! and ids that contain the terminator are rejected before any write.
//! `lemma_framed_keys_prefix_free` states the point of the convention:
//! two distinct framed keys are never prefixes of one another, so an
//! operation on one note can never touch another.

use vstd::prelude::*;
use vstd::string::*;

verus! {

/// A sequence `a` is a prefix of `b`.
pub open spec fn is_prefix_spec(a: Seq<char>, b: Seq<char>) -> bool {
    a.len() <= b.len() && a == b.subrange(0, a.len() as int)
}

/// A sequence `a` is a prefix of `b` and shorter than it.
pub open spec fn strict_prefix_spec(a: Seq<char>, b: Seq<char>) -> bool {
    is_prefix_spec(a, b) && a.len() < b.len()
}

/// An id may be stored only if it does not contain the terminator.
pub open spec fn id_ok(id: Seq<char>) -> bool {
    !id.contains('\0')
}

/// The stored key of a note id: the id with the terminator appended.
pub open spec fn frame_spec(id: Seq<char>) -> Seq<char> {
    id.push('\0')
}

/// A key is framed when it is some permitted id plus the terminator.
pub open spec fn is_framed(k: Seq<char>) -> bool {
    k.len() > 0 && k.last() == '\0' && id_ok(k.drop_last())
}

/// The id a framed key stores.
pub open spec fn unframe_spec(k: Seq<char>) -> Seq<char> {
    k.drop_last()
}

pub proof fn lemma_frame_unframe(id: Seq<char>)
    requires
        id_ok(id),
    ensures
        is_framed(frame_spec(id)),
        unframe_spec(frame_spec(id)) == id,
{
    assert(frame_spec(id).drop_last() =~= id);
}

/// A framed key determines its id: framing is injective.
pub proof fn lemma_frame_injective(a: Seq<char>, b: Seq<char>)
    requires
        frame_spec(a) == frame_spec(b),
    ensures
        a == b,
{
    assert(a =~= frame_spec(a).drop_last());
    assert(b =~= frame_spec(b).drop_last());
}

/// Law: the stored keys of two distinct permitted ids are never prefixes
/// of one another, even when one id is a literal prefix of the other, so
/// a prefix-based write or delete of one entry cannot corrupt the other.
pub proof fn lemma_framed_keys_prefix_free(a: Seq<char>, b: Seq<char>)
    requires
        id_ok(a),
        id_ok(b),
        a != b,
    ensures
        !is_prefix_spec(frame_spec(a), frame_spec(b)),
        !is_prefix_spec(frame_spec(b), frame_spec(a)),
{
    lemma_frame_unframe(a);
    lemma_frame_unframe(b);
    if is_prefix_spec(frame_spec(a), frame_spec(b)) {
        lemma_framed_prefix_is_equal(a, frame_spec(b));
        lemma_frame_injective(a, b);
    }
    if is_prefix_spec(frame_spec(b), frame_spec(a)) {
        lemma_framed_prefix_is_equal(b, frame_spec(a));
        lemma_frame_injective(a, b);
    }
}

/// A framed key that sits as a prefix inside any framed key equals it:
/// the terminator closes a key off against extension.
pub proof fn lemma_framed_prefix_is_equal(a: Seq<char>, k: Seq<char>)
    requires
        id_ok(a),
        is_framed(k),
        is_prefix_spec(frame_spec(a), k),
    ensures
        k == frame_spec(a),
{
    let fa = frame_spec(a);
    if fa.len() < k.len() {
        // The terminator of `fa` would sit inside the id part of `k`.
        assert(k[a.len() as int] == fa[a.len() as int]);
        assert(unframe_spec(k)[a.len() as int] == '\0');
        assert(unframe_spec(k).contains('\0'));
        assert(false);
    } else {
        assert(k =~= fa);
    }
}

/// Executable prefix test.
pub fn is_prefix_of(a: &str, b: &str) -> (r: bool)
    ensures
        r == is_prefix_spec(a@, b@),
{
    let alen = a.unicode_len();
    let blen = b.unicode_len();
    if alen > blen {
        return false;
    }
    let mut i: usize = 0;
    while i < alen
        invariant
            i <= alen,
            alen == a@.len(),
            blen == b@.len(),
            alen <= blen,
            forall|j: int| 0 <= j < i ==> a@[j] == b@[j],
        decreases alen - i,
    {
        if a.get_char(i) != b.get_char(i) {
            assert(a@[i as int] != b@.subrange(0, a@.len() as int)[i as int]);
            return false;
        }
        i += 1;
    }
    proof {
        assert(a@ =~= b@.subrange(0, a@.len() as int));
    }
    true
}

/// Executable id check: an id is storable when it has no terminator in it.
pub fn id_is_ok(id: &str) -> (r: bool)
    ensures
        r == id_ok(id@),
{
    let len = id.unicode_len();
    let mut i: usize = 0;
    while i < len
        invariant
            i <= len,
            len == id@.len(),
            forall|j: int| 0 <= j < i ==> id@[j] != '\0',
        decreases len - i,
    {
        if id.get_char(i) == '\0' {
            return false;
        }
        i += 1;
    }
    proof {
        assert(forall|j: int| 0 <= j < id@.len() ==> id@[j] != '\0');
        if id@.contains('\0') {
            let j = choose|j: int| 0 <= j < id@.len() && id@[j] == '\0';
        }
    }
    true
}

/// Executable key framing: append the terminator to the id.
pub fn frame_key(id: &String) -> (r: String)
    ensures
        r@ == frame_spec(id@),
{
    let r = id.clone().concat("\u{0}");
    proof {
        reveal_strlit("\u{0}");
        assert(r@ =~= frame_spec(id@));
    }
    r
}

} // verus!
