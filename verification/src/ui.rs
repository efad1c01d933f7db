//! The UI-side note list: the note ids last sent by the worker, each
//! with a selection flag. The worker's listing carries each id once,
//! so the rows inherit that.

use vstd::prelude::*;
use vstd::string::*;
use crate::note::Note;

verus! {

fn find_row(entries: &Vec<(String, bool)>, id: &String) -> (r: Option<usize>)
    ensures
        match r {
            Some(i) => i < entries@.len() && entries@[i as int].0@ == id@,
            None => forall|b: int| 0 <= b < entries@.len() ==> (#[trigger] entries@[b]).0@ != id@,
        },
{
    let mut a: usize = 0;
    while a < entries.len()
        invariant
            a <= entries@.len(),
            forall|b: int| 0 <= b < a ==> (#[trigger] entries@[b]).0@ != id@,
        decreases entries@.len() - a,
    {
        if entries[a].0 == *id {
            return Some(a);
        }
        a += 1;
    }
    None
}

/// The note list the side panel shows.
pub struct NotesUi {
    entries: Vec<(String, bool)>,
}

impl NotesUi {
    /// The shown ids and their selection flags, in display order.
    pub closed spec fn rows(self) -> Seq<(String, bool)> {
        self.entries@
    }

    /// An empty list.
    pub fn new() -> (r: NotesUi)
        ensures
            r.rows().len() == 0,
    {
        NotesUi { entries: Vec::new() }
    }

    /// Replace the list with the given names in their order, none
    /// selected.
    pub fn update(&mut self, names: Vec<String>)
        ensures
            final(self).rows().len() == names@.len(),
            forall|a: int|
                0 <= a < names@.len() ==> (#[trigger] final(self).rows()[a]).0 == names@[a]
                    && !final(self).rows()[a].1,
    {
        let mut entries: Vec<(String, bool)> = Vec::new();
        let mut j: usize = 0;
        while j < names.len()
            invariant
                j <= names@.len(),
                entries@.len() == j,
                forall|a: int|
                    0 <= a < j ==> (#[trigger] entries@[a]).0 == names@[a] && !entries@[a].1,
            decreases names@.len() - j,
        {
            entries.push((names[j].clone(), false));
            j += 1;
        }
        self.entries = entries;
    }

    /// Mark a note's row as the shown one; an unknown id is appended
    /// selected. Other rows keep their flags.
    pub fn set(&mut self, note: Note)
        ensures
            exists|a: int|
                0 <= a < final(self).rows().len() && (#[trigger] final(self).rows()[a]).0@
                    == note@.id && final(self).rows()[a].1,
            forall|a: int|
                0 <= a < old(self).rows().len() && (#[trigger] old(self).rows()[a]).0@ != note@.id
                    ==> final(self).rows()[a] == old(self).rows()[a],
    {
        match find_row(&self.entries, &note.id) {
            Some(a) => {
                let id = self.entries[a].0.clone();
                self.entries.set(a, (id, true));
                proof {
                    let fs = *self;
                    assert(fs.rows()[a as int].0@ == note@.id && fs.rows()[a as int].1);
                }
            },
            None => {
                self.entries.push((note.id, true));
                proof {
                    let fs = *self;
                    assert(fs.rows()[fs.rows().len() - 1].0@ == note@.id && fs.rows()[
                        fs.rows().len() - 1].1);
                }
            },
        }
    }

    /// Clear every selection flag; the ids and their order stay.
    pub fn clear_selection(&mut self)
        ensures
            final(self).rows().len() == old(self).rows().len(),
            forall|a: int|
                0 <= a < final(self).rows().len() ==> (#[trigger] final(self).rows()[a]).0 == old(
                    self,
                ).rows()[a].0 && !final(self).rows()[a].1,
    {
        let n = self.entries.len();
        let mut a: usize = 0;
        while a < n
            invariant
                a <= n,
                n == self.entries@.len(),
                self.entries@.len() == old(self).entries@.len(),
                forall|b: int|
                    0 <= b < self.entries@.len() ==> (#[trigger] self.entries@[b]).0 == old(
                        self,
                    ).entries@[b].0,
                forall|b: int| 0 <= b < a ==> !(#[trigger] self.entries@[b]).1,
            decreases n - a,
        {
            let id = self.entries[a].0.clone();
            self.entries.set(a, (id, false));
            a += 1;
        }
    }

    /// The rows in display order, for the panel to draw.
    pub fn rows_vec(&self) -> (r: Vec<(String, bool)>)
        ensures
            r@.len() == self.rows().len(),
            forall|a: int|
                0 <= a < r@.len() ==> (#[trigger] r@[a]).0@ == self.rows()[a].0@ && r@[a].1
                    == self.rows()[a].1,
    {
        let mut r: Vec<(String, bool)> = Vec::new();
        let mut a: usize = 0;
        while a < self.entries.len()
            invariant
                a <= self.entries@.len(),
                r@.len() == a,
                forall|b: int|
                    0 <= b < a ==> (#[trigger] r@[b]).0@ == self.entries@[b].0@ && r@[b].1
                        == self.entries@[b].1,
            decreases self.entries@.len() - a,
        {
            r.push((self.entries[a].0.clone(), self.entries[a].1));
            a += 1;
        }
        r
    }
}

} // verus!
