//! The rotation cursors: for each device, the playlist position that its next
//! check-in serves. They live as long as the process and start at zero.

use vstd::prelude::*;

use vstd::arithmetic::div_mod::{lemma_add_mod_noop_right, lemma_mod_bound, lemma_mod_equivalence, lemma_small_mod};

use crate::models::texts;

verus! {

/// The cursor of `id` in `m`: zero until its first advance.
pub open spec fn cursor_of(m: Map<Seq<char>, nat>, id: Seq<char>) -> nat {
    if m.contains_key(id) {
        m[id]
    } else {
        0
    }
}

/// Where a cursor at `c` goes after serving from a playlist of `len` images.
pub open spec fn next_cursor(c: nat, len: nat) -> nat
    recommends
        len > 0,
{
    ((c + 1) as nat) % len
}

/// The cursor after `k` check-ins, one after another, that each served from
/// a playlist of `len` images, starting from `c`.
pub open spec fn cursor_after(c: nat, len: nat, k: nat) -> nat
    decreases k,
{
    if k == 0 {
        c
    } else {
        next_cursor(cursor_after(c, len, (k - 1) as nat), len)
    }
}

/// Check-ins of one device advance its cursor one at a time: the check-in
/// that comes after `k` others, all starting from cursor `c`, serves position
/// `(c + k) mod len`. No position is served twice and none is skipped.
pub proof fn lemma_check_ins_consecutive(c: nat, len: nat, k: nat)
    requires
        len > 0,
    ensures
        cursor_after(c, len, k) % len == ((c + k) as nat) % len,
    decreases k,
{
    if k > 0 {
        let prev = cursor_after(c, len, (k - 1) as nat);
        lemma_check_ins_consecutive(c, len, (k - 1) as nat);
        lemma_add_mod_noop_right(1, prev as int, len as int);
        lemma_add_mod_noop_right(1, c + k - 1, len as int);
        lemma_mod_bound(prev + 1 as int, len as int);
        lemma_small_mod(cursor_after(c, len, k), len);
    }
}

/// Of `len` or fewer check-ins of one device in a row, no two serve the same
/// position of a playlist of `len` images.
pub proof fn lemma_check_ins_distinct(c: nat, len: nat, i: nat, j: nat)
    requires
        len > 0,
        i < j < len,
    ensures
        cursor_after(c, len, i) % len != cursor_after(c, len, j) % len,
{
    lemma_check_ins_consecutive(c, len, i);
    lemma_check_ins_consecutive(c, len, j);
    lemma_mod_equivalence((c + j) as int, (c + i) as int, len as int);
    lemma_small_mod((j - i) as nat, len);
}

struct CursorEntry {
    device_id: String,
    next: usize,
}

pub struct RotationCursors {
    entries: Vec<CursorEntry>,
    model: Ghost<Map<Seq<char>, nat>>,
}

impl View for RotationCursors {
    type V = Map<Seq<char>, nat>;

    closed spec fn view(&self) -> Map<Seq<char>, nat> {
        self.model@
    }
}

impl RotationCursors {
    /// Each entry stands for one key of the model, with its value, and each
    /// key of the model has exactly one entry.
    pub closed spec fn wf(&self) -> bool {
        &&& forall|i: int|
            0 <= i < self.entries@.len() ==> self.model@.contains_key(
                (#[trigger] self.entries@[i]).device_id@,
            ) && self.model@[self.entries@[i].device_id@] == self.entries@[i].next as nat
        &&& forall|k: Seq<char>|
            #[trigger] self.model@.contains_key(k) ==> exists|i: int|
                0 <= i < self.entries@.len() && (#[trigger] self.entries@[i]).device_id@ == k
        &&& forall|i: int, j: int|
            0 <= i < self.entries@.len() && 0 <= j < self.entries@.len() && i != j ==> (
            #[trigger] self.entries@[i]).device_id@ != (#[trigger] self.entries@[j]).device_id@
    }

    /// No cursor has moved yet.
    pub fn new() -> (r: RotationCursors)
        ensures
            r.wf(),
            r@ == Map::<Seq<char>, nat>::empty(),
    {
        RotationCursors { entries: Vec::new(), model: Ghost(Map::empty()) }
    }

    /// Where the entry for `device_id` stands, if there is one.
    fn find(&self, device_id: &String) -> (r: Option<usize>)
        requires
            self.wf(),
        ensures
            match r {
                Some(i) => i < self.entries@.len() && self.entries@[i as int].device_id@ == device_id@,
                None => !self@.contains_key(device_id@),
            },
    {
        let mut i: usize = 0;
        while i < self.entries.len()
            invariant
                self.wf(),
                i <= self.entries@.len(),
                forall|j: int| 0 <= j < i ==> (#[trigger] self.entries@[j]).device_id@ != device_id@,
            decreases self.entries@.len() - i,
        {
            if self.entries[i].device_id == *device_id {
                return Some(i);
            }
            i = i + 1;
        }
        None
    }

    /// The cursor of `device_id`.
    pub fn cursor(&self, device_id: &str) -> (r: usize)
        requires
            self.wf(),
        ensures
            r as nat == cursor_of(self@, device_id@),
    {
        let key = device_id.to_owned();
        match self.find(&key) {
            Some(i) => self.entries[i].next,
            None => 0,
        }
    }

    /// Takes the position to serve from a playlist of `len` images, the
    /// cursor modulo `len`, and moves the cursor on, in one step.
    pub fn advance(&mut self, device_id: &str, len: usize) -> (r: usize)
        requires
            old(self).wf(),
            len > 0,
        ensures
            final(self).wf(),
            r as nat == cursor_of(old(self)@, device_id@) % (len as nat),
            final(self)@ == old(self)@.insert(
                device_id@,
                next_cursor(cursor_of(old(self)@, device_id@), len as nat),
            ),
    {
        let key = device_id.to_owned();
        let found = self.find(&key);
        let c: usize = match found {
            Some(i) => self.entries[i].next,
            None => 0,
        };
        let idx = c % len;
        let next = (idx + 1) % len;
        proof {
            lemma_add_mod_noop_right(1, c as int, len as int);
            lemma_mod_bound(c as int, len as int);
        }
        let ghost old_model = self.model@;
        let ghost old_entries = self.entries@;
        match found {
            Some(i) => {
                self.entries.set(i, CursorEntry { device_id: key, next });
                proof {
                    self.model@ = old_model.insert(device_id@, next as nat);
                    assert forall|j: int| 0 <= j < self.entries@.len() && j != i implies (
                    #[trigger] self.entries@[j]).device_id@ != device_id@ by {
                        assert(old_entries[j].device_id@ != old_entries[i as int].device_id@);
                    }
                    assert forall|k: Seq<char>| #[trigger] self.model@.contains_key(k) implies exists|j: int|
                        0 <= j < self.entries@.len() && (#[trigger] self.entries@[j]).device_id@ == k by {
                        if k != device_id@ {
                            let j = choose|j: int|
                                0 <= j < old_entries.len() && (#[trigger] old_entries[j]).device_id@ == k;
                            assert(self.entries@[j] == old_entries[j]);
                        } else {
                            assert(self.entries@[i as int].device_id@ == k);
                        }
                    }
                }
            },
            None => {
                self.entries.push(CursorEntry { device_id: key, next });
                proof {
                    self.model@ = old_model.insert(device_id@, next as nat);
                    let n = old_entries.len() as int;
                    assert(self.entries@[n].device_id@ == device_id@);
                    assert forall|j: int| 0 <= j < n implies (#[trigger] self.entries@[j]).device_id@
                        != device_id@ by {
                        assert(self.entries@[j] == old_entries[j]);
                    }
                    assert forall|k: Seq<char>| #[trigger] self.model@.contains_key(k) implies exists|j: int|
                        0 <= j < self.entries@.len() && (#[trigger] self.entries@[j]).device_id@ == k by {
                        if k != device_id@ {
                            let j = choose|j: int|
                                0 <= j < old_entries.len() && (#[trigger] old_entries[j]).device_id@ == k;
                            assert(self.entries@[j] == old_entries[j]);
                        } else {
                            assert(self.entries@[n].device_id@ == k);
                        }
                    }
                }
            },
        }
        idx
    }

    /// The image that a check-in of `device_id` serves: `default_image` for
    /// an empty playlist, leaving the cursor where it is; otherwise the image
    /// at the cursor modulo the playlist's length, advancing the cursor.
    pub fn next_image(&mut self, device_id: &str, images: &[String], default_image: &str) -> (r: String)
        requires
            old(self).wf(),
        ensures
            final(self).wf(),
            images@.len() == 0 ==> r@ == default_image@ && final(self)@ == old(self)@,
            images@.len() > 0 ==> {
                let c = cursor_of(old(self)@, device_id@);
                &&& r@ == texts(images@)[(c % images@.len()) as int]
                &&& final(self)@ == old(self)@.insert(device_id@, next_cursor(c, images@.len()))
            },
    {
        if images.len() == 0 {
            return default_image.to_owned();
        }
        let i = self.advance(device_id, images.len());
        images[i].clone()
    }
}

} // verus!
