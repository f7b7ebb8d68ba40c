//! The ledger of pending outbound requests.
//!
//! An entry stands under the serial number that its request was sent with.
//! It is there from the moment the request is recorded until the one
//! reconciliation that removes it.

use vstd::prelude::*;
use crate::types::{Request, RequestView};

verus! {

/// Some entry of `entries` stands under `serial_no`.
pub open spec fn has_entry(entries: Seq<(i128, Request)>, serial_no: i128) -> bool {
    exists|i: int| 0 <= i < entries.len() && #[trigger] entries[i].0 == serial_no
}

/// Where in `entries` the entry under `serial_no` stands.
pub open spec fn entry_index(entries: Seq<(i128, Request)>, serial_no: i128) -> int {
    choose|i: int| 0 <= i < entries.len() && #[trigger] entries[i].0 == serial_no
}

/// No two entries stand under the same serial number.
pub open spec fn distinct_keys(entries: Seq<(i128, Request)>) -> bool {
    forall|i: int, j: int|
        0 <= i < entries.len() && 0 <= j < entries.len() && i != j ==> #[trigger] entries[i].0
            != #[trigger] entries[j].0
}

/// The mapping that a list of entries with distinct keys stands for.
pub open spec fn entries_map(entries: Seq<(i128, Request)>) -> Map<i128, RequestView> {
    Map::new(
        |serial_no: i128| has_entry(entries, serial_no),
        |serial_no: i128| entries[entry_index(entries, serial_no)].1@,
    )
}

proof fn lemma_entry(entries: Seq<(i128, Request)>, i: int)
    requires
        distinct_keys(entries),
        0 <= i < entries.len(),
    ensures
        has_entry(entries, entries[i].0),
        entry_index(entries, entries[i].0) == i,
        entries_map(entries).contains_key(entries[i].0),
        entries_map(entries)[entries[i].0] == entries[i].1@,
{
    let j = entry_index(entries, entries[i].0);
    assert(0 <= j < entries.len() && entries[j].0 == entries[i].0);
}

proof fn lemma_push(entries: Seq<(i128, Request)>, serial_no: i128, request: Request)
    requires
        distinct_keys(entries),
        !has_entry(entries, serial_no),
    ensures
        distinct_keys(entries.push((serial_no, request))),
        entries_map(entries.push((serial_no, request))) == entries_map(entries).insert(
            serial_no,
            request@,
        ),
{
    let after = entries.push((serial_no, request));
    let n = entries.len() as int;
    assert(after[n].0 == serial_no);
    assert(distinct_keys(after)) by {
        assert forall|i: int, j: int|
            0 <= i < after.len() && 0 <= j < after.len() && i != j implies #[trigger] after[i].0
            != #[trigger] after[j].0 by {
            if i < n {
                assert(entries[i].0 == after[i].0);
            }
            if j < n {
                assert(entries[j].0 == after[j].0);
            }
        }
    }
    assert forall|k: i128| #[trigger]
        entries_map(after).contains_key(k) == entries_map(entries).insert(
            serial_no,
            request@,
        ).contains_key(k) by {
        if has_entry(entries, k) {
            let i = entry_index(entries, k);
            assert(after[i].0 == k);
        }
        if has_entry(after, k) && k != serial_no {
            let i = entry_index(after, k);
            assert(entries[i].0 == k);
        }
    }
    assert forall|k: i128| #[trigger] entries_map(after).contains_key(k) implies entries_map(
        after,
    )[k] == entries_map(entries).insert(serial_no, request@)[k] by {
        if k == serial_no {
            lemma_entry(after, n);
        } else {
            let i = entry_index(after, k);
            assert(entries[i].0 == k);
            lemma_entry(entries, i);
        }
    }
    assert(entries_map(after) =~= entries_map(entries).insert(serial_no, request@));
}

proof fn lemma_update(entries: Seq<(i128, Request)>, i: int, request: Request)
    requires
        distinct_keys(entries),
        0 <= i < entries.len(),
    ensures
        distinct_keys(entries.update(i, (entries[i].0, request))),
        entries_map(entries.update(i, (entries[i].0, request))) == entries_map(entries).insert(
            entries[i].0,
            request@,
        ),
{
    let serial_no = entries[i].0;
    let after = entries.update(i, (serial_no, request));
    assert(distinct_keys(after)) by {
        assert forall|a: int, b: int|
            0 <= a < after.len() && 0 <= b < after.len() && a != b implies #[trigger] after[a].0
            != #[trigger] after[b].0 by {
            assert(entries[a].0 == after[a].0);
            assert(entries[b].0 == after[b].0);
        }
    }
    assert forall|k: i128| #[trigger]
        entries_map(after).contains_key(k) == entries_map(entries).insert(
            serial_no,
            request@,
        ).contains_key(k) by {
        if has_entry(entries, k) {
            let j = entry_index(entries, k);
            assert(after[j].0 == k);
        }
        if has_entry(after, k) {
            let j = entry_index(after, k);
            assert(entries[j].0 == k);
        }
        assert(after[i].0 == serial_no);
    }
    assert forall|k: i128| #[trigger] entries_map(after).contains_key(k) implies entries_map(
        after,
    )[k] == entries_map(entries).insert(serial_no, request@)[k] by {
        let j = entry_index(after, k);
        assert(entries[j].0 == k);
        lemma_entry(after, j);
        lemma_entry(entries, j);
    }
    assert(entries_map(after) =~= entries_map(entries).insert(serial_no, request@));
}

proof fn lemma_remove(entries: Seq<(i128, Request)>, i: int)
    requires
        distinct_keys(entries),
        0 <= i < entries.len(),
    ensures
        distinct_keys(entries.remove(i)),
        entries_map(entries.remove(i)) == entries_map(entries).remove(entries[i].0),
{
    let serial_no = entries[i].0;
    let after = entries.remove(i);
    assert forall|a: int| 0 <= a < after.len() implies #[trigger] after[a] == entries[if a < i {
        a
    } else {
        a + 1
    }] by {}
    assert(distinct_keys(after)) by {
        assert forall|a: int, b: int|
            0 <= a < after.len() && 0 <= b < after.len() && a != b implies #[trigger] after[a].0
            != #[trigger] after[b].0 by {
            let a0 = if a < i { a } else { a + 1 };
            let b0 = if b < i { b } else { b + 1 };
            assert(after[a] == entries[a0]);
            assert(after[b] == entries[b0]);
            assert(entries[a0].0 != entries[b0].0);
        }
    }
    assert forall|k: i128| #[trigger]
        entries_map(after).contains_key(k) == entries_map(entries).remove(serial_no).contains_key(
            k,
        ) by {
        if has_entry(entries, k) && k != serial_no {
            let j = entry_index(entries, k);
            let j1 = if j < i { j } else { j - 1 };
            assert(after[j1] == entries[j]);
            assert(after[j1].0 == k);
        }
        if has_entry(after, k) {
            let j = entry_index(after, k);
            let j0 = if j < i { j } else { j + 1 };
            assert(after[j] == entries[j0]);
            assert(entries[j0].0 == k);
            assert(entries[j0].0 != entries[i].0);
        }
    }
    assert forall|k: i128| #[trigger] entries_map(after).contains_key(k) implies entries_map(
        after,
    )[k] == entries_map(entries).remove(serial_no)[k] by {
        let j = entry_index(after, k);
        let j0 = if j < i { j } else { j + 1 };
        assert(after[j] == entries[j0]);
        lemma_entry(after, j);
        lemma_entry(entries, j0);
    }
    assert(entries_map(after) =~= entries_map(entries).remove(serial_no));
}

/// The pending requests, each under its serial number.
#[derive(Debug)]
pub struct Requests {
    entries: Vec<(i128, Request)>,
}

impl View for Requests {
    type V = Map<i128, RequestView>;

    closed spec fn view(&self) -> Map<i128, RequestView> {
        entries_map(self.entries@)
    }
}

impl Requests {
    #[verifier::type_invariant]
    spec fn inv(self) -> bool {
        distinct_keys(self.entries@)
    }

    /// A ledger without entries.
    pub fn new() -> (requests: Self)
        ensures
            requests@ == Map::<i128, RequestView>::empty(),
    {
        let requests = Requests { entries: Vec::new() };
        assert(requests@ =~= Map::<i128, RequestView>::empty());
        requests
    }

    fn find(&self, serial_no: i128) -> (found: Option<usize>)
        ensures
            match found {
                Some(i) => i < self.entries@.len() && self.entries@[i as int].0 == serial_no,
                None => !has_entry(self.entries@, serial_no),
            },
    {
        let mut i: usize = 0;
        while i < self.entries.len()
            invariant
                i <= self.entries@.len(),
                forall|j: int| 0 <= j < i ==> (#[trigger] self.entries@[j]).0 != serial_no,
            decreases self.entries@.len() - i,
        {
            if self.entries[i].0 == serial_no {
                return Some(i);
            }
            i += 1;
        }
        None
    }

    /// Moves the entries out, so that they can be changed as a plain list and
    /// put back in one step.
    fn take_entries(&mut self) -> (entries: Vec<(i128, Request)>)
        ensures
            entries@ == old(self).entries@,
            final(self).entries@.len() == 0,
    {
        let mut entries: Vec<(i128, Request)> = Vec::new();
        std::mem::swap(&mut self.entries, &mut entries);
        entries
    }

    /// Records `request` under `serial_no`, in place of what stood there.
    pub fn add(&mut self, serial_no: i128, request: &Request)
        ensures
            final(self)@ == old(self)@.insert(serial_no, request@),
    {
        proof {
            use_type_invariant(&*self);
        }
        let copy = request.clone();
        let found = self.find(serial_no);
        let mut entries = self.take_entries();
        match found {
            Some(i) => {
                proof {
                    lemma_update(entries@, i as int, copy);
                }
                entries.set(i, (serial_no, copy));
            },
            None => {
                proof {
                    lemma_push(entries@, serial_no, copy);
                }
                entries.push((serial_no, copy));
            },
        }
        self.entries = entries;
    }

    /// The request that stands under `serial_no`, if there is one.
    pub fn get(&self, serial_no: i128) -> (found: Option<Request>)
        ensures
            match found {
                Some(request) => self@.contains_key(serial_no) && self@[serial_no] == request@,
                None => !self@.contains_key(serial_no),
            },
    {
        proof {
            use_type_invariant(self);
        }
        match self.find(serial_no) {
            Some(i) => {
                proof {
                    lemma_entry(self.entries@, i as int);
                }
                Some(self.entries[i].1.clone())
            },
            None => None,
        }
    }

    /// Whether a request stands under `serial_no`.
    pub fn contains(&self, serial_no: i128) -> (found: bool)
        ensures
            found == self@.contains_key(serial_no),
    {
        proof {
            use_type_invariant(self);
        }
        match self.find(serial_no) {
            Some(i) => {
                proof {
                    lemma_entry(self.entries@, i as int);
                }
                true
            },
            None => false,
        }
    }

    /// Removes the entry under `serial_no`. Without such an entry nothing
    /// changes.
    pub fn remove(&mut self, serial_no: i128)
        ensures
            final(self)@ == old(self)@.remove(serial_no),
    {
        proof {
            use_type_invariant(&*self);
        }
        let found = self.find(serial_no);
        let mut entries = self.take_entries();
        match found {
            Some(i) => {
                proof {
                    lemma_remove(entries@, i as int);
                }
                entries.remove(i);
            },
            None => {
                assert(entries_map(entries@) =~= entries_map(entries@).remove(serial_no));
            },
        }
        self.entries = entries;
    }

    /// The serial numbers that have an entry, each once.
    pub fn serial_numbers(&self) -> (keys: Vec<i128>)
        ensures
            keys@.no_duplicates(),
            forall|serial_no: i128| keys@.contains(serial_no) <==> self@.contains_key(serial_no),
    {
        proof {
            use_type_invariant(self);
        }
        let mut keys: Vec<i128> = Vec::new();
        let mut i: usize = 0;
        while i < self.entries.len()
            invariant
                i <= self.entries@.len(),
                keys@.len() == i,
                forall|j: int| 0 <= j < i ==> keys@[j] == (#[trigger] self.entries@[j]).0,
            decreases self.entries@.len() - i,
        {
            keys.push(self.entries[i].0);
            i += 1;
        }
        proof {
            assert forall|a: int, b: int|
                0 <= a < keys@.len() && 0 <= b < keys@.len() && a != b implies keys@[a]
                != keys@[b] by {
                assert(self.entries@[a].0 != self.entries@[b].0);
            }
            assert forall|serial_no: i128|
                keys@.contains(serial_no) <==> self@.contains_key(serial_no) by {
                if keys@.contains(serial_no) {
                    let a = choose|a: int| 0 <= a < keys@.len() && keys@[a] == serial_no;
                    assert(self.entries@[a].0 == serial_no);
                }
                if self@.contains_key(serial_no) {
                    let a = entry_index(self.entries@, serial_no);
                    assert(keys@[a] == serial_no);
                }
            }
        }
        keys
    }
}

} // verus!
