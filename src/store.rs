//! The device state store: one `DeviceState` per device identifier, created
//! on first contact and kept for the life of the store.
use vstd::prelude::*;
use crate::device::{device_step, Action, DeviceState, DeviceView};
use crate::policy::{Verdict, MAX_TIME_MS};

verus! {

/// The state a store with contents `m` holds for `id`: a fresh state when
/// the device has not been seen yet.
pub open spec fn state_in(m: Map<Seq<char>, DeviceView>, id: Seq<char>) -> DeviceView {
    if m.contains_key(id) {
        m[id]
    } else {
        DeviceView::fresh()
    }
}

/// Maps device identifiers to their throttling state. Entries are never
/// removed: the store grows with the number of distinct devices seen.
pub struct DeviceStore {
    ids: Vec<String>,
    states: Vec<DeviceState>,
    model: Ghost<Map<Seq<char>, DeviceView>>,
}

impl View for DeviceStore {
    type V = Map<Seq<char>, DeviceView>;

    closed spec fn view(&self) -> Map<Seq<char>, DeviceView> {
        self.model@
    }
}

impl DeviceStore {
    /// Identifiers are unique, each has exactly one well-formed state, and
    /// the model holds exactly those pairs.
    pub closed spec fn wf(&self) -> bool {
        &&& self.ids@.len() == self.states@.len()
        &&& forall|i: int, j: int|
            0 <= i < j < self.ids@.len() ==> #[trigger] self.ids@[i]@ != #[trigger] self.ids@[j]@
        &&& forall|i: int|
            0 <= i < self.ids@.len() ==> {
                &&& self.model@.contains_key(#[trigger] self.ids@[i]@)
                &&& self.model@[self.ids@[i]@] == self.states@[i]@
                &&& self.states@[i].wf()
            }
        &&& forall|k: Seq<char>|
            #[trigger] self.model@.contains_key(k) ==> exists|i: int|
                0 <= i < self.ids@.len() && self.ids@[i]@ == k
    }

    /// An empty store.
    pub fn new() -> (r: DeviceStore)
        ensures
            r.wf(),
            r@ == Map::<Seq<char>, DeviceView>::empty(),
    {
        DeviceStore { ids: Vec::new(), states: Vec::new(), model: Ghost(Map::empty()) }
    }

    /// Number of devices seen so far.
    pub fn len(&self) -> (r: usize)
        requires
            self.wf(),
        ensures
            r == self@.dom().len(),
    {
        proof {
            self.lemma_dom_len();
        }
        self.ids.len()
    }

    proof fn lemma_dom_len(&self)
        requires
            self.wf(),
        ensures
            self@.dom().len() == self.ids@.len(),
            self@.dom().finite(),
    {
        let ids = self.ids@.map_values(|s: String| s@);
        assert forall|i: int, j: int| 0 <= i < j < ids.len() implies ids[i] != ids[j] by {
            assert(self.ids@[i]@ != self.ids@[j]@);
        }
        assert(ids.no_duplicates());
        assert(self@.dom() =~= ids.to_set()) by {
            assert forall|k: Seq<char>| self@.dom().contains(k) implies ids.to_set().contains(k) by {
                let i = choose|i: int| 0 <= i < self.ids@.len() && self.ids@[i]@ == k;
                assert(ids[i] == k);
            }
            assert forall|k: Seq<char>| ids.to_set().contains(k) implies self@.dom().contains(k) by {
                let i = choose|i: int| 0 <= i < ids.len() && ids[i] == k;
                assert(self.model@.contains_key(self.ids@[i]@));
            }
        }
        ids.unique_seq_to_set();
    }

    /// The position of `id` among the stored identifiers, if it is there.
    fn find(&self, id: &String) -> (r: Option<usize>)
        requires
            self.wf(),
        ensures
            match r {
                Some(i) => i < self.ids@.len() && self.ids@[i as int]@ == id@,
                None => !self@.contains_key(id@),
            },
    {
        let mut i: usize = 0;
        while i < self.ids.len()
            invariant
                self.wf(),
                0 <= i <= self.ids@.len(),
                forall|j: int| 0 <= j < i ==> self.ids@[j]@ != id@,
            decreases self.ids@.len() - i,
        {
            if self.ids[i] == *id {
                return Some(i);
            }
            i = i + 1;
        }
        None
    }

    /// The state held for `id`, if the device has been seen.
    pub fn lookup(&self, id: &String) -> (r: Option<&DeviceState>)
        requires
            self.wf(),
        ensures
            match r {
                Some(d) => self@.contains_key(id@) && d@ == self@[id@],
                None => !self@.contains_key(id@),
            },
    {
        match self.find(id) {
            Some(i) => Some(&self.states[i]),
            None => None,
        }
    }

    /// Evaluates `action` for device `id` at time `now` (milliseconds),
    /// creating the device's state on first contact.
    pub fn evaluate(&mut self, id: &String, action: Action, now: u64, check_only: bool) -> (r:
        Verdict)
        requires
            old(self).wf(),
            now <= MAX_TIME_MS,
        ensures
            final(self).wf(),
            final(self)@ == old(self)@.insert(
                id@,
                device_step(state_in(old(self)@, id@), action, now, check_only).0,
            ),
            r == device_step(state_in(old(self)@, id@), action, now, check_only).1,
    {
        let idx = match self.find(id) {
            Some(i) => i,
            None => {
                self.ids.push(id.clone());
                self.states.push(DeviceState::new());
                self.model = Ghost(self.model@.insert(id@, DeviceView::fresh()));
                proof {
                    let n = self.ids@.len() - 1;
                    assert(self.ids@[n]@ == id@);
                    assert forall|k: Seq<char>| #[trigger] self.model@.contains_key(k) implies exists|i: int|
                        0 <= i < self.ids@.len() && self.ids@[i]@ == k by {
                        if k != id@ {
                            let i = choose|i: int| 0 <= i < old(self).ids@.len() && old(self).ids@[i]@ == k;
                            assert(self.ids@[i] == old(self).ids@[i]);
                        }
                    }
                }
                self.ids.len() - 1
            },
        };
        assert(state_in(old(self)@, id@) == self.states@[idx as int]@);
        let ghost before = self.model@;
        assert(forall|k: Seq<char>| #[trigger] before.contains_key(k) ==> exists|i: int|
            0 <= i < self.ids@.len() && self.ids@[i]@ == k);
        let r = self.states[idx].evaluate(action, now, check_only);
        self.model = Ghost(self.model@.insert(id@, self.states@[idx as int]@));
        proof {
            assert(self.model@ =~= old(self)@.insert(
                id@,
                device_step(state_in(old(self)@, id@), action, now, check_only).0,
            ));
            assert forall|k: Seq<char>| #[trigger] self.model@.contains_key(k) implies exists|i: int|
                0 <= i < self.ids@.len() && self.ids@[i]@ == k by {
                if k == id@ {
                    assert(self.ids@[idx as int]@ == k);
                } else {
                    assert(before.contains_key(k));
                }
            }
        }
        r
    }
}

} // verus!
