//! The pipe selector behind fair queueing and load balancing.
//!
//! A `PrioList` keeps endpoint identifiers in insertion order, each with a
//! priority between 1 and 16 (a lower number is preferred) and a flag that
//! tells whether the pipe is currently eligible. A cursor designates the pipe
//! that serves the next operation: always an eligible pipe of the best
//! priority, and round-robin among pipes of equal priority.

use vstd::prelude::*;
use crate::ids::EndpointId;
use crate::prio_state::{
    activable_from,
    active_from,
    first_active,
    first_active_from_priority,
    lemma_activable_from,
    lemma_position_from,
    position_from,
    select_next,
    valid_priority,
    PrioListItem,
    PrioState,
    MAX_PRIORITY,
};

verus! {

/// A position in the selector, as a mathematical integer.
pub open spec fn index_view(index: Option<usize>) -> Option<int> {
    match index {
        Some(i) => Some(i as int),
        None => None,
    }
}

/// Priority-ordered round-robin selector over endpoint identifiers.
pub struct PrioList {
    items: Vec<PrioListItem>,
    current: Option<usize>,
}

impl View for PrioList {
    type V = PrioState;

    closed spec fn view(&self) -> PrioState {
        PrioState { items: self.items@, cursor: index_view(self.current) }
    }
}

impl PrioList {
    /// The invariant that every operation keeps.
    pub open spec fn wf(&self) -> bool {
        self@.wf()
    }

    /// An empty selector.
    pub fn new() -> (list: PrioList)
        ensures
            list@ == PrioState::empty(),
            list.wf(),
    {
        PrioList { items: Vec::new(), current: None }
    }

    /// The identifier under the cursor: `Some` exactly when some entry is
    /// active, and then an active entry of the best priority.
    pub fn get(&self) -> (id: Option<EndpointId>)
        requires
            self.wf(),
        ensures
            id == self@.get(),
            id is Some <==> self@.some_active(),
            self@.cursor matches Some(c) ==> self@.is_best(c),
    {
        proof {
            self@.lemma_cursor_is_best();
        }
        match self.current {
            Some(i) => Some(self.items[i].id),
            None => None,
        }
    }

    /// The position of `id`.
    fn find_index(&self, id: EndpointId) -> (index: Option<usize>)
        ensures
            index_view(index) == self@.position(id),
    {
        let mut i: usize = 0;
        while i < self.items.len()
            invariant
                i <= self.items.len(),
                position_from(self.items@, id, 0) == position_from(self.items@, id, i as int),
            decreases self.items.len() - i,
        {
            if self.items[i].id == id {
                return Some(i);
            }
            i += 1;
        }
        None
    }

    /// Adds `id` with the given priority, inactive. Nothing changes if `id`
    /// is present already.
    pub fn insert(&mut self, id: EndpointId, priority: u8)
        requires
            old(self).wf(),
            valid_priority(priority),
        ensures
            final(self)@ == old(self)@.insert(id, priority),
            final(self).wf(),
    {
        proof {
            self@.lemma_insert_wf(id, priority);
        }
        if self.find_index(id).is_none() {
            self.items.push(PrioListItem::new(id, priority));
        }
    }

    /// Erases the entry of `id`. If the cursor rested on it, the cursor moves
    /// on as in `deactivate_and_advance`.
    pub fn remove(&mut self, id: EndpointId)
        requires
            old(self).wf(),
        ensures
            final(self)@ == old(self)@.remove(id),
            final(self).wf(),
    {
        proof {
            self@.lemma_remove_wf(id);
            lemma_position_from(self.items@, id, 0);
        }
        if let Some(k) = self.find_index(id) {
            let removed = self.items.remove(k);
            match self.current {
                None => {},
                Some(c) => {
                    if c > k {
                        self.current = Some(c - 1);
                    } else if c == k {
                        self.current = self.find_next(removed.priority, k, k);
                    }
                },
            }
        }
    }

    /// Marks the entry of `id` active. It takes the cursor if the cursor is
    /// unset, or rests on an entry of strictly worse priority.
    pub fn activate(&mut self, id: EndpointId)
        requires
            old(self).wf(),
        ensures
            final(self)@ == old(self)@.activate(id),
            final(self).wf(),
    {
        proof {
            self@.lemma_activate_wf(id);
            lemma_position_from(self.items@, id, 0);
            lemma_activable_from(self.items@, id, 0);
            if let Some(i) = self@.position(id) {
                self@.lemma_activate_at_wf(i);
            }
        }
        let activable_index = self.find_activable_index(id);
        if let Some(index) = activable_index {
            self.activate_index(index);
        }
    }

    fn activate_index(&mut self, index: usize)
        requires
            old(self).wf(),
            index < old(self)@.items.len(),
        ensures
            final(self)@ == old(self)@.activate_at(index as int),
    {
        let item = self.items[index];
        self.items[index] = PrioListItem { id: item.id, priority: item.priority, active: true };
        match self.current {
            Some(current) => {
                if item.priority < self.items[current].priority {
                    self.current = Some(index);
                }
            },
            None => {
                self.current = Some(index);
            },
        }
    }

    /// The position of the first entry that carries `id` and is not active.
    pub fn find_activable_index(&self, id: EndpointId) -> (index: Option<usize>)
        ensures
            index_view(index) == activable_from(self@.items, id, 0),
    {
        let mut i: usize = 0;
        while i < self.items.len()
            invariant
                i <= self.items.len(),
                activable_from(self.items@, id, 0) == activable_from(self.items@, id, i as int),
            decreases self.items.len() - i,
        {
            if self.items[i].id == id && !self.items[i].active {
                return Some(i);
            }
            i += 1;
        }
        None
    }

    /// Moves the cursor to the next active entry of the same priority,
    /// wrapping around. Where there is no other, the cursor stays.
    pub fn advance(&mut self)
        requires
            old(self).wf(),
        ensures
            final(self)@ == old(self)@.advance(),
            final(self).wf(),
    {
        proof {
            self@.lemma_advance_wf();
        }
        if let Some(index) = self.current {
            let priority = self.items[index].priority;
            if let Some(i) = self.find_active_index_after(index, priority) {
                self.current = Some(i);
            } else if let Some(i) = self.find_active_index_before(index, priority) {
                self.current = Some(i);
            }
        }
    }

    /// The first active entry of the given priority after `pivot`.
    pub fn find_active_index_after(&self, pivot: usize, priority: u8) -> (index: Option<usize>)
        ensures
            index_view(index) == first_active(
                self@.items,
                priority,
                pivot + 1,
                self@.items.len() as int,
            ),
    {
        let to = self.items.len();
        if pivot >= to {
            None
        } else {
            self.find_active_index(pivot + 1, to, priority)
        }
    }

    /// The first active entry of the given priority before `pivot`.
    pub fn find_active_index_before(&self, pivot: usize, priority: u8) -> (index: Option<usize>)
        ensures
            index_view(index) == first_active(self@.items, priority, 0, pivot as int),
    {
        if pivot == 0 {
            None
        } else {
            self.find_active_index(0, pivot, priority)
        }
    }

    /// The first active entry of the given priority at a position in
    /// `from..to`.
    fn find_active_index(&self, from: usize, to: usize, priority: u8) -> (index: Option<usize>)
        ensures
            index_view(index) == first_active(self@.items, priority, from as int, to as int),
    {
        let mut i: usize = from;
        while i < to && i < self.items.len()
            invariant
                from <= i,
                first_active(self.items@, priority, from as int, to as int) == first_active(
                    self.items@,
                    priority,
                    i as int,
                    to as int,
                ),
            decreases self.items.len() - i,
        {
            if self.items[i].active && self.items[i].priority == priority {
                return Some(i);
            }
            i += 1;
        }
        None
    }

    /// The first active entry of the best priority that is `from` or worse.
    fn find_active_from_priority(&self, from: u8) -> (index: Option<usize>)
        requires
            from <= MAX_PRIORITY + 1,
        ensures
            index_view(index) == first_active_from_priority(self@.items, from as int),
    {
        let mut p: u8 = from;
        while p <= MAX_PRIORITY
            invariant
                from <= p <= MAX_PRIORITY + 1,
                first_active_from_priority(self.items@, from as int) == first_active_from_priority(
                    self.items@,
                    p as int,
                ),
            decreases MAX_PRIORITY + 1 - p,
        {
            let found = self.find_active_index(0, self.items.len(), p);
            if found.is_some() {
                return found;
            }
            p += 1;
        }
        None
    }

    /// Where the cursor goes when the entry it rested on has left the active
    /// set.
    fn find_next(&self, priority: u8, after: usize, before: usize) -> (index: Option<usize>)
        requires
            priority <= MAX_PRIORITY,
        ensures
            index_view(index) == select_next(self@.items, priority, after as int, before as int),
    {
        let found = self.find_active_index(after, self.items.len(), priority);
        if found.is_some() {
            return found;
        }
        let found = self.find_active_index_before(before, priority);
        if found.is_some() {
            return found;
        }
        self.find_active_from_priority(priority + 1)
    }

    /// The identifiers of the active entries, in the order of insertion.
    pub fn active(&self) -> (ids: Vec<EndpointId>)
        ensures
            ids@ == self@.active_ids(),
    {
        let mut ids: Vec<EndpointId> = Vec::new();
        let mut i: usize = 0;
        while i < self.items.len()
            invariant
                i <= self.items@.len(),
                ids@ + active_from(self.items@, i as int) == active_from(self.items@, 0),
            decreases self.items@.len() - i,
        {
            let ghost before = ids@;
            if self.items[i].active {
                ids.push(self.items[i].id);
                assert(ids@ + active_from(self.items@, i + 1) =~= before + active_from(
                    self.items@,
                    i as int,
                ));
            }
            i += 1;
        }
        assert(ids@ =~= ids@ + active_from(self.items@, i as int));
        ids
    }

    /// Marks every entry inactive and unsets the cursor.
    pub fn deactivate_all(&mut self)
        requires
            old(self).wf(),
        ensures
            final(self)@ == old(self)@.deactivate_all(),
            final(self).wf(),
    {
        proof {
            self@.lemma_deactivate_all_wf();
        }
        let mut i: usize = 0;
        while i < self.items.len()
            invariant
                i <= self.items@.len(),
                self.items@.len() == old(self).items@.len(),
                forall|k: int| 0 <= k < i ==> self.items@[k] == old(self).items@[k].with_active(false),
                forall|k: int| i <= k < self.items@.len() ==> self.items@[k] == old(self).items@[k],
            decreases self.items@.len() - i,
        {
            let item = self.items[i];
            self.items[i] = PrioListItem { id: item.id, priority: item.priority, active: false };
            i += 1;
        }
        self.current = None;
        assert(self.items@ =~= old(self)@.deactivate_all().items);
    }

    /// Marks the entry under the cursor inactive and moves the cursor: to the
    /// next active entry of the same priority, wrapping around; else to the
    /// first active entry of the next priority that has one; else nowhere.
    pub fn deactivate_and_advance(&mut self)
        requires
            old(self).wf(),
        ensures
            final(self)@ == old(self)@.deactivate_and_advance(),
            final(self).wf(),
    {
        proof {
            self@.lemma_deactivate_and_advance_wf();
        }
        if let Some(index) = self.current {
            let item = self.items[index];
            self.items[index] = PrioListItem {
                id: item.id,
                priority: item.priority,
                active: false,
            };
            assert(index < self.items.len());
            self.current = self.find_next(item.priority, index + 1, index);
        }
    }
}

} // verus!
