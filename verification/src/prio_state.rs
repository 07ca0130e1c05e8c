//! The mathematical content of the pipe selector, and the laws of its
//! operations.
//!
//! A selector is a sequence of entries in insertion order together with the
//! position of a cursor. The operations are defined here as functions from
//! state to state; `crate::priolist` implements them.

use vstd::prelude::*;
use crate::ids::EndpointId;

verus! {

/// The least preferred priority.
pub const MAX_PRIORITY: u8 = 16;

/// One entry of the selector.
#[derive(Copy, Clone, Debug, PartialEq, Eq, Structural)]
pub struct PrioListItem {
    pub id: EndpointId,
    pub priority: u8,
    pub active: bool,
}

impl PrioListItem {
    /// A new entry starts out inactive.
    pub fn new(id: EndpointId, priority: u8) -> (item: PrioListItem)
        ensures
            item == (PrioListItem { id, priority, active: false }),
    {
        PrioListItem { id, priority, active: false }
    }

    /// The same entry with another flag.
    pub open spec fn with_active(self, active: bool) -> PrioListItem {
        PrioListItem { id: self.id, priority: self.priority, active }
    }
}

/// Priorities run from 1 to 16.
pub open spec fn valid_priority(p: u8) -> bool {
    1 <= p <= MAX_PRIORITY
}

/// The position of `id` among `items`, searched from `lo` on.
pub open spec fn position_from(items: Seq<PrioListItem>, id: EndpointId, lo: int) -> Option<int>
    decreases items.len() - lo,
{
    if lo < 0 || lo >= items.len() {
        None
    } else if items[lo].id == id {
        Some(lo)
    } else {
        position_from(items, id, lo + 1)
    }
}

/// The first entry from `lo` on that carries `id` and is not active.
pub open spec fn activable_from(items: Seq<PrioListItem>, id: EndpointId, lo: int) -> Option<int>
    decreases items.len() - lo,
{
    if lo < 0 || lo >= items.len() {
        None
    } else if items[lo].id == id && !items[lo].active {
        Some(lo)
    } else {
        activable_from(items, id, lo + 1)
    }
}

/// The first active entry of priority `p` at a position in `lo..hi`.
pub open spec fn first_active(items: Seq<PrioListItem>, p: u8, lo: int, hi: int) -> Option<int>
    decreases hi - lo,
{
    if lo < 0 || lo >= hi || lo >= items.len() {
        None
    } else if items[lo].active && items[lo].priority == p {
        Some(lo)
    } else {
        first_active(items, p, lo + 1, hi)
    }
}

/// The first active entry of the best priority that is `p` or worse.
pub open spec fn first_active_from_priority(items: Seq<PrioListItem>, p: int) -> Option<int>
    decreases MAX_PRIORITY + 1 - p,
{
    if p < 0 || p > MAX_PRIORITY {
        None
    } else {
        match first_active(items, p as u8, 0, items.len() as int) {
            Some(i) => Some(i),
            None => first_active_from_priority(items, p + 1),
        }
    }
}

/// Where the cursor goes once the entry it rested on has left the active set:
/// to the next active entry of priority `p` from `after` on, else to the first
/// one before `before`, else to the first active entry of the next priority
/// that has one.
pub open spec fn select_next(items: Seq<PrioListItem>, p: u8, after: int, before: int) -> Option<
    int,
> {
    match first_active(items, p, after, items.len() as int) {
        Some(i) => Some(i),
        None => match first_active(items, p, 0, before) {
            Some(i) => Some(i),
            None => first_active_from_priority(items, p + 1),
        },
    }
}

/// What `position_from` finds is the first entry with `id` from `lo` on.
pub proof fn lemma_position_from(items: Seq<PrioListItem>, id: EndpointId, lo: int)
    requires
        0 <= lo,
    ensures
        match position_from(items, id, lo) {
            Some(i) => lo <= i < items.len() && items[i].id == id && forall|k: int|
                lo <= k < i ==> (#[trigger] items[k]).id != id,
            None => forall|k: int| lo <= k < items.len() ==> (#[trigger] items[k]).id != id,
        },
    decreases items.len() - lo,
{
    if lo < items.len() && items[lo].id != id {
        lemma_position_from(items, id, lo + 1);
    }
}

/// What `activable_from` finds is the first inactive entry with `id`.
pub proof fn lemma_activable_from(items: Seq<PrioListItem>, id: EndpointId, lo: int)
    requires
        0 <= lo,
    ensures
        match activable_from(items, id, lo) {
            Some(i) => lo <= i < items.len() && items[i].id == id && !items[i].active
                && forall|k: int|
                lo <= k < i ==> !((#[trigger] items[k]).id == id && !items[k].active),
            None => forall|k: int|
                lo <= k < items.len() ==> !((#[trigger] items[k]).id == id && !items[k].active),
        },
    decreases items.len() - lo,
{
    if lo < items.len() && !(items[lo].id == id && !items[lo].active) {
        lemma_activable_from(items, id, lo + 1);
    }
}

/// What `first_active` finds is the first active entry of priority `p` in
/// `lo..hi`.
pub proof fn lemma_first_active(items: Seq<PrioListItem>, p: u8, lo: int, hi: int)
    requires
        0 <= lo,
    ensures
        match first_active(items, p, lo, hi) {
            Some(i) => lo <= i < hi && i < items.len() && items[i].active && items[i].priority == p
                && forall|k: int|
                lo <= k < i ==> !((#[trigger] items[k]).active && items[k].priority == p),
            None => forall|k: int|
                lo <= k < hi && k < items.len() ==> !((#[trigger] items[k]).active
                    && items[k].priority == p),
        },
    decreases hi - lo,
{
    if lo < hi && lo < items.len() && !(items[lo].active && items[lo].priority == p) {
        lemma_first_active(items, p, lo + 1, hi);
    }
}

/// What `first_active_from_priority` finds is an active entry of the best
/// priority among those that are `p` or worse.
pub proof fn lemma_first_active_from_priority(items: Seq<PrioListItem>, p: int)
    requires
        0 <= p <= MAX_PRIORITY + 1,
        forall|i: int| 0 <= i < items.len() ==> valid_priority((#[trigger] items[i]).priority),
    ensures
        match first_active_from_priority(items, p) {
            Some(i) => 0 <= i < items.len() && items[i].active && p <= items[i].priority
                && forall|k: int|
                0 <= k < items.len() && (#[trigger] items[k]).active && p <= items[k].priority
                    ==> items[i].priority <= items[k].priority,
            None => forall|k: int|
                0 <= k < items.len() && (#[trigger] items[k]).active ==> items[k].priority < p,
        },
    decreases MAX_PRIORITY + 1 - p,
{
    if p <= MAX_PRIORITY {
        lemma_first_active(items, p as u8, 0, items.len() as int);
        if first_active(items, p as u8, 0, items.len() as int) is None {
            lemma_first_active_from_priority(items, p + 1);
        }
    } else {
        assert forall|k: int| 0 <= k < items.len() && (#[trigger] items[k]).active implies items[k].priority
            < p by {
            assert(valid_priority(items[k].priority));
        }
    }
}

/// The content of a selector: its entries in order, and the position of the
/// cursor if it is set.
pub struct PrioState {
    pub items: Seq<PrioListItem>,
    pub cursor: Option<int>,
}

impl PrioState {
    /// The empty selector.
    pub open spec fn empty() -> PrioState {
        PrioState { items: Seq::empty(), cursor: None }
    }

    /// Some entry is active.
    pub open spec fn some_active(self) -> bool {
        exists|i: int| 0 <= i < self.items.len() && (#[trigger] self.items[i]).active
    }

    /// The entry at `c` is active and no active entry has a better priority.
    pub open spec fn is_best(self, c: int) -> bool {
        &&& 0 <= c < self.items.len()
        &&& self.items[c].active
        &&& forall|j: int|
            0 <= j < self.items.len() && (#[trigger] self.items[j]).active
                ==> self.items[c].priority <= self.items[j].priority
    }

    /// No identifier occurs twice.
    pub open spec fn distinct_ids(self) -> bool {
        forall|i: int, j: int|
            0 <= i < j < self.items.len() ==> (#[trigger] self.items[i]).id != (
            #[trigger] self.items[j]).id
    }

    /// Every priority lies between 1 and 16.
    pub open spec fn valid_priorities(self) -> bool {
        forall|i: int|
            0 <= i < self.items.len() ==> valid_priority((#[trigger] self.items[i]).priority)
    }

    /// The selector's invariant. While any entry is active the cursor rests on
    /// an active entry of the best priority; otherwise it is unset.
    pub open spec fn wf(self) -> bool {
        &&& self.distinct_ids()
        &&& self.valid_priorities()
        &&& match self.cursor {
            Some(c) => self.is_best(c),
            None => !self.some_active(),
        }
    }

    /// The identifier under the cursor.
    pub open spec fn get(self) -> Option<EndpointId> {
        match self.cursor {
            Some(c) => Some(self.items[c].id),
            None => None,
        }
    }

    /// The position of `id` in the selector.
    pub open spec fn position(self, id: EndpointId) -> Option<int> {
        position_from(self.items, id, 0)
    }

    /// `id` has an entry.
    pub open spec fn contains(self, id: EndpointId) -> bool {
        self.position(id) is Some
    }

    /// `insert`: a new inactive entry at the end, unless `id` is present.
    pub open spec fn insert(self, id: EndpointId, priority: u8) -> PrioState {
        if self.position(id) is Some {
            self
        } else {
            PrioState {
                items: self.items.push(PrioListItem { id, priority, active: false }),
                cursor: self.cursor,
            }
        }
    }

    /// What `activate` does to the entry at `i`: it becomes active, and takes
    /// the cursor if the cursor is unset or rests on an entry of strictly
    /// worse priority.
    pub open spec fn activate_at(self, i: int) -> PrioState {
        PrioState {
            items: self.items.update(i, self.items[i].with_active(true)),
            cursor: match self.cursor {
                None => Some(i),
                Some(c) => if self.items[i].priority < self.items[c].priority {
                    Some(i)
                } else {
                    Some(c)
                },
            },
        }
    }

    /// `activate`: the entry of `id`, if there is one, is activated.
    pub open spec fn activate(self, id: EndpointId) -> PrioState {
        match self.position(id) {
            None => self,
            Some(i) => self.activate_at(i),
        }
    }

    /// `advance`: the cursor moves to the next active entry of its priority,
    /// wrapping around; it stays where no other such entry exists.
    pub open spec fn advance(self) -> PrioState {
        match self.cursor {
            None => self,
            Some(c) => {
                let p = self.items[c].priority;
                PrioState {
                    items: self.items,
                    cursor: match first_active(self.items, p, c + 1, self.items.len() as int) {
                        Some(i) => Some(i),
                        None => match first_active(self.items, p, 0, c) {
                            Some(i) => Some(i),
                            None => Some(c),
                        },
                    },
                }
            },
        }
    }

    /// `deactivate_and_advance`: the entry under the cursor becomes inactive
    /// and the cursor moves on.
    pub open spec fn deactivate_and_advance(self) -> PrioState {
        match self.cursor {
            None => self,
            Some(c) => {
                let items = self.items.update(c, self.items[c].with_active(false));
                PrioState { items, cursor: select_next(items, self.items[c].priority, c + 1, c) }
            },
        }
    }

    /// `remove`: the entry of `id` is erased. The cursor follows the entry it
    /// rested on; if that entry is the one erased, the cursor moves on.
    pub open spec fn remove(self, id: EndpointId) -> PrioState {
        match self.position(id) {
            None => self,
            Some(k) => {
                let items = self.items.remove(k);
                PrioState {
                    items,
                    cursor: match self.cursor {
                        None => None,
                        Some(c) => if c < k {
                            Some(c)
                        } else if c > k {
                            Some(c - 1)
                        } else {
                            select_next(items, self.items[k].priority, k, k)
                        },
                    },
                }
            },
        }
    }

    /// The identifiers of the active entries, in order.
    pub open spec fn active_ids(self) -> Seq<EndpointId> {
        active_from(self.items, 0)
    }

    /// `deactivate_all`: no entry is active any more, and the cursor is
    /// unset.
    pub open spec fn deactivate_all(self) -> PrioState {
        PrioState {
            items: Seq::new(self.items.len(), |i: int| self.items[i].with_active(false)),
            cursor: None,
        }
    }

    /// `deactivate_all` keeps the invariant.
    pub proof fn lemma_deactivate_all_wf(self)
        requires
            self.wf(),
        ensures
            self.deactivate_all().wf(),
            self.deactivate_all().active_ids() == Seq::<EndpointId>::empty(),
    {
        let after = self.deactivate_all();
        assert forall|a: int, b: int| 0 <= a < b < after.items.len() implies (
        #[trigger] after.items[a]).id != (#[trigger] after.items[b]).id by {
            assert(self.items[a].id != self.items[b].id);
        }
        assert forall|a: int| 0 <= a < after.items.len() implies valid_priority(
            (#[trigger] after.items[a]).priority,
        ) by {
            assert(valid_priority(self.items[a].priority));
        }
        lemma_none_active(after.items, 0);
    }

    /// In a well-formed selector the cursor is set exactly when some entry is
    /// active, and then the entry under it is active and has the least
    /// priority value of all active entries.
    pub proof fn lemma_cursor_is_best(self)
        requires
            self.wf(),
        ensures
            self.get() is Some <==> self.some_active(),
            self.cursor matches Some(c) ==> self.is_best(c) && self.get() == Some(
                self.items[c].id,
            ),
    {
        if let Some(c) = self.cursor {
            assert(self.items[c].active);
        }
    }

    /// The empty selector is well formed.
    pub proof fn lemma_empty_wf()
        ensures
            PrioState::empty().wf(),
            PrioState::empty().get() is None,
    {
    }

    /// `insert` keeps the invariant.
    pub proof fn lemma_insert_wf(self, id: EndpointId, priority: u8)
        requires
            self.wf(),
            valid_priority(priority),
        ensures
            self.insert(id, priority).wf(),
            self.insert(id, priority).contains(id),
            self.insert(id, priority).get() == self.get(),
    {
        lemma_position_from(self.items, id, 0);
        let after = self.insert(id, priority);
        lemma_position_from(after.items, id, 0);
        if self.position(id) is None {
            let n = self.items.len() as int;
            assert(after.items[n].id == id);
            assert forall|i: int| 0 <= i < after.items.len() implies valid_priority(
                (#[trigger] after.items[i]).priority,
            ) by {
                if i < n {
                    assert(after.items[i] == self.items[i]);
                }
            }
            assert forall|i: int, j: int| 0 <= i < j < after.items.len() implies (
            #[trigger] after.items[i]).id != (#[trigger] after.items[j]).id by {
                assert(after.items[i] == self.items[i]);
                if j < n {
                    assert(after.items[j] == self.items[j]);
                }
            }
            match self.cursor {
                Some(c) => {
                    assert(after.items[c] == self.items[c]);
                    assert forall|j: int|
                        0 <= j < after.items.len() && (
                        #[trigger] after.items[j]).active implies after.items[c].priority
                        <= after.items[j].priority by {
                        assert(after.items[j] == self.items[j]);
                    }
                },
                None => {
                    assert forall|j: int| 0 <= j < after.items.len() implies !(
                    #[trigger] after.items[j]).active by {
                        if j < n {
                            assert(after.items[j] == self.items[j]);
                        }
                    }
                },
            }
        }
    }

    /// Activating an entry keeps the invariant.
    pub proof fn lemma_activate_at_wf(self, i: int)
        requires
            self.wf(),
            0 <= i < self.items.len(),
        ensures
            self.activate_at(i).wf(),
            self.activate_at(i).get() is Some,
            self.items[i].active ==> self.activate_at(i) == self,
    {
        let after = self.activate_at(i);
        assert(after.items[i].active);
        assert forall|a: int, b: int| 0 <= a < b < after.items.len() implies (
        #[trigger] after.items[a]).id != (#[trigger] after.items[b]).id by {
            assert(after.items[a].id == self.items[a].id);
            assert(after.items[b].id == self.items[b].id);
        }
        assert forall|a: int| 0 <= a < after.items.len() implies valid_priority(
            (#[trigger] after.items[a]).priority,
        ) by {
            assert(after.items[a].priority == self.items[a].priority);
        }
        let c = after.cursor->0;
        assert forall|j: int|
            0 <= j < after.items.len() && (
            #[trigger] after.items[j]).active implies after.items[c].priority
            <= after.items[j].priority by {
            if j != i {
                assert(after.items[j] == self.items[j]);
                assert(self.items[j].active);
            }
        }
        if self.items[i].active {
            assert(after.items =~= self.items);
        }
    }

    /// `activate` keeps the invariant; and once `id` is activated the cursor
    /// is set.
    pub proof fn lemma_activate_wf(self, id: EndpointId)
        requires
            self.wf(),
        ensures
            self.activate(id).wf(),
            self.contains(id) ==> self.activate(id).get() is Some,
    {
        lemma_position_from(self.items, id, 0);
        if let Some(i) = self.position(id) {
            self.lemma_activate_at_wf(i);
        }
    }

    /// `advance` keeps the invariant, the entries and the priority under the
    /// cursor.
    pub proof fn lemma_advance_wf(self)
        requires
            self.wf(),
        ensures
            self.advance().wf(),
            self.advance().items == self.items,
            self.advance().get() is Some <==> self.get() is Some,
            self.cursor matches Some(c) ==> self.items[self.advance().cursor->0].priority
                == self.items[c].priority,
    {
        if let Some(c) = self.cursor {
            let p = self.items[c].priority;
            lemma_first_active(self.items, p, c + 1, self.items.len() as int);
            lemma_first_active(self.items, p, 0, c);
        }
    }

    /// `deactivate_and_advance` keeps the invariant.
    pub proof fn lemma_deactivate_and_advance_wf(self)
        requires
            self.wf(),
        ensures
            self.deactivate_and_advance().wf(),
    {
        if let Some(c) = self.cursor {
            let after = self.deactivate_and_advance();
            let items = after.items;
            let p = self.items[c].priority;
            assert forall|a: int, b: int| 0 <= a < b < items.len() implies (#[trigger] items[a]).id
                != (#[trigger] items[b]).id by {
                assert(items[a].id == self.items[a].id);
                assert(items[b].id == self.items[b].id);
            }
            assert forall|a: int| 0 <= a < items.len() implies valid_priority(
                (#[trigger] items[a]).priority,
            ) by {
                assert(items[a].priority == self.items[a].priority);
            }
            assert forall|j: int| 0 <= j < items.len() && (#[trigger] items[j]).active implies p
                <= items[j].priority && j != c by {
                if j != c {
                    assert(items[j] == self.items[j]);
                    assert(self.items[j].active);
                }
            }
            lemma_select_next(items, p, c + 1, c);
        }
    }

    /// `remove` keeps the invariant, and `id` is gone.
    pub proof fn lemma_remove_wf(self, id: EndpointId)
        requires
            self.wf(),
        ensures
            self.remove(id).wf(),
            !self.remove(id).contains(id),
    {
        lemma_position_from(self.items, id, 0);
        let after = self.remove(id);
        if let Some(k) = self.position(id) {
            let items = after.items;
            let n = self.items.len() as int;
            assert(items.len() == n - 1);
            assert forall|j: int| 0 <= j < items.len() implies #[trigger] items[j] == self.items[if j
                < k {
                j
            } else {
                j + 1
            }] by {}
            assert forall|a: int, b: int| 0 <= a < b < items.len() implies (#[trigger] items[a]).id
                != (#[trigger] items[b]).id by {
                let a0 = if a < k { a } else { a + 1 };
                let b0 = if b < k { b } else { b + 1 };
                assert(items[a] == self.items[a0]);
                assert(items[b] == self.items[b0]);
            }
            assert forall|a: int| 0 <= a < items.len() implies valid_priority(
                (#[trigger] items[a]).priority,
            ) by {
                let a0 = if a < k { a } else { a + 1 };
                assert(items[a] == self.items[a0]);
            }
            assert forall|j: int| 0 <= j < items.len() implies (#[trigger] items[j]).id != id by {
                let j0 = if j < k { j } else { j + 1 };
                assert(items[j] == self.items[j0]);
                if j0 < k {
                    assert(self.items[j0].id != self.items[k].id);
                } else {
                    assert(self.items[k].id != self.items[j0].id);
                }
            }
            lemma_position_from(items, id, 0);
            match self.cursor {
                None => {
                    assert forall|j: int| 0 <= j < items.len() implies !(#[trigger] items[j]).active by {
                        let j0 = if j < k { j } else { j + 1 };
                        assert(items[j] == self.items[j0]);
                    }
                },
                Some(c) => {
                    let p = self.items[c].priority;
                    assert forall|j: int|
                        0 <= j < items.len() && (#[trigger] items[j]).active implies p
                        <= items[j].priority by {
                        let j0 = if j < k { j } else { j + 1 };
                        assert(items[j] == self.items[j0]);
                        assert(self.items[j0].active);
                    }
                    if c < k {
                        assert(items[c] == self.items[c]);
                    } else if c > k {
                        assert(items[c - 1] == self.items[c]);
                    } else {
                        lemma_select_next(items, p, k, k);
                    }
                },
            }
        }
    }
}

/// The identifiers of the active entries from `lo` on, in order.
pub open spec fn active_from(items: Seq<PrioListItem>, lo: int) -> Seq<EndpointId>
    decreases items.len() - lo,
{
    if lo < 0 || lo >= items.len() {
        Seq::empty()
    } else if items[lo].active {
        seq![items[lo].id] + active_from(items, lo + 1)
    } else {
        active_from(items, lo + 1)
    }
}

/// Where every active entry has priority `p` or worse and no entry at a
/// position in `before..after` is active, `select_next` finds an active entry
/// of the best priority, or nothing where no entry is active.
pub proof fn lemma_select_next(items: Seq<PrioListItem>, p: u8, after: int, before: int)
    requires
        valid_priority(p),
        0 <= before <= after,
        forall|i: int| 0 <= i < items.len() ==> valid_priority((#[trigger] items[i]).priority),
        forall|j: int| 0 <= j < items.len() && (#[trigger] items[j]).active ==> p <= items[j].priority,
        forall|j: int| before <= j < after && j < items.len() ==> !(#[trigger] items[j]).active,
    ensures
        match select_next(items, p, after, before) {
            Some(i) => (PrioState { items, cursor: Some(i) }).is_best(i),
            None => !(PrioState { items, cursor: None }).some_active(),
        },
{
    lemma_first_active(items, p, after, items.len() as int);
    lemma_first_active(items, p, 0, before);
    if first_active(items, p, after, items.len() as int) is None && first_active(
        items,
        p,
        0,
        before,
    ) is None {
        lemma_first_active_from_priority(items, p + 1);
    }
}

/// Where no entry is active from `lo` on, none is listed as active.
pub proof fn lemma_none_active(items: Seq<PrioListItem>, lo: int)
    requires
        0 <= lo,
        forall|i: int| lo <= i < items.len() ==> !(#[trigger] items[i]).active,
    ensures
        active_from(items, lo) == Seq::<EndpointId>::empty(),
    decreases items.len() - lo,
{
    if lo < items.len() {
        lemma_none_active(items, lo + 1);
    }
}

/// One operation on a selector.
pub enum PrioOp {
    Insert(EndpointId, u8),
    Remove(EndpointId),
    Activate(EndpointId),
    Advance,
    DeactivateAndAdvance,
    DeactivateAll,
}

impl PrioOp {
    /// An insertion comes with a priority between 1 and 16.
    pub open spec fn valid(self) -> bool {
        self matches PrioOp::Insert(_, p) ==> valid_priority(p)
    }
}

impl PrioState {
    /// The selector after one operation.
    pub open spec fn apply(self, op: PrioOp) -> PrioState {
        match op {
            PrioOp::Insert(id, p) => self.insert(id, p),
            PrioOp::Remove(id) => self.remove(id),
            PrioOp::Activate(id) => self.activate(id),
            PrioOp::Advance => self.advance(),
            PrioOp::DeactivateAndAdvance => self.deactivate_and_advance(),
            PrioOp::DeactivateAll => self.deactivate_all(),
        }
    }

    /// The selector after the first `n` of the operations `ops`.
    pub open spec fn run(self, ops: Seq<PrioOp>, n: nat) -> PrioState
        decreases n,
    {
        if n == 0 || n > ops.len() {
            self
        } else {
            self.run(ops, (n - 1) as nat).apply(ops[n - 1])
        }
    }

    /// After any sequence of operations on a new selector, the cursor is set
    /// exactly when some entry is active, and then it rests on an active
    /// entry whose priority is the least among the active entries.
    pub proof fn lemma_after_any_operations(ops: Seq<PrioOp>, n: nat)
        requires
            n <= ops.len(),
            forall|i: int| 0 <= i < ops.len() ==> (#[trigger] ops[i]).valid(),
        ensures
            PrioState::empty().run(ops, n).wf(),
            PrioState::empty().run(ops, n).get() is Some <==> PrioState::empty().run(
                ops,
                n,
            ).some_active(),
            PrioState::empty().run(ops, n).cursor matches Some(c) ==> PrioState::empty().run(
                ops,
                n,
            ).is_best(c),
        decreases n,
    {
        if n > 0 {
            Self::lemma_after_any_operations(ops, (n - 1) as nat);
            let before = PrioState::empty().run(ops, (n - 1) as nat);
            let op = ops[n - 1];
            assert(op.valid());
            match op {
                PrioOp::Insert(id, p) => before.lemma_insert_wf(id, p),
                PrioOp::Remove(id) => before.lemma_remove_wf(id),
                PrioOp::Activate(id) => before.lemma_activate_wf(id),
                PrioOp::Advance => before.lemma_advance_wf(),
                PrioOp::DeactivateAndAdvance => before.lemma_deactivate_and_advance_wf(),
                PrioOp::DeactivateAll => before.lemma_deactivate_all_wf(),
            }
        }
        PrioState::empty().run(ops, n).lemma_cursor_is_best();
    }
}

} // verus!
