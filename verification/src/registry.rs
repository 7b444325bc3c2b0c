//! Bounded circular registry of in-flight work.
//!
//! Work ids are handed out in a circle over `0..registry_size`. Storing work
//! under id `k` empties the slot half a circle ahead of `k`, so at any time at
//! most half of the slots (rounded up) hold work and a nonce that arrives for
//! retired work finds an empty slot.

use vstd::prelude::*;
use crate::work::{Assignment, BackendSolution, Solution};

verus! {

/// Work stored under one id, with the solutions received for it so far.
pub struct WorkRegistryItem<S> {
    work: Assignment,
    solutions: Vec<S>,
    /// Work that only initializes the chips; results for it are to be ignored
    pub initial_work: bool,
}

/// What came of inserting one solution.
pub struct InsertSolutionStatus<S> {
    /// Never set: kept for callers that test it
    pub mismatched_nonce: bool,
    /// The item already held a solution with this nonce
    pub duplicate: bool,
    /// The solution joined with its work, present in either case
    pub unique_solution: Option<Solution<S>>,
}

/// The nonces of a list of solutions, in order.
pub open spec fn nonces_of<S: BackendSolution>(solutions: Seq<S>) -> Seq<u32> {
    solutions.map_values(|s: S| s.nonce_value())
}

impl<S: BackendSolution + Clone> WorkRegistryItem<S> {
    /// The assignment stored in this item.
    pub closed spec fn work(&self) -> Assignment {
        self.work
    }

    /// The solutions received so far, oldest first.
    pub closed spec fn solutions(&self) -> Seq<S> {
        self.solutions@
    }

    /// Whether the work only initializes the chips.
    pub closed spec fn is_initial(&self) -> bool {
        self.initial_work
    }

    /// The nonces received so far, oldest first.
    pub open spec fn nonces(&self) -> Seq<u32> {
        nonces_of(self.solutions())
    }

    /// No nonce occurs twice among the solutions.
    pub open spec fn wf(&self) -> bool {
        self.nonces().no_duplicates()
    }

    /// A fresh item without solutions.
    pub fn new(work: Assignment, initial_work: bool) -> (item: Self)
        ensures
            item.work() == work,
            item.solutions() == Seq::<S>::empty(),
            item.is_initial() == initial_work,
            item.wf(),
    {
        WorkRegistryItem { work, solutions: Vec::new(), initial_work }
    }

    /// The assignment stored in this item.
    pub fn assignment(&self) -> (work: &Assignment)
        ensures
            *work == self.work(),
    {
        &self.work
    }

    /// Whether the work only initializes the chips.
    pub fn is_initial_work(&self) -> (initial: bool)
        ensures
            initial == self.is_initial(),
    {
        self.initial_work
    }

    /// Number of distinct nonces received so far.
    pub fn num_solutions(&self) -> (n: usize)
        ensures
            n == self.solutions().len(),
    {
        self.solutions.len()
    }

    /// Records `new_solution` unless a solution with the same nonce is
    /// already there, and returns it joined with a copy of the work.
    pub fn insert_solution(&mut self, new_solution: S) -> (status: InsertSolutionStatus<S>)
        ensures
            final(self).work() == old(self).work(),
            final(self).is_initial() == old(self).is_initial(),
            status.duplicate == old(self).nonces().contains(new_solution.nonce_value()),
            !status.mismatched_nonce,
            status.duplicate ==> final(self).solutions() == old(self).solutions(),
            !status.duplicate ==> final(self).solutions() == old(self).solutions().push(
                new_solution,
            ),
            status.unique_solution is Some,
            status.unique_solution->0.work@ == old(self).work()@,
            cloned(new_solution, status.unique_solution->0.solution),
            old(self).wf() ==> final(self).wf(),
    {
        let nonce = new_solution.nonce();
        let mut duplicate = false;
        let mut i: usize = 0;
        while i < self.solutions.len()
            invariant
                i <= self.solutions.len(),
                nonce == new_solution.nonce_value(),
                duplicate == self.nonces().subrange(0, i as int).contains(nonce),
            decreases self.solutions.len() - i,
        {
            let seen = self.solutions[i].nonce();
            proof {
                let before = self.nonces().subrange(0, i as int);
                let after = self.nonces().subrange(0, i + 1);
                assert(after =~= before.push(seen));
                assert(after[i as int] == seen);
                if before.contains(nonce) {
                    let j = choose|j: int| 0 <= j < before.len() && before[j] == nonce;
                    assert(after[j] == nonce);
                }
            }
            if seen == nonce {
                duplicate = true;
            }
            i += 1;
        }
        assert(self.nonces().subrange(0, i as int) =~= self.nonces());
        let copy = new_solution.clone();
        if !duplicate {
            self.solutions.push(new_solution);
            proof {
                let grown = final(self).nonces();
                let kept = old(self).nonces();
                assert(grown =~= kept.push(nonce));
                if kept.no_duplicates() {
                    assert forall|a: int, b: int|
                        0 <= a < grown.len() && 0 <= b < grown.len() && a != b implies grown[a]
                        != grown[b] by {
                        if a < kept.len() {
                            assert(kept[a] == grown[a]);
                        }
                        if b < kept.len() {
                            assert(kept[b] == grown[b]);
                        }
                    }
                }
            }
        }
        InsertSolutionStatus {
            mismatched_nonce: false,
            duplicate,
            unique_solution: Some(Solution { work: self.work.clone(), solution: copy }),
        }
    }
}

/// Fixed-size registry that hands out work ids in a circle and retires the
/// work stored half a circle earlier.
pub struct WorkRegistry<S> {
    /// Number of slots; work ids range over `0..registry_size`
    registry_size: usize,
    /// The id that the next stored work gets
    next_work_id: usize,
    /// One slot per work id
    pending_work_list: Vec<Option<WorkRegistryItem<S>>>,
}

/// The distance from a slot to the slot that is emptied when it is filled.
pub open spec fn retire_distance(size: nat) -> nat {
    size / 2
}

/// The slot that is emptied when work is stored under `work_id`.
pub open spec fn retire_slot(size: nat, work_id: nat) -> nat
    recommends
        size > 0,
{
    (work_id + retire_distance(size)) % size
}

/// The slots after storing `item` under `work_id`: the slot half a circle
/// ahead is emptied first, then the item is put in place.
pub open spec fn slots_after_store<T>(slots: Seq<Option<T>>, work_id: nat, item: T) -> Seq<
    Option<T>,
>
    recommends
        work_id < slots.len(),
{
    slots.update(retire_slot(slots.len(), work_id) as int, None).update(
        work_id as int,
        Some(item),
    )
}

/// The id that follows `work_id` in the circle.
pub open spec fn next_id_after(size: nat, work_id: nat) -> nat
    recommends
        size > 0,
{
    (work_id + 1) % size
}

impl<S: BackendSolution + Clone> WorkRegistry<S> {
    /// Number of slots.
    pub closed spec fn size(&self) -> nat {
        self.registry_size as nat
    }

    /// The id that the next stored work gets.
    pub closed spec fn next_id(&self) -> nat {
        self.next_work_id as nat
    }

    /// The slots, indexed by work id.
    pub closed spec fn slots(&self) -> Seq<Option<WorkRegistryItem<S>>> {
        self.pending_work_list@
    }

    /// There is one slot per id, and the next id is one of them.
    pub open spec fn wf(&self) -> bool {
        &&& self.slots().len() == self.size()
        &&& self.size() > 0 ==> self.next_id() < self.size()
        &&& self.size() == 0 ==> self.next_id() == 0
    }

    /// A registry of `registry_size` empty slots whose first id is 0.
    pub fn new(registry_size: usize) -> (registry: Self)
        ensures
            registry.wf(),
            registry.size() == registry_size,
            registry.next_id() == 0,
            registry.slots() == Seq::new(
                registry_size as nat,
                |i: int| None::<WorkRegistryItem<S>>,
            ),
    {
        let mut pending_work_list: Vec<Option<WorkRegistryItem<S>>> = Vec::new();
        let mut i: usize = 0;
        while i < registry_size
            invariant
                i <= registry_size,
                pending_work_list@ == Seq::new(i as nat, |i: int| None::<WorkRegistryItem<S>>),
            decreases registry_size - i,
        {
            pending_work_list.push(None);
            i += 1;
            assert(pending_work_list@ =~= Seq::new(
                i as nat,
                |i: int| None::<WorkRegistryItem<S>>,
            ));
        }
        WorkRegistry { registry_size, next_work_id: 0, pending_work_list }
    }

    /// Number of slots.
    pub fn registry_size(&self) -> (size: usize)
        ensures
            size == self.size(),
    {
        self.registry_size
    }

    /// Hands out the next id and advances the counter around the circle.
    pub fn alloc_next_work_id(&mut self) -> (work_id: usize)
        requires
            old(self).wf(),
            old(self).size() > 0,
        ensures
            final(self).wf(),
            work_id == old(self).next_id(),
            final(self).next_id() == next_id_after(old(self).size(), old(self).next_id()),
            final(self).size() == old(self).size(),
            final(self).slots() == old(self).slots(),
    {
        let work_id = self.next_work_id;
        self.next_work_id = if work_id == self.registry_size - 1 {
            0
        } else {
            work_id + 1
        };
        proof {
            let n = self.registry_size as int;
            if work_id == n - 1 {
                assert((work_id + 1) % n == 0) by (nonlinear_arith)
                    requires
                        work_id + 1 == n,
                        n > 0,
                ;
            } else {
                assert((work_id + 1) % n == work_id + 1) by (nonlinear_arith)
                    requires
                        0 <= work_id + 1 < n,
                ;
            }
        }
        work_id
    }

    /// Stores `work` under the next id, empties the slot half a circle
    /// ahead of it, and returns the id.
    pub fn store_work(&mut self, work: Assignment, initial_work: bool) -> (work_id: usize)
        requires
            old(self).wf(),
            old(self).size() > 0,
        ensures
            final(self).wf(),
            final(self).size() == old(self).size(),
            work_id == old(self).next_id(),
            final(self).next_id() == next_id_after(old(self).size(), old(self).next_id()),
            final(self).slots()[work_id as int] is Some,
            final(self).slots()[work_id as int]->0.work() == work,
            final(self).slots()[work_id as int]->0.solutions() == Seq::<S>::empty(),
            final(self).slots()[work_id as int]->0.is_initial() == initial_work,
            final(self).slots() == slots_after_store(
                old(self).slots(),
                old(self).next_id(),
                final(self).slots()[work_id as int]->0,
            ),
    {
        let work_id = self.alloc_next_work_id();
        let half = self.registry_size / 2;
        let rest = self.registry_size - half;
        let retire_id = if work_id >= rest {
            work_id - rest
        } else {
            work_id + half
        };
        proof {
            let n = self.registry_size as int;
            let w = work_id as int;
            let h = half as int;
            if w >= n - h {
                assert((w + h) % n == w + h - n) by (nonlinear_arith)
                    requires
                        n <= w + h < 2 * n,
                        n > 0,
                ;
            } else {
                assert((w + h) % n == w + h) by (nonlinear_arith)
                    requires
                        0 <= w + h < n,
                ;
            }
            assert(retire_id == retire_slot(self.size(), work_id as nat));
        }
        self.pending_work_list[retire_id] = None;
        self.pending_work_list[work_id] = Some(WorkRegistryItem::new(work, initial_work));
        work_id
    }

    /// The slot of `work_id`, for reading or changing what it holds.
    pub fn find_work(&mut self, work_id: usize) -> (slot: &mut Option<WorkRegistryItem<S>>)
        requires
            old(self).wf(),
            work_id < old(self).size(),
        ensures
            *slot == old(self).slots()[work_id as int],
            final(self).slots() == old(self).slots().update(work_id as int, *final(slot)),
            final(self).size() == old(self).size(),
            final(self).next_id() == old(self).next_id(),
            final(self).wf(),
    {
        &mut self.pending_work_list[work_id]
    }

    /// Whether the slot of `work_id` holds work.
    pub fn is_occupied(&self, work_id: usize) -> (occupied: bool)
        requires
            self.wf(),
            work_id < self.size(),
        ensures
            occupied == (self.slots()[work_id as int] is Some),
    {
        self.pending_work_list[work_id].is_some()
    }
}

/// The id that the work stored after `n` others gets: ids start at 0 and
/// follow each other around the circle.
pub open spec fn stored_id(size: nat, n: nat) -> nat
    decreases n,
{
    if n == 0 {
        0
    } else {
        next_id_after(size, stored_id(size, (n - 1) as nat))
    }
}

/// The slots of a registry of `size` slots after `items` were stored in it,
/// one after another.
pub open spec fn slots_after_storing<T>(size: nat, items: Seq<T>) -> Seq<Option<T>>
    decreases items.len(),
{
    if items.len() == 0 {
        Seq::new(size, |i: int| None::<T>)
    } else {
        slots_after_store(
            slots_after_storing(size, items.drop_last()),
            stored_id(size, (items.len() - 1) as nat),
            items.last(),
        )
    }
}

/// Number of slots that hold something.
pub open spec fn occupied_slots<T>(slots: Seq<Option<T>>) -> nat
    decreases slots.len(),
{
    if slots.len() == 0 {
        0
    } else {
        occupied_slots(slots.drop_last()) + if slots.last() is Some {
            1nat
        } else {
            0nat
        }
    }
}

/// Number of works that a registry of `size` slots holds at most: half of
/// the slots, rounded up.
pub open spec fn lifetime(size: nat) -> nat {
    (size - size / 2) as nat
}

/// How many stores ago slot `slot` got its turn, when `next` is the id that
/// comes next: 1 for the slot just filled, `size` for the slot that is next.
pub open spec fn turns_ago(size: nat, slot: int, next: int) -> int {
    if slot < next {
        next - slot
    } else {
        next - slot + size
    }
}

/// The smaller of two numbers.
pub open spec fn min(a: int, b: int) -> int {
    if a <= b {
        a
    } else {
        b
    }
}

/// Ids are handed out in a circle: the work stored after `n` others gets
/// the id `n % size`.
pub proof fn lemma_stored_id_cycles(size: nat, n: nat)
    requires
        size > 0,
    ensures
        stored_id(size, n) == n % size,
    decreases n,
{
    let s = size as int;
    if n > 0 {
        lemma_stored_id_cycles(size, (n - 1) as nat);
        let before = (n - 1) as int;
        vstd::arithmetic::div_mod::lemma_add_mod_noop(before, 1, s);
        vstd::arithmetic::div_mod::lemma_mod_twice(before, s);
        if s == 1 {
            assert(1int % 1 == 0);
        } else {
            vstd::arithmetic::div_mod::lemma_small_mod(1, size);
        }
        assert(((before % s) + 1) % s == (before + 1) % s);
    } else {
        vstd::arithmetic::div_mod::lemma_small_mod(0, size);
    }
}

/// The id after `id` is the next number, and 0 after the last one.
pub proof fn lemma_next_id_after(size: nat, id: nat)
    requires
        id < size,
    ensures
        next_id_after(size, id) == if id + 1 == size {
            0
        } else {
            id + 1
        },
{
    let s = size as int;
    let i = id as int;
    assert((i + 1) % s == if i + 1 == s {
        0
    } else {
        i + 1
    }) by (nonlinear_arith)
        requires
            0 <= i < s,
    ;
}

/// The slot that is emptied lies half a circle ahead, around the end of the
/// circle if need be.
pub proof fn lemma_retire_slot(size: nat, id: nat)
    requires
        id < size,
    ensures
        retire_slot(size, id) == if id + size / 2 >= size {
            id + size / 2 - size
        } else {
            (id + size / 2) as int
        },
{
    let s = size as int;
    let i = id as int;
    let h = (size / 2) as int;
    assert((i + h) % s == if i + h >= s {
        i + h - s
    } else {
        i + h
    }) by (nonlinear_arith)
        requires
            0 <= i < s,
            0 <= h < s,
    ;
}

/// Putting something else into a slot changes the number of occupied slots
/// by what went and what came.
pub proof fn lemma_occupied_slots_update<T>(slots: Seq<Option<T>>, i: int, value: Option<T>)
    requires
        0 <= i < slots.len(),
    ensures
        occupied_slots(slots.update(i, value)) + (if slots[i] is Some {
            1nat
        } else {
            0nat
        }) == occupied_slots(slots) + (if value is Some {
            1nat
        } else {
            0nat
        }),
    decreases slots.len(),
{
    let updated = slots.update(i, value);
    if i == slots.len() - 1 {
        assert(updated.drop_last() =~= slots.drop_last());
    } else {
        assert(updated.drop_last() =~= slots.drop_last().update(i, value));
        lemma_occupied_slots_update(slots.drop_last(), i, value);
    }
}

/// A registry without work has no occupied slot.
pub proof fn lemma_occupied_slots_empty<T>(size: nat)
    ensures
        occupied_slots(Seq::new(size, |i: int| None::<T>)) == 0,
    decreases size,
{
    if size > 0 {
        assert(Seq::new(size, |i: int| None::<T>).drop_last() =~= Seq::new(
            (size - 1) as nat,
            |i: int| None::<T>,
        ));
        lemma_occupied_slots_empty::<T>((size - 1) as nat);
    }
}

/// What a slot holds after `items` were stored: the slots whose turn was at
/// most [`lifetime`] stores ago hold the work stored then, and all others
/// are empty. With it, the number of occupied slots: the number of works
/// stored, up to the lifetime.
pub proof fn lemma_slots_after_storing<T>(size: nat, items: Seq<T>)
    requires
        size > 0,
    ensures
        slots_after_storing(size, items).len() == size,
        stored_id(size, items.len()) < size,
        forall|slot: int|
            0 <= slot < size ==> (#[trigger] slots_after_storing(size, items)[slot]) == (if turns_ago(
                size,
                slot,
                stored_id(size, items.len()) as int,
            ) <= min(items.len() as int, lifetime(size) as int) {
                Some(
                    items[items.len() - turns_ago(
                        size,
                        slot,
                        stored_id(size, items.len()) as int,
                    )],
                )
            } else {
                None
            }),
        occupied_slots(slots_after_storing(size, items)) == min(
            items.len() as int,
            lifetime(size) as int,
        ),
    decreases items.len(),
{
    let slots = slots_after_storing(size, items);
    if items.len() == 0 {
        lemma_occupied_slots_empty::<T>(size);
    } else {
        let earlier = items.drop_last();
        let before = slots_after_storing(size, earlier);
        lemma_slots_after_storing(size, earlier);
        let id = stored_id(size, earlier.len());
        let next = stored_id(size, items.len());
        let retired = retire_slot(size, id);
        lemma_next_id_after(size, id);
        lemma_retire_slot(size, id);
        let emptied = before.update(retired as int, None);
        assert(slots == emptied.update(id as int, Some(items.last())));
        lemma_occupied_slots_update(before, retired as int, None);
        lemma_occupied_slots_update(emptied, id as int, Some(items.last()));
        let held = min(earlier.len() as int, lifetime(size) as int);
        assert forall|slot: int| 0 <= slot < size implies (#[trigger] slots[slot]) == (if turns_ago(
            size,
            slot,
            next as int,
        ) <= min(items.len() as int, lifetime(size) as int) {
            Some(items[items.len() - turns_ago(size, slot, next as int)])
        } else {
            None
        }) by {
            if slot != id && slot != retired {
                assert(slots[slot] == before[slot]);
                assert(turns_ago(size, slot, next as int) == turns_ago(size, slot, id as int) + 1);
                if turns_ago(size, slot, id as int) <= held {
                    assert(earlier[earlier.len() - turns_ago(size, slot, id as int)]
                        == items[items.len() - turns_ago(size, slot, next as int)]);
                }
            }
        }
    }
}

/// Once as many works are stored as half of the slots of a registry with an
/// even number of slots, exactly half of the slots are occupied.
pub proof fn lemma_half_occupied<T>(size: nat, items: Seq<T>)
    requires
        size > 0,
        size % 2 == 0,
        items.len() >= size / 2,
    ensures
        occupied_slots(slots_after_storing(size, items)) == size / 2,
        occupied_slots(slots_after_storing(size, items)) == min(
            items.len() as int,
            (size / 2) as int,
        ),
{
    lemma_slots_after_storing(size, items);
}

/// Storing one more work continues the run: a registry that holds what
/// storing `items` leaves holds, after the next store, what storing `items`
/// and `item` leaves, and its next id moves on with it.
pub proof fn lemma_store_continues<T>(size: nat, items: Seq<T>, item: T)
    requires
        size > 0,
    ensures
        slots_after_store(
            slots_after_storing(size, items),
            stored_id(size, items.len()),
            item,
        ) == slots_after_storing(size, items.push(item)),
        next_id_after(size, stored_id(size, items.len())) == stored_id(size, items.len() + 1),
{
    assert(items.push(item).drop_last() =~= items);
}

} // verus!
