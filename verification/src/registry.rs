//! The slot registry: a mapping from type key to cell, with guard-based
//! borrow tracking and overwrite-on-store semantics.

use vstd::prelude::*;
use std::collections::HashMap;
use crate::cell::BorrowState;
use crate::cell::CellState;
use crate::cell::TypeKey;

verus! {

broadcast use vstd::std_specs::hash::group_hash_axioms;

/// Mathematical model of a registry: the arena of every cell ever created
/// (index order = creation order) and the map from key to the index of the
/// key's current cell.
#[verifier::ext_equal]
pub ghost struct RegistryModel<V> {
    pub cells: Seq<CellState<V>>,
    pub slots: Map<u64, usize>,
}

impl<V> RegistryModel<V> {
    /// The model of a freshly created registry.
    pub open spec fn empty() -> Self {
        RegistryModel { cells: Seq::empty(), slots: Map::empty() }
    }

    /// Registry invariant: every slot points at a cell of the arena that is
    /// the current generation of exactly that one key, and every cell is
    /// well formed.
    pub open spec fn inv(self) -> bool {
        &&& forall|k: u64| #[trigger] self.slots.contains_key(k) ==> self.slots[k] < self.cells.len()
        &&& forall|k: u64| #[trigger] self.slots.contains_key(k)
                ==> self.cells[self.slots[k] as int].current
        &&& forall|k1: u64, k2: u64|
                #![trigger self.slots[k1], self.slots[k2]]
                self.slots.contains_key(k1) && self.slots.contains_key(k2)
                    && self.slots[k1] == self.slots[k2] ==> k1 == k2
        &&& forall|i: int| 0 <= i < self.cells.len() ==> (#[trigger] self.cells[i]).wf()
    }

    /// Whether some value has ever been stored under `key`.
    pub open spec fn has(self, key: TypeKey) -> bool {
        self.slots.contains_key(key.0)
    }

    /// Arena index of the current cell for `key`.
    pub open spec fn slot_of(self, key: TypeKey) -> usize
        recommends
            self.has(key),
    {
        self.slots[key.0]
    }

    /// The cell at arena index `i`.
    pub open spec fn cell_at(self, i: usize) -> CellState<V>
        recommends
            i < self.cells.len(),
    {
        self.cells[i as int]
    }

    /// The value held by the cell at arena index `i`.
    pub open spec fn value_at(self, i: usize) -> V
        recommends
            i < self.cells.len(),
            self.cells[i as int].value is Some,
    {
        self.cells[i as int].value->0
    }

    /// The borrow state of the cell at arena index `i`.
    pub open spec fn borrow_at(self, i: usize) -> BorrowState
        recommends
            i < self.cells.len(),
    {
        self.cells[i as int].borrow
    }

    /// The current value stored under `key`.
    pub open spec fn current_value(self, key: TypeKey) -> V
        recommends
            self.has(key),
    {
        self.value_at(self.slot_of(key))
    }

    /// The borrow state of the current cell for `key`.
    pub open spec fn borrow_of(self, key: TypeKey) -> BorrowState
        recommends
            self.has(key),
    {
        self.borrow_at(self.slot_of(key))
    }

    /// A shared borrow under `key` would be admitted: the current cell is
    /// not exclusively borrowed (a conflict is a caller sequencing bug and
    /// is never admitted), and one more shared hold is countable.
    pub open spec fn can_read(self, key: TypeKey) -> bool {
        self.has(key) ==> {
            &&& !(self.borrow_of(key) is Exclusive)
            &&& self.borrow_of(key).shared_count() < usize::MAX
        }
    }

    /// An exclusive borrow under `key` would be admitted: the current cell
    /// is not borrowed at all.
    pub open spec fn can_write(self, key: TypeKey) -> bool {
        self.has(key) ==> self.borrow_of(key) is Unborrowed
    }

    /// A cell as `store` leaves the previous generation: no longer current,
    /// and released at once if no guard holds it.
    pub open spec fn retired(c: CellState<V>) -> CellState<V> {
        CellState {
            value: if c.borrow is Unborrowed {
                None
            } else {
                c.value
            },
            borrow: c.borrow,
            current: false,
        }
    }

    /// Effect of `store`: the old current cell for `key` (if any) is
    /// retired, a fresh unborrowed current cell holding `value` is appended,
    /// and the slot for `key` moves to it.
    pub open spec fn store_t(self, key: TypeKey, value: V) -> Self {
        let cells = if self.has(key) {
            self.cells.update(self.slot_of(key) as int, Self::retired(self.cell_at(self.slot_of(key))))
        } else {
            self.cells
        };
        RegistryModel {
            cells: cells.push(
                CellState { value: Some(value), borrow: BorrowState::Unborrowed, current: true },
            ),
            slots: self.slots.insert(key.0, self.cells.len() as usize),
        }
    }

    /// Effect of acquiring a shared guard for `key`: the current cell's
    /// shared count grows by one; nothing else moves.
    pub open spec fn shared_acquired(self, key: TypeKey) -> Self
        recommends
            self.has(key),
            self.can_read(key),
    {
        let i = self.slot_of(key);
        let c = self.cell_at(i);
        RegistryModel {
            cells: self.cells.update(
                i as int,
                CellState {
                    value: c.value,
                    borrow: BorrowState::Shared((c.borrow.shared_count() + 1) as usize),
                    current: c.current,
                },
            ),
            slots: self.slots,
        }
    }

    /// Effect of acquiring an exclusive guard for `key`.
    pub open spec fn exclusive_acquired(self, key: TypeKey) -> Self
        recommends
            self.has(key),
            self.can_write(key),
    {
        let i = self.slot_of(key);
        let c = self.cell_at(i);
        RegistryModel {
            cells: self.cells.update(
                i as int,
                CellState { value: c.value, borrow: BorrowState::Exclusive, current: c.current },
            ),
            slots: self.slots,
        }
    }

    /// Effect of releasing a shared guard on the cell at index `i`: the
    /// shared count shrinks by one; when the last hold on a retired cell
    /// goes, the cell's value is released.
    pub open spec fn shared_released(self, i: usize) -> Self
        recommends
            i < self.cells.len(),
            self.cells[i as int].borrow is Shared,
    {
        let c = self.cell_at(i);
        let n = c.borrow.shared_count();
        RegistryModel {
            cells: self.cells.update(
                i as int,
                CellState {
                    value: if n <= 1 && !c.current {
                        None
                    } else {
                        c.value
                    },
                    borrow: if n <= 1 {
                        BorrowState::Unborrowed
                    } else {
                        BorrowState::Shared((n - 1) as usize)
                    },
                    current: c.current,
                },
            ),
            slots: self.slots,
        }
    }

    /// Effect of releasing an exclusive guard on the cell at index `i`.
    pub open spec fn exclusive_released(self, i: usize) -> Self
        recommends
            i < self.cells.len(),
            self.cells[i as int].borrow is Exclusive,
    {
        let c = self.cell_at(i);
        RegistryModel {
            cells: self.cells.update(
                i as int,
                CellState {
                    value: if c.current {
                        c.value
                    } else {
                        None
                    },
                    borrow: BorrowState::Unborrowed,
                    current: c.current,
                },
            ),
            slots: self.slots,
        }
    }

    /// Effect of writing `value` through an exclusive guard on the cell at
    /// index `i`.
    pub open spec fn written(self, i: usize, value: V) -> Self
        recommends
            i < self.cells.len(),
    {
        let c = self.cell_at(i);
        RegistryModel {
            cells: self.cells.update(
                i as int,
                CellState { value: Some(value), borrow: c.borrow, current: c.current },
            ),
            slots: self.slots,
        }
    }
}

/// Shared (read) hold on one cell. Hand it back with
/// [`Registry::release`] once the read is over.
pub struct Guard {
    cell: usize,
}

impl Guard {
    /// Arena index of the held cell.
    pub closed spec fn cell_id(self) -> usize {
        self.cell
    }
}

/// Exclusive (read-write) hold on one cell. Hand it back with
/// [`Registry::release_mut`] once the access is over.
pub struct GuardMut {
    cell: usize,
}

impl GuardMut {
    /// Arena index of the held cell.
    pub closed spec fn cell_id(self) -> usize {
        self.cell
    }
}

/// A registry confined to one execution context: the type-keyed slot map
/// plus the arena of cells, each created by one `store` call.
pub struct Registry<V> {
    cells: Vec<CellState<V>>,
    slots: HashMap<u64, usize>,
}

impl<V> View for Registry<V> {
    type V = RegistryModel<V>;

    closed spec fn view(&self) -> RegistryModel<V> {
        RegistryModel { cells: self.cells@, slots: self.slots@ }
    }
}

impl<V> Registry<V> {
    /// The registry invariant; every operation preserves it.
    pub open spec fn wf(self) -> bool {
        self@.inv()
    }

    /// A shared guard that is really outstanding on this registry.
    pub open spec fn valid_guard(self, g: Guard) -> bool {
        &&& g.cell_id() < self@.cells.len()
        &&& self@.borrow_at(g.cell_id()) is Shared
    }

    /// An exclusive guard that is really outstanding on this registry.
    pub open spec fn valid_guard_mut(self, g: GuardMut) -> bool {
        &&& g.cell_id() < self@.cells.len()
        &&& self@.borrow_at(g.cell_id()) is Exclusive
    }

    /// Whether some value is stored under `key`.
    pub fn contains(&self, key: TypeKey) -> (b: bool)
        requires
            self.wf(),
        ensures
            b == self@.has(key),
    {
        self.slots.contains_key(&key.0)
    }

    /// Whether a shared borrow under `key` would be admitted right now
    /// (vacuously so when nothing is stored under `key`: the lookup itself
    /// then comes back empty instead).
    pub fn readable(&self, key: TypeKey) -> (b: bool)
        requires
            self.wf(),
        ensures
            b == self@.can_read(key),
    {
        match self.slots.get(&key.0) {
            None => true,
            Some(i_ref) => {
                let i = *i_ref;
                match self.cells[i].borrow {
                    BorrowState::Unborrowed => true,
                    BorrowState::Shared(n) => n < usize::MAX,
                    BorrowState::Exclusive => false,
                }
            },
        }
    }

    /// Whether an exclusive borrow under `key` would be admitted right now
    /// (vacuously so when nothing is stored under `key`).
    pub fn writable(&self, key: TypeKey) -> (b: bool)
        requires
            self.wf(),
        ensures
            b == self@.can_write(key),
    {
        match self.slots.get(&key.0) {
            None => true,
            Some(i_ref) => {
                let i = *i_ref;
                match self.cells[i].borrow {
                    BorrowState::Unborrowed => true,
                    _ => false,
                }
            },
        }
    }

    /// Create an empty registry for one execution context.
    pub fn new() -> (r: Registry<V>)
        ensures
            r.wf(),
            r@ == RegistryModel::<V>::empty(),
    {
        let r = Registry { cells: Vec::new(), slots: HashMap::new() };
        proof {
            assert(r@ =~= RegistryModel::<V>::empty());
        }
        r
    }

    /// Store `value` under `key`, silently overwriting any earlier value.
    /// Guards on the overwritten generation stay valid and keep observing
    /// the value they were acquired on.
    pub fn store(&mut self, key: TypeKey, value: V)
        requires
            old(self).wf(),
        ensures
            final(self).wf(),
            final(self)@ == old(self)@.store_t(key, value),
    {
        let ghost pre = self@;
        let idx = self.cells.len();
        let mut existing: Option<usize> = None;
        match self.slots.get(&key.0) {
            Some(i_ref) => {
                existing = Some(*i_ref);
            },
            None => {},
        }
        match existing {
            Some(i) => {
                let c = &mut self.cells[i];
                c.current = false;
                let b = c.borrow;
                match b {
                    BorrowState::Unborrowed => {
                        c.value = None;
                    },
                    _ => {},
                }
            },
            None => {},
        }
        self.cells.push(CellState { value: Some(value), borrow: BorrowState::Unborrowed, current: true });
        self.slots.insert(key.0, idx);
        proof {
            assert(self@ =~= pre.store_t(key, value));
        }
    }

    /// Look `key` up and take a shared borrow on its current cell.
    /// Absence is an expected empty result; a live exclusive borrow is a
    /// caller sequencing bug and is never admitted (`can_read`).
    pub fn try_get(&mut self, key: TypeKey) -> (r: Option<Guard>)
        requires
            old(self).wf(),
            old(self)@.can_read(key),
        ensures
            final(self).wf(),
            r is Some <==> old(self)@.has(key),
            (r matches Some(g) ==> {
                &&& g.cell_id() == old(self)@.slot_of(key)
                &&& final(self)@ == old(self)@.shared_acquired(key)
                &&& final(self).valid_guard(g)
            }),
            r is None ==> *final(self) == *old(self),
    {
        let ghost pre = self@;
        let mut existing: Option<usize> = None;
        match self.slots.get(&key.0) {
            Some(i_ref) => {
                existing = Some(*i_ref);
            },
            None => {},
        }
        match existing {
            None => None,
            Some(i) => {
                let c = &mut self.cells[i];
                let b = c.borrow;
                match b {
                    BorrowState::Unborrowed => {
                        c.borrow = BorrowState::Shared(1);
                    },
                    BorrowState::Shared(n) => {
                        c.borrow = BorrowState::Shared(n + 1);
                    },
                    BorrowState::Exclusive => {
                        return vstd::pervasive::unreached();
                    },
                }
                proof {
                    assert(self@ =~= pre.shared_acquired(key));
                }
                Some(Guard { cell: i })
            },
        }
    }

    /// Like [`Registry::try_get`], with absence escalated: the caller owes
    /// a key under which a value has been stored.
    pub fn get(&mut self, key: TypeKey) -> (g: Guard)
        requires
            old(self).wf(),
            old(self)@.has(key),
            old(self)@.can_read(key),
        ensures
            final(self).wf(),
            g.cell_id() == old(self)@.slot_of(key),
            final(self)@ == old(self)@.shared_acquired(key),
            final(self).valid_guard(g),
    {
        match self.try_get(key) {
            Some(g) => g,
            None => vstd::pervasive::unreached(),
        }
    }

    /// Read the value a shared guard holds. A guard acquired before an
    /// overwrite still reads the generation it was acquired on.
    pub fn read(&self, g: &Guard) -> (r: &V)
        requires
            self.wf(),
            self.valid_guard(*g),
        ensures
            *r == self@.value_at(g.cell_id()),
    {
        let c = &self.cells[g.cell];
        c.value.as_ref().unwrap()
    }

    /// Hand a shared guard back, releasing its hold on the cell.
    pub fn release(&mut self, g: Guard)
        requires
            old(self).wf(),
            old(self).valid_guard(g),
        ensures
            final(self).wf(),
            final(self)@ == old(self)@.shared_released(g.cell_id()),
    {
        let ghost pre = self@;
        let i = g.cell;
        let c = &mut self.cells[i];
        let b = c.borrow;
        match b {
            BorrowState::Shared(n) => {
                if n <= 1 {
                    c.borrow = BorrowState::Unborrowed;
                    if !c.current {
                        c.value = None;
                    }
                } else {
                    c.borrow = BorrowState::Shared(n - 1);
                }
            },
            _ => {
                return vstd::pervasive::unreached();
            },
        }
        proof {
            assert(self@ =~= pre.shared_released(g.cell_id()));
        }
    }

    /// Look `key` up and take an exclusive borrow on its current cell.
    /// Absence is an expected empty result; any live borrow is a caller
    /// sequencing bug and is never admitted (`can_write`).
    pub fn try_get_mut(&mut self, key: TypeKey) -> (r: Option<GuardMut>)
        requires
            old(self).wf(),
            old(self)@.can_write(key),
        ensures
            final(self).wf(),
            r is Some <==> old(self)@.has(key),
            (r matches Some(g) ==> {
                &&& g.cell_id() == old(self)@.slot_of(key)
                &&& final(self)@ == old(self)@.exclusive_acquired(key)
                &&& final(self).valid_guard_mut(g)
            }),
            r is None ==> *final(self) == *old(self),
    {
        let ghost pre = self@;
        let mut existing: Option<usize> = None;
        match self.slots.get(&key.0) {
            Some(i_ref) => {
                existing = Some(*i_ref);
            },
            None => {},
        }
        match existing {
            None => None,
            Some(i) => {
                let c = &mut self.cells[i];
                let b = c.borrow;
                match b {
                    BorrowState::Unborrowed => {
                        c.borrow = BorrowState::Exclusive;
                    },
                    _ => {
                        return vstd::pervasive::unreached();
                    },
                }
                proof {
                    assert(self@ =~= pre.exclusive_acquired(key));
                }
                Some(GuardMut { cell: i })
            },
        }
    }

    /// Like [`Registry::try_get_mut`], with absence escalated: the caller
    /// owes a key under which a value has been stored.
    pub fn get_mut(&mut self, key: TypeKey) -> (g: GuardMut)
        requires
            old(self).wf(),
            old(self)@.has(key),
            old(self)@.can_write(key),
        ensures
            final(self).wf(),
            g.cell_id() == old(self)@.slot_of(key),
            final(self)@ == old(self)@.exclusive_acquired(key),
            final(self).valid_guard_mut(g),
    {
        match self.try_get_mut(key) {
            Some(g) => g,
            None => vstd::pervasive::unreached(),
        }
    }

    /// Read the value an exclusive guard holds.
    pub fn read_mut(&self, g: &GuardMut) -> (r: &V)
        requires
            self.wf(),
            self.valid_guard_mut(*g),
        ensures
            *r == self@.value_at(g.cell_id()),
    {
        let c = &self.cells[g.cell];
        c.value.as_ref().unwrap()
    }

    /// Replace the value behind an exclusive guard. The write lands in the
    /// guard's own cell, so it is visible to every later lookup for as long
    /// as that cell stays current.
    pub fn write(&mut self, g: &GuardMut, value: V)
        requires
            old(self).wf(),
            old(self).valid_guard_mut(*g),
        ensures
            final(self).wf(),
            final(self)@ == old(self)@.written(g.cell_id(), value),
            final(self).valid_guard_mut(*g),
    {
        let ghost pre = self@;
        let c = &mut self.cells[g.cell];
        c.value = Some(value);
        proof {
            assert(self@ =~= pre.written(g.cell_id(), value));
        }
    }

    /// Hand an exclusive guard back, releasing its hold on the cell.
    pub fn release_mut(&mut self, g: GuardMut)
        requires
            old(self).wf(),
            old(self).valid_guard_mut(g),
        ensures
            final(self).wf(),
            final(self)@ == old(self)@.exclusive_released(g.cell_id()),
    {
        let ghost pre = self@;
        let i = g.cell;
        let c = &mut self.cells[i];
        c.borrow = BorrowState::Unborrowed;
        if !c.current {
            c.value = None;
        }
        proof {
            assert(self@ =~= pre.exclusive_released(g.cell_id()));
        }
    }
}

} // verus!
