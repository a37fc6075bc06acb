//! Type keys, borrow states and cells: the building blocks of the registry.

use vstd::prelude::*;

verus! {

/// Identifier standing for one data type within a registry.
///
/// The host derives one key per distinct storable type (a pure function of
/// the type): the same type always presents the same key, and distinct
/// types present distinct keys. The registry itself only compares keys.
#[derive(Clone, Copy, PartialEq, Eq, Structural, Hash, Debug)]
pub struct TypeKey(pub u64);

/// Runtime borrow state of one cell.
///
/// `Shared(n)` records `n >= 1` outstanding read guards; `Exclusive`
/// records a single outstanding write guard. Transitions are driven only
/// by guard acquisition and release.
#[derive(Clone, Copy, PartialEq, Eq, Structural, Debug)]
pub enum BorrowState {
    Unborrowed,
    Shared(usize),
    Exclusive,
}

impl BorrowState {
    /// Number of outstanding shared holds (zero unless `Shared`).
    pub open spec fn shared_count(self) -> nat {
        match self {
            BorrowState::Shared(n) => n as nat,
            _ => 0,
        }
    }
}

/// One generation of a stored value.
///
/// A cell is created by `store`, stays the current generation for its key
/// until a later `store` retires it, and keeps its value alive for as long
/// as it is current or some guard still holds it. Once neither holds, the
/// value is released and the cell stays behind as an exhausted entry.
pub struct CellState<V> {
    /// The stored value; `None` once the cell has been released.
    pub value: Option<V>,
    /// The runtime-tracked borrow state.
    pub borrow: BorrowState,
    /// Whether this cell is still the latest generation for its key.
    pub current: bool,
}

impl<V> CellState<V> {
    /// A cell is live while the registry or some guard still needs its value.
    pub open spec fn live(self) -> bool {
        self.current || !(self.borrow is Unborrowed)
    }

    /// Well-formedness: a live cell holds a value, and a shared borrow
    /// counts at least one guard.
    pub open spec fn wf(self) -> bool {
        &&& self.live() ==> self.value is Some
        &&& self.borrow matches BorrowState::Shared(n) ==> n >= 1
    }
}

} // verus!
