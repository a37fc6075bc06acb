//! A process-local, type-indexed storage registry.
//!
//! A [`registry::Registry`] holds at most one value per [`cell::TypeKey`].
//! Each stored value lives in a cell with a runtime-tracked borrow state;
//! read and write access goes through guards that the registry hands out
//! and takes back, so that shared and exclusive access never overlap.

pub mod cell;
pub mod laws;
pub mod registry;

pub use cell::BorrowState;
pub use cell::CellState;
pub use cell::TypeKey;
pub use registry::Guard;
pub use registry::GuardMut;
pub use registry::Registry;
pub use registry::RegistryModel;
