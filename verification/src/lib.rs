//! Runtime aliasing enforcement for a column-oriented entity/component
//! store: per-(group, component type) shared/exclusive borrow counters,
//! scoped reference handles coupling a grant to one column slot, and a
//! per-entity view that fetches handles or enumerates resident types.
//!
//! Handle factories come in two variants. On the strict path
//! (`EntityRef::get`, `EntityRef::get_mut`) a denied grant surfaces as
//! an absent value and no handle is built. On the ungated path
//! (`Ref::new`, `RefMut::new`, `EntityRef::get_ungated`,
//! `EntityRef::get_mut_ungated`) the grant outcome is discarded and the
//! handle is built regardless; only the counter, and the release-time
//! precondition, record the conflict.

pub mod archetype;
pub mod borrow;

pub use archetype::Archetype;
pub use borrow::AtomicBorrow;
pub use borrow::EntityRef;
pub use borrow::MissingComponent;
pub use borrow::Ref;
pub use borrow::RefMut;
