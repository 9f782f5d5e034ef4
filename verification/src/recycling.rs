//! "Recycling containers" are container types that do not drop removed
//! elements. When removed from a container, elements are instead "cleared":
//! their state is reset to a pristine state without deallocating, and they
//! are parked in a pool for later reuse. This behavior is implementable via
//! the [`Clear`] trait.

pub mod clear;
pub mod recycling_hash_map;
pub mod recycling_vec;

pub use clear::Clear;
pub use recycling_hash_map::RecyclingHashMap;
pub use recycling_vec::RecyclingVec;
