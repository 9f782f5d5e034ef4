//! Index-stable, allocation-reusing container primitives.
//!
//! Two families of containers live here:
//!
//! * sparse slot stores: dense unordered storage addressed through stable
//!   public indices, with constant-time insert, swap-remove and free-index
//!   reuse, generic over a pluggable backing array ([`staticvec::VecLike`]);
//! * recycling containers: wrappers that never drop removed elements but
//!   reset them through a "clear to pristine state" capability and keep them
//!   in a pool for reuse.

pub mod recycling;
pub mod sparseset;
pub mod sparsevec;
pub mod staticvec;
pub mod string_map;

pub use recycling::Clear;
pub use recycling::RecyclingHashMap;
pub use recycling::RecyclingVec;
pub use sparseset::GenericSparseSet;
pub use sparseset::SparseSet;
pub use sparseset::StaticSparseSet;
pub use sparsevec::SparseVec;
pub use staticvec::StaticVec;
pub use staticvec::VecLike;
pub use string_map::StringMap;
