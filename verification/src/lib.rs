//! A bucketed object pool: requests for an item of a given byte size are
//! routed to one of several fixed-size reuse pools, one per power-of-two
//! size class. The single-size pools themselves are `dynamic_pool`'s
//! lock-free `DynamicPool`; this crate owns the size-class arithmetic, the
//! bounds checking, and the dispatch to the right sub-pool.


pub use dynamic_pool::DynamicReset;

mod pool;
mod size_class;

pub use pool::{PoolItem, SizedAllocatable, SizedPool, SizedPoolError};
pub use size_class::class_of;
pub use size_class::compute;
pub use size_class::lemma_class_of_is_smallest;
