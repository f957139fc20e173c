//! The multi-pool composition layer: a fixed, ordered family of single-size
//! sub-pools, one per power-of-two size class, with every request dispatched
//! to the sub-pool of its class.
//!
//! The sub-pools are `dynamic_pool::DynamicPool` values, an external
//! collaborator: a lock-free, internally synchronized pool of items of one
//! class. Its behaviour is taken on trust through the small wrapper
//! functions below; everything around them — class resolution, bounds
//! checking, dispatch — is verified.
//!
//! Chosen policies, applied uniformly:
//! - allocate-on-empty: `try_pull` and `pull` both hand out a freshly
//!   allocated item of the class's size when the sub-pool has no idle item,
//!   so neither ever returns empty for a valid class;
//! - drop-on-overflow: an item released to a sub-pool that already retains
//!   `max_pool_size` idle items is discarded, never queued (this is
//!   `DynamicPool`'s own bound enforcement);
//! - a request of size 0 is served from class 0, like a request of size 1.

use vstd::prelude::*;
use vstd::arithmetic::power2::pow2;
use std::any::Any;
use std::marker::PhantomData;
use dynamic_pool::{DynamicPool, DynamicPoolItem, DynamicReset};
use crate::size_class::{class_of, compute, lemma_class_of_pow2, lemma_pow2_monotone};

verus! {

/// The single error kind of this layer: the requested or attached size maps
/// to a size class at or beyond the configured class count. This signals a
/// configuration mismatch, not a transient fault — an identical retry fails
/// again.
#[derive(Debug, Clone, Copy, PartialEq, Eq, Structural)]
pub enum SizedPoolError {
    SizeExceedMaxSize,
}

impl SizedPoolError {
    /// The human-readable description of this error.
    pub fn message(&self) -> (r: &'static str)
        ensures
            r@ == "the given size exceeds the maximum allowed size of the pool"@,
    {
        "the given size exceeds the maximum allowed size of the pool"
    }
}

/// The capability contract an item type must offer to be pooled: it can be
/// built for a target byte size, and it reports that size.
pub trait SizedAllocatable: Sized {
    /// The byte size this item was built for and reports.
    spec fn spec_size(&self) -> usize;

    /// Builds an item of the given byte size.
    fn new(size: usize) -> (r: Self)
        ensures
            r.spec_size() == size,
    ;

    /// Reports the item's own byte size.
    fn size(&self) -> (r: usize)
        ensures
            r == self.spec_size(),
    ;
}

/// One size class's reuse pool, held opaquely: a `dynamic_pool::DynamicPool`
/// of items of exactly this class's size, behind a type-erased box. A
/// `SizedPool<T>` builds every one of its sub-pools over its own item type
/// `T`, so the downcasts in the wrappers below always see a
/// `DynamicPool<T>`.
#[verifier::external_body]
pub struct SubPool {
    inner: Box<dyn Any + Send + Sync>,
}

/// The byte size at which a sub-pool's factory manufactures its items: the
/// `size` handed to `sub_pool_new`. Only the trusted wrappers say anything
/// about it.
pub uninterp spec fn sub_pool_item_size(pool: SubPool) -> usize;

/// A handle to one pooled item, held opaquely: a
/// `dynamic_pool::DynamicPoolItem`, whose drop resets the item and returns
/// it to the sub-pool it came from — never another — unless that sub-pool
/// already retains its maximum of idle items.
#[verifier::external_body]
#[verifier::reject_recursive_types(T)]
pub struct PoolItem<T> {
    inner: Box<dyn Any>,
    marker: PhantomData<T>,
}

impl<T: SizedAllocatable + DynamicReset + Send + 'static> PoolItem<T> {
    /// Relies on `dynamic_pool::DynamicPoolItem`'s `Deref`: borrows the
    /// pooled item this handle owns.
    #[verifier::external_body]
    pub fn get(&self) -> (r: &T) {
        let item: &DynamicPoolItem<T> = self.inner.downcast_ref().expect("handle holds its item");
        item.as_ref()
    }

    /// Relies on `dynamic_pool::DynamicPoolItem::detach`: unwraps the owned
    /// item, severing it from its sub-pool, so it is not returned on drop.
    #[verifier::external_body]
    pub fn detach(self) -> (r: T) {
        let item: Box<DynamicPoolItem<T>> = self.inner.downcast().ok().expect("handle holds its item");
        item.detach()
    }
}

/// Relies on `dynamic_pool::DynamicPool::new`: builds a pool pre-filled with
/// `cap` items from the factory — here items of exactly `size` bytes, which
/// is the size named by `sub_pool_item_size` — that retains at most `max`
/// idle items. It panics when `cap > max`, and its backing queue rejects a
/// zero capacity, so both are excluded here.
#[verifier::external_body]
fn sub_pool_new<T: SizedAllocatable + DynamicReset + Send + 'static>(cap: usize, max: usize, size: usize) -> (r:
    SubPool)
    requires
        1 <= max,
        cap <= max,
    ensures
        sub_pool_item_size(r) == size,
{
    let pool: DynamicPool<T> = DynamicPool::new(cap, max, move || T::new(size));
    SubPool { inner: Box::new(pool) }
}

/// Relies on `dynamic_pool::DynamicPool::try_take`: hands out an idle item
/// if one is queued, returns `None` otherwise, and never allocates. The
/// pool is shared and internally synchronized, so nothing more is promised
/// of which outcome occurs.
#[verifier::external_body]
fn sub_pool_try_take<T: SizedAllocatable + DynamicReset + Send + 'static>(pool: &SubPool) -> (r:
    Option<PoolItem<T>>)
{
    let pool: &DynamicPool<T> = pool.inner.downcast_ref().expect("sub-pool holds its class's pool");
    pool.try_take().map(|item| PoolItem { inner: Box::new(item), marker: PhantomData })
}

/// Relies on `dynamic_pool::DynamicPool::take`: hands out an idle item if
/// one is queued, and otherwise allocates a fresh one from the pool's
/// factory — so it always returns an item.
#[verifier::external_body]
fn sub_pool_take<T: SizedAllocatable + DynamicReset + Send + 'static>(pool: &SubPool) -> (r:
    PoolItem<T>)
{
    let pool: &DynamicPool<T> = pool.inner.downcast_ref().expect("sub-pool holds its class's pool");
    PoolItem { inner: Box::new(pool.take()), marker: PhantomData }
}

/// Relies on `dynamic_pool::DynamicPoolItem`'s release path: dropping a
/// handle resets its item and queues it on the origin pool, unless the pool
/// already retains its maximum of idle items, in which case the item is
/// discarded. The handle is obtained with `DynamicPool::take` and its
/// object replaced by `item`; idle items of one sub-pool are
/// interchangeable, so the replaced object is simply retired. The class
/// match demanded here is what keeps every sub-pool homogeneous: no caller
/// can release an item into a sub-pool of another class.
#[verifier::external_body]
fn sub_pool_attach<T: SizedAllocatable + DynamicReset + Send + 'static>(pool: &SubPool, item: T)
    requires
        class_of(item.spec_size() as nat) == class_of(sub_pool_item_size(*pool) as nat),
{
    let pool: &DynamicPool<T> = pool.inner.downcast_ref().expect("sub-pool holds its class's pool");
    let mut handle = pool.take();
    *handle = item;
}

/// An ordered, fixed-length family of sub-pools: the one at index `i` holds
/// items of `pow2(i)` bytes. The family never changes after construction,
/// so a `SizedPool` is shared read-only across callers; all mutable state
/// lives inside the internally synchronized sub-pools.
#[verifier::reject_recursive_types(T)]
pub struct SizedPool<T> {
    sub_pools: Vec<SubPool>,
    marker: PhantomData<T>,
}

impl<T> SizedPool<T> {
    /// The number of size classes this pool serves: requests of classes
    /// `0 .. spec_class_count()` succeed, larger ones are rejected.
    pub closed spec fn spec_class_count(&self) -> nat {
        self.sub_pools@.len()
    }

    /// The structural invariant of the family: the sub-pool at index `i`
    /// manufactures — and, with every release class-checked, holds — items
    /// of exactly `pow2(i)` bytes.
    #[verifier::type_invariant]
    spec fn wf(self) -> bool {
        forall|i: int|
            0 <= i < self.sub_pools@.len() ==> #[trigger] sub_pool_item_size(self.sub_pools@[i])
                == pow2(i as nat)
    }
}

impl<T: SizedAllocatable + DynamicReset + Send + 'static> SizedPool<T> {
    /// Builds one sub-pool per class `0 .. class_count`, the one for class
    /// `i` pre-filled with `cap` items of `pow2(i)` bytes and retaining at
    /// most `max_pool_size` idle items. The bounds in `requires` keep the
    /// largest class's item size within `usize` and exclude the parameter
    /// combinations on which the backing pool's constructor panics.
    pub fn new(cap: usize, class_count: u32, max_pool_size: usize) -> (r: Self)
        requires
            1 <= max_pool_size,
            cap <= max_pool_size,
            class_count == 0 || pow2((class_count - 1) as nat) <= usize::MAX,
        ensures
            r.spec_class_count() == class_count,
    {
        let mut pools: Vec<SubPool> = Vec::new();
        let mut i: u32 = 0;
        let mut cur: usize = 1;
        proof {
            vstd::arithmetic::power2::lemma2_to64();
        }
        while i < class_count
            invariant
                i <= class_count,
                pools@.len() == i,
                forall|k: int|
                    0 <= k < i ==> #[trigger] sub_pool_item_size(pools@[k]) == pow2(k as nat),
                i < class_count ==> cur == pow2(i as nat),
                class_count == 0 || pow2((class_count - 1) as nat) <= usize::MAX,
                1 <= max_pool_size,
                cap <= max_pool_size,
            decreases class_count - i,
        {
            let pool = sub_pool_new::<T>(cap, max_pool_size, cur);
            pools.push(pool);
            i = i + 1;
            if i < class_count {
                proof {
                    lemma_pow2_monotone(i as nat, (class_count - 1) as nat);
                    vstd::arithmetic::power2::lemma_pow2_unfold(i as nat);
                }
                cur = cur * 2;
            }
        }
        Self { sub_pools: pools, marker: PhantomData }
    }

    /// The sub-pool serving `size`, or `SizeExceedMaxSize` when `size`'s
    /// class is at or beyond the class count.
    fn get_subpool(&self, size: usize) -> (r: Result<&SubPool, SizedPoolError>)
        ensures
            (r is Ok) <==> class_of(size as nat) < self.spec_class_count(),
            r matches Ok(p) ==> *p == self.sub_pools@[class_of(size as nat) as int],
            r matches Ok(p) ==> sub_pool_item_size(*p) == pow2(class_of(size as nat)),
            r matches Err(e) ==> e == SizedPoolError::SizeExceedMaxSize,
    {
        proof {
            use_type_invariant(&*self);
        }
        let idx = compute(size);
        if idx < self.sub_pools.len() {
            Ok(&self.sub_pools[idx])
        } else {
            Err(SizedPoolError::SizeExceedMaxSize)
        }
    }

    /// Hands out an item of `size`'s class: an idle one from that class's
    /// sub-pool when available, otherwise — by the uniform
    /// allocate-on-empty policy — a freshly allocated item of the class's
    /// size. Returns an item exactly when the class is configured, and
    /// `SizeExceedMaxSize` exactly when it is not; an out-of-range request
    /// touches no sub-pool.
    pub fn try_pull(&self, size: usize) -> (r: Result<PoolItem<T>, SizedPoolError>)
        ensures
            (r is Ok) <==> class_of(size as nat) < self.spec_class_count(),
            r matches Err(e) ==> e == SizedPoolError::SizeExceedMaxSize,
    {
        match self.get_subpool(size) {
            Ok(pool) => match sub_pool_try_take(pool) {
                Some(item) => Ok(item),
                None => Ok(sub_pool_take(pool)),
            },
            Err(e) => Err(e),
        }
    }

    /// Hands out an item of `size`'s class, allocating a fresh one of the
    /// class's exact size when the sub-pool is empty: for a configured
    /// class it never returns empty-handed. Under the uniform
    /// allocate-on-empty policy this is the same protocol as `try_pull`.
    pub fn pull(&self, size: usize) -> (r: Result<PoolItem<T>, SizedPoolError>)
        ensures
            (r is Ok) <==> class_of(size as nat) < self.spec_class_count(),
            r matches Err(e) ==> e == SizedPoolError::SizeExceedMaxSize,
    {
        self.try_pull(size)
    }

    /// Returns an externally constructed item to the sub-pool of the class
    /// its own reported size maps to — never another, so classes stay
    /// homogeneous. Succeeds exactly when that class is configured, and
    /// fails with `SizeExceedMaxSize` — touching no sub-pool — exactly when
    /// it is not. Retention of the returned item is subject to the
    /// sub-pool's drop-on-overflow bound.
    pub fn attach(&self, item: T) -> (r: Result<(), SizedPoolError>)
        ensures
            (r is Ok) <==> class_of(item.spec_size() as nat) < self.spec_class_count(),
            r matches Err(e) ==> e == SizedPoolError::SizeExceedMaxSize,
    {
        let s = item.size();
        match self.get_subpool(s) {
            Ok(pool) => {
                proof {
                    lemma_class_of_pow2(class_of(s as nat));
                }
                sub_pool_attach(pool, item);
                Ok(())
            },
            Err(e) => Err(e),
        }
    }

    /// Items of one class are interchangeable across request sizes: when
    /// two sizes map to the same configured class, an item sized for that
    /// class — `pow2` of the class, the size every item manufactured for
    /// the first request has — is routed by `attach` to exactly the class
    /// that serves the second request, so a later `pull` for the second
    /// size draws from the sub-pool it was released to.
    pub proof fn lemma_same_class_reuse(&self, s1: usize, s2: usize, item: T)
        requires
            class_of(s1 as nat) == class_of(s2 as nat),
            class_of(s1 as nat) < self.spec_class_count(),
            item.spec_size() == pow2(class_of(s1 as nat)),
        ensures
            class_of(item.spec_size() as nat) == class_of(s2 as nat),
            class_of(item.spec_size() as nat) < self.spec_class_count(),
    {
        lemma_class_of_pow2(class_of(s1 as nat));
    }
}

} // verus!
