use sized_pool::{compute, DynamicReset, SizedAllocatable, SizedPool, SizedPoolError};

#[derive(Debug)]
struct TestItem {
    size: usize,
    marker: usize,
}

impl SizedAllocatable for TestItem {
    fn spec_size(&self) -> usize {
        self.size
    }

    fn new(size: usize) -> Self {
        Self { size, marker: 0 }
    }

    fn size(&self) -> usize {
        self.size
    }
}

impl DynamicReset for TestItem {
    fn reset(&mut self) {}
}

#[test]
fn test_allocate() {
    let pool: SizedPool<TestItem> = SizedPool::new(0, 40, 1024);
    let mut items = Vec::new();
    for _ in 0..2048 {
        items.push(pool.try_pull(10).unwrap());
    }
}

#[test]
fn compute_is_smallest_fitting_class() {
    assert_eq!(compute(0), 0);
    assert_eq!(compute(1), 0);
    assert_eq!(compute(2), 1);
    assert_eq!(compute(3), 2);
    assert_eq!(compute(4), 2);
    assert_eq!(compute(5), 3);
    assert_eq!(compute(8), 3);
    assert_eq!(compute(9), 4);
    assert_eq!(compute(16), 4);
    assert_eq!(compute(17), 5);
    assert_eq!(compute(1024), 10);
    assert_eq!(compute(1025), 11);
}

#[test]
fn compute_at_power_of_two_boundaries() {
    for i in 0..63u32 {
        let p: usize = 1usize << i;
        assert_eq!(compute(p), i as usize);
        if i >= 1 {
            assert_eq!(compute(p + 1), (i + 1) as usize);
        }
    }
}

#[test]
fn compute_near_usize_max() {
    let top: usize = 1usize << 63;
    assert_eq!(compute(top), 63);
    assert_eq!(compute(top + 1), 64);
    assert_eq!(compute(usize::MAX), 64);
}

#[test]
fn try_pull_rejects_out_of_range_class() {
    let pool: SizedPool<TestItem> = SizedPool::new(0, 3, 16);
    assert!(pool.try_pull(4).is_ok());
    assert!(matches!(pool.try_pull(5), Err(SizedPoolError::SizeExceedMaxSize)));
    assert!(matches!(pool.try_pull(100), Err(SizedPoolError::SizeExceedMaxSize)));
}

#[test]
fn pull_never_returns_empty_for_valid_class() {
    let pool: SizedPool<TestItem> = SizedPool::new(0, 6, 4);
    let h = pool.pull(10).unwrap();
    assert_eq!(h.get().size(), 16);
    let h2 = pool.pull(0).unwrap();
    assert_eq!(h2.get().size(), 1);
    assert!(matches!(pool.pull(33), Err(SizedPoolError::SizeExceedMaxSize)));
}

#[test]
fn attach_then_pull_reuses_same_class_item() {
    let pool: SizedPool<TestItem> = SizedPool::new(0, 5, 8);
    pool.attach(TestItem { size: 8, marker: 42 }).unwrap();
    let h = pool.pull(8).unwrap();
    assert_eq!(h.get().marker, 42);
    assert_eq!(h.get().size(), 8);
    drop(h);
    let h2 = pool.pull(5).unwrap();
    assert_eq!(h2.get().marker, 42);
}

#[test]
fn attach_rejects_out_of_range_size() {
    let pool: SizedPool<TestItem> = SizedPool::new(0, 3, 16);
    let r = pool.attach(TestItem { size: 5, marker: 1 });
    assert!(matches!(r, Err(SizedPoolError::SizeExceedMaxSize)));
}

#[test]
fn attach_routes_by_rounded_up_size() {
    let pool: SizedPool<TestItem> = SizedPool::new(0, 5, 8);
    pool.attach(TestItem { size: 5, marker: 9 }).unwrap();
    let h = pool.pull(8).unwrap();
    assert_eq!(h.get().marker, 9);
    assert_eq!(h.get().size(), 5);
}

#[test]
fn detach_severs_item_from_pool() {
    let pool: SizedPool<TestItem> = SizedPool::new(0, 4, 8);
    pool.attach(TestItem { size: 2, marker: 7 }).unwrap();
    let h = pool.try_pull(2).unwrap();
    let item = h.detach();
    assert_eq!(item.marker, 7);
    let h2 = pool.try_pull(2).unwrap();
    assert_eq!(h2.get().marker, 0);
}

#[test]
fn retention_is_bounded_and_overflow_discards() {
    let pool: SizedPool<TestItem> = SizedPool::new(0, 1, 1);
    pool.attach(TestItem { size: 1, marker: 1 }).unwrap();
    pool.attach(TestItem { size: 1, marker: 2 }).unwrap();
    let h = pool.pull(1).unwrap();
    assert_eq!(h.get().marker, 2);
    let h2 = pool.pull(1).unwrap();
    assert_eq!(h2.get().marker, 0);
}

#[test]
fn released_handle_feeds_later_pulls() {
    let pool: SizedPool<TestItem> = SizedPool::new(0, 5, 8);
    pool.attach(TestItem { size: 8, marker: 5 }).unwrap();
    let h = pool.pull(8).unwrap();
    drop(h);
    let h2 = pool.try_pull(6).unwrap();
    assert_eq!(h2.get().marker, 5);
}

#[test]
fn new_prepopulates_each_class() {
    let pool: SizedPool<TestItem> = SizedPool::new(2, 4, 4);
    let h = pool.try_pull(7).unwrap();
    assert_eq!(h.get().size(), 8);
    let h2 = pool.try_pull(7).unwrap();
    assert_eq!(h2.get().size(), 8);
}

#[test]
fn zero_classes_reject_every_request() {
    let pool: SizedPool<TestItem> = SizedPool::new(0, 0, 1);
    assert!(matches!(pool.try_pull(0), Err(SizedPoolError::SizeExceedMaxSize)));
    assert!(matches!(pool.pull(1), Err(SizedPoolError::SizeExceedMaxSize)));
    let r = pool.attach(TestItem { size: 1, marker: 0 });
    assert!(matches!(r, Err(SizedPoolError::SizeExceedMaxSize)));
}

#[test]
fn error_message_names_the_size_bound() {
    let e = SizedPoolError::SizeExceedMaxSize;
    assert_eq!(e.message(), "the given size exceeds the maximum allowed size of the pool");
}

#[test]
fn size_zero_is_served_from_class_zero() {
    let pool: SizedPool<TestItem> = SizedPool::new(0, 2, 4);
    let h = pool.pull(0).unwrap();
    assert_eq!(h.get().size(), 1);
}
