use desc_alloc::desc_set_alloc::{AllocError, DescriptorSetAllocator, PoolSize};

/// A stand-in for the device: hands out fresh, never-repeating pool and set
/// handles and counts how often each operation ran.
struct FakeDevice {
    next_handle: u64,
    pools_created: usize,
    batches_allocated: usize,
    destroyed: Vec<u64>,
}

impl FakeDevice {
    fn new() -> Self {
        FakeDevice { next_handle: 1, pools_created: 0, batches_allocated: 0, destroyed: Vec::new() }
    }

    fn create_pool(&mut self) -> u64 {
        self.pools_created += 1;
        let h = self.next_handle;
        self.next_handle += 1;
        h
    }

    fn allocate_sets(&mut self, n: usize) -> Vec<u64> {
        self.batches_allocated += 1;
        let mut sets = Vec::new();
        for _ in 0..n {
            sets.push(self.next_handle);
            self.next_handle += 1;
        }
        sets
    }

    fn destroy_pool(&mut self, pool: u64) {
        assert!(
            !self.destroyed.contains(&pool),
            "a pool must never be destroyed twice"
        );
        self.destroyed.push(pool);
    }
}

/// One full acquisition as a caller performs it: serve from the buffer, or
/// create a pool and allocate a batch through the fake device.
fn acquire(alloc: &mut DescriptorSetAllocator, dev: &mut FakeDevice) -> u64 {
    if let Some(set) = alloc.pop() {
        return set;
    }
    let pool = dev.create_pool();
    let sets = dev.allocate_sets(alloc.set_layouts().len());
    alloc.install_batch(pool, sets)
}

#[test]
fn construction_scales_template_and_layouts() {
    let template = vec![PoolSize { kind: 1, count: 2 }];
    let alloc = DescriptorSetAllocator::new(template, 77, 4).unwrap();
    let batch = alloc.batch_template();
    assert_eq!(batch.len(), 1);
    assert_eq!(batch[0].kind, 1);
    assert_eq!(batch[0].count, 8);
    assert_eq!(alloc.set_layouts(), &vec![77, 77, 77, 77]);
    assert_eq!(alloc.batch_size(), 4);
    assert_eq!(alloc.pool_count(), 0);
    assert_eq!(alloc.ready_count(), 0);
}

#[test]
fn construction_scales_every_entry() {
    let template = vec![
        PoolSize { kind: 0, count: 1 },
        PoolSize { kind: 6, count: 3 },
        PoolSize { kind: 7, count: 10 },
    ];
    let alloc = DescriptorSetAllocator::new(template, 5, 16).unwrap();
    let batch = alloc.batch_template();
    assert_eq!(batch[0], PoolSize { kind: 0, count: 16 });
    assert_eq!(batch[1], PoolSize { kind: 6, count: 48 });
    assert_eq!(batch[2], PoolSize { kind: 7, count: 160 });
    assert_eq!(alloc.set_layouts().len(), 16);
}

#[test]
fn zero_batch_size_is_rejected() {
    let template = vec![PoolSize { kind: 1, count: 2 }];
    let r = DescriptorSetAllocator::new(template, 77, 0);
    match r {
        Ok(_) => panic!("an allocator with batch size zero must be rejected"),
        Err(e) => assert_eq!(e, AllocError::ZeroBatchSize),
    }
}

#[test]
fn first_pop_creates_one_pool_and_one_batch() {
    let template = vec![PoolSize { kind: 1, count: 2 }];
    let mut alloc = DescriptorSetAllocator::new(template, 77, 4).unwrap();
    let mut dev = FakeDevice::new();

    let set = acquire(&mut alloc, &mut dev);
    assert_eq!(dev.pools_created, 1);
    assert_eq!(dev.batches_allocated, 1);
    assert_eq!(alloc.pool_count(), 1);
    assert_eq!(alloc.ready_count(), 3);
    // The batch was handles 2..=5 (handle 1 was the pool); LIFO hands out 5.
    assert_eq!(set, 5);
}

#[test]
fn batch_of_four_then_second_pool() {
    // Template of 2 per set, batch size 4: each pool holds 8 of that kind.
    let template = vec![PoolSize { kind: 1, count: 2 }];
    let mut alloc = DescriptorSetAllocator::new(template, 77, 4).unwrap();
    assert_eq!(alloc.batch_template()[0].count, 8);
    let mut dev = FakeDevice::new();

    let mut handed = Vec::new();
    for _ in 0..4 {
        handed.push(acquire(&mut alloc, &mut dev));
    }
    // Four acquisitions are served by a single pool, which is then empty.
    assert_eq!(alloc.pool_count(), 1);
    assert_eq!(alloc.ready_count(), 0);
    assert_eq!(dev.pools_created, 1);

    // The fifth acquisition creates a second pool and yields a fresh set.
    let fifth = acquire(&mut alloc, &mut dev);
    assert_eq!(alloc.pool_count(), 2);
    assert_eq!(dev.pools_created, 2);
    assert!(!handed.contains(&fifth));
}

#[test]
fn pool_count_is_ceil_of_pops() {
    let template = vec![PoolSize { kind: 2, count: 1 }];
    let mut alloc = DescriptorSetAllocator::new(template, 9, 3).unwrap();
    let mut dev = FakeDevice::new();

    let mut previous_count = alloc.pool_count();
    for k in 1..=10usize {
        acquire(&mut alloc, &mut dev);
        let expected = k.div_ceil(3);
        assert_eq!(alloc.pool_count(), expected, "after {} pops", k);
        // Pools are never given back: the count only ever grows.
        assert!(alloc.pool_count() >= previous_count);
        previous_count = alloc.pool_count();
    }
}

#[test]
fn handles_are_never_repeated() {
    let template = vec![PoolSize { kind: 2, count: 1 }];
    let mut alloc = DescriptorSetAllocator::new(template, 9, 3).unwrap();
    let mut dev = FakeDevice::new();

    let mut seen = Vec::new();
    for _ in 0..12 {
        let s = acquire(&mut alloc, &mut dev);
        assert!(!seen.contains(&s), "set handle {} handed out twice", s);
        seen.push(s);
    }
}

#[test]
fn pool_creation_failure_leaves_state_unchanged() {
    let template = vec![PoolSize { kind: 1, count: 2 }];
    let mut alloc = DescriptorSetAllocator::new(template, 77, 4).unwrap();
    let mut dev = FakeDevice::new();

    // Exhaust the first pool.
    for _ in 0..4 {
        acquire(&mut alloc, &mut dev);
    }
    assert_eq!(alloc.pool_count(), 1);

    // The fifth acquisition needs a new pool, but its creation fails.
    assert_eq!(alloc.pop(), None);
    let e = alloc.refill_failed(None, -5);
    assert_eq!(e, AllocError::PoolCreation(-5));
    assert_eq!(alloc.pool_count(), 1);
    assert_eq!(alloc.ready_count(), 0);

    // A retried acquisition re-attempts pool creation from the same state.
    assert_eq!(alloc.pop(), None);
    let set = acquire(&mut alloc, &mut dev);
    assert_eq!(alloc.pool_count(), 2);
    assert!(set > 0);
}

#[test]
fn set_allocation_failure_keeps_the_new_pool() {
    let template = vec![PoolSize { kind: 1, count: 2 }];
    let mut alloc = DescriptorSetAllocator::new(template, 77, 4).unwrap();
    let mut dev = FakeDevice::new();

    assert_eq!(alloc.pop(), None);
    let pool = dev.create_pool();
    // The batch allocation fails: the pool is registered anyway.
    let e = alloc.refill_failed(Some(pool), -11);
    assert_eq!(e, AllocError::SetAllocation(-11));
    assert_eq!(alloc.pool_count(), 1);
    assert_eq!(alloc.ready_count(), 0);

    // The allocator stays usable, and teardown still releases the orphan.
    let set = acquire(&mut alloc, &mut dev);
    assert!(set > 0);
    assert_eq!(alloc.pool_count(), 2);
    let pools = alloc.take_pools();
    assert!(pools.contains(&pool));
    assert_eq!(pools.len(), 2);
}

#[test]
fn teardown_destroys_each_pool_exactly_once() {
    let template = vec![PoolSize { kind: 1, count: 1 }];
    let mut alloc = DescriptorSetAllocator::new(template, 4, 2).unwrap();
    let mut dev = FakeDevice::new();

    // Seven acquisitions at batch size 2: four pools get created.
    for _ in 0..7 {
        acquire(&mut alloc, &mut dev);
    }
    assert_eq!(alloc.pool_count(), 4);

    let pools = alloc.take_pools();
    assert_eq!(pools.len(), 4);
    for p in &pools {
        dev.destroy_pool(*p);
    }
    assert_eq!(dev.destroyed.len(), dev.pools_created);
    assert_eq!(alloc.pool_count(), 0);
    assert_eq!(alloc.ready_count(), 0);

    // A second teardown finds nothing left to destroy.
    assert_eq!(alloc.take_pools().len(), 0);
}

#[test]
fn teardown_without_pops_destroys_nothing() {
    let template = vec![PoolSize { kind: 1, count: 2 }];
    let mut alloc = DescriptorSetAllocator::new(template, 77, 4).unwrap();
    let pools = alloc.take_pools();
    assert_eq!(pools.len(), 0);
}
