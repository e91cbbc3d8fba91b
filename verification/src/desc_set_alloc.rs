use vstd::prelude::*;

verus! {

/// One entry of a pool-size template: how many descriptors of one
/// resource-binding kind are needed. In the per-set template handed to
/// [`DescriptorSetAllocator::new`] the count is per set; in the batch
/// template it is the whole capacity of one pool.
#[derive(Clone, Copy, PartialEq, Eq, Structural, Debug)]
pub struct PoolSize {
    /// Resource-binding kind, in the device's own numeric encoding.
    pub kind: i32,
    /// Number of descriptors of this kind.
    pub count: u32,
}

/// Why a construction or an acquisition failed.
#[derive(Clone, Copy, PartialEq, Eq, Structural, Debug)]
pub enum AllocError {
    /// Construction was asked for batches of zero sets; such an allocator
    /// could never hand anything out, so it is rejected outright.
    ZeroBatchSize,
    /// The device failed to create a pool; holds the device's result code.
    /// The allocator is unchanged and a later acquisition simply retries.
    PoolCreation(i32),
    /// The device created a pool but failed to allocate its batch of sets;
    /// holds the device's result code. The pool stays registered so that
    /// teardown still releases it, but it contributes no usable sets.
    SetAllocation(i32),
}

/// Mathematical state of a [`DescriptorSetAllocator`].
///
/// Pool and set handles are the plain numeric values the device hands out;
/// the allocator never looks inside them, it only stores, hands out and
/// returns them for destruction.
#[verifier::ext_equal]
pub ghost struct AllocatorModel {
    /// Capacity specification of every pool this allocator creates: the
    /// per-set template with each count scaled by `batch_size`. Computed at
    /// construction and never changed afterwards.
    pub batch_template: Seq<PoolSize>,
    /// The set layout handle repeated `batch_size` times: the request shape
    /// of one batch. Its length always equals `batch_size`.
    pub set_layouts: Seq<u64>,
    /// Every pool this allocator has created and not yet torn down, in
    /// creation order. Each must be destroyed exactly once, at teardown.
    pub pools: Seq<u64>,
    /// Sets already allocated but not yet handed out; handed out from the
    /// back, last in first out.
    pub ready: Seq<u64>,
    /// Every set handle handed out so far, in hand-out order.
    pub popped: Seq<u64>,
    /// How many sets one batch holds, and so how many each pool is sized for.
    pub batch_size: nat,
    /// How many batches were installed: pools whose sets reached the buffer.
    pub fills: nat,
    /// How many pools were registered although their batch allocation failed.
    pub failed_fills: nat,
}

impl AllocatorModel {
    /// Everything the allocator keeps true of itself between calls.
    pub open spec fn wf(self) -> bool {
        &&& self.batch_size >= 1
        &&& self.set_layouts.len() == self.batch_size
        &&& (forall|i: int|
            0 <= i < self.set_layouts.len() ==> #[trigger] self.set_layouts[i]
                == self.set_layouts[0])
        &&& self.pools.len() == self.fills + self.failed_fills
        &&& self.popped.len() + self.ready.len() == self.fills * self.batch_size
        &&& (self.fills >= 1 ==> self.ready.len() < self.batch_size)
        &&& self.pools.no_duplicates()
        &&& self.popped.no_duplicates()
        &&& self.ready.no_duplicates()
        &&& self.popped.disjoint(self.ready)
    }

    /// The state right after construction from a per-set template, one
    /// layout handle and a batch size: counts scaled by the batch size,
    /// the layout replicated, nothing created yet.
    pub open spec fn fresh(template: Seq<PoolSize>, layout: u64, batch_size: nat) -> AllocatorModel {
        AllocatorModel {
            batch_template: Seq::new(
                template.len(),
                |i: int| (PoolSize {
                    kind: template[i].kind,
                    count: (template[i].count * batch_size) as u32,
                }),
            ),
            set_layouts: Seq::new(batch_size, |i: int| layout),
            pools: Seq::empty(),
            ready: Seq::empty(),
            popped: Seq::empty(),
            batch_size: batch_size,
            fills: 0,
            failed_fills: 0,
        }
    }

    /// The state after one set is handed out of a non-empty ready buffer.
    pub open spec fn take_one(self) -> AllocatorModel {
        AllocatorModel {
            ready: self.ready.drop_last(),
            popped: self.popped.push(self.ready.last()),
            ..self
        }
    }

    /// The state after a successful refill: the new pool is registered, the
    /// freshly allocated batch replaces the (empty) ready buffer, and its
    /// last set is handed out at once.
    pub open spec fn install(self, pool: u64, sets: Seq<u64>) -> AllocatorModel {
        AllocatorModel {
            pools: self.pools.push(pool),
            ready: sets.drop_last(),
            popped: self.popped.push(sets.last()),
            fills: self.fills + 1,
            ..self
        }
    }

    /// The state after a refill whose pool was created but whose batch
    /// allocation failed: the pool is registered for eventual teardown and
    /// nothing else changes.
    pub open spec fn keep_failed(self, pool: u64) -> AllocatorModel {
        AllocatorModel {
            pools: self.pools.push(pool),
            failed_fills: self.failed_fills + 1,
            ..self
        }
    }

    /// The state after teardown: no pools left to destroy, no sets left to
    /// hand out. The batch template and layouts are kept, so the value
    /// behaves like a freshly constructed allocator.
    pub open spec fn torn_down(self) -> AllocatorModel {
        AllocatorModel {
            pools: Seq::empty(),
            ready: Seq::empty(),
            popped: Seq::empty(),
            fills: 0,
            failed_fills: 0,
            ..self
        }
    }
}

/// Hands out descriptor sets one at a time from pools created on demand.
///
/// The allocator is the bookkeeping core of the scheme: it decides when a
/// new pool is needed, which set is handed out next, and which pools must be
/// destroyed at teardown. The device calls themselves (create a pool,
/// allocate a batch, destroy a pool) are made by the caller, which reports
/// their outcomes back through [`Self::install_batch`] and
/// [`Self::refill_failed`].
pub struct DescriptorSetAllocator {
    batch_template: Vec<PoolSize>,
    set_layouts: Vec<u64>,
    pools: Vec<u64>,
    ready_sets: Vec<u64>,
    batch_size: u32,
    popped: Ghost<Seq<u64>>,
    fills: Ghost<nat>,
    failed_fills: Ghost<nat>,
}

impl View for DescriptorSetAllocator {
    type V = AllocatorModel;

    closed spec fn view(&self) -> AllocatorModel {
        AllocatorModel {
            batch_template: self.batch_template@,
            set_layouts: self.set_layouts@,
            pools: self.pools@,
            ready: self.ready_sets@,
            popped: self.popped@,
            batch_size: self.batch_size as nat,
            fills: self.fills@,
            failed_fills: self.failed_fills@,
        }
    }
}

impl DescriptorSetAllocator {
    /// Create an allocator that will hand sets out in batches of
    /// `batch_size`, from pools sized to hold `batch_size` sets of the given
    /// per-set template. Scales every template count by `batch_size` and
    /// replicates the layout handle `batch_size` times; no pool is created
    /// yet. A zero `batch_size` is rejected.
    pub fn new(template: Vec<PoolSize>, layout: u64, batch_size: u32) -> (r: Result<
        DescriptorSetAllocator,
        AllocError,
    >)
        requires
            forall|i: int|
                0 <= i < template@.len() ==> (#[trigger] template@[i]).count * batch_size
                    <= u32::MAX,
        ensures
            batch_size == 0 ==> r == Result::<DescriptorSetAllocator, AllocError>::Err(
                AllocError::ZeroBatchSize,
            ),
            batch_size > 0 ==> (r matches Ok(a) && a@ == AllocatorModel::fresh(
                template@,
                layout,
                batch_size as nat,
            ) && a@.wf()),
    {
        if batch_size == 0 {
            return Err(AllocError::ZeroBatchSize);
        }
        let mut batch_template: Vec<PoolSize> = Vec::new();
        let mut i: usize = 0;
        while i < template.len()
            invariant
                i <= template@.len(),
                batch_template@.len() == i as int,
                forall|j: int|
                    0 <= j < i as int ==> batch_template@[j] == (PoolSize {
                        kind: template@[j].kind,
                        count: (template@[j].count * batch_size) as u32,
                    }),
                forall|k: int|
                    0 <= k < template@.len() ==> (#[trigger] template@[k]).count * batch_size
                        <= u32::MAX,
            decreases template@.len() - i,
        {
            let entry = template[i];
            let count = entry.count * batch_size;
            batch_template.push(PoolSize { kind: entry.kind, count });
            i += 1;
        }
        let mut set_layouts: Vec<u64> = Vec::new();
        let mut k: usize = 0;
        while k < batch_size as usize
            invariant
                k <= batch_size as usize,
                set_layouts@.len() == k as int,
                forall|j: int| 0 <= j < k as int ==> set_layouts@[j] == layout,
            decreases batch_size as usize - k,
        {
            set_layouts.push(layout);
            k += 1;
        }
        let allocator = DescriptorSetAllocator {
            batch_template,
            set_layouts,
            pools: Vec::new(),
            ready_sets: Vec::new(),
            batch_size,
            popped: Ghost(Seq::empty()),
            fills: Ghost(0),
            failed_fills: Ghost(0),
        };
        proof {
            let m = AllocatorModel::fresh(template@, layout, batch_size as nat);
            assert(allocator@.batch_template =~= m.batch_template);
            assert(allocator@.set_layouts =~= m.set_layouts);
            assert(allocator@.pools =~= m.pools);
            assert(allocator@.ready =~= m.ready);
            assert(allocator@.popped =~= m.popped);
            assert(allocator@ =~= m);
        }
        Ok(allocator)
    }

    /// Hand out one ready set, last in first out: O(1) and infallible while
    /// the buffer is non-empty. Returns `None` exactly when the ready buffer
    /// is empty; the caller must then create one pool sized to
    /// [`Self::batch_template`], allocate one batch of sets from it with
    /// [`Self::set_layouts`], and report the outcome through
    /// [`Self::install_batch`] or [`Self::refill_failed`].
    pub fn pop(&mut self) -> (r: Option<u64>)
        requires
            old(self)@.wf(),
        ensures
            final(self)@.wf(),
            old(self)@.ready.len() == 0 ==> r is None && final(self)@ == old(self)@,
            old(self)@.ready.len() > 0 ==> r == Some(old(self)@.ready.last()) && final(self)@
                == old(self)@.take_one(),
    {
        let popped_set = self.ready_sets.pop();
        match popped_set {
            Some(handle) => {
                self.popped = Ghost(self.popped@.push(handle));
                proof {
                    old(self)@.lemma_take_one_wf();
                    assert(self@ =~= old(self)@.take_one());
                }
                Some(handle)
            },
            None => {
                proof {
                    assert(self@ =~= old(self)@);
                }
                None
            },
        }
    }
}

impl DescriptorSetAllocator {
    /// Report a successful refill: the device created `pool` and allocated
    /// the batch `sets` from it. Registers the pool, installs the batch as
    /// the new ready buffer and hands its last set out at once, so a refill
    /// that succeeds always yields a set.
    ///
    /// The caller passes the batch exactly as the device returned it: as
    /// many sets as there are layouts in the request, every handle distinct
    /// from every other live handle the device has given out.
    pub fn install_batch(&mut self, pool: u64, sets: Vec<u64>) -> (r: u64)
        requires
            old(self)@.wf(),
            old(self)@.ready.len() == 0,
            sets@.len() == old(self)@.batch_size,
            sets@.no_duplicates(),
            forall|i: int| 0 <= i < sets@.len() ==> !old(self)@.popped.contains(#[trigger] sets@[i]),
            !old(self)@.pools.contains(pool),
        ensures
            final(self)@ == old(self)@.install(pool, sets@),
            final(self)@.wf(),
            r == sets@.last(),
    {
        let ghost batch = sets@;
        self.pools.push(pool);
        let mut sets = sets;
        let handed = sets.pop().unwrap();
        self.ready_sets = sets;
        self.popped = Ghost(self.popped@.push(handed));
        self.fills = Ghost(self.fills@ + 1);
        proof {
            old(self)@.lemma_install_wf(pool, batch);
            assert(self@ =~= old(self)@.install(pool, batch));
        }
        handed
    }

    /// Report a failed refill. With `created_pool == None` the device could
    /// not even create the pool: nothing changes and the error carries the
    /// device's result code, so a later acquisition retries from the same
    /// state. With `created_pool == Some(pool)` the pool was created but its
    /// batch allocation failed: the pool is registered so that teardown
    /// still releases it, but no sets become ready.
    pub fn refill_failed(&mut self, created_pool: Option<u64>, code: i32) -> (e: AllocError)
        requires
            old(self)@.wf(),
            created_pool matches Some(pool) ==> !old(self)@.pools.contains(pool),
        ensures
            final(self)@.wf(),
            created_pool is None ==> e == AllocError::PoolCreation(code) && final(self)@ == old(
                self)@,
            created_pool matches Some(pool) ==> e == AllocError::SetAllocation(code) && final(
                self)@ == old(self)@.keep_failed(pool),
    {
        match created_pool {
            None => AllocError::PoolCreation(code),
            Some(pool) => {
                self.pools.push(pool);
                self.failed_fills = Ghost(self.failed_fills@ + 1);
                proof {
                    old(self)@.lemma_keep_failed_wf(pool);
                    assert(self@ =~= old(self)@.keep_failed(pool));
                }
                AllocError::SetAllocation(code)
            },
        }
    }

    /// Tear the allocator down: remove and return every pool it created, in
    /// creation order, so that the caller can destroy each of them exactly
    /// once. Afterwards the allocator holds no pools and no sets, as if
    /// freshly constructed; ready sets that were never handed out are
    /// forgotten together with the pools they came from.
    pub fn take_pools(&mut self) -> (r: Vec<u64>)
        requires
            old(self)@.wf(),
        ensures
            r@ == old(self)@.pools,
            final(self)@ == old(self)@.torn_down(),
            final(self)@.wf(),
    {
        let mut taken: Vec<u64> = Vec::new();
        core::mem::swap(&mut taken, &mut self.pools);
        self.ready_sets = Vec::new();
        self.popped = Ghost(Seq::empty());
        self.fills = Ghost(0);
        self.failed_fills = Ghost(0);
        proof {
            assert(self@ =~= old(self)@.torn_down());
        }
        taken
    }

    /// The batch template: the capacity specification of every pool this
    /// allocator creates.
    pub fn batch_template(&self) -> (r: &Vec<PoolSize>)
        ensures
            r@ == self@.batch_template,
    {
        &self.batch_template
    }

    /// The layout handle repeated once per set of a batch: the request shape
    /// of one batch allocation.
    pub fn set_layouts(&self) -> (r: &Vec<u64>)
        ensures
            r@ == self@.set_layouts,
    {
        &self.set_layouts
    }

    /// How many sets one batch holds; every pool is sized for this many.
    pub fn batch_size(&self) -> (r: u32)
        ensures
            r as nat == self@.batch_size,
    {
        self.batch_size
    }

    /// How many pools this allocator currently owns.
    pub fn pool_count(&self) -> (r: usize)
        ensures
            r as nat == self@.pools.len(),
    {
        self.pools.len()
    }

    /// How many already-allocated sets are still waiting to be handed out.
    pub fn ready_count(&self) -> (r: usize)
        ensures
            r as nat == self@.ready.len(),
    {
        self.ready_sets.len()
    }
}

impl AllocatorModel {
    /// Handing one set out of a non-empty buffer keeps the allocator well
    /// formed, and the handle leaves the buffer for the hand-out record.
    pub proof fn lemma_take_one_wf(self)
        requires
            self.wf(),
            self.ready.len() > 0,
        ensures
            self.take_one().wf(),
    {
        let t = self.take_one();
        let handed = self.ready.last();
        assert(!self.popped.contains(handed)) by {
            if self.popped.contains(handed) {
                let i = choose|i: int|
                    0 <= i < self.popped.len() && self.popped[i] == handed;
                assert(self.popped[i] != self.ready[self.ready.len() - 1]);
            }
        }
        assert(self.fills >= 1) by {
            if self.fills == 0 {
                assert(self.fills * self.batch_size == 0) by (nonlinear_arith)
                    requires
                        self.fills == 0,
                ;
            }
        }
        assert(t.popped.no_duplicates()) by {
            assert forall|i: int, j: int|
                0 <= i < t.popped.len() && 0 <= j < t.popped.len() && i != j implies t.popped[i]
                != t.popped[j] by {
                if i < self.popped.len() && j < self.popped.len() {
                    assert(self.popped[i] != self.popped[j]);
                } else if i < self.popped.len() {
                    assert(t.popped[j] == handed);
                    assert(!self.popped.contains(handed));
                } else {
                    assert(t.popped[i] == handed);
                    assert(!self.popped.contains(handed));
                }
            }
        }
        assert(t.popped.disjoint(t.ready)) by {
            assert forall|i: int, j: int|
                0 <= i < t.popped.len() && 0 <= j < t.ready.len() implies t.popped[i]
                != t.ready[j] by {
                if i < self.popped.len() {
                    assert(self.popped[i] != self.ready[j]);
                } else {
                    assert(t.popped[i] == handed);
                    assert(self.ready[self.ready.len() - 1] != self.ready[j]);
                }
            }
        }
    }

    /// A successful refill keeps the allocator well formed: the batch fills
    /// the empty buffer, its last set is handed out, and the new pool joins
    /// the registry.
    pub proof fn lemma_install_wf(self, pool: u64, sets: Seq<u64>)
        requires
            self.wf(),
            self.ready.len() == 0,
            sets.len() == self.batch_size,
            sets.no_duplicates(),
            forall|i: int| 0 <= i < sets.len() ==> !self.popped.contains(#[trigger] sets[i]),
            !self.pools.contains(pool),
        ensures
            self.install(pool, sets).wf(),
    {
        let t = self.install(pool, sets);
        let handed = sets.last();
        assert((self.fills + 1) * self.batch_size == self.fills * self.batch_size
            + self.batch_size) by (nonlinear_arith);
        assert(!self.popped.contains(handed));
        assert(t.pools.no_duplicates()) by {
            assert forall|i: int, j: int|
                0 <= i < t.pools.len() && 0 <= j < t.pools.len() && i != j implies t.pools[i]
                != t.pools[j] by {
                if i < self.pools.len() && j < self.pools.len() {
                    assert(self.pools[i] != self.pools[j]);
                } else if i < self.pools.len() {
                    assert(t.pools[j] == pool);
                    assert(!self.pools.contains(pool));
                } else {
                    assert(t.pools[i] == pool);
                    assert(!self.pools.contains(pool));
                }
            }
        }
        assert(t.popped.no_duplicates()) by {
            assert forall|i: int, j: int|
                0 <= i < t.popped.len() && 0 <= j < t.popped.len() && i != j implies t.popped[i]
                != t.popped[j] by {
                if i < self.popped.len() && j < self.popped.len() {
                    assert(self.popped[i] != self.popped[j]);
                } else if i < self.popped.len() {
                    assert(t.popped[j] == handed);
                } else {
                    assert(t.popped[i] == handed);
                }
            }
        }
        assert(t.popped.disjoint(t.ready)) by {
            assert forall|i: int, j: int|
                0 <= i < t.popped.len() && 0 <= j < t.ready.len() implies t.popped[i]
                != t.ready[j] by {
                assert(t.ready[j] == sets[j]);
                if i < self.popped.len() {
                    assert(!self.popped.contains(sets[j]));
                } else {
                    assert(t.popped[i] == handed);
                    assert(sets[sets.len() - 1] != sets[j]);
                }
            }
        }
    }

    /// The first acquisition from a freshly constructed allocator finds the
    /// ready buffer empty, so it triggers exactly one pool creation and one
    /// batch allocation of `batch_size` sets (the batch request holds
    /// `batch_size` layouts). Once that batch is installed the allocator
    /// owns exactly the one new pool, has handed out one set, and keeps
    /// `batch_size - 1` sets ready.
    pub proof fn lemma_first_pop_creates_one_pool(self, pool: u64, sets: Seq<u64>)
        requires
            self.wf(),
            self.fills == 0,
            self.failed_fills == 0,
            sets.len() == self.batch_size,
            sets.no_duplicates(),
            forall|i: int| 0 <= i < sets.len() ==> !self.popped.contains(#[trigger] sets[i]),
            !self.pools.contains(pool),
        ensures
            self.ready.len() == 0,
            self.set_layouts.len() == self.batch_size,
            self.install(pool, sets).wf(),
            self.install(pool, sets).pools == seq![pool],
            self.install(pool, sets).ready.len() == self.batch_size - 1,
            self.install(pool, sets).popped.len() == self.popped.len() + 1,
    {
        assert(self.fills * self.batch_size == 0) by (nonlinear_arith)
            requires
                self.fills == 0,
        ;
        self.lemma_install_wf(pool, sets);
        assert(self.install(pool, sets).pools =~= seq![pool]);
    }

    /// No set handle is ever handed out twice before teardown: the hand-out
    /// record holds pairwise distinct handles, and none of them is still in
    /// the ready buffer waiting to be handed out again.
    pub proof fn lemma_no_handle_handed_out_twice(self)
        requires
            self.wf(),
        ensures
            forall|i: int, j: int|
                0 <= i < j < self.popped.len() ==> self.popped[i] != self.popped[j],
            forall|i: int|
                0 <= i < self.popped.len() ==> !self.ready.contains(#[trigger] self.popped[i]),
    {
        assert forall|i: int|
            0 <= i < self.popped.len() implies !self.ready.contains(
            #[trigger] self.popped[i],
        ) by {
            if self.ready.contains(self.popped[i]) {
                let j = choose|j: int| 0 <= j < self.ready.len() && self.ready[j] == self.popped[i];
                assert(self.popped[i] != self.ready[j]);
            }
        }
    }

    /// Draining a full batch empties the buffer: once the allocator's single
    /// installed batch has had all `batch_size` of its sets handed out, the
    /// ready buffer is empty while the allocator still owns exactly one
    /// pool, so the next acquisition must trigger the creation of a second.
    pub proof fn lemma_exhausted_batch_forces_new_pool(self)
        requires
            self.wf(),
            self.fills == 1,
            self.failed_fills == 0,
            self.popped.len() == self.batch_size,
        ensures
            self.ready.len() == 0,
            self.pools.len() == 1,
    {
        assert(self.fills * self.batch_size == self.batch_size) by (nonlinear_arith)
            requires
                self.fills == 1,
        ;
    }

    /// Lazy growth, counted: while no batch allocation has failed, the
    /// number of pools equals the number of handed-out sets divided by the
    /// batch size, rounded up.
    pub proof fn lemma_pool_count_is_ceil_of_pops(self)
        requires
            self.wf(),
            self.failed_fills == 0,
        ensures
            self.pools.len() == (self.popped.len() + self.batch_size - 1) / (
            self.batch_size as int),
    {
        let size = self.batch_size as int;
        let handed = self.popped.len() as int;
        let fills = self.fills as int;
        let waiting = self.ready.len() as int;
        if fills == 0 {
            assert(fills * size == 0) by (nonlinear_arith)
                requires
                    fills == 0,
            ;
            vstd::arithmetic::div_mod::lemma_fundamental_div_mod_converse_div(
                handed + size - 1,
                size,
                0,
                size - 1,
            );
        } else {
            vstd::arithmetic::div_mod::lemma_fundamental_div_mod_converse_div(
                handed + size - 1,
                size,
                fills,
                size - 1 - waiting,
            );
        }
    }

    /// Teardown destroys each pool exactly once: the teardown list is the
    /// whole registry, the registry names no pool twice, and afterwards
    /// nothing is left to destroy.
    pub proof fn lemma_teardown_destroys_each_pool_once(self)
        requires
            self.wf(),
        ensures
            self.pools.no_duplicates(),
            self.torn_down().pools.len() == 0,
    {
    }

    /// An allocator that never installed a batch and never kept a failed
    /// pool — in particular one that is torn down without a single
    /// acquisition — owns no pools, so its teardown destroys nothing.
    pub proof fn lemma_teardown_of_unused_allocator(self)
        requires
            self.wf(),
            self.fills == 0,
            self.failed_fills == 0,
        ensures
            self.pools.len() == 0,
    {
    }

    /// The ready buffer is non-empty only while the allocator owns at least
    /// one pool: every set in it came out of some installed batch.
    pub proof fn lemma_ready_sets_have_a_pool(self)
        requires
            self.wf(),
            self.ready.len() > 0,
        ensures
            self.pools.len() >= 1,
    {
        if self.fills == 0 {
            assert(self.fills * self.batch_size == 0) by (nonlinear_arith)
                requires
                    self.fills == 0,
            ;
        }
    }

    /// Registering a pool whose batch allocation failed keeps the allocator
    /// well formed: the registry grows by that one pool and nothing else
    /// changes.
    pub proof fn lemma_keep_failed_wf(self, pool: u64)
        requires
            self.wf(),
            !self.pools.contains(pool),
        ensures
            self.keep_failed(pool).wf(),
    {
        let t = self.keep_failed(pool);
        assert(t.pools.no_duplicates()) by {
            assert forall|i: int, j: int|
                0 <= i < t.pools.len() && 0 <= j < t.pools.len() && i != j implies t.pools[i]
                != t.pools[j] by {
                if i < self.pools.len() && j < self.pools.len() {
                    assert(self.pools[i] != self.pools[j]);
                } else if i < self.pools.len() {
                    assert(t.pools[j] == pool);
                    assert(!self.pools.contains(pool));
                } else {
                    assert(t.pools[i] == pool);
                    assert(!self.pools.contains(pool));
                }
            }
        }
    }
}

} // verus!
