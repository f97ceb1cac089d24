//! Flushing and approximate counters.
//!
//! Both counter families route increments into per-thread local cells and
//! only fold those cells into the shared global total on a flush. A thread
//! obtains its cell by registering once; the cell is exclusively owned by
//! that thread, so the hot increment path touches no shared state. The
//! whole counter state — the global total together with every local cell —
//! is modelled explicitly here, and each operation names the cell of the
//! thread performing it, so any interleaving of threads is a sequence of
//! these operations.
//!
//! A flushing counter never folds a cell in on its own: the global total is
//! a lower bound on the true count and becomes exact only once every
//! contributing thread has flushed. An approximate counter folds a cell in
//! automatically whenever it reaches the resolution chosen at construction,
//! which bounds the error of a read at any time by the number of
//! contributing threads times the resolution minus one.

use vstd::prelude::*;

verus! {

use crate::modular::{congruent, lemma_congruent_add, lemma_congruent_close_equal,
    lemma_multiple_vanishes, lemma_residue_in_props, lemma_wrap_add,
    residue_in};

/// The sum of a sequence of cell values.
pub open spec fn cells_total(s: Seq<int>) -> int
    decreases s.len(),
{
    if s.len() == 0 {
        0
    } else {
        cells_total(s.drop_last()) + s.last()
    }
}

/// Appending a cell adds its value to the total.
pub proof fn lemma_cells_total_push(s: Seq<int>, x: int)
    ensures
        cells_total(s.push(x)) == cells_total(s) + x,
{
    assert(s.push(x).drop_last() =~= s);
}

/// Replacing one cell changes the total by the difference.
pub proof fn lemma_cells_total_update(s: Seq<int>, i: int, x: int)
    requires
        0 <= i < s.len(),
    ensures
        cells_total(s.update(i, x)) == cells_total(s) - s[i] + x,
    decreases s.len(),
{
    if i == s.len() - 1 {
        assert(s.update(i, x).drop_last() =~= s.drop_last());
    } else {
        assert(s.update(i, x).drop_last() =~= s.drop_last().update(i, x));
        lemma_cells_total_update(s.drop_last(), i, x);
    }
}

/// Cells that all lie within a band bound the total by the band times the
/// number of cells.
pub proof fn lemma_cells_total_bounds(s: Seq<int>, bound: int)
    requires
        forall|i: int| 0 <= i < s.len() ==> 0 <= #[trigger] s[i] <= bound,
    ensures
        0 <= cells_total(s) <= s.len() * bound,
    decreases s.len(),
{
    if s.len() == 0 {
    } else {
        lemma_cells_total_bounds(s.drop_last(), bound);
        assert((s.len() - 1) * bound + bound == s.len() * bound) by (nonlinear_arith);
    }
}

/// Cells that are all nonnegative make the total nonnegative.
pub proof fn lemma_cells_total_nonneg(s: Seq<int>)
    requires
        forall|i: int| 0 <= i < s.len() ==> 0 <= #[trigger] s[i],
    ensures
        0 <= cells_total(s),
    decreases s.len(),
{
    if s.len() > 0 {
        lemma_cells_total_nonneg(s.drop_last());
    }
}


/// A flushing counter over `u64`.
///
/// This counter is intended to be used in one specific way:
/// * every counting thread registers once and increments through its cell;
/// * every counting thread flushes after it is done incrementing;
/// * after every flush has completed, `get` returns the exact number of
///   times `inc` was called, plus the start offset.
///
/// In theory, this counter is equivalent to an approximate counter with its
/// resolution set to infinity. There is deliberately no `set` or `reset`:
/// overwriting the global total without also clearing every thread's
/// unflushed residue would silently corrupt the accuracy guarantee.
pub struct FlushingCounterU64 {
    global: u64,
    locals: Vec<u64>,
    base: Ghost<u64>,
    incs: Ghost<nat>,
}

impl FlushingCounterU64 {
    /// The shared global total.
    pub closed spec fn global_value(self) -> u64 {
        self.global
    }

    /// The per-thread local cells, one per registered thread.
    pub closed spec fn local_cells(self) -> Seq<int> {
        self.locals@.map_values(|c: u64| c as int)
    }

    /// The number of threads that have registered a local cell.
    pub open spec fn thread_count(self) -> nat {
        self.local_cells().len()
    }

    /// The value the counter started counting from.
    pub closed spec fn base_value(self) -> u64 {
        self.base@
    }

    /// The number of completed increments.
    pub closed spec fn inc_count(self) -> nat {
        self.incs@
    }

    /// The global total and the local cells together account for the base
    /// value plus every completed increment, wrapped at the width of
    /// `u64`; no cell holds more than the whole increment count.
    /// Constructors establish this and every method preserves it.
    pub open spec fn well_formed(self) -> bool {
        &&& congruent(
            self.global_value() + cells_total(self.local_cells()),
            self.base_value() + self.inc_count(),
            0x1_0000_0000_0000_0000,
        )
        &&& cells_total(self.local_cells()) <= self.inc_count()
        &&& forall|i: int|
            0 <= i < self.local_cells().len() ==> 0 <= #[trigger] self.local_cells()[i]
    }

    /// Creates a new counter, counting from the given starting value.
    pub fn new(start: u64) -> (c: FlushingCounterU64)
        ensures
            c.well_formed(),
            c.global_value() == start,
            c.thread_count() == 0,
            c.base_value() == start,
            c.inc_count() == 0,
    {
        let c = FlushingCounterU64 {
            global: start,
            locals: Vec::new(),
            base: Ghost(start),
            incs: Ghost(0),
        };
        proof {
            assert(c.local_cells() =~= Seq::<int>::empty());
        }
        c
    }

    /// Hands out the local cell for one more thread, returning the handle
    /// the thread passes to `inc` and `flush`. This models the lazy
    /// creation of a thread's cell the first time the thread touches the
    /// counter; the cell starts at zero.
    pub fn register_thread(&mut self) -> (tid: usize)
        requires
            old(self).well_formed(),
        ensures
            final(self).well_formed(),
            tid == old(self).thread_count(),
            final(self).local_cells() == old(self).local_cells().push(0),
            final(self).global_value() == old(self).global_value(),
            final(self).base_value() == old(self).base_value(),
            final(self).inc_count() == old(self).inc_count(),
    {
        let tid = self.locals.len();
        self.locals.push(0);
        proof {
            assert(self.local_cells() =~= old(self).local_cells().push(0));
            lemma_cells_total_push(old(self).local_cells(), 0);
        }
        tid
    }

    /// Increments the counter by one, through the local cell of the
    /// calling thread. No shared state is touched.
    pub fn inc(&mut self, tid: usize)
        requires
            old(self).well_formed(),
            tid < old(self).thread_count(),
        ensures
            final(self).well_formed(),
            final(self).local_cells() == old(self).local_cells().update(
                tid as int,
                (old(self).local_cells()[tid as int] + 1) % 0x1_0000_0000_0000_0000,
            ),
            final(self).global_value() == old(self).global_value(),
            final(self).base_value() == old(self).base_value(),
            final(self).inc_count() == old(self).inc_count() + 1,
    {
        let cell = self.locals[tid];
        let bumped = cell.wrapping_add(1);
        self.locals.set(tid, bumped);
        proof {
            let m = 0x1_0000_0000_0000_0000int;
            let cells = old(self).local_cells();
            lemma_wrap_add(cell as int, 1, m);
            assert(self.local_cells() =~= cells.update(tid as int, (cell + 1) % m));
            lemma_cells_total_update(cells, tid as int, (cell + 1) % m);
            if cell + 1 >= m {
                lemma_multiple_vanishes(
                    self.global + cells_total(self.local_cells()),
                    1,
                    m,
                );
            }
            lemma_congruent_add(
                old(self).global_value() + cells_total(cells),
                old(self).base_value() + old(self).inc_count(),
                1,
                1,
                m,
            );
        }
        self.incs = Ghost(self.incs@ + 1);
    }

    /// Gets the current value of the counter. This returns the exact count
    /// only after every registered thread has flushed; until then it is a
    /// lower bound on the true count.
    pub fn get(&self) -> (r: u64)
        ensures
            r == self.global_value(),
    {
        self.global
    }

    /// Reports how many threads have registered a local cell.
    pub fn registered_threads(&self) -> (r: usize)
        ensures
            r == self.thread_count(),
    {
        self.locals.len()
    }

    /// Folds the calling thread's local cell into the global total and
    /// resets the cell to zero.
    pub fn flush(&mut self, tid: usize)
        requires
            old(self).well_formed(),
            tid < old(self).thread_count(),
        ensures
            final(self).well_formed(),
            final(self).local_cells() == old(self).local_cells().update(tid as int, 0),
            final(self).global_value() as int == (old(self).global_value()
                + old(self).local_cells()[tid as int]) % 0x1_0000_0000_0000_0000,
            final(self).base_value() == old(self).base_value(),
            final(self).inc_count() == old(self).inc_count(),
    {
        let cell = self.locals[tid];
        self.global = self.global.wrapping_add(cell);
        self.locals.set(tid, 0);
        proof {
            let m = 0x1_0000_0000_0000_0000int;
            let cells = old(self).local_cells();
            lemma_wrap_add(old(self).global_value() as int, cell as int, m);
            assert(self.local_cells() =~= cells.update(tid as int, 0));
            lemma_cells_total_update(cells, tid as int, 0);
            if old(self).global_value() + cell >= m {
                lemma_multiple_vanishes(
                    self.global + cells_total(self.local_cells()),
                    1,
                    m,
                );
            }
        }
    }

    /// Once every cell has been flushed and the true count fits the width,
    /// the global total is exactly the base value plus the increment count.
    pub proof fn lemma_get_exact_after_flush(self)
        requires
            self.well_formed(),
            forall|i: int| 0 <= i < self.local_cells().len() ==> #[trigger] self.local_cells()[i] == 0,
            self.base_value() + self.inc_count() <= u64::MAX,
        ensures
            self.global_value() == self.base_value() + self.inc_count(),
    {
        lemma_cells_total_bounds(self.local_cells(), 0);
        lemma_congruent_close_equal(
            self.global_value() + cells_total(self.local_cells()),
            self.base_value() + self.inc_count(),
            0x1_0000_0000_0000_0000,
        );
    }

    /// At any instant, as long as the true count fits the width, the
    /// global total lies between the base value and the base value plus
    /// the increment count: unflushed increments can only make a read low,
    /// never high.
    pub proof fn lemma_get_within_count(self)
        requires
            self.well_formed(),
            self.base_value() + self.inc_count() <= u64::MAX,
        ensures
            self.base_value() <= self.global_value() <= self.base_value() + self.inc_count(),
    {
        let total = cells_total(self.local_cells());
        lemma_cells_total_nonneg(self.local_cells());
        lemma_congruent_close_equal(
            self.global_value() + total,
            self.base_value() + self.inc_count(),
            0x1_0000_0000_0000_0000,
        );
    }
}

/// A flushing counter over `usize`.
///
/// This counter is intended to be used in one specific way:
/// * every counting thread registers once and increments through its cell;
/// * every counting thread flushes after it is done incrementing;
/// * after every flush has completed, `get` returns the exact number of
///   times `inc` was called, plus the start offset.
///
/// In theory, this counter is equivalent to an approximate counter with its
/// resolution set to infinity. There is deliberately no `set` or `reset`:
/// overwriting the global total without also clearing every thread's
/// unflushed residue would silently corrupt the accuracy guarantee.
pub struct FlushingCounterUsize {
    global: usize,
    locals: Vec<usize>,
    base: Ghost<usize>,
    incs: Ghost<nat>,
}

impl FlushingCounterUsize {
    /// The shared global total.
    pub closed spec fn global_value(self) -> usize {
        self.global
    }

    /// The per-thread local cells, one per registered thread.
    pub closed spec fn local_cells(self) -> Seq<int> {
        self.locals@.map_values(|c: usize| c as int)
    }

    /// The number of threads that have registered a local cell.
    pub open spec fn thread_count(self) -> nat {
        self.local_cells().len()
    }

    /// The value the counter started counting from.
    pub closed spec fn base_value(self) -> usize {
        self.base@
    }

    /// The number of completed increments.
    pub closed spec fn inc_count(self) -> nat {
        self.incs@
    }

    /// The global total and the local cells together account for the base
    /// value plus every completed increment, wrapped at the width of
    /// `usize`; no cell holds more than the whole increment count.
    /// Constructors establish this and every method preserves it.
    pub open spec fn well_formed(self) -> bool {
        &&& congruent(
            self.global_value() + cells_total(self.local_cells()),
            self.base_value() + self.inc_count(),
            usize::MAX as int + 1,
        )
        &&& cells_total(self.local_cells()) <= self.inc_count()
        &&& forall|i: int|
            0 <= i < self.local_cells().len() ==> 0 <= #[trigger] self.local_cells()[i]
    }

    /// Creates a new counter, counting from the given starting value.
    pub fn new(start: usize) -> (c: FlushingCounterUsize)
        ensures
            c.well_formed(),
            c.global_value() == start,
            c.thread_count() == 0,
            c.base_value() == start,
            c.inc_count() == 0,
    {
        let c = FlushingCounterUsize {
            global: start,
            locals: Vec::new(),
            base: Ghost(start),
            incs: Ghost(0),
        };
        proof {
            assert(c.local_cells() =~= Seq::<int>::empty());
        }
        c
    }

    /// Hands out the local cell for one more thread, returning the handle
    /// the thread passes to `inc` and `flush`. This models the lazy
    /// creation of a thread's cell the first time the thread touches the
    /// counter; the cell starts at zero.
    pub fn register_thread(&mut self) -> (tid: usize)
        requires
            old(self).well_formed(),
        ensures
            final(self).well_formed(),
            tid == old(self).thread_count(),
            final(self).local_cells() == old(self).local_cells().push(0),
            final(self).global_value() == old(self).global_value(),
            final(self).base_value() == old(self).base_value(),
            final(self).inc_count() == old(self).inc_count(),
    {
        let tid = self.locals.len();
        self.locals.push(0);
        proof {
            assert(self.local_cells() =~= old(self).local_cells().push(0));
            lemma_cells_total_push(old(self).local_cells(), 0);
        }
        tid
    }

    /// Increments the counter by one, through the local cell of the
    /// calling thread. No shared state is touched.
    pub fn inc(&mut self, tid: usize)
        requires
            old(self).well_formed(),
            tid < old(self).thread_count(),
        ensures
            final(self).well_formed(),
            final(self).local_cells() == old(self).local_cells().update(
                tid as int,
                (old(self).local_cells()[tid as int] + 1) % (usize::MAX as int + 1),
            ),
            final(self).global_value() == old(self).global_value(),
            final(self).base_value() == old(self).base_value(),
            final(self).inc_count() == old(self).inc_count() + 1,
    {
        let cell = self.locals[tid];
        let bumped = cell.wrapping_add(1);
        self.locals.set(tid, bumped);
        proof {
            let m = usize::MAX as int + 1;
            let cells = old(self).local_cells();
            lemma_wrap_add(cell as int, 1, m);
            assert(self.local_cells() =~= cells.update(tid as int, (cell + 1) % m));
            lemma_cells_total_update(cells, tid as int, (cell + 1) % m);
            if cell + 1 >= m {
                lemma_multiple_vanishes(
                    self.global + cells_total(self.local_cells()),
                    1,
                    m,
                );
            }
            lemma_congruent_add(
                old(self).global_value() + cells_total(cells),
                old(self).base_value() + old(self).inc_count(),
                1,
                1,
                m,
            );
        }
        self.incs = Ghost(self.incs@ + 1);
    }

    /// Gets the current value of the counter. This returns the exact count
    /// only after every registered thread has flushed; until then it is a
    /// lower bound on the true count.
    pub fn get(&self) -> (r: usize)
        ensures
            r == self.global_value(),
    {
        self.global
    }

    /// Reports how many threads have registered a local cell.
    pub fn registered_threads(&self) -> (r: usize)
        ensures
            r == self.thread_count(),
    {
        self.locals.len()
    }

    /// Folds the calling thread's local cell into the global total and
    /// resets the cell to zero.
    pub fn flush(&mut self, tid: usize)
        requires
            old(self).well_formed(),
            tid < old(self).thread_count(),
        ensures
            final(self).well_formed(),
            final(self).local_cells() == old(self).local_cells().update(tid as int, 0),
            final(self).global_value() as int == (old(self).global_value()
                + old(self).local_cells()[tid as int]) % (usize::MAX as int + 1),
            final(self).base_value() == old(self).base_value(),
            final(self).inc_count() == old(self).inc_count(),
    {
        let cell = self.locals[tid];
        self.global = self.global.wrapping_add(cell);
        self.locals.set(tid, 0);
        proof {
            let m = usize::MAX as int + 1;
            let cells = old(self).local_cells();
            lemma_wrap_add(old(self).global_value() as int, cell as int, m);
            assert(self.local_cells() =~= cells.update(tid as int, 0));
            lemma_cells_total_update(cells, tid as int, 0);
            if old(self).global_value() + cell >= m {
                lemma_multiple_vanishes(
                    self.global + cells_total(self.local_cells()),
                    1,
                    m,
                );
            }
        }
    }

    /// Once every cell has been flushed and the true count fits the width,
    /// the global total is exactly the base value plus the increment count.
    pub proof fn lemma_get_exact_after_flush(self)
        requires
            self.well_formed(),
            forall|i: int| 0 <= i < self.local_cells().len() ==> #[trigger] self.local_cells()[i] == 0,
            self.base_value() + self.inc_count() <= usize::MAX,
        ensures
            self.global_value() == self.base_value() + self.inc_count(),
    {
        lemma_cells_total_bounds(self.local_cells(), 0);
        lemma_congruent_close_equal(
            self.global_value() + cells_total(self.local_cells()),
            self.base_value() + self.inc_count(),
            usize::MAX as int + 1,
        );
    }

    /// At any instant, as long as the true count fits the width, the
    /// global total lies between the base value and the base value plus
    /// the increment count: unflushed increments can only make a read low,
    /// never high.
    pub proof fn lemma_get_within_count(self)
        requires
            self.well_formed(),
            self.base_value() + self.inc_count() <= usize::MAX,
        ensures
            self.base_value() <= self.global_value() <= self.base_value() + self.inc_count(),
    {
        let total = cells_total(self.local_cells());
        lemma_cells_total_nonneg(self.local_cells());
        lemma_congruent_close_equal(
            self.global_value() + total,
            self.base_value() + self.inc_count(),
            usize::MAX as int + 1,
        );
    }
}

/// An approximate counter over `u32`.
///
/// This counter keeps a local cell per registered thread and folds a cell
/// into the shared global total whenever the cell reaches the resolution
/// chosen at construction. A read is therefore approximate: it can lag the
/// true count by at most the unflushed residue, which auto-flushing bounds
/// by the number of registered threads times the resolution minus one.
/// [`flush`](ApproxCounterU32::flush) folds the calling thread's cell in
/// early, tightening the read on demand; after every thread has flushed,
/// a read is exact.
///
/// A resolution of zero or one makes every increment fold immediately,
/// degrading the counter to a worse exact counter — not an error, but it
/// defeats the purpose. There is deliberately no `set` or `reset`:
/// overwriting the global total without also clearing every thread's
/// unflushed residue would silently corrupt the accuracy guarantee.
pub struct ApproxCounterU32 {
    threshold: u32,
    global: u32,
    locals: Vec<u32>,
    base: Ghost<u32>,
    incs: Ghost<nat>,
}

impl ApproxCounterU32 {
    /// The shared global total.
    pub closed spec fn global_value(self) -> u32 {
        self.global
    }

    /// The per-thread local cells, one per registered thread.
    pub closed spec fn local_cells(self) -> Seq<int> {
        self.locals@.map_values(|c: u32| c as int)
    }

    /// The number of threads that have registered a local cell.
    pub open spec fn thread_count(self) -> nat {
        self.local_cells().len()
    }

    /// The resolution chosen at construction.
    pub closed spec fn resolution(self) -> u32 {
        self.threshold
    }

    /// The most increments one cell can hold without being folded in: the
    /// resolution minus one, or zero for the degenerate resolution zero.
    pub open spec fn slack(self) -> int {
        if self.resolution() == 0 {
            0
        } else {
            self.resolution() - 1
        }
    }

    /// The value the counter started counting from.
    pub closed spec fn base_value(self) -> u32 {
        self.base@
    }

    /// The number of completed increments.
    pub closed spec fn inc_count(self) -> nat {
        self.incs@
    }

    /// The global total and the local cells together account for the base
    /// value plus every completed increment, wrapped at the width of
    /// `u32`; no cell holds more than the whole increment count, and
    /// auto-flushing keeps every cell within the slack. Constructors
    /// establish this and every method preserves it.
    pub open spec fn well_formed(self) -> bool {
        &&& congruent(
            self.global_value() + cells_total(self.local_cells()),
            self.base_value() + self.inc_count(),
            0x1_0000_0000,
        )
        &&& cells_total(self.local_cells()) <= self.inc_count()
        &&& forall|i: int|
            0 <= i < self.local_cells().len() ==> 0 <= #[trigger] self.local_cells()[i]
                <= self.slack()
    }

    /// Creates a new counter with the given starting value and resolution.
    ///
    /// The starting value is a lower bound for the value returned by
    /// `get`, not guaranteed to be the exact value on subsequent calls.
    pub fn new(start: u32, resolution: u32) -> (c: ApproxCounterU32)
        ensures
            c.well_formed(),
            c.global_value() == start,
            c.thread_count() == 0,
            c.resolution() == resolution,
            c.base_value() == start,
            c.inc_count() == 0,
    {
        let c = ApproxCounterU32 {
            threshold: resolution,
            global: start,
            locals: Vec::new(),
            base: Ghost(start),
            incs: Ghost(0),
        };
        proof {
            assert(c.local_cells() =~= Seq::<int>::empty());
        }
        c
    }

    /// Hands out the local cell for one more thread, returning the handle
    /// the thread passes to `inc` and `flush`. This models the lazy
    /// creation of a thread's cell the first time the thread touches the
    /// counter; the cell starts at zero.
    pub fn register_thread(&mut self) -> (tid: usize)
        requires
            old(self).well_formed(),
        ensures
            final(self).well_formed(),
            tid == old(self).thread_count(),
            final(self).local_cells() == old(self).local_cells().push(0),
            final(self).global_value() == old(self).global_value(),
            final(self).resolution() == old(self).resolution(),
            final(self).base_value() == old(self).base_value(),
            final(self).inc_count() == old(self).inc_count(),
    {
        let tid = self.locals.len();
        self.locals.push(0);
        proof {
            assert(self.local_cells() =~= old(self).local_cells().push(0));
            lemma_cells_total_push(old(self).local_cells(), 0);
        }
        tid
    }

    /// Increments the counter by one, through the local cell of the
    /// calling thread. If the cell reaches the resolution, it is folded
    /// into the global total and reset to zero; otherwise no shared state
    /// is touched, and the value returned by `get` probably stays
    /// unchanged.
    pub fn inc(&mut self, tid: usize)
        requires
            old(self).well_formed(),
            tid < old(self).thread_count(),
        ensures
            final(self).well_formed(),
            final(self).thread_count() == old(self).thread_count(),
            final(self).resolution() == old(self).resolution(),
            final(self).base_value() == old(self).base_value(),
            final(self).inc_count() == old(self).inc_count() + 1,
            ({
                let bumped = old(self).local_cells()[tid as int] + 1;
                if bumped >= old(self).resolution() {
                    &&& final(self).local_cells() == old(self).local_cells().update(
                        tid as int,
                        0,
                    )
                    &&& final(self).global_value() as int == (old(self).global_value() + bumped)
                        % 0x1_0000_0000
                } else {
                    &&& final(self).local_cells() == old(self).local_cells().update(
                        tid as int,
                        bumped,
                    )
                    &&& final(self).global_value() == old(self).global_value()
                }
            }),
    {
        proof {
            assert(0 <= old(self).local_cells()[tid as int] <= old(self).slack());
        }
        let cell = self.locals[tid];
        let bumped = cell + 1;
        if bumped >= self.threshold {
            self.global = self.global.wrapping_add(bumped);
            self.locals.set(tid, 0);
            proof {
                let m = 0x1_0000_0000int;
                let cells = old(self).local_cells();
                lemma_wrap_add(old(self).global_value() as int, bumped as int, m);
                assert(self.local_cells() =~= cells.update(tid as int, 0));
                lemma_cells_total_update(cells, tid as int, 0);
                if old(self).global_value() + bumped >= m {
                    lemma_multiple_vanishes(
                        self.global + cells_total(self.local_cells()),
                        1,
                        m,
                    );
                }
                lemma_congruent_add(
                    old(self).global_value() + cells_total(cells),
                    old(self).base_value() + old(self).inc_count(),
                    1,
                    1,
                    m,
                );
            }
        } else {
            self.locals.set(tid, bumped);
            proof {
                let m = 0x1_0000_0000int;
                let cells = old(self).local_cells();
                assert(self.local_cells() =~= cells.update(tid as int, bumped as int));
                lemma_cells_total_update(cells, tid as int, bumped as int);
                lemma_congruent_add(
                    old(self).global_value() + cells_total(cells),
                    old(self).base_value() + old(self).inc_count(),
                    1,
                    1,
                    m,
                );
            }
        }
        self.incs = Ghost(self.incs@ + 1);
    }

    /// Gets the current value of the counter. The read lags the true count
    /// by at most the unflushed residue; see
    /// [`lemma_get_error_bound`](ApproxCounterU32::lemma_get_error_bound).
    /// Two calls with one `inc` interleaved are not guaranteed to, and
    /// almost certainly will not, return different values.
    pub fn get(&self) -> (r: u32)
        ensures
            r == self.global_value(),
    {
        self.global
    }

    /// Reports how many threads have registered a local cell.
    pub fn registered_threads(&self) -> (r: usize)
        ensures
            r == self.thread_count(),
    {
        self.locals.len()
    }

    /// Folds the calling thread's local cell into the global total early
    /// and resets the cell to zero, tightening the accuracy of subsequent
    /// reads. Each thread flushes only its own cell: once every registered
    /// thread has flushed and no further increments happen, `get` returns
    /// the exact count.
    pub fn flush(&mut self, tid: usize)
        requires
            old(self).well_formed(),
            tid < old(self).thread_count(),
        ensures
            final(self).well_formed(),
            final(self).local_cells() == old(self).local_cells().update(tid as int, 0),
            final(self).global_value() as int == (old(self).global_value()
                + old(self).local_cells()[tid as int]) % 0x1_0000_0000,
            final(self).resolution() == old(self).resolution(),
            final(self).base_value() == old(self).base_value(),
            final(self).inc_count() == old(self).inc_count(),
    {
        proof {
            assert(0 <= old(self).local_cells()[tid as int] <= old(self).slack());
        }
        let cell = self.locals[tid];
        self.global = self.global.wrapping_add(cell);
        self.locals.set(tid, 0);
        proof {
            let m = 0x1_0000_0000int;
            let cells = old(self).local_cells();
            lemma_wrap_add(old(self).global_value() as int, cell as int, m);
            assert(self.local_cells() =~= cells.update(tid as int, 0));
            lemma_cells_total_update(cells, tid as int, 0);
            if old(self).global_value() + cell >= m {
                lemma_multiple_vanishes(
                    self.global + cells_total(self.local_cells()),
                    1,
                    m,
                );
            }
        }
    }

    /// The documented accuracy guarantee: as long as the true count fits
    /// the width, a read lies within the number of registered threads
    /// times the resolution minus one below the true count, and never
    /// above it.
    pub proof fn lemma_get_error_bound(self)
        requires
            self.well_formed(),
            self.base_value() + self.inc_count() <= u32::MAX,
        ensures
            self.base_value() + self.inc_count() - self.thread_count() * self.slack()
                <= self.global_value() <= self.base_value() + self.inc_count(),
    {
        let total = cells_total(self.local_cells());
        lemma_cells_total_bounds(self.local_cells(), self.slack());
        lemma_congruent_close_equal(
            self.global_value() + total,
            self.base_value() + self.inc_count(),
            0x1_0000_0000,
        );
    }

    /// Once every cell has been flushed and the true count fits the width,
    /// the global total is exactly the base value plus the increment count.
    pub proof fn lemma_get_exact_after_flush(self)
        requires
            self.well_formed(),
            forall|i: int| 0 <= i < self.local_cells().len() ==> #[trigger] self.local_cells()[i] == 0,
            self.base_value() + self.inc_count() <= u32::MAX,
        ensures
            self.global_value() == self.base_value() + self.inc_count(),
    {
        lemma_cells_total_bounds(self.local_cells(), 0);
        lemma_congruent_close_equal(
            self.global_value() + cells_total(self.local_cells()),
            self.base_value() + self.inc_count(),
            0x1_0000_0000,
        );
    }
}

/// An approximate counter over `u64`.
///
/// This counter keeps a local cell per registered thread and folds a cell
/// into the shared global total whenever the cell reaches the resolution
/// chosen at construction. A read is therefore approximate: it can lag the
/// true count by at most the unflushed residue, which auto-flushing bounds
/// by the number of registered threads times the resolution minus one.
/// [`flush`](ApproxCounterU64::flush) folds the calling thread's cell in
/// early, tightening the read on demand; after every thread has flushed,
/// a read is exact.
///
/// A resolution of zero or one makes every increment fold immediately,
/// degrading the counter to a worse exact counter — not an error, but it
/// defeats the purpose. There is deliberately no `set` or `reset`:
/// overwriting the global total without also clearing every thread's
/// unflushed residue would silently corrupt the accuracy guarantee.
pub struct ApproxCounterU64 {
    threshold: u64,
    global: u64,
    locals: Vec<u64>,
    base: Ghost<u64>,
    incs: Ghost<nat>,
}

impl ApproxCounterU64 {
    /// The shared global total.
    pub closed spec fn global_value(self) -> u64 {
        self.global
    }

    /// The per-thread local cells, one per registered thread.
    pub closed spec fn local_cells(self) -> Seq<int> {
        self.locals@.map_values(|c: u64| c as int)
    }

    /// The number of threads that have registered a local cell.
    pub open spec fn thread_count(self) -> nat {
        self.local_cells().len()
    }

    /// The resolution chosen at construction.
    pub closed spec fn resolution(self) -> u64 {
        self.threshold
    }

    /// The most increments one cell can hold without being folded in: the
    /// resolution minus one, or zero for the degenerate resolution zero.
    pub open spec fn slack(self) -> int {
        if self.resolution() == 0 {
            0
        } else {
            self.resolution() - 1
        }
    }

    /// The value the counter started counting from.
    pub closed spec fn base_value(self) -> u64 {
        self.base@
    }

    /// The number of completed increments.
    pub closed spec fn inc_count(self) -> nat {
        self.incs@
    }

    /// The global total and the local cells together account for the base
    /// value plus every completed increment, wrapped at the width of
    /// `u64`; no cell holds more than the whole increment count, and
    /// auto-flushing keeps every cell within the slack. Constructors
    /// establish this and every method preserves it.
    pub open spec fn well_formed(self) -> bool {
        &&& congruent(
            self.global_value() + cells_total(self.local_cells()),
            self.base_value() + self.inc_count(),
            0x1_0000_0000_0000_0000,
        )
        &&& cells_total(self.local_cells()) <= self.inc_count()
        &&& forall|i: int|
            0 <= i < self.local_cells().len() ==> 0 <= #[trigger] self.local_cells()[i]
                <= self.slack()
    }

    /// Creates a new counter with the given starting value and resolution.
    ///
    /// The starting value is a lower bound for the value returned by
    /// `get`, not guaranteed to be the exact value on subsequent calls.
    pub fn new(start: u64, resolution: u64) -> (c: ApproxCounterU64)
        ensures
            c.well_formed(),
            c.global_value() == start,
            c.thread_count() == 0,
            c.resolution() == resolution,
            c.base_value() == start,
            c.inc_count() == 0,
    {
        let c = ApproxCounterU64 {
            threshold: resolution,
            global: start,
            locals: Vec::new(),
            base: Ghost(start),
            incs: Ghost(0),
        };
        proof {
            assert(c.local_cells() =~= Seq::<int>::empty());
        }
        c
    }

    /// Hands out the local cell for one more thread, returning the handle
    /// the thread passes to `inc` and `flush`. This models the lazy
    /// creation of a thread's cell the first time the thread touches the
    /// counter; the cell starts at zero.
    pub fn register_thread(&mut self) -> (tid: usize)
        requires
            old(self).well_formed(),
        ensures
            final(self).well_formed(),
            tid == old(self).thread_count(),
            final(self).local_cells() == old(self).local_cells().push(0),
            final(self).global_value() == old(self).global_value(),
            final(self).resolution() == old(self).resolution(),
            final(self).base_value() == old(self).base_value(),
            final(self).inc_count() == old(self).inc_count(),
    {
        let tid = self.locals.len();
        self.locals.push(0);
        proof {
            assert(self.local_cells() =~= old(self).local_cells().push(0));
            lemma_cells_total_push(old(self).local_cells(), 0);
        }
        tid
    }

    /// Increments the counter by one, through the local cell of the
    /// calling thread. If the cell reaches the resolution, it is folded
    /// into the global total and reset to zero; otherwise no shared state
    /// is touched, and the value returned by `get` probably stays
    /// unchanged.
    pub fn inc(&mut self, tid: usize)
        requires
            old(self).well_formed(),
            tid < old(self).thread_count(),
        ensures
            final(self).well_formed(),
            final(self).thread_count() == old(self).thread_count(),
            final(self).resolution() == old(self).resolution(),
            final(self).base_value() == old(self).base_value(),
            final(self).inc_count() == old(self).inc_count() + 1,
            ({
                let bumped = old(self).local_cells()[tid as int] + 1;
                if bumped >= old(self).resolution() {
                    &&& final(self).local_cells() == old(self).local_cells().update(
                        tid as int,
                        0,
                    )
                    &&& final(self).global_value() as int == (old(self).global_value() + bumped)
                        % 0x1_0000_0000_0000_0000
                } else {
                    &&& final(self).local_cells() == old(self).local_cells().update(
                        tid as int,
                        bumped,
                    )
                    &&& final(self).global_value() == old(self).global_value()
                }
            }),
    {
        proof {
            assert(0 <= old(self).local_cells()[tid as int] <= old(self).slack());
        }
        let cell = self.locals[tid];
        let bumped = cell + 1;
        if bumped >= self.threshold {
            self.global = self.global.wrapping_add(bumped);
            self.locals.set(tid, 0);
            proof {
                let m = 0x1_0000_0000_0000_0000int;
                let cells = old(self).local_cells();
                lemma_wrap_add(old(self).global_value() as int, bumped as int, m);
                assert(self.local_cells() =~= cells.update(tid as int, 0));
                lemma_cells_total_update(cells, tid as int, 0);
                if old(self).global_value() + bumped >= m {
                    lemma_multiple_vanishes(
                        self.global + cells_total(self.local_cells()),
                        1,
                        m,
                    );
                }
                lemma_congruent_add(
                    old(self).global_value() + cells_total(cells),
                    old(self).base_value() + old(self).inc_count(),
                    1,
                    1,
                    m,
                );
            }
        } else {
            self.locals.set(tid, bumped);
            proof {
                let m = 0x1_0000_0000_0000_0000int;
                let cells = old(self).local_cells();
                assert(self.local_cells() =~= cells.update(tid as int, bumped as int));
                lemma_cells_total_update(cells, tid as int, bumped as int);
                lemma_congruent_add(
                    old(self).global_value() + cells_total(cells),
                    old(self).base_value() + old(self).inc_count(),
                    1,
                    1,
                    m,
                );
            }
        }
        self.incs = Ghost(self.incs@ + 1);
    }

    /// Gets the current value of the counter. The read lags the true count
    /// by at most the unflushed residue; see
    /// [`lemma_get_error_bound`](ApproxCounterU64::lemma_get_error_bound).
    /// Two calls with one `inc` interleaved are not guaranteed to, and
    /// almost certainly will not, return different values.
    pub fn get(&self) -> (r: u64)
        ensures
            r == self.global_value(),
    {
        self.global
    }

    /// Reports how many threads have registered a local cell.
    pub fn registered_threads(&self) -> (r: usize)
        ensures
            r == self.thread_count(),
    {
        self.locals.len()
    }

    /// Folds the calling thread's local cell into the global total early
    /// and resets the cell to zero, tightening the accuracy of subsequent
    /// reads. Each thread flushes only its own cell: once every registered
    /// thread has flushed and no further increments happen, `get` returns
    /// the exact count.
    pub fn flush(&mut self, tid: usize)
        requires
            old(self).well_formed(),
            tid < old(self).thread_count(),
        ensures
            final(self).well_formed(),
            final(self).local_cells() == old(self).local_cells().update(tid as int, 0),
            final(self).global_value() as int == (old(self).global_value()
                + old(self).local_cells()[tid as int]) % 0x1_0000_0000_0000_0000,
            final(self).resolution() == old(self).resolution(),
            final(self).base_value() == old(self).base_value(),
            final(self).inc_count() == old(self).inc_count(),
    {
        proof {
            assert(0 <= old(self).local_cells()[tid as int] <= old(self).slack());
        }
        let cell = self.locals[tid];
        self.global = self.global.wrapping_add(cell);
        self.locals.set(tid, 0);
        proof {
            let m = 0x1_0000_0000_0000_0000int;
            let cells = old(self).local_cells();
            lemma_wrap_add(old(self).global_value() as int, cell as int, m);
            assert(self.local_cells() =~= cells.update(tid as int, 0));
            lemma_cells_total_update(cells, tid as int, 0);
            if old(self).global_value() + cell >= m {
                lemma_multiple_vanishes(
                    self.global + cells_total(self.local_cells()),
                    1,
                    m,
                );
            }
        }
    }

    /// The documented accuracy guarantee: as long as the true count fits
    /// the width, a read lies within the number of registered threads
    /// times the resolution minus one below the true count, and never
    /// above it.
    pub proof fn lemma_get_error_bound(self)
        requires
            self.well_formed(),
            self.base_value() + self.inc_count() <= u64::MAX,
        ensures
            self.base_value() + self.inc_count() - self.thread_count() * self.slack()
                <= self.global_value() <= self.base_value() + self.inc_count(),
    {
        let total = cells_total(self.local_cells());
        lemma_cells_total_bounds(self.local_cells(), self.slack());
        lemma_congruent_close_equal(
            self.global_value() + total,
            self.base_value() + self.inc_count(),
            0x1_0000_0000_0000_0000,
        );
    }

    /// Once every cell has been flushed and the true count fits the width,
    /// the global total is exactly the base value plus the increment count.
    pub proof fn lemma_get_exact_after_flush(self)
        requires
            self.well_formed(),
            forall|i: int| 0 <= i < self.local_cells().len() ==> #[trigger] self.local_cells()[i] == 0,
            self.base_value() + self.inc_count() <= u64::MAX,
        ensures
            self.global_value() == self.base_value() + self.inc_count(),
    {
        lemma_cells_total_bounds(self.local_cells(), 0);
        lemma_congruent_close_equal(
            self.global_value() + cells_total(self.local_cells()),
            self.base_value() + self.inc_count(),
            0x1_0000_0000_0000_0000,
        );
    }
}

/// An approximate counter over `usize`.
///
/// This counter keeps a local cell per registered thread and folds a cell
/// into the shared global total whenever the cell reaches the resolution
/// chosen at construction. A read is therefore approximate: it can lag the
/// true count by at most the unflushed residue, which auto-flushing bounds
/// by the number of registered threads times the resolution minus one.
/// [`flush`](ApproxCounterUsize::flush) folds the calling thread's cell in
/// early, tightening the read on demand; after every thread has flushed,
/// a read is exact.
///
/// A resolution of zero or one makes every increment fold immediately,
/// degrading the counter to a worse exact counter — not an error, but it
/// defeats the purpose. There is deliberately no `set` or `reset`:
/// overwriting the global total without also clearing every thread's
/// unflushed residue would silently corrupt the accuracy guarantee.
pub struct ApproxCounterUsize {
    threshold: usize,
    global: usize,
    locals: Vec<usize>,
    base: Ghost<usize>,
    incs: Ghost<nat>,
}

impl ApproxCounterUsize {
    /// The shared global total.
    pub closed spec fn global_value(self) -> usize {
        self.global
    }

    /// The per-thread local cells, one per registered thread.
    pub closed spec fn local_cells(self) -> Seq<int> {
        self.locals@.map_values(|c: usize| c as int)
    }

    /// The number of threads that have registered a local cell.
    pub open spec fn thread_count(self) -> nat {
        self.local_cells().len()
    }

    /// The resolution chosen at construction.
    pub closed spec fn resolution(self) -> usize {
        self.threshold
    }

    /// The most increments one cell can hold without being folded in: the
    /// resolution minus one, or zero for the degenerate resolution zero.
    pub open spec fn slack(self) -> int {
        if self.resolution() == 0 {
            0
        } else {
            self.resolution() - 1
        }
    }

    /// The value the counter started counting from.
    pub closed spec fn base_value(self) -> usize {
        self.base@
    }

    /// The number of completed increments.
    pub closed spec fn inc_count(self) -> nat {
        self.incs@
    }

    /// The global total and the local cells together account for the base
    /// value plus every completed increment, wrapped at the width of
    /// `usize`; no cell holds more than the whole increment count, and
    /// auto-flushing keeps every cell within the slack. Constructors
    /// establish this and every method preserves it.
    pub open spec fn well_formed(self) -> bool {
        &&& congruent(
            self.global_value() + cells_total(self.local_cells()),
            self.base_value() + self.inc_count(),
            usize::MAX as int + 1,
        )
        &&& cells_total(self.local_cells()) <= self.inc_count()
        &&& forall|i: int|
            0 <= i < self.local_cells().len() ==> 0 <= #[trigger] self.local_cells()[i]
                <= self.slack()
    }

    /// Creates a new counter with the given starting value and resolution.
    ///
    /// The starting value is a lower bound for the value returned by
    /// `get`, not guaranteed to be the exact value on subsequent calls.
    pub fn new(start: usize, resolution: usize) -> (c: ApproxCounterUsize)
        ensures
            c.well_formed(),
            c.global_value() == start,
            c.thread_count() == 0,
            c.resolution() == resolution,
            c.base_value() == start,
            c.inc_count() == 0,
    {
        let c = ApproxCounterUsize {
            threshold: resolution,
            global: start,
            locals: Vec::new(),
            base: Ghost(start),
            incs: Ghost(0),
        };
        proof {
            assert(c.local_cells() =~= Seq::<int>::empty());
        }
        c
    }

    /// Hands out the local cell for one more thread, returning the handle
    /// the thread passes to `inc` and `flush`. This models the lazy
    /// creation of a thread's cell the first time the thread touches the
    /// counter; the cell starts at zero.
    pub fn register_thread(&mut self) -> (tid: usize)
        requires
            old(self).well_formed(),
        ensures
            final(self).well_formed(),
            tid == old(self).thread_count(),
            final(self).local_cells() == old(self).local_cells().push(0),
            final(self).global_value() == old(self).global_value(),
            final(self).resolution() == old(self).resolution(),
            final(self).base_value() == old(self).base_value(),
            final(self).inc_count() == old(self).inc_count(),
    {
        let tid = self.locals.len();
        self.locals.push(0);
        proof {
            assert(self.local_cells() =~= old(self).local_cells().push(0));
            lemma_cells_total_push(old(self).local_cells(), 0);
        }
        tid
    }

    /// Increments the counter by one, through the local cell of the
    /// calling thread. If the cell reaches the resolution, it is folded
    /// into the global total and reset to zero; otherwise no shared state
    /// is touched, and the value returned by `get` probably stays
    /// unchanged.
    pub fn inc(&mut self, tid: usize)
        requires
            old(self).well_formed(),
            tid < old(self).thread_count(),
        ensures
            final(self).well_formed(),
            final(self).thread_count() == old(self).thread_count(),
            final(self).resolution() == old(self).resolution(),
            final(self).base_value() == old(self).base_value(),
            final(self).inc_count() == old(self).inc_count() + 1,
            ({
                let bumped = old(self).local_cells()[tid as int] + 1;
                if bumped >= old(self).resolution() {
                    &&& final(self).local_cells() == old(self).local_cells().update(
                        tid as int,
                        0,
                    )
                    &&& final(self).global_value() as int == (old(self).global_value() + bumped)
                        % (usize::MAX as int + 1)
                } else {
                    &&& final(self).local_cells() == old(self).local_cells().update(
                        tid as int,
                        bumped,
                    )
                    &&& final(self).global_value() == old(self).global_value()
                }
            }),
    {
        proof {
            assert(0 <= old(self).local_cells()[tid as int] <= old(self).slack());
        }
        let cell = self.locals[tid];
        let bumped = cell + 1;
        if bumped >= self.threshold {
            self.global = self.global.wrapping_add(bumped);
            self.locals.set(tid, 0);
            proof {
                let m = usize::MAX as int + 1;
                let cells = old(self).local_cells();
                lemma_wrap_add(old(self).global_value() as int, bumped as int, m);
                assert(self.local_cells() =~= cells.update(tid as int, 0));
                lemma_cells_total_update(cells, tid as int, 0);
                if old(self).global_value() + bumped >= m {
                    lemma_multiple_vanishes(
                        self.global + cells_total(self.local_cells()),
                        1,
                        m,
                    );
                }
                lemma_congruent_add(
                    old(self).global_value() + cells_total(cells),
                    old(self).base_value() + old(self).inc_count(),
                    1,
                    1,
                    m,
                );
            }
        } else {
            self.locals.set(tid, bumped);
            proof {
                let m = usize::MAX as int + 1;
                let cells = old(self).local_cells();
                assert(self.local_cells() =~= cells.update(tid as int, bumped as int));
                lemma_cells_total_update(cells, tid as int, bumped as int);
                lemma_congruent_add(
                    old(self).global_value() + cells_total(cells),
                    old(self).base_value() + old(self).inc_count(),
                    1,
                    1,
                    m,
                );
            }
        }
        self.incs = Ghost(self.incs@ + 1);
    }

    /// Gets the current value of the counter. The read lags the true count
    /// by at most the unflushed residue; see
    /// [`lemma_get_error_bound`](ApproxCounterUsize::lemma_get_error_bound).
    /// Two calls with one `inc` interleaved are not guaranteed to, and
    /// almost certainly will not, return different values.
    pub fn get(&self) -> (r: usize)
        ensures
            r == self.global_value(),
    {
        self.global
    }

    /// Reports how many threads have registered a local cell.
    pub fn registered_threads(&self) -> (r: usize)
        ensures
            r == self.thread_count(),
    {
        self.locals.len()
    }

    /// Folds the calling thread's local cell into the global total early
    /// and resets the cell to zero, tightening the accuracy of subsequent
    /// reads. Each thread flushes only its own cell: once every registered
    /// thread has flushed and no further increments happen, `get` returns
    /// the exact count.
    pub fn flush(&mut self, tid: usize)
        requires
            old(self).well_formed(),
            tid < old(self).thread_count(),
        ensures
            final(self).well_formed(),
            final(self).local_cells() == old(self).local_cells().update(tid as int, 0),
            final(self).global_value() as int == (old(self).global_value()
                + old(self).local_cells()[tid as int]) % (usize::MAX as int + 1),
            final(self).resolution() == old(self).resolution(),
            final(self).base_value() == old(self).base_value(),
            final(self).inc_count() == old(self).inc_count(),
    {
        proof {
            assert(0 <= old(self).local_cells()[tid as int] <= old(self).slack());
        }
        let cell = self.locals[tid];
        self.global = self.global.wrapping_add(cell);
        self.locals.set(tid, 0);
        proof {
            let m = usize::MAX as int + 1;
            let cells = old(self).local_cells();
            lemma_wrap_add(old(self).global_value() as int, cell as int, m);
            assert(self.local_cells() =~= cells.update(tid as int, 0));
            lemma_cells_total_update(cells, tid as int, 0);
            if old(self).global_value() + cell >= m {
                lemma_multiple_vanishes(
                    self.global + cells_total(self.local_cells()),
                    1,
                    m,
                );
            }
        }
    }

    /// The documented accuracy guarantee: as long as the true count fits
    /// the width, a read lies within the number of registered threads
    /// times the resolution minus one below the true count, and never
    /// above it.
    pub proof fn lemma_get_error_bound(self)
        requires
            self.well_formed(),
            self.base_value() + self.inc_count() <= usize::MAX,
        ensures
            self.base_value() + self.inc_count() - self.thread_count() * self.slack()
                <= self.global_value() <= self.base_value() + self.inc_count(),
    {
        let total = cells_total(self.local_cells());
        lemma_cells_total_bounds(self.local_cells(), self.slack());
        lemma_congruent_close_equal(
            self.global_value() + total,
            self.base_value() + self.inc_count(),
            usize::MAX as int + 1,
        );
    }

    /// Once every cell has been flushed and the true count fits the width,
    /// the global total is exactly the base value plus the increment count.
    pub proof fn lemma_get_exact_after_flush(self)
        requires
            self.well_formed(),
            forall|i: int| 0 <= i < self.local_cells().len() ==> #[trigger] self.local_cells()[i] == 0,
            self.base_value() + self.inc_count() <= usize::MAX,
        ensures
            self.global_value() == self.base_value() + self.inc_count(),
    {
        lemma_cells_total_bounds(self.local_cells(), 0);
        lemma_congruent_close_equal(
            self.global_value() + cells_total(self.local_cells()),
            self.base_value() + self.inc_count(),
            usize::MAX as int + 1,
        );
    }
}

/// An approximate counter over `i64`.
///
/// This counter keeps a local cell per registered thread and folds a cell
/// into the shared global total whenever the cell reaches the resolution
/// chosen at construction. A read is therefore approximate: it can lag the
/// true count by at most the unflushed residue, which auto-flushing bounds
/// by the number of registered threads times the resolution minus one.
/// [`flush`](ApproxCounterI64::flush) folds the calling thread's cell in
/// early, tightening the read on demand; after every thread has flushed,
/// a read is exact.
///
/// A resolution of zero or one makes every increment fold immediately,
/// degrading the counter to a worse exact counter — not an error, but it
/// defeats the purpose. There is deliberately no `set` or `reset`:
/// overwriting the global total without also clearing every thread's
/// unflushed residue would silently corrupt the accuracy guarantee.
pub struct ApproxCounterI64 {
    threshold: u64,
    global: i64,
    locals: Vec<u64>,
    base: Ghost<i64>,
    incs: Ghost<nat>,
}

impl ApproxCounterI64 {
    /// The shared global total.
    pub closed spec fn global_value(self) -> i64 {
        self.global
    }

    /// The per-thread local cells, one per registered thread.
    pub closed spec fn local_cells(self) -> Seq<int> {
        self.locals@.map_values(|c: u64| c as int)
    }

    /// The number of threads that have registered a local cell.
    pub open spec fn thread_count(self) -> nat {
        self.local_cells().len()
    }

    /// The resolution chosen at construction.
    pub closed spec fn resolution(self) -> u64 {
        self.threshold
    }

    /// The most increments one cell can hold without being folded in: the
    /// resolution minus one, or zero for the degenerate resolution zero.
    pub open spec fn slack(self) -> int {
        if self.resolution() == 0 {
            0
        } else {
            self.resolution() - 1
        }
    }

    /// The value the counter started counting from.
    pub closed spec fn base_value(self) -> i64 {
        self.base@
    }

    /// The number of completed increments.
    pub closed spec fn inc_count(self) -> nat {
        self.incs@
    }

    /// The global total and the local cells together account for the base
    /// value plus every completed increment, wrapped at the width of
    /// `i64`; no cell holds more than the whole increment count, and
    /// auto-flushing keeps every cell within the slack. Constructors
    /// establish this and every method preserves it.
    pub open spec fn well_formed(self) -> bool {
        &&& congruent(
            self.global_value() + cells_total(self.local_cells()),
            self.base_value() + self.inc_count(),
            0x1_0000_0000_0000_0000,
        )
        &&& cells_total(self.local_cells()) <= self.inc_count()
        &&& forall|i: int|
            0 <= i < self.local_cells().len() ==> 0 <= #[trigger] self.local_cells()[i]
                <= self.slack()
    }

    /// Creates a new counter with the given starting value and resolution.
    ///
    /// The starting value is a lower bound for the value returned by
    /// `get`, not guaranteed to be the exact value on subsequent calls.
    pub fn new(start: i64, resolution: u64) -> (c: ApproxCounterI64)
        ensures
            c.well_formed(),
            c.global_value() == start,
            c.thread_count() == 0,
            c.resolution() == resolution,
            c.base_value() == start,
            c.inc_count() == 0,
    {
        let c = ApproxCounterI64 {
            threshold: resolution,
            global: start,
            locals: Vec::new(),
            base: Ghost(start),
            incs: Ghost(0),
        };
        proof {
            assert(c.local_cells() =~= Seq::<int>::empty());
        }
        c
    }

    /// Hands out the local cell for one more thread, returning the handle
    /// the thread passes to `inc` and `flush`. This models the lazy
    /// creation of a thread's cell the first time the thread touches the
    /// counter; the cell starts at zero.
    pub fn register_thread(&mut self) -> (tid: usize)
        requires
            old(self).well_formed(),
        ensures
            final(self).well_formed(),
            tid == old(self).thread_count(),
            final(self).local_cells() == old(self).local_cells().push(0),
            final(self).global_value() == old(self).global_value(),
            final(self).resolution() == old(self).resolution(),
            final(self).base_value() == old(self).base_value(),
            final(self).inc_count() == old(self).inc_count(),
    {
        let tid = self.locals.len();
        self.locals.push(0);
        proof {
            assert(self.local_cells() =~= old(self).local_cells().push(0));
            lemma_cells_total_push(old(self).local_cells(), 0);
        }
        tid
    }

    /// Increments the counter by one, through the local cell of the
    /// calling thread. If the cell reaches the resolution, it is folded
    /// into the global total and reset to zero; otherwise no shared state
    /// is touched, and the value returned by `get` probably stays
    /// unchanged.
    pub fn inc(&mut self, tid: usize)
        requires
            old(self).well_formed(),
            tid < old(self).thread_count(),
        ensures
            final(self).well_formed(),
            final(self).thread_count() == old(self).thread_count(),
            final(self).resolution() == old(self).resolution(),
            final(self).base_value() == old(self).base_value(),
            final(self).inc_count() == old(self).inc_count() + 1,
            ({
                let bumped = old(self).local_cells()[tid as int] + 1;
                if bumped >= old(self).resolution() {
                    &&& final(self).local_cells() == old(self).local_cells().update(
                        tid as int,
                        0,
                    )
                    &&& final(self).global_value() as int == residue_in(
                        old(self).global_value() + bumped,
                        i64::MIN as int,
                        0x1_0000_0000_0000_0000,
                    )
                } else {
                    &&& final(self).local_cells() == old(self).local_cells().update(
                        tid as int,
                        bumped,
                    )
                    &&& final(self).global_value() == old(self).global_value()
                }
            }),
    {
        proof {
            assert(0 <= old(self).local_cells()[tid as int] <= old(self).slack());
        }
        let cell = self.locals[tid];
        let bumped = cell + 1;
        if bumped >= self.threshold {
            self.global = self.global.wrapping_add_unsigned(bumped);
            self.locals.set(tid, 0);
            proof {
                let m = 0x1_0000_0000_0000_0000int;
                let cells = old(self).local_cells();
                let lo = i64::MIN as int;
                let folded = old(self).global_value() + bumped;
                lemma_residue_in_props(folded, lo, m);
                if folded > i64::MAX {
                    lemma_multiple_vanishes(folded - m, 1, m);
                }
                lemma_congruent_close_equal(self.global as int, residue_in(folded, lo, m), m);
                assert(self.local_cells() =~= cells.update(tid as int, 0));
                lemma_cells_total_update(cells, tid as int, 0);
                lemma_congruent_add(
                    self.global as int,
                    folded,
                    cells_total(self.local_cells()),
                    cells_total(self.local_cells()),
                    m,
                );
                lemma_congruent_add(
                    old(self).global_value() + cells_total(cells),
                    old(self).base_value() + old(self).inc_count(),
                    1,
                    1,
                    m,
                );
            }
        } else {
            self.locals.set(tid, bumped);
            proof {
                let m = 0x1_0000_0000_0000_0000int;
                let cells = old(self).local_cells();
                assert(self.local_cells() =~= cells.update(tid as int, bumped as int));
                lemma_cells_total_update(cells, tid as int, bumped as int);
                lemma_congruent_add(
                    old(self).global_value() + cells_total(cells),
                    old(self).base_value() + old(self).inc_count(),
                    1,
                    1,
                    m,
                );
            }
        }
        self.incs = Ghost(self.incs@ + 1);
    }

    /// Gets the current value of the counter. The read lags the true count
    /// by at most the unflushed residue; see
    /// [`lemma_get_error_bound`](ApproxCounterI64::lemma_get_error_bound).
    /// Two calls with one `inc` interleaved are not guaranteed to, and
    /// almost certainly will not, return different values.
    pub fn get(&self) -> (r: i64)
        ensures
            r == self.global_value(),
    {
        self.global
    }

    /// Reports how many threads have registered a local cell.
    pub fn registered_threads(&self) -> (r: usize)
        ensures
            r == self.thread_count(),
    {
        self.locals.len()
    }

    /// Folds the calling thread's local cell into the global total early
    /// and resets the cell to zero, tightening the accuracy of subsequent
    /// reads. Each thread flushes only its own cell: once every registered
    /// thread has flushed and no further increments happen, `get` returns
    /// the exact count.
    pub fn flush(&mut self, tid: usize)
        requires
            old(self).well_formed(),
            tid < old(self).thread_count(),
        ensures
            final(self).well_formed(),
            final(self).local_cells() == old(self).local_cells().update(tid as int, 0),
            final(self).global_value() as int == residue_in(
                old(self).global_value() + old(self).local_cells()[tid as int],
                i64::MIN as int,
                0x1_0000_0000_0000_0000,
            ),
            final(self).resolution() == old(self).resolution(),
            final(self).base_value() == old(self).base_value(),
            final(self).inc_count() == old(self).inc_count(),
    {
        proof {
            assert(0 <= old(self).local_cells()[tid as int] <= old(self).slack());
        }
        let cell = self.locals[tid];
        self.global = self.global.wrapping_add_unsigned(cell);
        self.locals.set(tid, 0);
        proof {
            let m = 0x1_0000_0000_0000_0000int;
            let cells = old(self).local_cells();
            let lo = i64::MIN as int;
            let folded = old(self).global_value() + cell;
            lemma_residue_in_props(folded, lo, m);
            if folded > i64::MAX {
                lemma_multiple_vanishes(folded - m, 1, m);
            }
            lemma_congruent_close_equal(self.global as int, residue_in(folded, lo, m), m);
            assert(self.local_cells() =~= cells.update(tid as int, 0));
            lemma_cells_total_update(cells, tid as int, 0);
            lemma_congruent_add(
                self.global as int,
                folded,
                cells_total(self.local_cells()),
                cells_total(self.local_cells()),
                m,
            );
        }
    }

    /// The documented accuracy guarantee: as long as the true count fits
    /// the width, a read lies within the number of registered threads
    /// times the resolution minus one below the true count, and never
    /// above it.
    pub proof fn lemma_get_error_bound(self)
        requires
            self.well_formed(),
            self.base_value() + self.inc_count() <= i64::MAX,
        ensures
            self.base_value() + self.inc_count() - self.thread_count() * self.slack()
                <= self.global_value() <= self.base_value() + self.inc_count(),
    {
        let total = cells_total(self.local_cells());
        lemma_cells_total_bounds(self.local_cells(), self.slack());
        lemma_congruent_close_equal(
            self.global_value() + total,
            self.base_value() + self.inc_count(),
            0x1_0000_0000_0000_0000,
        );
    }

    /// Once every cell has been flushed and the true count fits the width,
    /// the global total is exactly the base value plus the increment count.
    pub proof fn lemma_get_exact_after_flush(self)
        requires
            self.well_formed(),
            forall|i: int| 0 <= i < self.local_cells().len() ==> #[trigger] self.local_cells()[i] == 0,
            self.base_value() + self.inc_count() <= i64::MAX,
        ensures
            self.global_value() == self.base_value() + self.inc_count(),
    {
        lemma_cells_total_bounds(self.local_cells(), 0);
        lemma_congruent_close_equal(
            self.global_value() + cells_total(self.local_cells()),
            self.base_value() + self.inc_count(),
            0x1_0000_0000_0000_0000,
        );
    }
}

} // verus!
