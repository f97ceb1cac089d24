//! Exact counters over fixed-width integers.
//!
//! An exact counter owns one integer cell that is updated in place, plus a
//! memory-ordering mode captured at construction and immutable thereafter.
//! Every operation corresponds to a single atomic instruction on the cell;
//! exclusive access (`&mut self`) stands for the atomicity of that one
//! instruction, so a read always sees the wrapped sum of the base value and
//! the number of completed increments.

use vstd::prelude::*;

verus! {

use crate::modular::{congruent, lemma_congruent_add, lemma_congruent_close_equal,
    lemma_multiple_vanishes};

/// The memory-ordering mode of an exact counter.
///
/// A counter is constructed with `Relaxed`, `AcqRel` or `SeqCst`, the only
/// modes that are well-defined for a read-modify-write increment. Plain
/// loads and stores downgrade `AcqRel` to `Acquire` respectively `Release`,
/// since an acquire-release load or store, rather than a read-modify-write,
/// is not well-defined.
#[derive(Clone, Copy, PartialEq, Eq, Structural, Debug)]
pub enum MemoryOrdering {
    Relaxed,
    Acquire,
    Release,
    AcqRel,
    SeqCst,
}

impl MemoryOrdering {
    /// The modes an exact counter may be constructed with.
    pub open spec fn valid_for_rmw(self) -> bool {
        self is Relaxed || self is AcqRel || self is SeqCst
    }

    /// The mode a plain load runs under: `AcqRel` downgrades to `Acquire`.
    pub fn load_equivalent(self) -> (r: MemoryOrdering)
        ensures
            r == (if self is AcqRel { MemoryOrdering::Acquire } else { self }),
    {
        match self {
            MemoryOrdering::AcqRel => MemoryOrdering::Acquire,
            other => other,
        }
    }

    /// The mode a plain store runs under: `AcqRel` downgrades to `Release`.
    pub fn store_equivalent(self) -> (r: MemoryOrdering)
        ensures
            r == (if self is AcqRel { MemoryOrdering::Release } else { self }),
    {
        match self {
            MemoryOrdering::AcqRel => MemoryOrdering::Release,
            other => other,
        }
    }
}


/// An exact counter over `u8`.
///
/// Calling `inc` N times always results in the counter being incremented by
/// exactly N: `get` returns the base value plus the number of completed
/// increments, wrapped at the width of the counted type.
pub struct CounterU8 {
    cell: u8,
    mode: MemoryOrdering,
    base: Ghost<u8>,
    incs: Ghost<nat>,
}

impl CounterU8 {
    /// The value currently held in the cell.
    pub closed spec fn value(self) -> u8 {
        self.cell
    }

    /// The ordering mode captured at construction.
    pub closed spec fn ordering(self) -> MemoryOrdering {
        self.mode
    }

    /// The value the counter last started counting from.
    pub closed spec fn base_value(self) -> u8 {
        self.base@
    }

    /// The number of completed increments since the base value was set.
    pub closed spec fn inc_count(self) -> nat {
        self.incs@
    }

    /// The cell holds the base value plus the increment count, wrapped at
    /// the width of `u8`. Constructors establish this and every method
    /// preserves it.
    pub open spec fn well_formed(self) -> bool {
        congruent(self.value() as int, self.base_value() + self.inc_count(), 0x100int)
    }

    /// Creates a new counter starting from the given value, with the
    /// default `SeqCst` mode, which makes the strongest ordering guarantees.
    pub fn new(val: u8) -> (c: CounterU8)
        ensures
            c.well_formed(),
            c.value() == val,
            c.base_value() == val,
            c.inc_count() == 0,
            c.ordering() == MemoryOrdering::SeqCst,
    {
        CounterU8 { cell: val, mode: MemoryOrdering::SeqCst, base: Ghost(val), incs: Ghost(0) }
    }

    /// Creates a new counter with the given ordering mode, which must be
    /// one of `Relaxed`, `AcqRel` and `SeqCst`.
    pub fn with_ordering(val: u8, ordering: MemoryOrdering) -> (c: CounterU8)
        requires
            ordering.valid_for_rmw(),
        ensures
            c.well_formed(),
            c.value() == val,
            c.base_value() == val,
            c.inc_count() == 0,
            c.ordering() == ordering,
    {
        CounterU8 { cell: val, mode: ordering, base: Ghost(val), incs: Ghost(0) }
    }

    /// Gets the current value of the counter.
    pub fn get(&self) -> (r: u8)
        ensures
            r == self.value(),
    {
        self.cell
    }

    /// Sets the counter to a new value, which becomes the new base value.
    pub fn set(&mut self, val: u8)
        ensures
            final(self).well_formed(),
            final(self).value() == val,
            final(self).base_value() == val,
            final(self).inc_count() == 0,
            final(self).ordering() == old(self).ordering(),
    {
        self.cell = val;
        self.base = Ghost(val);
        self.incs = Ghost(0);
    }

    /// Increments the counter by one, wrapping at the width of `u8`, and
    /// returns the previous value.
    pub fn inc(&mut self) -> (prev: u8)
        requires
            old(self).well_formed(),
        ensures
            final(self).well_formed(),
            prev == old(self).value(),
            final(self).value() == old(self).value().wrapping_add(1),
            final(self).inc_count() == old(self).inc_count() + 1,
            final(self).base_value() == old(self).base_value(),
            final(self).ordering() == old(self).ordering(),
    {
        let prev = self.cell;
        self.cell = self.cell.wrapping_add(1);
        proof {
            let m = 0x100int;
            let count = old(self).base_value() + old(self).inc_count();
            if prev + 1 > u8::MAX {
                lemma_multiple_vanishes(self.cell as int, 1, m);
            }
            lemma_congruent_add(prev as int, count, 1, 1, m);
        }
        self.incs = Ghost(self.incs@ + 1);
        prev
    }

    /// Resets the counter to zero (not to an arbitrary default).
    pub fn reset(&mut self)
        ensures
            final(self).well_formed(),
            final(self).value() == 0,
            final(self).base_value() == 0,
            final(self).inc_count() == 0,
            final(self).ordering() == old(self).ordering(),
    {
        self.cell = 0;
        self.base = Ghost(0);
        self.incs = Ghost(0);
    }

    /// A well-formed counter whose base value and increment count fit the
    /// width reads exactly the base value plus the increment count.
    pub proof fn lemma_get_exact(self)
        requires
            self.well_formed(),
            self.base_value() + self.inc_count() <= u8::MAX,
        ensures
            self.value() == self.base_value() + self.inc_count(),
    {
        lemma_congruent_close_equal(
            self.value() as int,
            self.base_value() + self.inc_count(),
            0x100int,
        );
    }
}

/// An exact counter over `u16`.
///
/// Calling `inc` N times always results in the counter being incremented by
/// exactly N: `get` returns the base value plus the number of completed
/// increments, wrapped at the width of the counted type.
pub struct CounterU16 {
    cell: u16,
    mode: MemoryOrdering,
    base: Ghost<u16>,
    incs: Ghost<nat>,
}

impl CounterU16 {
    /// The value currently held in the cell.
    pub closed spec fn value(self) -> u16 {
        self.cell
    }

    /// The ordering mode captured at construction.
    pub closed spec fn ordering(self) -> MemoryOrdering {
        self.mode
    }

    /// The value the counter last started counting from.
    pub closed spec fn base_value(self) -> u16 {
        self.base@
    }

    /// The number of completed increments since the base value was set.
    pub closed spec fn inc_count(self) -> nat {
        self.incs@
    }

    /// The cell holds the base value plus the increment count, wrapped at
    /// the width of `u16`. Constructors establish this and every method
    /// preserves it.
    pub open spec fn well_formed(self) -> bool {
        congruent(self.value() as int, self.base_value() + self.inc_count(), 0x1_0000int)
    }

    /// Creates a new counter starting from the given value, with the
    /// default `SeqCst` mode, which makes the strongest ordering guarantees.
    pub fn new(val: u16) -> (c: CounterU16)
        ensures
            c.well_formed(),
            c.value() == val,
            c.base_value() == val,
            c.inc_count() == 0,
            c.ordering() == MemoryOrdering::SeqCst,
    {
        CounterU16 { cell: val, mode: MemoryOrdering::SeqCst, base: Ghost(val), incs: Ghost(0) }
    }

    /// Creates a new counter with the given ordering mode, which must be
    /// one of `Relaxed`, `AcqRel` and `SeqCst`.
    pub fn with_ordering(val: u16, ordering: MemoryOrdering) -> (c: CounterU16)
        requires
            ordering.valid_for_rmw(),
        ensures
            c.well_formed(),
            c.value() == val,
            c.base_value() == val,
            c.inc_count() == 0,
            c.ordering() == ordering,
    {
        CounterU16 { cell: val, mode: ordering, base: Ghost(val), incs: Ghost(0) }
    }

    /// Gets the current value of the counter.
    pub fn get(&self) -> (r: u16)
        ensures
            r == self.value(),
    {
        self.cell
    }

    /// Sets the counter to a new value, which becomes the new base value.
    pub fn set(&mut self, val: u16)
        ensures
            final(self).well_formed(),
            final(self).value() == val,
            final(self).base_value() == val,
            final(self).inc_count() == 0,
            final(self).ordering() == old(self).ordering(),
    {
        self.cell = val;
        self.base = Ghost(val);
        self.incs = Ghost(0);
    }

    /// Increments the counter by one, wrapping at the width of `u16`, and
    /// returns the previous value.
    pub fn inc(&mut self) -> (prev: u16)
        requires
            old(self).well_formed(),
        ensures
            final(self).well_formed(),
            prev == old(self).value(),
            final(self).value() == old(self).value().wrapping_add(1),
            final(self).inc_count() == old(self).inc_count() + 1,
            final(self).base_value() == old(self).base_value(),
            final(self).ordering() == old(self).ordering(),
    {
        let prev = self.cell;
        self.cell = self.cell.wrapping_add(1);
        proof {
            let m = 0x1_0000int;
            let count = old(self).base_value() + old(self).inc_count();
            if prev + 1 > u16::MAX {
                lemma_multiple_vanishes(self.cell as int, 1, m);
            }
            lemma_congruent_add(prev as int, count, 1, 1, m);
        }
        self.incs = Ghost(self.incs@ + 1);
        prev
    }

    /// Resets the counter to zero (not to an arbitrary default).
    pub fn reset(&mut self)
        ensures
            final(self).well_formed(),
            final(self).value() == 0,
            final(self).base_value() == 0,
            final(self).inc_count() == 0,
            final(self).ordering() == old(self).ordering(),
    {
        self.cell = 0;
        self.base = Ghost(0);
        self.incs = Ghost(0);
    }

    /// A well-formed counter whose base value and increment count fit the
    /// width reads exactly the base value plus the increment count.
    pub proof fn lemma_get_exact(self)
        requires
            self.well_formed(),
            self.base_value() + self.inc_count() <= u16::MAX,
        ensures
            self.value() == self.base_value() + self.inc_count(),
    {
        lemma_congruent_close_equal(
            self.value() as int,
            self.base_value() + self.inc_count(),
            0x1_0000int,
        );
    }
}

/// An exact counter over `u32`.
///
/// Calling `inc` N times always results in the counter being incremented by
/// exactly N: `get` returns the base value plus the number of completed
/// increments, wrapped at the width of the counted type.
pub struct CounterU32 {
    cell: u32,
    mode: MemoryOrdering,
    base: Ghost<u32>,
    incs: Ghost<nat>,
}

impl CounterU32 {
    /// The value currently held in the cell.
    pub closed spec fn value(self) -> u32 {
        self.cell
    }

    /// The ordering mode captured at construction.
    pub closed spec fn ordering(self) -> MemoryOrdering {
        self.mode
    }

    /// The value the counter last started counting from.
    pub closed spec fn base_value(self) -> u32 {
        self.base@
    }

    /// The number of completed increments since the base value was set.
    pub closed spec fn inc_count(self) -> nat {
        self.incs@
    }

    /// The cell holds the base value plus the increment count, wrapped at
    /// the width of `u32`. Constructors establish this and every method
    /// preserves it.
    pub open spec fn well_formed(self) -> bool {
        congruent(self.value() as int, self.base_value() + self.inc_count(), 0x1_0000_0000int)
    }

    /// Creates a new counter starting from the given value, with the
    /// default `SeqCst` mode, which makes the strongest ordering guarantees.
    pub fn new(val: u32) -> (c: CounterU32)
        ensures
            c.well_formed(),
            c.value() == val,
            c.base_value() == val,
            c.inc_count() == 0,
            c.ordering() == MemoryOrdering::SeqCst,
    {
        CounterU32 { cell: val, mode: MemoryOrdering::SeqCst, base: Ghost(val), incs: Ghost(0) }
    }

    /// Creates a new counter with the given ordering mode, which must be
    /// one of `Relaxed`, `AcqRel` and `SeqCst`.
    pub fn with_ordering(val: u32, ordering: MemoryOrdering) -> (c: CounterU32)
        requires
            ordering.valid_for_rmw(),
        ensures
            c.well_formed(),
            c.value() == val,
            c.base_value() == val,
            c.inc_count() == 0,
            c.ordering() == ordering,
    {
        CounterU32 { cell: val, mode: ordering, base: Ghost(val), incs: Ghost(0) }
    }

    /// Gets the current value of the counter.
    pub fn get(&self) -> (r: u32)
        ensures
            r == self.value(),
    {
        self.cell
    }

    /// Sets the counter to a new value, which becomes the new base value.
    pub fn set(&mut self, val: u32)
        ensures
            final(self).well_formed(),
            final(self).value() == val,
            final(self).base_value() == val,
            final(self).inc_count() == 0,
            final(self).ordering() == old(self).ordering(),
    {
        self.cell = val;
        self.base = Ghost(val);
        self.incs = Ghost(0);
    }

    /// Increments the counter by one, wrapping at the width of `u32`, and
    /// returns the previous value.
    pub fn inc(&mut self) -> (prev: u32)
        requires
            old(self).well_formed(),
        ensures
            final(self).well_formed(),
            prev == old(self).value(),
            final(self).value() == old(self).value().wrapping_add(1),
            final(self).inc_count() == old(self).inc_count() + 1,
            final(self).base_value() == old(self).base_value(),
            final(self).ordering() == old(self).ordering(),
    {
        let prev = self.cell;
        self.cell = self.cell.wrapping_add(1);
        proof {
            let m = 0x1_0000_0000int;
            let count = old(self).base_value() + old(self).inc_count();
            if prev + 1 > u32::MAX {
                lemma_multiple_vanishes(self.cell as int, 1, m);
            }
            lemma_congruent_add(prev as int, count, 1, 1, m);
        }
        self.incs = Ghost(self.incs@ + 1);
        prev
    }

    /// Resets the counter to zero (not to an arbitrary default).
    pub fn reset(&mut self)
        ensures
            final(self).well_formed(),
            final(self).value() == 0,
            final(self).base_value() == 0,
            final(self).inc_count() == 0,
            final(self).ordering() == old(self).ordering(),
    {
        self.cell = 0;
        self.base = Ghost(0);
        self.incs = Ghost(0);
    }

    /// A well-formed counter whose base value and increment count fit the
    /// width reads exactly the base value plus the increment count.
    pub proof fn lemma_get_exact(self)
        requires
            self.well_formed(),
            self.base_value() + self.inc_count() <= u32::MAX,
        ensures
            self.value() == self.base_value() + self.inc_count(),
    {
        lemma_congruent_close_equal(
            self.value() as int,
            self.base_value() + self.inc_count(),
            0x1_0000_0000int,
        );
    }
}

/// An exact counter over `u64`.
///
/// Calling `inc` N times always results in the counter being incremented by
/// exactly N: `get` returns the base value plus the number of completed
/// increments, wrapped at the width of the counted type.
pub struct CounterU64 {
    cell: u64,
    mode: MemoryOrdering,
    base: Ghost<u64>,
    incs: Ghost<nat>,
}

impl CounterU64 {
    /// The value currently held in the cell.
    pub closed spec fn value(self) -> u64 {
        self.cell
    }

    /// The ordering mode captured at construction.
    pub closed spec fn ordering(self) -> MemoryOrdering {
        self.mode
    }

    /// The value the counter last started counting from.
    pub closed spec fn base_value(self) -> u64 {
        self.base@
    }

    /// The number of completed increments since the base value was set.
    pub closed spec fn inc_count(self) -> nat {
        self.incs@
    }

    /// The cell holds the base value plus the increment count, wrapped at
    /// the width of `u64`. Constructors establish this and every method
    /// preserves it.
    pub open spec fn well_formed(self) -> bool {
        congruent(self.value() as int, self.base_value() + self.inc_count(), 0x1_0000_0000_0000_0000int)
    }

    /// Creates a new counter starting from the given value, with the
    /// default `SeqCst` mode, which makes the strongest ordering guarantees.
    pub fn new(val: u64) -> (c: CounterU64)
        ensures
            c.well_formed(),
            c.value() == val,
            c.base_value() == val,
            c.inc_count() == 0,
            c.ordering() == MemoryOrdering::SeqCst,
    {
        CounterU64 { cell: val, mode: MemoryOrdering::SeqCst, base: Ghost(val), incs: Ghost(0) }
    }

    /// Creates a new counter with the given ordering mode, which must be
    /// one of `Relaxed`, `AcqRel` and `SeqCst`.
    pub fn with_ordering(val: u64, ordering: MemoryOrdering) -> (c: CounterU64)
        requires
            ordering.valid_for_rmw(),
        ensures
            c.well_formed(),
            c.value() == val,
            c.base_value() == val,
            c.inc_count() == 0,
            c.ordering() == ordering,
    {
        CounterU64 { cell: val, mode: ordering, base: Ghost(val), incs: Ghost(0) }
    }

    /// Gets the current value of the counter.
    pub fn get(&self) -> (r: u64)
        ensures
            r == self.value(),
    {
        self.cell
    }

    /// Sets the counter to a new value, which becomes the new base value.
    pub fn set(&mut self, val: u64)
        ensures
            final(self).well_formed(),
            final(self).value() == val,
            final(self).base_value() == val,
            final(self).inc_count() == 0,
            final(self).ordering() == old(self).ordering(),
    {
        self.cell = val;
        self.base = Ghost(val);
        self.incs = Ghost(0);
    }

    /// Increments the counter by one, wrapping at the width of `u64`, and
    /// returns the previous value.
    pub fn inc(&mut self) -> (prev: u64)
        requires
            old(self).well_formed(),
        ensures
            final(self).well_formed(),
            prev == old(self).value(),
            final(self).value() == old(self).value().wrapping_add(1),
            final(self).inc_count() == old(self).inc_count() + 1,
            final(self).base_value() == old(self).base_value(),
            final(self).ordering() == old(self).ordering(),
    {
        let prev = self.cell;
        self.cell = self.cell.wrapping_add(1);
        proof {
            let m = 0x1_0000_0000_0000_0000int;
            let count = old(self).base_value() + old(self).inc_count();
            if prev + 1 > u64::MAX {
                lemma_multiple_vanishes(self.cell as int, 1, m);
            }
            lemma_congruent_add(prev as int, count, 1, 1, m);
        }
        self.incs = Ghost(self.incs@ + 1);
        prev
    }

    /// Resets the counter to zero (not to an arbitrary default).
    pub fn reset(&mut self)
        ensures
            final(self).well_formed(),
            final(self).value() == 0,
            final(self).base_value() == 0,
            final(self).inc_count() == 0,
            final(self).ordering() == old(self).ordering(),
    {
        self.cell = 0;
        self.base = Ghost(0);
        self.incs = Ghost(0);
    }

    /// A well-formed counter whose base value and increment count fit the
    /// width reads exactly the base value plus the increment count.
    pub proof fn lemma_get_exact(self)
        requires
            self.well_formed(),
            self.base_value() + self.inc_count() <= u64::MAX,
        ensures
            self.value() == self.base_value() + self.inc_count(),
    {
        lemma_congruent_close_equal(
            self.value() as int,
            self.base_value() + self.inc_count(),
            0x1_0000_0000_0000_0000int,
        );
    }
}

/// An exact counter over `usize`.
///
/// Calling `inc` N times always results in the counter being incremented by
/// exactly N: `get` returns the base value plus the number of completed
/// increments, wrapped at the width of the counted type.
pub struct CounterUsize {
    cell: usize,
    mode: MemoryOrdering,
    base: Ghost<usize>,
    incs: Ghost<nat>,
}

impl CounterUsize {
    /// The value currently held in the cell.
    pub closed spec fn value(self) -> usize {
        self.cell
    }

    /// The ordering mode captured at construction.
    pub closed spec fn ordering(self) -> MemoryOrdering {
        self.mode
    }

    /// The value the counter last started counting from.
    pub closed spec fn base_value(self) -> usize {
        self.base@
    }

    /// The number of completed increments since the base value was set.
    pub closed spec fn inc_count(self) -> nat {
        self.incs@
    }

    /// The cell holds the base value plus the increment count, wrapped at
    /// the width of `usize`. Constructors establish this and every method
    /// preserves it.
    pub open spec fn well_formed(self) -> bool {
        congruent(self.value() as int, self.base_value() + self.inc_count(), usize::MAX as int + 1)
    }

    /// Creates a new counter starting from the given value, with the
    /// default `SeqCst` mode, which makes the strongest ordering guarantees.
    pub fn new(val: usize) -> (c: CounterUsize)
        ensures
            c.well_formed(),
            c.value() == val,
            c.base_value() == val,
            c.inc_count() == 0,
            c.ordering() == MemoryOrdering::SeqCst,
    {
        CounterUsize { cell: val, mode: MemoryOrdering::SeqCst, base: Ghost(val), incs: Ghost(0) }
    }

    /// Creates a new counter with the given ordering mode, which must be
    /// one of `Relaxed`, `AcqRel` and `SeqCst`.
    pub fn with_ordering(val: usize, ordering: MemoryOrdering) -> (c: CounterUsize)
        requires
            ordering.valid_for_rmw(),
        ensures
            c.well_formed(),
            c.value() == val,
            c.base_value() == val,
            c.inc_count() == 0,
            c.ordering() == ordering,
    {
        CounterUsize { cell: val, mode: ordering, base: Ghost(val), incs: Ghost(0) }
    }

    /// Gets the current value of the counter.
    pub fn get(&self) -> (r: usize)
        ensures
            r == self.value(),
    {
        self.cell
    }

    /// Sets the counter to a new value, which becomes the new base value.
    pub fn set(&mut self, val: usize)
        ensures
            final(self).well_formed(),
            final(self).value() == val,
            final(self).base_value() == val,
            final(self).inc_count() == 0,
            final(self).ordering() == old(self).ordering(),
    {
        self.cell = val;
        self.base = Ghost(val);
        self.incs = Ghost(0);
    }

    /// Increments the counter by one, wrapping at the width of `usize`, and
    /// returns the previous value.
    pub fn inc(&mut self) -> (prev: usize)
        requires
            old(self).well_formed(),
        ensures
            final(self).well_formed(),
            prev == old(self).value(),
            final(self).value() == old(self).value().wrapping_add(1),
            final(self).inc_count() == old(self).inc_count() + 1,
            final(self).base_value() == old(self).base_value(),
            final(self).ordering() == old(self).ordering(),
    {
        let prev = self.cell;
        self.cell = self.cell.wrapping_add(1);
        proof {
            let m = usize::MAX as int + 1;
            let count = old(self).base_value() + old(self).inc_count();
            if prev + 1 > usize::MAX {
                lemma_multiple_vanishes(self.cell as int, 1, m);
            }
            lemma_congruent_add(prev as int, count, 1, 1, m);
        }
        self.incs = Ghost(self.incs@ + 1);
        prev
    }

    /// Resets the counter to zero (not to an arbitrary default).
    pub fn reset(&mut self)
        ensures
            final(self).well_formed(),
            final(self).value() == 0,
            final(self).base_value() == 0,
            final(self).inc_count() == 0,
            final(self).ordering() == old(self).ordering(),
    {
        self.cell = 0;
        self.base = Ghost(0);
        self.incs = Ghost(0);
    }

    /// A well-formed counter whose base value and increment count fit the
    /// width reads exactly the base value plus the increment count.
    pub proof fn lemma_get_exact(self)
        requires
            self.well_formed(),
            self.base_value() + self.inc_count() <= usize::MAX,
        ensures
            self.value() == self.base_value() + self.inc_count(),
    {
        lemma_congruent_close_equal(
            self.value() as int,
            self.base_value() + self.inc_count(),
            usize::MAX as int + 1,
        );
    }
}

/// An exact counter over `i8`.
///
/// Calling `inc` N times always results in the counter being incremented by
/// exactly N: `get` returns the base value plus the number of completed
/// increments, wrapped at the width of the counted type.
pub struct CounterI8 {
    cell: i8,
    mode: MemoryOrdering,
    base: Ghost<i8>,
    incs: Ghost<nat>,
}

impl CounterI8 {
    /// The value currently held in the cell.
    pub closed spec fn value(self) -> i8 {
        self.cell
    }

    /// The ordering mode captured at construction.
    pub closed spec fn ordering(self) -> MemoryOrdering {
        self.mode
    }

    /// The value the counter last started counting from.
    pub closed spec fn base_value(self) -> i8 {
        self.base@
    }

    /// The number of completed increments since the base value was set.
    pub closed spec fn inc_count(self) -> nat {
        self.incs@
    }

    /// The cell holds the base value plus the increment count, wrapped at
    /// the width of `i8`. Constructors establish this and every method
    /// preserves it.
    pub open spec fn well_formed(self) -> bool {
        congruent(self.value() as int, self.base_value() + self.inc_count(), 0x100int)
    }

    /// Creates a new counter starting from the given value, with the
    /// default `SeqCst` mode, which makes the strongest ordering guarantees.
    pub fn new(val: i8) -> (c: CounterI8)
        ensures
            c.well_formed(),
            c.value() == val,
            c.base_value() == val,
            c.inc_count() == 0,
            c.ordering() == MemoryOrdering::SeqCst,
    {
        CounterI8 { cell: val, mode: MemoryOrdering::SeqCst, base: Ghost(val), incs: Ghost(0) }
    }

    /// Creates a new counter with the given ordering mode, which must be
    /// one of `Relaxed`, `AcqRel` and `SeqCst`.
    pub fn with_ordering(val: i8, ordering: MemoryOrdering) -> (c: CounterI8)
        requires
            ordering.valid_for_rmw(),
        ensures
            c.well_formed(),
            c.value() == val,
            c.base_value() == val,
            c.inc_count() == 0,
            c.ordering() == ordering,
    {
        CounterI8 { cell: val, mode: ordering, base: Ghost(val), incs: Ghost(0) }
    }

    /// Gets the current value of the counter.
    pub fn get(&self) -> (r: i8)
        ensures
            r == self.value(),
    {
        self.cell
    }

    /// Sets the counter to a new value, which becomes the new base value.
    pub fn set(&mut self, val: i8)
        ensures
            final(self).well_formed(),
            final(self).value() == val,
            final(self).base_value() == val,
            final(self).inc_count() == 0,
            final(self).ordering() == old(self).ordering(),
    {
        self.cell = val;
        self.base = Ghost(val);
        self.incs = Ghost(0);
    }

    /// Increments the counter by one, wrapping at the width of `i8`, and
    /// returns the previous value.
    pub fn inc(&mut self) -> (prev: i8)
        requires
            old(self).well_formed(),
        ensures
            final(self).well_formed(),
            prev == old(self).value(),
            final(self).value() == old(self).value().wrapping_add(1),
            final(self).inc_count() == old(self).inc_count() + 1,
            final(self).base_value() == old(self).base_value(),
            final(self).ordering() == old(self).ordering(),
    {
        let prev = self.cell;
        self.cell = self.cell.wrapping_add(1);
        proof {
            let m = 0x100int;
            let count = old(self).base_value() + old(self).inc_count();
            if prev + 1 > i8::MAX {
                lemma_multiple_vanishes(self.cell as int, 1, m);
            }
            lemma_congruent_add(prev as int, count, 1, 1, m);
        }
        self.incs = Ghost(self.incs@ + 1);
        prev
    }

    /// Resets the counter to zero (not to an arbitrary default).
    pub fn reset(&mut self)
        ensures
            final(self).well_formed(),
            final(self).value() == 0,
            final(self).base_value() == 0,
            final(self).inc_count() == 0,
            final(self).ordering() == old(self).ordering(),
    {
        self.cell = 0;
        self.base = Ghost(0);
        self.incs = Ghost(0);
    }

    /// A well-formed counter whose base value and increment count fit the
    /// width reads exactly the base value plus the increment count.
    pub proof fn lemma_get_exact(self)
        requires
            self.well_formed(),
            self.base_value() + self.inc_count() <= i8::MAX,
        ensures
            self.value() == self.base_value() + self.inc_count(),
    {
        lemma_congruent_close_equal(
            self.value() as int,
            self.base_value() + self.inc_count(),
            0x100int,
        );
    }
}

/// An exact counter over `i16`.
///
/// Calling `inc` N times always results in the counter being incremented by
/// exactly N: `get` returns the base value plus the number of completed
/// increments, wrapped at the width of the counted type.
pub struct CounterI16 {
    cell: i16,
    mode: MemoryOrdering,
    base: Ghost<i16>,
    incs: Ghost<nat>,
}

impl CounterI16 {
    /// The value currently held in the cell.
    pub closed spec fn value(self) -> i16 {
        self.cell
    }

    /// The ordering mode captured at construction.
    pub closed spec fn ordering(self) -> MemoryOrdering {
        self.mode
    }

    /// The value the counter last started counting from.
    pub closed spec fn base_value(self) -> i16 {
        self.base@
    }

    /// The number of completed increments since the base value was set.
    pub closed spec fn inc_count(self) -> nat {
        self.incs@
    }

    /// The cell holds the base value plus the increment count, wrapped at
    /// the width of `i16`. Constructors establish this and every method
    /// preserves it.
    pub open spec fn well_formed(self) -> bool {
        congruent(self.value() as int, self.base_value() + self.inc_count(), 0x1_0000int)
    }

    /// Creates a new counter starting from the given value, with the
    /// default `SeqCst` mode, which makes the strongest ordering guarantees.
    pub fn new(val: i16) -> (c: CounterI16)
        ensures
            c.well_formed(),
            c.value() == val,
            c.base_value() == val,
            c.inc_count() == 0,
            c.ordering() == MemoryOrdering::SeqCst,
    {
        CounterI16 { cell: val, mode: MemoryOrdering::SeqCst, base: Ghost(val), incs: Ghost(0) }
    }

    /// Creates a new counter with the given ordering mode, which must be
    /// one of `Relaxed`, `AcqRel` and `SeqCst`.
    pub fn with_ordering(val: i16, ordering: MemoryOrdering) -> (c: CounterI16)
        requires
            ordering.valid_for_rmw(),
        ensures
            c.well_formed(),
            c.value() == val,
            c.base_value() == val,
            c.inc_count() == 0,
            c.ordering() == ordering,
    {
        CounterI16 { cell: val, mode: ordering, base: Ghost(val), incs: Ghost(0) }
    }

    /// Gets the current value of the counter.
    pub fn get(&self) -> (r: i16)
        ensures
            r == self.value(),
    {
        self.cell
    }

    /// Sets the counter to a new value, which becomes the new base value.
    pub fn set(&mut self, val: i16)
        ensures
            final(self).well_formed(),
            final(self).value() == val,
            final(self).base_value() == val,
            final(self).inc_count() == 0,
            final(self).ordering() == old(self).ordering(),
    {
        self.cell = val;
        self.base = Ghost(val);
        self.incs = Ghost(0);
    }

    /// Increments the counter by one, wrapping at the width of `i16`, and
    /// returns the previous value.
    pub fn inc(&mut self) -> (prev: i16)
        requires
            old(self).well_formed(),
        ensures
            final(self).well_formed(),
            prev == old(self).value(),
            final(self).value() == old(self).value().wrapping_add(1),
            final(self).inc_count() == old(self).inc_count() + 1,
            final(self).base_value() == old(self).base_value(),
            final(self).ordering() == old(self).ordering(),
    {
        let prev = self.cell;
        self.cell = self.cell.wrapping_add(1);
        proof {
            let m = 0x1_0000int;
            let count = old(self).base_value() + old(self).inc_count();
            if prev + 1 > i16::MAX {
                lemma_multiple_vanishes(self.cell as int, 1, m);
            }
            lemma_congruent_add(prev as int, count, 1, 1, m);
        }
        self.incs = Ghost(self.incs@ + 1);
        prev
    }

    /// Resets the counter to zero (not to an arbitrary default).
    pub fn reset(&mut self)
        ensures
            final(self).well_formed(),
            final(self).value() == 0,
            final(self).base_value() == 0,
            final(self).inc_count() == 0,
            final(self).ordering() == old(self).ordering(),
    {
        self.cell = 0;
        self.base = Ghost(0);
        self.incs = Ghost(0);
    }

    /// A well-formed counter whose base value and increment count fit the
    /// width reads exactly the base value plus the increment count.
    pub proof fn lemma_get_exact(self)
        requires
            self.well_formed(),
            self.base_value() + self.inc_count() <= i16::MAX,
        ensures
            self.value() == self.base_value() + self.inc_count(),
    {
        lemma_congruent_close_equal(
            self.value() as int,
            self.base_value() + self.inc_count(),
            0x1_0000int,
        );
    }
}

/// An exact counter over `i32`.
///
/// Calling `inc` N times always results in the counter being incremented by
/// exactly N: `get` returns the base value plus the number of completed
/// increments, wrapped at the width of the counted type.
pub struct CounterI32 {
    cell: i32,
    mode: MemoryOrdering,
    base: Ghost<i32>,
    incs: Ghost<nat>,
}

impl CounterI32 {
    /// The value currently held in the cell.
    pub closed spec fn value(self) -> i32 {
        self.cell
    }

    /// The ordering mode captured at construction.
    pub closed spec fn ordering(self) -> MemoryOrdering {
        self.mode
    }

    /// The value the counter last started counting from.
    pub closed spec fn base_value(self) -> i32 {
        self.base@
    }

    /// The number of completed increments since the base value was set.
    pub closed spec fn inc_count(self) -> nat {
        self.incs@
    }

    /// The cell holds the base value plus the increment count, wrapped at
    /// the width of `i32`. Constructors establish this and every method
    /// preserves it.
    pub open spec fn well_formed(self) -> bool {
        congruent(self.value() as int, self.base_value() + self.inc_count(), 0x1_0000_0000int)
    }

    /// Creates a new counter starting from the given value, with the
    /// default `SeqCst` mode, which makes the strongest ordering guarantees.
    pub fn new(val: i32) -> (c: CounterI32)
        ensures
            c.well_formed(),
            c.value() == val,
            c.base_value() == val,
            c.inc_count() == 0,
            c.ordering() == MemoryOrdering::SeqCst,
    {
        CounterI32 { cell: val, mode: MemoryOrdering::SeqCst, base: Ghost(val), incs: Ghost(0) }
    }

    /// Creates a new counter with the given ordering mode, which must be
    /// one of `Relaxed`, `AcqRel` and `SeqCst`.
    pub fn with_ordering(val: i32, ordering: MemoryOrdering) -> (c: CounterI32)
        requires
            ordering.valid_for_rmw(),
        ensures
            c.well_formed(),
            c.value() == val,
            c.base_value() == val,
            c.inc_count() == 0,
            c.ordering() == ordering,
    {
        CounterI32 { cell: val, mode: ordering, base: Ghost(val), incs: Ghost(0) }
    }

    /// Gets the current value of the counter.
    pub fn get(&self) -> (r: i32)
        ensures
            r == self.value(),
    {
        self.cell
    }

    /// Sets the counter to a new value, which becomes the new base value.
    pub fn set(&mut self, val: i32)
        ensures
            final(self).well_formed(),
            final(self).value() == val,
            final(self).base_value() == val,
            final(self).inc_count() == 0,
            final(self).ordering() == old(self).ordering(),
    {
        self.cell = val;
        self.base = Ghost(val);
        self.incs = Ghost(0);
    }

    /// Increments the counter by one, wrapping at the width of `i32`, and
    /// returns the previous value.
    pub fn inc(&mut self) -> (prev: i32)
        requires
            old(self).well_formed(),
        ensures
            final(self).well_formed(),
            prev == old(self).value(),
            final(self).value() == old(self).value().wrapping_add(1),
            final(self).inc_count() == old(self).inc_count() + 1,
            final(self).base_value() == old(self).base_value(),
            final(self).ordering() == old(self).ordering(),
    {
        let prev = self.cell;
        self.cell = self.cell.wrapping_add(1);
        proof {
            let m = 0x1_0000_0000int;
            let count = old(self).base_value() + old(self).inc_count();
            if prev + 1 > i32::MAX {
                lemma_multiple_vanishes(self.cell as int, 1, m);
            }
            lemma_congruent_add(prev as int, count, 1, 1, m);
        }
        self.incs = Ghost(self.incs@ + 1);
        prev
    }

    /// Resets the counter to zero (not to an arbitrary default).
    pub fn reset(&mut self)
        ensures
            final(self).well_formed(),
            final(self).value() == 0,
            final(self).base_value() == 0,
            final(self).inc_count() == 0,
            final(self).ordering() == old(self).ordering(),
    {
        self.cell = 0;
        self.base = Ghost(0);
        self.incs = Ghost(0);
    }

    /// A well-formed counter whose base value and increment count fit the
    /// width reads exactly the base value plus the increment count.
    pub proof fn lemma_get_exact(self)
        requires
            self.well_formed(),
            self.base_value() + self.inc_count() <= i32::MAX,
        ensures
            self.value() == self.base_value() + self.inc_count(),
    {
        lemma_congruent_close_equal(
            self.value() as int,
            self.base_value() + self.inc_count(),
            0x1_0000_0000int,
        );
    }
}

/// An exact counter over `i64`.
///
/// Calling `inc` N times always results in the counter being incremented by
/// exactly N: `get` returns the base value plus the number of completed
/// increments, wrapped at the width of the counted type.
pub struct CounterI64 {
    cell: i64,
    mode: MemoryOrdering,
    base: Ghost<i64>,
    incs: Ghost<nat>,
}

impl CounterI64 {
    /// The value currently held in the cell.
    pub closed spec fn value(self) -> i64 {
        self.cell
    }

    /// The ordering mode captured at construction.
    pub closed spec fn ordering(self) -> MemoryOrdering {
        self.mode
    }

    /// The value the counter last started counting from.
    pub closed spec fn base_value(self) -> i64 {
        self.base@
    }

    /// The number of completed increments since the base value was set.
    pub closed spec fn inc_count(self) -> nat {
        self.incs@
    }

    /// The cell holds the base value plus the increment count, wrapped at
    /// the width of `i64`. Constructors establish this and every method
    /// preserves it.
    pub open spec fn well_formed(self) -> bool {
        congruent(self.value() as int, self.base_value() + self.inc_count(), 0x1_0000_0000_0000_0000int)
    }

    /// Creates a new counter starting from the given value, with the
    /// default `SeqCst` mode, which makes the strongest ordering guarantees.
    pub fn new(val: i64) -> (c: CounterI64)
        ensures
            c.well_formed(),
            c.value() == val,
            c.base_value() == val,
            c.inc_count() == 0,
            c.ordering() == MemoryOrdering::SeqCst,
    {
        CounterI64 { cell: val, mode: MemoryOrdering::SeqCst, base: Ghost(val), incs: Ghost(0) }
    }

    /// Creates a new counter with the given ordering mode, which must be
    /// one of `Relaxed`, `AcqRel` and `SeqCst`.
    pub fn with_ordering(val: i64, ordering: MemoryOrdering) -> (c: CounterI64)
        requires
            ordering.valid_for_rmw(),
        ensures
            c.well_formed(),
            c.value() == val,
            c.base_value() == val,
            c.inc_count() == 0,
            c.ordering() == ordering,
    {
        CounterI64 { cell: val, mode: ordering, base: Ghost(val), incs: Ghost(0) }
    }

    /// Gets the current value of the counter.
    pub fn get(&self) -> (r: i64)
        ensures
            r == self.value(),
    {
        self.cell
    }

    /// Sets the counter to a new value, which becomes the new base value.
    pub fn set(&mut self, val: i64)
        ensures
            final(self).well_formed(),
            final(self).value() == val,
            final(self).base_value() == val,
            final(self).inc_count() == 0,
            final(self).ordering() == old(self).ordering(),
    {
        self.cell = val;
        self.base = Ghost(val);
        self.incs = Ghost(0);
    }

    /// Increments the counter by one, wrapping at the width of `i64`, and
    /// returns the previous value.
    pub fn inc(&mut self) -> (prev: i64)
        requires
            old(self).well_formed(),
        ensures
            final(self).well_formed(),
            prev == old(self).value(),
            final(self).value() == old(self).value().wrapping_add(1),
            final(self).inc_count() == old(self).inc_count() + 1,
            final(self).base_value() == old(self).base_value(),
            final(self).ordering() == old(self).ordering(),
    {
        let prev = self.cell;
        self.cell = self.cell.wrapping_add(1);
        proof {
            let m = 0x1_0000_0000_0000_0000int;
            let count = old(self).base_value() + old(self).inc_count();
            if prev + 1 > i64::MAX {
                lemma_multiple_vanishes(self.cell as int, 1, m);
            }
            lemma_congruent_add(prev as int, count, 1, 1, m);
        }
        self.incs = Ghost(self.incs@ + 1);
        prev
    }

    /// Resets the counter to zero (not to an arbitrary default).
    pub fn reset(&mut self)
        ensures
            final(self).well_formed(),
            final(self).value() == 0,
            final(self).base_value() == 0,
            final(self).inc_count() == 0,
            final(self).ordering() == old(self).ordering(),
    {
        self.cell = 0;
        self.base = Ghost(0);
        self.incs = Ghost(0);
    }

    /// A well-formed counter whose base value and increment count fit the
    /// width reads exactly the base value plus the increment count.
    pub proof fn lemma_get_exact(self)
        requires
            self.well_formed(),
            self.base_value() + self.inc_count() <= i64::MAX,
        ensures
            self.value() == self.base_value() + self.inc_count(),
    {
        lemma_congruent_close_equal(
            self.value() as int,
            self.base_value() + self.inc_count(),
            0x1_0000_0000_0000_0000int,
        );
    }
}

/// An exact counter over `isize`.
///
/// Calling `inc` N times always results in the counter being incremented by
/// exactly N: `get` returns the base value plus the number of completed
/// increments, wrapped at the width of the counted type.
pub struct CounterIsize {
    cell: isize,
    mode: MemoryOrdering,
    base: Ghost<isize>,
    incs: Ghost<nat>,
}

impl CounterIsize {
    /// The value currently held in the cell.
    pub closed spec fn value(self) -> isize {
        self.cell
    }

    /// The ordering mode captured at construction.
    pub closed spec fn ordering(self) -> MemoryOrdering {
        self.mode
    }

    /// The value the counter last started counting from.
    pub closed spec fn base_value(self) -> isize {
        self.base@
    }

    /// The number of completed increments since the base value was set.
    pub closed spec fn inc_count(self) -> nat {
        self.incs@
    }

    /// The cell holds the base value plus the increment count, wrapped at
    /// the width of `isize`. Constructors establish this and every method
    /// preserves it.
    pub open spec fn well_formed(self) -> bool {
        congruent(self.value() as int, self.base_value() + self.inc_count(), usize::MAX as int + 1)
    }

    /// Creates a new counter starting from the given value, with the
    /// default `SeqCst` mode, which makes the strongest ordering guarantees.
    pub fn new(val: isize) -> (c: CounterIsize)
        ensures
            c.well_formed(),
            c.value() == val,
            c.base_value() == val,
            c.inc_count() == 0,
            c.ordering() == MemoryOrdering::SeqCst,
    {
        CounterIsize { cell: val, mode: MemoryOrdering::SeqCst, base: Ghost(val), incs: Ghost(0) }
    }

    /// Creates a new counter with the given ordering mode, which must be
    /// one of `Relaxed`, `AcqRel` and `SeqCst`.
    pub fn with_ordering(val: isize, ordering: MemoryOrdering) -> (c: CounterIsize)
        requires
            ordering.valid_for_rmw(),
        ensures
            c.well_formed(),
            c.value() == val,
            c.base_value() == val,
            c.inc_count() == 0,
            c.ordering() == ordering,
    {
        CounterIsize { cell: val, mode: ordering, base: Ghost(val), incs: Ghost(0) }
    }

    /// Gets the current value of the counter.
    pub fn get(&self) -> (r: isize)
        ensures
            r == self.value(),
    {
        self.cell
    }

    /// Sets the counter to a new value, which becomes the new base value.
    pub fn set(&mut self, val: isize)
        ensures
            final(self).well_formed(),
            final(self).value() == val,
            final(self).base_value() == val,
            final(self).inc_count() == 0,
            final(self).ordering() == old(self).ordering(),
    {
        self.cell = val;
        self.base = Ghost(val);
        self.incs = Ghost(0);
    }

    /// Increments the counter by one, wrapping at the width of `isize`, and
    /// returns the previous value.
    pub fn inc(&mut self) -> (prev: isize)
        requires
            old(self).well_formed(),
        ensures
            final(self).well_formed(),
            prev == old(self).value(),
            final(self).value() == old(self).value().wrapping_add(1),
            final(self).inc_count() == old(self).inc_count() + 1,
            final(self).base_value() == old(self).base_value(),
            final(self).ordering() == old(self).ordering(),
    {
        let prev = self.cell;
        self.cell = self.cell.wrapping_add(1);
        proof {
            let m = usize::MAX as int + 1;
            let count = old(self).base_value() + old(self).inc_count();
            if prev + 1 > isize::MAX {
                lemma_multiple_vanishes(self.cell as int, 1, m);
            }
            lemma_congruent_add(prev as int, count, 1, 1, m);
        }
        self.incs = Ghost(self.incs@ + 1);
        prev
    }

    /// Resets the counter to zero (not to an arbitrary default).
    pub fn reset(&mut self)
        ensures
            final(self).well_formed(),
            final(self).value() == 0,
            final(self).base_value() == 0,
            final(self).inc_count() == 0,
            final(self).ordering() == old(self).ordering(),
    {
        self.cell = 0;
        self.base = Ghost(0);
        self.incs = Ghost(0);
    }

    /// A well-formed counter whose base value and increment count fit the
    /// width reads exactly the base value plus the increment count.
    pub proof fn lemma_get_exact(self)
        requires
            self.well_formed(),
            self.base_value() + self.inc_count() <= isize::MAX,
        ensures
            self.value() == self.base_value() + self.inc_count(),
    {
        lemma_congruent_close_equal(
            self.value() as int,
            self.base_value() + self.inc_count(),
            usize::MAX as int + 1,
        );
    }
}

} // verus!
