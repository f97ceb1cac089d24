use global_counter::primitive::exact::{
    CounterI16, CounterI32, CounterI64, CounterI8, CounterIsize, CounterU16, CounterU32,
    CounterU64, CounterU8, CounterUsize, MemoryOrdering,
};

#[test]
fn primitive_new_const() {
    let mut counter_u8 = CounterU8::new(0);
    assert_eq!(counter_u8.get(), 0);
    counter_u8.inc();
    assert_eq!(counter_u8.get(), 1);

    let mut counter_u16 = CounterU16::new(0);
    assert_eq!(counter_u16.get(), 0);
    counter_u16.inc();
    assert_eq!(counter_u16.get(), 1);

    let mut counter_u32 = CounterU32::new(0);
    assert_eq!(counter_u32.get(), 0);
    counter_u32.inc();
    assert_eq!(counter_u32.get(), 1);

    let mut counter_u64 = CounterU64::new(0);
    assert_eq!(counter_u64.get(), 0);
    counter_u64.inc();
    assert_eq!(counter_u64.get(), 1);

    let mut counter_usize = CounterUsize::new(0);
    assert_eq!(counter_usize.get(), 0);
    counter_usize.inc();
    assert_eq!(counter_usize.get(), 1);

    let mut counter_i8 = CounterI8::new(0);
    assert_eq!(counter_i8.get(), 0);
    counter_i8.inc();
    assert_eq!(counter_i8.get(), 1);

    let mut counter_i16 = CounterI16::new(0);
    assert_eq!(counter_i16.get(), 0);
    counter_i16.inc();
    assert_eq!(counter_i16.get(), 1);

    let mut counter_i32 = CounterI32::new(0);
    assert_eq!(counter_i32.get(), 0);
    counter_i32.inc();
    assert_eq!(counter_i32.get(), 1);

    let mut counter_i64 = CounterI64::new(0);
    assert_eq!(counter_i64.get(), 0);
    counter_i64.inc();
    assert_eq!(counter_i64.get(), 1);

    let mut counter_isize = CounterIsize::new(0);
    assert_eq!(counter_isize.get(), 0);
    counter_isize.inc();
    assert_eq!(counter_isize.get(), 1);
}

#[test]
fn primitive_reset() {
    let mut counter = CounterU8::new(0);
    assert_eq!(counter.get(), 0);
    counter.inc();
    assert_eq!(counter.get(), 1);
    counter.inc();
    assert_eq!(counter.get(), 2);
    counter.inc();
    assert_eq!(counter.get(), 3);
    counter.reset();
    assert_eq!(counter.get(), 0);
}

#[test]
fn exact_count_to_five_single_threaded() {
    let mut counter = CounterU32::new(0);
    assert_eq!(counter.get(), 0);
    counter.inc();
    assert_eq!(counter.get(), 1);
    counter.inc();
    assert_eq!(counter.get(), 2);
    counter.inc();
    assert_eq!(counter.get(), 3);
    counter.inc();
    assert_eq!(counter.get(), 4);
    counter.inc();
    assert_eq!(counter.get(), 5);
}

#[test]
fn exact_count_to_50000_single_threaded() {
    let mut counter = CounterU32::new(0);
    assert_eq!(counter.get(), 0);

    for _ in 0..50000 {
        counter.inc();
    }

    assert_eq!(counter.get(), 50000);
}

#[test]
fn with_ordering_counts_the_same() {
    let mut relaxed = CounterU32::with_ordering(7, MemoryOrdering::Relaxed);
    assert_eq!(relaxed.get(), 7);
    relaxed.inc();
    assert_eq!(relaxed.get(), 8);

    let mut acq_rel = CounterU32::with_ordering(7, MemoryOrdering::AcqRel);
    assert_eq!(acq_rel.get(), 7);
    acq_rel.inc();
    assert_eq!(acq_rel.get(), 8);

    let mut seq_cst = CounterU32::with_ordering(7, MemoryOrdering::SeqCst);
    assert_eq!(seq_cst.get(), 7);
    seq_cst.inc();
    assert_eq!(seq_cst.get(), 8);
}

#[test]
fn ordering_downgrades() {
    assert_eq!(
        MemoryOrdering::AcqRel.load_equivalent(),
        MemoryOrdering::Acquire
    );
    assert_eq!(
        MemoryOrdering::AcqRel.store_equivalent(),
        MemoryOrdering::Release
    );
    assert_eq!(
        MemoryOrdering::Relaxed.load_equivalent(),
        MemoryOrdering::Relaxed
    );
    assert_eq!(
        MemoryOrdering::SeqCst.store_equivalent(),
        MemoryOrdering::SeqCst
    );
}

#[test]
fn inc_returns_previous_value() {
    let mut counter = CounterU32::new(5);
    assert_eq!(counter.inc(), 5);
    assert_eq!(counter.get(), 6);
}

#[test]
fn inc_wraps_at_width() {
    let mut counter = CounterU8::new(255);
    assert_eq!(counter.inc(), 255);
    assert_eq!(counter.get(), 0);

    let mut signed = CounterI8::new(127);
    assert_eq!(signed.inc(), 127);
    assert_eq!(signed.get(), -128);
}

#[test]
fn set_then_get() {
    let mut counter = CounterU64::new(0);
    counter.set(123);
    assert_eq!(counter.get(), 123);
}

#[test]
fn reset_then_inc_gives_one() {
    let mut counter = CounterI32::new(77);
    counter.inc();
    counter.reset();
    assert_eq!(counter.get(), 0);
    counter.inc();
    assert_eq!(counter.get(), 1);
}
