use global_counter::primitive::fast::{
    ApproxCounterI64, ApproxCounterU32, ApproxCounterU64, ApproxCounterUsize, FlushingCounterU64,
    FlushingCounterUsize,
};

#[test]
fn approx_new_const() {
    let mut counter = ApproxCounterUsize::new(0, 1024);
    assert_eq!(counter.get(), 0);
    let tid = counter.register_thread();
    counter.inc(tid);
    assert!(counter.get() <= 1);
}

#[test]
fn approx_flush_single_threaded() {
    let mut counter = ApproxCounterU64::new(0, 1024);
    assert_eq!(counter.get(), 0);
    let tid = counter.register_thread();
    counter.inc(tid);
    counter.flush(tid);
    assert_eq!(counter.get(), 1);
}

#[test]
fn approx_negative_start_flush() {
    let mut counter = ApproxCounterI64::new(-1154, 1024);
    assert_eq!(counter.get(), -1154);
    let tid = counter.register_thread();
    counter.inc(tid);
    counter.flush(tid);
    assert_eq!(counter.get(), -1153);
}

#[test]
fn approx_negative_to_positive() {
    let mut counter = ApproxCounterI64::new(-999, 1000);
    assert_eq!(counter.get(), -999);

    let tid = counter.register_thread();
    for _ in 0..1000 {
        counter.inc(tid);
    }
    assert!(counter.get() > 0);
}

#[test]
fn approx_count_to_50000_single_threaded() {
    const NUM_THREADS: u32 = 1;
    const LOCAL_ACC: u32 = 1024;
    const GLOBAL_ACC: u32 = LOCAL_ACC * NUM_THREADS;
    let mut counter = ApproxCounterU32::new(0, LOCAL_ACC);
    assert_eq!(counter.get(), 0);

    let tid = counter.register_thread();
    for _ in 0..50000 {
        counter.inc(tid);
    }

    assert!(50000 - GLOBAL_ACC <= counter.get() && counter.get() <= 50000 + GLOBAL_ACC);
}

#[test]
fn flushing_new_const() {
    let counter = FlushingCounterUsize::new(0);
    assert_eq!(counter.get(), 0);
}

#[test]
fn flushing_count_to_50000_single_threaded() {
    let mut counter = FlushingCounterU64::new(0);
    assert_eq!(counter.get(), 0);

    let tid = counter.register_thread();
    for _ in 0..50000 {
        counter.inc(tid);
    }

    counter.flush(tid);

    assert_eq!(50000, counter.get());
}

#[test]
fn flushing_interleaved_threads_flushed_exact() {
    let mut counter = FlushingCounterU64::new(0);
    let tids: Vec<usize> = (0..5).map(|_| counter.register_thread()).collect();

    for _ in 0..10000 {
        for &tid in &tids {
            counter.inc(tid);
        }
    }
    for &tid in &tids {
        counter.flush(tid);
    }

    assert_eq!(50000, counter.get());
}

#[test]
fn flushing_partial_flush_is_lower_bound() {
    let mut counter = FlushingCounterU64::new(0);
    let first = counter.register_thread();
    let second = counter.register_thread();

    for _ in 0..10 {
        counter.inc(first);
        counter.inc(second);
    }

    assert_eq!(counter.get(), 0);
    counter.flush(first);
    assert_eq!(counter.get(), 10);
    counter.flush(second);
    assert_eq!(counter.get(), 20);
}

#[test]
fn approx_interleaved_error_bound() {
    const NUM_THREADS: u32 = 5;
    const LOCAL_ACC: u32 = 419;
    const GLOBAL_ACC: u32 = (LOCAL_ACC - 1) * NUM_THREADS;
    let mut counter = ApproxCounterU32::new(0, LOCAL_ACC);
    let tids: Vec<usize> = (0..5).map(|_| counter.register_thread()).collect();

    for _ in 0..10000 {
        for &tid in &tids {
            counter.inc(tid);
        }
    }

    assert!(50000 - GLOBAL_ACC <= counter.get() && counter.get() <= 50000 + GLOBAL_ACC);
}

#[test]
fn approx_flushed_interleaved_exact() {
    let mut counter = ApproxCounterU32::new(0, 419);
    let tids: Vec<usize> = (0..5).map(|_| counter.register_thread()).collect();

    for _ in 0..10000 {
        for &tid in &tids {
            counter.inc(tid);
        }
    }
    for &tid in &tids {
        counter.flush(tid);
    }

    assert_eq!(50000, counter.get());
}

#[test]
fn approx_resolution_one_is_exact() {
    let mut counter = ApproxCounterU64::new(0, 1);
    let tid = counter.register_thread();
    for _ in 0..100 {
        counter.inc(tid);
    }
    assert_eq!(counter.get(), 100);
}

#[test]
fn approx_resolution_zero_is_exact() {
    let mut counter = ApproxCounterU64::new(0, 0);
    let tid = counter.register_thread();
    for _ in 0..5 {
        counter.inc(tid);
    }
    assert_eq!(counter.get(), 5);
}
