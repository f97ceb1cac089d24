use global_counter::generic::{Counter, Inc};

#[derive(Default, PartialEq, Eq, Debug)]
struct PanicOnClone(i32);

impl Clone for PanicOnClone {
    fn clone(&self) -> Self {
        panic!("PanicOnClone cloned");
    }
}

impl Inc for PanicOnClone {
    fn inc(&mut self) {
        self.0.inc();
    }
}

#[test]
fn get_borrowed_doesnt_clone() {
    let counter = Counter::new(PanicOnClone::default());
    assert_eq!(*counter.get_borrowed(), PanicOnClone(0));
}

#[test]
fn get_mut_borrowed_doesnt_clone() {
    let mut counter = Counter::new(PanicOnClone(0));
    assert_eq!(*counter.get_mut_borrowed(), PanicOnClone(0));
}

#[test]
fn generic_count_to_five_single_threaded() {
    let mut counter = Counter::new(u32::default());
    assert_eq!(counter.get_cloned(), 0);
    counter.inc();
    assert_eq!(counter.get_cloned(), 1);
    counter.inc();
    assert_eq!(counter.get_cloned(), 2);
    counter.inc();
    assert_eq!(counter.get_cloned(), 3);
    counter.inc();
    assert_eq!(counter.get_cloned(), 4);
    counter.inc();
    assert_eq!(counter.get_cloned(), 5);
}

#[derive(Clone, Default, PartialEq, Eq, Debug)]
struct Baz<T> {
    i: i32,
    u: i32,
    _marker: std::marker::PhantomData<T>,
}

impl<T> Inc for Baz<T> {
    fn inc(&mut self) {
        self.i += 1;
    }
}

type Bar = Baz<std::cell::RefCell<u32>>;

#[test]
fn count_struct() {
    let mut counter = Counter::new(Bar::default());
    assert_eq!(
        counter.get_cloned(),
        Baz {
            i: 0,
            u: 0,
            _marker: std::marker::PhantomData
        }
    );
    counter.inc();
    assert_eq!(
        counter.get_cloned(),
        Baz {
            i: 1,
            u: 0,
            _marker: std::marker::PhantomData
        }
    );
    counter.inc();
    assert_eq!(
        counter.get_cloned(),
        Baz {
            i: 2,
            u: 0,
            _marker: std::marker::PhantomData
        }
    );
    counter.inc();
    assert_eq!(
        counter.get_cloned(),
        Baz {
            i: 3,
            u: 0,
            _marker: std::marker::PhantomData
        }
    );
    counter.inc();
    assert_eq!(
        counter.get_cloned(),
        Baz {
            i: 4,
            u: 0,
            _marker: std::marker::PhantomData
        }
    );
    counter.inc();
    assert_eq!(
        counter.get_cloned(),
        Baz {
            i: 5,
            u: 0,
            _marker: std::marker::PhantomData
        }
    );
}

#[test]
fn generic_count_to_50000_single_threaded() {
    let mut counter = Counter::new(u32::default());
    assert_eq!(counter.get_cloned(), 0);

    for _ in 0..50000 {
        counter.inc();
    }

    assert_eq!(counter.get_cloned(), 50000);
}

#[test]
fn reset() {
    let mut counter = Counter::new(u32::default());
    assert_eq!(counter.get_cloned(), 0);
    counter.inc();
    assert_eq!(counter.get_cloned(), 1);
    counter.inc();
    assert_eq!(counter.get_cloned(), 2);
    counter.inc();
    assert_eq!(counter.get_cloned(), 3);

    counter.reset();
    assert_eq!(counter.get_cloned(), 0);
    counter.inc();
    assert_eq!(counter.get_cloned(), 1);
}

#[test]
fn inc_cloning_returns_previous() {
    let mut counter = Counter::new(3u32);
    assert_eq!(counter.inc_cloning(), 3);
    assert_eq!(counter.get_cloned(), 4);
}

#[test]
fn set_then_get_cloned() {
    let mut counter = Counter::new(0u32);
    counter.set(41);
    assert_eq!(counter.get_cloned(), 41);
    assert_eq!(*counter.get_borrowed(), 41);
}

#[test]
fn generic_signed_counting() {
    let mut counter = Counter::new(-2i64);
    counter.inc();
    counter.inc();
    counter.inc();
    assert_eq!(counter.get_cloned(), 1);
}
