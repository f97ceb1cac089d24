//! A generic counter and the accompanying [`Inc`] trait.

use vstd::prelude::*;

verus! {

use vstd::pervasive::cloned;

/// This trait promises incrementing behaviour.
/// Implemented for the standard integer types, where incrementing is a
/// wrapping addition of one.
///
/// Implement this trait for the types you want to generically count on.
/// [`spec_inc`](Inc::spec_inc) states what one increment makes of a value,
/// and [`inc`](Inc::inc) must realise exactly that. An implementation the
/// verifier has checked keeps that promise; one written outside the
/// verifier is taken at its word, as with any call from unverified code
/// into verified code.
pub trait Inc: Sized {
    /// The successor that one increment produces. The default leaves the
    /// value unchanged and only fits a no-op `inc`; every meaningful
    /// implementation overrides both together.
    open spec fn spec_inc(self) -> Self {
        self
    }

    /// Mutates the value, making it its successor.
    fn inc(&mut self)
        ensures
            *final(self) == old(self).spec_inc(),
    ;
}

impl Inc for u8 {
    open spec fn spec_inc(self) -> u8 {
        self.wrapping_add(1)
    }

    fn inc(&mut self) {
        *self = self.wrapping_add(1);
    }
}

impl Inc for u16 {
    open spec fn spec_inc(self) -> u16 {
        self.wrapping_add(1)
    }

    fn inc(&mut self) {
        *self = self.wrapping_add(1);
    }
}

impl Inc for u32 {
    open spec fn spec_inc(self) -> u32 {
        self.wrapping_add(1)
    }

    fn inc(&mut self) {
        *self = self.wrapping_add(1);
    }
}

impl Inc for u64 {
    open spec fn spec_inc(self) -> u64 {
        self.wrapping_add(1)
    }

    fn inc(&mut self) {
        *self = self.wrapping_add(1);
    }
}

impl Inc for u128 {
    open spec fn spec_inc(self) -> u128 {
        self.wrapping_add(1)
    }

    fn inc(&mut self) {
        *self = self.wrapping_add(1);
    }
}

impl Inc for usize {
    open spec fn spec_inc(self) -> usize {
        self.wrapping_add(1)
    }

    fn inc(&mut self) {
        *self = self.wrapping_add(1);
    }
}

impl Inc for i8 {
    open spec fn spec_inc(self) -> i8 {
        self.wrapping_add(1)
    }

    fn inc(&mut self) {
        *self = self.wrapping_add(1);
    }
}

impl Inc for i16 {
    open spec fn spec_inc(self) -> i16 {
        self.wrapping_add(1)
    }

    fn inc(&mut self) {
        *self = self.wrapping_add(1);
    }
}

impl Inc for i32 {
    open spec fn spec_inc(self) -> i32 {
        self.wrapping_add(1)
    }

    fn inc(&mut self) {
        *self = self.wrapping_add(1);
    }
}

impl Inc for i64 {
    open spec fn spec_inc(self) -> i64 {
        self.wrapping_add(1)
    }

    fn inc(&mut self) {
        *self = self.wrapping_add(1);
    }
}

impl Inc for i128 {
    open spec fn spec_inc(self) -> i128 {
        self.wrapping_add(1)
    }

    fn inc(&mut self) {
        *self = self.wrapping_add(1);
    }
}

impl Inc for isize {
    open spec fn spec_inc(self) -> isize {
        self.wrapping_add(1)
    }

    fn inc(&mut self) {
        *self = self.wrapping_add(1);
    }
}

/// A generic counter over any type that implements [`Inc`].
///
/// The counter owns one protected slot of type `T`. Exclusive access to the
/// slot is what makes the counter safe to share: callers that share one
/// counter between threads wrap it in a mutual-exclusion lock, and each
/// locked section corresponds to one `&mut self` call here. At most one
/// borrow of the slot is live at any instant; the borrow checker enforces
/// statically what the lock enforces at run time.
pub struct Counter<T: Inc>(T);

impl<T: Inc> Counter<T> {
    /// The value currently held in the counter's slot.
    pub closed spec fn value(self) -> T {
        self.0
    }

    /// Creates a new generic counter, taking ownership of the given value.
    pub fn new(val: T) -> (c: Counter<T>)
        ensures
            c.value() == val,
    {
        Counter(val)
    }

    /// Returns an immutable borrow of the underlying value.
    ///
    /// If `T` is not `Clone`, this is the only way to read the current value
    /// of the counter. No clone is ever made.
    pub fn get_borrowed(&self) -> (r: &T)
        ensures
            *r == self.value(),
    {
        &self.0
    }

    /// Returns a mutable borrow of the counted value, through which the
    /// value can be mutated directly.
    ///
    /// Although as safe as its immutable equivalent, usage is discouraged,
    /// as it is highly unidiomatic.
    pub fn get_mut_borrowed(&mut self) -> (r: &mut T)
        ensures
            *r == old(self).value(),
            final(self).value() == *final(r),
    {
        &mut self.0
    }

    /// Sets the counted value to the given value.
    pub fn set(&mut self, val: T)
        ensures
            final(self).value() == val,
    {
        self.0 = val;
    }

    /// Increments the counter, delegating the specific behaviour to the
    /// [`Inc`] trait.
    pub fn inc(&mut self)
        ensures
            final(self).value() == old(self).value().spec_inc(),
    {
        self.0.inc();
    }
}

impl<T: Inc + Clone> Counter<T> {
    /// Reads the current value by cloning it, avoiding any lasting borrow of
    /// the slot.
    pub fn get_cloned(&self) -> (r: T)
        ensures
            cloned(self.value(), r),
    {
        self.0.clone()
    }

    /// Increments the counter and returns the previous value, cloned.
    ///
    /// The clone is taken before the increment, under the same exclusive
    /// access, so no other access can interleave between the read and the
    /// increment.
    pub fn inc_cloning(&mut self) -> (prev: T)
        ensures
            cloned(old(self).value(), prev),
            final(self).value() == old(self).value().spec_inc(),
    {
        let prev = self.0.clone();
        self.0.inc();
        prev
    }
}

/// For an integer-counted counter a clone is the value itself, so a read
/// through `get_cloned` is exact: after `set(v)` it returns exactly `v`,
/// and the value `inc_cloning` hands back is exactly the pre-increment
/// value.
pub proof fn lemma_cloned_u32_exact(a: u32, b: u32)
    requires
        cloned(a, b),
    ensures
        a == b,
{
}

/// The clone-read exactness of [`lemma_cloned_u32_exact`], for counters
/// over `i64`.
pub proof fn lemma_cloned_i64_exact(a: i64, b: i64)
    requires
        cloned(a, b),
    ensures
        a == b,
{
}

/// After `reset`, an integer-counted counter holds zero: whatever
/// `Default::default` returned for the slot, for the standard integer
/// types that value is zero.
pub proof fn lemma_reset_integer_zero(v: u32)
    requires
        call_ensures(<u32 as Default>::default, (), v),
    ensures
        v == 0,
{
}

impl<T: Inc + Default> Counter<T> {
    /// Resets the counter to the type's default value.
    pub fn reset(&mut self)
        ensures
            call_ensures(<T as Default>::default, (), final(self).value()),
    {
        self.0 = T::default();
    }
}

} // verus!
