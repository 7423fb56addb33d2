//! The storage cell behind every metric value. In a concurrent deployment
//! such a cell is a sequentially-consistent atomic word; here mutation goes
//! through `&mut`, so the cell is a plain field whose every update is pinned
//! by a contract.
use vstd::prelude::*;

verus! {

use crate::num::Num;

/// A storage cell holding one metric value.
#[derive(Debug)]
pub struct NumCell<T: Num> {
    value: T,
}

/// The uniform interface over a numeric storage cell: read, write, additive
/// updates, reset, and rendering of a held value.
pub trait AtomicNum: Sized {
    type Type: Num;

    /// The value the cell currently holds.
    spec fn value_spec(&self) -> Self::Type;

    fn new() -> (r: Self)
        ensures
            r.value_spec() == <Self::Type as Num>::zero_spec(),
    ;

    /// Increment the value by 1.
    fn inc(&mut self)
        ensures
            final(self).value_spec() == old(self).value_spec().add_spec(
                <Self::Type as Num>::one_spec(),
            ),
    ;

    /// Increment the value by `inc`.
    fn inc_by(&mut self, inc: Self::Type)
        ensures
            final(self).value_spec() == old(self).value_spec().add_spec(inc),
    ;

    /// Decrement the value by 1.
    fn dec(&mut self)
        ensures
            final(self).value_spec() == old(self).value_spec().sub_spec(
                <Self::Type as Num>::one_spec(),
            ),
    ;

    /// Decrement the value by `dec`.
    fn dec_by(&mut self, dec: Self::Type)
        ensures
            final(self).value_spec() == old(self).value_spec().sub_spec(dec),
    ;

    /// Set the value to `val`.
    fn set(&mut self, val: Self::Type)
        ensures
            final(self).value_spec() == val,
    ;

    /// Get the current value.
    fn get(&self) -> (r: Self::Type)
        ensures
            r == self.value_spec(),
    ;

    /// Reset the value to 0.
    fn clear(&mut self)
        ensures
            final(self).value_spec() == <Self::Type as Num>::zero_spec(),
    ;

    /// Append `val` to `buf` in the exposition format's numeric conventions.
    fn format(val: Self::Type, buf: &mut String, quotes: bool)
        ensures
            final(buf)@ == old(buf)@ + val.fmt_spec(quotes),
    ;
}

impl<T: Num> AtomicNum for NumCell<T> {
    type Type = T;

    closed spec fn value_spec(&self) -> T {
        self.value
    }

    fn new() -> Self {
        NumCell { value: T::zero() }
    }

    fn inc(&mut self) {
        self.value = self.value.add_val(T::one());
    }

    fn inc_by(&mut self, inc: T) {
        self.value = self.value.add_val(inc);
    }

    fn dec(&mut self) {
        self.value = self.value.sub_val(T::one());
    }

    fn dec_by(&mut self, dec: T) {
        self.value = self.value.sub_val(dec);
    }

    fn set(&mut self, val: T) {
        self.value = val;
    }

    fn get(&self) -> T {
        self.value
    }

    fn clear(&mut self) {
        self.value = T::zero();
    }

    fn format(val: T, buf: &mut String, quotes: bool) {
        val.format_into(buf, quotes);
    }
}

} // verus!
