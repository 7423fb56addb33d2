//! The numeric capability interface shared by every metric: zero and one,
//! wrapping addition and subtraction, ordering, conversion from `u64`, and
//! rendering in the exposition format's numeric conventions.
use vstd::prelude::*;

verus! {

use crate::text::{dec_str, int_str, push_i64, push_u64};

/// A plain numeric value a metric can hold. Arithmetic follows the wrapping
/// semantics of the hardware fetch-add the storage cells stand for, and each
/// operation is pinned to its mathematical specification.
pub trait Num: Sized + Copy {
    spec fn zero_spec() -> Self;

    spec fn one_spec() -> Self;

    spec fn add_spec(self, other: Self) -> Self;

    spec fn sub_spec(self, other: Self) -> Self;

    spec fn le_spec(self, other: Self) -> bool;

    spec fn is_neg_spec(self) -> bool;

    spec fn from_u64_spec(x: u64) -> Self;

    /// The value as it is rendered: quoted when it stands as a label value,
    /// bare when it stands as a sample value.
    spec fn fmt_spec(self, quotes: bool) -> Seq<char>;

    proof fn le_reflexive(x: Self)
        ensures
            x.le_spec(x),
    ;

    fn zero() -> (r: Self)
        ensures
            r == Self::zero_spec(),
    ;

    fn one() -> (r: Self)
        ensures
            r == Self::one_spec(),
    ;

    fn add_val(self, other: Self) -> (r: Self)
        ensures
            r == self.add_spec(other),
    ;

    fn sub_val(self, other: Self) -> (r: Self)
        ensures
            r == self.sub_spec(other),
    ;

    fn le_val(self, other: Self) -> (r: bool)
        ensures
            r == self.le_spec(other),
    ;

    fn is_neg(self) -> (r: bool)
        ensures
            r == self.is_neg_spec(),
    ;

    fn from_u64(x: u64) -> (r: Self)
        ensures
            r == Self::from_u64_spec(x),
    ;

    fn format_into(self, buf: &mut String, quotes: bool)
        ensures
            final(buf)@ == old(buf)@ + self.fmt_spec(quotes),
    ;
}

impl Num for u64 {
    open spec fn zero_spec() -> u64 {
        0u64
    }

    open spec fn one_spec() -> u64 {
        1u64
    }

    open spec fn add_spec(self, other: u64) -> u64 {
        vstd::wrapping::u64_specs::wrapping_add(self, other)
    }

    open spec fn sub_spec(self, other: u64) -> u64 {
        vstd::wrapping::u64_specs::wrapping_sub(self, other)
    }

    open spec fn le_spec(self, other: u64) -> bool {
        self <= other
    }

    open spec fn is_neg_spec(self) -> bool {
        false
    }

    open spec fn from_u64_spec(x: u64) -> u64 {
        x
    }

    open spec fn fmt_spec(self, quotes: bool) -> Seq<char> {
        if quotes {
            seq!['"'] + dec_str(self as int) + seq!['"']
        } else {
            dec_str(self as int)
        }
    }

    proof fn le_reflexive(x: u64) {
    }

    fn zero() -> u64 {
        0
    }

    fn one() -> u64 {
        1
    }

    fn add_val(self, other: u64) -> u64 {
        self.wrapping_add(other)
    }

    fn sub_val(self, other: u64) -> u64 {
        self.wrapping_sub(other)
    }

    fn le_val(self, other: u64) -> bool {
        self <= other
    }

    fn is_neg(self) -> bool {
        false
    }

    fn from_u64(x: u64) -> u64 {
        x
    }

    fn format_into(self, buf: &mut String, quotes: bool) {
        let ghost pre = buf@;
        if quotes {
            buf.push('"');
            push_u64(buf, self);
            buf.push('"');
            proof {
                assert(buf@ =~= pre + self.fmt_spec(true));
            }
        } else {
            push_u64(buf, self);
        }
    }
}

impl Num for i64 {
    open spec fn zero_spec() -> i64 {
        0i64
    }

    open spec fn one_spec() -> i64 {
        1i64
    }

    open spec fn add_spec(self, other: i64) -> i64 {
        vstd::wrapping::i64_specs::wrapping_add(self, other)
    }

    open spec fn sub_spec(self, other: i64) -> i64 {
        vstd::wrapping::i64_specs::wrapping_sub(self, other)
    }

    open spec fn le_spec(self, other: i64) -> bool {
        self <= other
    }

    open spec fn is_neg_spec(self) -> bool {
        self < 0
    }

    open spec fn from_u64_spec(x: u64) -> i64 {
        if x <= i64::MAX {
            x as i64
        } else {
            (x - 0x1_0000_0000_0000_0000) as i64
        }
    }

    open spec fn fmt_spec(self, quotes: bool) -> Seq<char> {
        if quotes {
            seq!['"'] + int_str(self as int) + seq!['"']
        } else {
            int_str(self as int)
        }
    }

    proof fn le_reflexive(x: i64) {
    }

    fn zero() -> i64 {
        0
    }

    fn one() -> i64 {
        1
    }

    fn add_val(self, other: i64) -> i64 {
        self.wrapping_add(other)
    }

    fn sub_val(self, other: i64) -> i64 {
        self.wrapping_sub(other)
    }

    fn le_val(self, other: i64) -> bool {
        self <= other
    }

    fn is_neg(self) -> bool {
        self < 0
    }

    fn from_u64(x: u64) -> i64 {
        if x <= 0x7fff_ffff_ffff_ffff {
            x as i64
        } else {
            let m: u64 = u64::MAX - x;
            -(m as i64) - 1
        }
    }

    fn format_into(self, buf: &mut String, quotes: bool) {
        let ghost pre = buf@;
        if quotes {
            buf.push('"');
            push_i64(buf, self);
            buf.push('"');
            proof {
                assert(buf@ =~= pre + self.fmt_spec(true));
            }
        } else {
            push_i64(buf, self);
        }
    }
}

} // verus!
