//! Floating-point numbers as the library sees them: bit patterns that are carried and
//! put in order, never computed with.

use vstd::prelude::*;

verus! {

/// The sixty-four bits of a double-precision number.
#[derive(Clone, Copy, Debug, PartialEq, Eq, Hash, Structural)]
pub struct Float64 {
    pub bits: u64,
}

impl Float64 {
    /// The place of a number in the standard's total order: negative numbers come before
    /// positive ones and run backwards in their bits.
    pub open spec fn rank(self) -> int {
        if self.bits < 0x8000_0000_0000_0000 {
            self.bits as int
        } else {
            -1 - (self.bits - 0x8000_0000_0000_0000)
        }
    }

    /// The bits without the sign: the order of absolute values is the order of these.
    pub open spec fn magnitude(self) -> int {
        if self.bits < 0x8000_0000_0000_0000 {
            self.bits as int
        } else {
            self.bits - 0x8000_0000_0000_0000
        }
    }

    /// Not a number: the exponent is all ones and the fraction is not zero.
    pub open spec fn nan(self) -> bool {
        self.magnitude() > 0x7ff0_0000_0000_0000
    }

    /// The comparison `self <= other` of numbers: false where either is not one, and the two
    /// zeros are equal.
    pub open spec fn le(self, other: Float64) -> bool {
        &&& !self.nan()
        &&& !other.nan()
        &&& self.rank() <= other.rank() || (self.magnitude() == 0 && other.magnitude() == 0)
    }

    /// Positive zero.
    pub fn zero() -> (z: Float64)
        ensures
            z.bits == 0,
    {
        Float64 { bits: 0 }
    }

    /// Whether `self` comes before `other` in the total order.
    pub fn precedes(self, other: Float64) -> (b: bool)
        ensures
            b == (self.rank() < other.rank()),
    {
        let a_neg: bool = self.bits >= 0x8000_0000_0000_0000;
        let b_neg: bool = other.bits >= 0x8000_0000_0000_0000;
        if a_neg && b_neg {
            self.bits > other.bits
        } else if a_neg {
            true
        } else if b_neg {
            false
        } else {
            self.bits < other.bits
        }
    }

    /// The bits of the absolute value.
    pub fn magnitude_bits(self) -> (m: u64)
        ensures
            m == self.magnitude(),
    {
        if self.bits < 0x8000_0000_0000_0000 {
            self.bits
        } else {
            self.bits - 0x8000_0000_0000_0000
        }
    }

    /// Whether `self <= other` as numbers.
    pub fn at_most(self, other: Float64) -> (b: bool)
        ensures
            b == self.le(other),
    {
        let a: u64 = self.magnitude_bits();
        let b: u64 = other.magnitude_bits();
        if a > 0x7ff0_0000_0000_0000 || b > 0x7ff0_0000_0000_0000 {
            false
        } else {
            !other.precedes(self) || (a == 0 && b == 0)
        }
    }
}

/// The total order, as a relation.
pub open spec fn rank_leq() -> spec_fn(Float64, Float64) -> bool {
    |a: Float64, b: Float64| a.rank() <= b.rank()
}

/// Numbers from the first to the last in the total order.
pub open spec fn ascending(s: Seq<Float64>) -> Seq<Float64> {
    s.sort_by(rank_leq())
}

/// A rearrangement in order is the one there is.
pub proof fn ascending_is_unique(s: Seq<Float64>, v: Seq<Float64>)
    requires
        v.to_multiset() == s.to_multiset(),
        forall|i: int, j: int| 0 <= i < j < v.len() ==> (#[trigger] v[i]).rank() <= (
        #[trigger] v[j]).rank(),
    ensures
        v == ascending(s),
{
    let leq = rank_leq();
    assert(vstd::relations::total_ordering(leq)) by {
        assert forall|a: Float64, b: Float64| #[trigger] leq(a, b) && #[trigger] leq(b, a) implies a
            == b by {
            rank_is_injective(a, b);
        }
    }
    s.lemma_sort_by_ensures(leq);
    vstd::seq_lib::lemma_sorted_unique(v, s.sort_by(leq), leq);
}

/// The numbers in order.
pub fn sorted(xs: &Vec<Float64>) -> (v: Vec<Float64>)
    ensures
        v@ == ascending(xs@),
        v@.len() == xs@.len(),
{
    let mut v: Vec<Float64> = Vec::new();
    let mut i: usize = 0;
    proof {
        assert(xs@.subrange(0, 0) =~= v@);
    }
    while i < xs.len()
        invariant
            i <= xs@.len(),
            v@.len() == i,
            v@.to_multiset() == xs@.subrange(0, i as int).to_multiset(),
            forall|a: int, b: int| 0 <= a < b < v@.len() ==> (#[trigger] v@[a]).rank() <= (
            #[trigger] v@[b]).rank(),
        decreases xs@.len() - i,
    {
        let x: Float64 = xs[i];
        let mut at: usize = v.len();
        while at > 0 && x.precedes(v[at - 1])
            invariant
                at <= v@.len(),
                forall|b: int| at <= b < v@.len() ==> x.rank() < (#[trigger] v@[b]).rank(),
            decreases at,
        {
            at = at - 1;
        }
        let ghost before = v@;
        v.insert(at, x);
        proof {
            broadcast use vstd::seq_lib::group_to_multiset_ensures;

            assert(xs@.subrange(0, i + 1) =~= xs@.subrange(0, i as int).push(x));
            before.to_multiset_ensures();
            assert(v@ =~= before.insert(at as int, x));
            assert(v@.to_multiset() =~= before.to_multiset().insert(x));
        }
        i = i + 1;
    }
    proof {
        assert(xs@.subrange(0, i as int) =~= xs@);
        ascending_is_unique(xs@, v@);
    }
    v
}

/// No two numbers share a place in the order.
pub proof fn rank_is_injective(a: Float64, b: Float64)
    ensures
        a.rank() == b.rank() ==> a == b,
{
}

/// Putting numbers in order rearranges them and does nothing else: the same numbers, as often
/// each, none before one that it comes after.
pub proof fn ascending_puts_in_order(s: Seq<Float64>)
    ensures
        ascending(s).to_multiset() == s.to_multiset(),
        ascending(s).len() == s.len(),
        forall|i: int, j: int|
            0 <= i < j < s.len() ==> (#[trigger] ascending(s)[i]).rank() <= (
            #[trigger] ascending(s)[j]).rank(),
        forall|i: int| 0 <= i < s.len() ==> s.contains(#[trigger] ascending(s)[i]),
{
    let leq = rank_leq();
    assert(vstd::relations::total_ordering(leq)) by {
        assert forall|a: Float64, b: Float64| #[trigger] leq(a, b) && #[trigger] leq(b, a) implies a
            == b by {
            rank_is_injective(a, b);
        }
    }
    s.lemma_sort_by_ensures(leq);
    let v = ascending(s);
    s.to_multiset_ensures();
    v.to_multiset_ensures();
    assert forall|i: int, j: int| 0 <= i < j < s.len() implies (#[trigger] v[i]).rank() <= (
    #[trigger] v[j]).rank() by {
        assert(leq(v[i], v[j]));
    }
    assert forall|i: int| 0 <= i < s.len() implies s.contains(#[trigger] v[i]) by {
        assert(v.contains(v[i]));
        assert(v.to_multiset().count(v[i]) > 0);
    }
}

/// The order of numbers is an order: what is a number is at most itself, of two numbers one is
/// at most the other, and it goes on from one to the next. What is not a number is in no
/// relation to anything.
pub proof fn numbers_are_ordered(a: Float64, b: Float64, c: Float64)
    ensures
        a.le(a) <==> !a.nan(),
        !a.nan() && !b.nan() ==> a.le(b) || b.le(a),
        a.le(b) && b.le(c) ==> a.le(c),
        a.nan() || b.nan() ==> !a.le(b),
{
}

/// The sign turns the order round: of two positive numbers the one with the larger bits is the
/// larger, of two negative ones the smaller, and a negative number is below every positive one.
/// The two zeros are the same.
pub proof fn the_order_goes_by_sign_and_bits(a: Float64, b: Float64)
    requires
        !a.nan(),
        !b.nan(),
    ensures
        a.bits < 0x8000_0000_0000_0000 && b.bits < 0x8000_0000_0000_0000 ==> (a.le(b) <==> a.bits
            <= b.bits),
        a.bits >= 0x8000_0000_0000_0000 && b.bits >= 0x8000_0000_0000_0000 ==> (a.le(b) <==> a.bits
            >= b.bits),
        a.bits > 0x8000_0000_0000_0000 && b.bits < 0x8000_0000_0000_0000 ==> a.le(b) && !b.le(a),
        a.bits == 0x8000_0000_0000_0000 && b.bits == 0 ==> a.le(b) && b.le(a),
{
}

/// Numbers are those up to infinity, of either sign: the exponent is not all ones, or the rest
/// is zero.
pub proof fn infinity_is_the_last_number(a: Float64)
    ensures
        a.nan() <==> a.bits as int % 0x8000_0000_0000_0000 / 0x10_0000_0000_0000 == 0x7ff
            && a.bits as int % 0x10_0000_0000_0000 != 0,
{
}

} // verus!
