//! Putting integers in order.

use vstd::prelude::*;

verus! {

pub open spec fn int_leq() -> spec_fn(i128, i128) -> bool {
    |a: i128, b: i128| a <= b
}

/// Integers from the smallest to the largest.
pub open spec fn ascending_ints(s: Seq<i128>) -> Seq<i128> {
    s.sort_by(int_leq())
}

/// The integers in order.
pub fn sorted_ints(xs: &Vec<i128>) -> (v: Vec<i128>)
    ensures
        v@ == ascending_ints(xs@),
        v@.len() == xs@.len(),
{
    let mut v: Vec<i128> = Vec::new();
    let mut i: usize = 0;
    proof {
        assert(xs@.subrange(0, 0) =~= v@);
    }
    while i < xs.len()
        invariant
            i <= xs@.len(),
            v@.len() == i,
            v@.to_multiset() == xs@.subrange(0, i as int).to_multiset(),
            forall|a: int, b: int| 0 <= a < b < v@.len() ==> #[trigger] v@[a] <= #[trigger] v@[b],
        decreases xs@.len() - i,
    {
        let x: i128 = xs[i];
        let mut at: usize = v.len();
        while at > 0 && x < v[at - 1]
            invariant
                at <= v@.len(),
                forall|b: int| at <= b < v@.len() ==> x < #[trigger] v@[b],
            decreases at,
        {
            at = at - 1;
        }
        let ghost before = v@;
        v.insert(at, x);
        proof {
            broadcast use vstd::seq_lib::group_to_multiset_ensures;

            assert(xs@.subrange(0, i + 1) =~= xs@.subrange(0, i as int).push(x));
            before.to_multiset_ensures();
            assert(v@ =~= before.insert(at as int, x));
            assert(v@.to_multiset() =~= before.to_multiset().insert(x));
        }
        i = i + 1;
    }
    proof {
        assert(xs@.subrange(0, i as int) =~= xs@);
        let leq = int_leq();
        assert(vstd::relations::total_ordering(leq));
        xs@.lemma_sort_by_ensures(leq);
        vstd::seq_lib::lemma_sorted_unique(v@, xs@.sort_by(leq), leq);
    }
    v
}

/// The middle of a list of integers.
#[derive(Clone, Copy, Debug, PartialEq, Eq, Structural)]
pub enum MiddleInt {
    /// The one in the middle of an odd number.
    One(i128),
    /// The two in the middle of an even number, whose mean is the median.
    Two(i128, i128),
}

/// The smallest, the middle and the largest of a list.
#[derive(Clone, Copy, Debug, PartialEq, Eq, Structural)]
pub struct Range {
    pub middle: MiddleInt,
    pub lowest: i128,
    pub highest: i128,
}

/// The range of a list that holds something.
pub open spec fn range_of(s: Seq<i128>) -> Range {
    let v = ascending_ints(s);
    let n = v.len() as int;
    Range {
        middle: if n % 2 == 1 {
            MiddleInt::One(v[n / 2])
        } else {
            MiddleInt::Two(v[n / 2 - 1], v[n / 2])
        },
        lowest: v[0],
        highest: v[n - 1],
    }
}

pub fn range(xs: &Vec<i128>) -> (r: Option<Range>)
    ensures
        r == (if xs@.len() == 0 {
            None
        } else {
            Some(range_of(xs@))
        }),
{
    let v: Vec<i128> = sorted_ints(xs);
    let n: usize = v.len();
    if n == 0 {
        return None;
    }
    Some(
        Range {
            middle: if n % 2 == 1 {
                MiddleInt::One(v[n / 2])
            } else {
                MiddleInt::Two(v[n / 2 - 1], v[n / 2])
            },
            lowest: v[0],
            highest: v[n - 1],
        },
    )
}

/// Every number of a list lies between the lowest and the highest, and so does the middle.
pub proof fn a_range_holds_the_list(s: Seq<i128>, i: int)
    requires
        0 <= i < s.len(),
    ensures
        range_of(s).lowest <= s[i] <= range_of(s).highest,
        match range_of(s).middle {
            MiddleInt::One(m) => range_of(s).lowest <= m <= range_of(s).highest,
            MiddleInt::Two(a, b) => range_of(s).lowest <= a <= b <= range_of(s).highest,
        },
{
    let leq = int_leq();
    let v = ascending_ints(s);
    assert(vstd::relations::total_ordering(leq));
    s.lemma_sort_by_ensures(leq);
    s.to_multiset_ensures();
    v.to_multiset_ensures();
    assert(v.len() == s.len());
    assert(s.to_multiset().count(s[i]) > 0) by {
        assert(s.contains(s[i]));
    }
    assert(v.contains(s[i]));
    let j = choose|j: int| 0 <= j < v.len() && v[j] == s[i];
    assert(forall|a: int, b: int| 0 <= a < b < v.len() ==> leq(v[a], v[b]));
    let n = v.len() as int;
    assert(0 < j ==> leq(v[0], v[j]));
    assert(j < n - 1 ==> leq(v[j], v[n - 1]));
    assert(0 < n / 2 ==> leq(v[0], v[n / 2]));
    assert(n / 2 < n - 1 ==> leq(v[n / 2], v[n - 1]));
    if n % 2 == 0 {
        assert(leq(v[n / 2 - 1], v[n / 2]));
        assert(0 < n / 2 - 1 ==> leq(v[0], v[n / 2 - 1]));
    }
}

/// The middle splits the list in half, and the ends are the ends: in order, as many numbers stand
/// before the middle as after it.
pub proof fn the_range_is_read_from_the_list_in_order(s: Seq<i128>)
    requires
        s.len() > 0,
    ensures
        ({
            let v = ascending_ints(s);
            let n = s.len() as int;
            &&& v.len() == n
            &&& v.to_multiset() == s.to_multiset()
            &&& forall|i: int, j: int| 0 <= i < j < n ==> #[trigger] v[i] <= #[trigger] v[j]
            &&& match range_of(s).middle {
                MiddleInt::One(m) => exists|i: int|
                    0 <= i < n && m == #[trigger] v[i] && i == n - (i + 1),
                MiddleInt::Two(a, b) => exists|i: int|
                    0 <= i < n - 1 && a == #[trigger] v[i] && b == v[i + 1] && i == n - (i + 2),
            }
            &&& s.contains(range_of(s).lowest)
            &&& s.contains(range_of(s).highest)
        }),
{
    let leq = int_leq();
    let v = ascending_ints(s);
    let n = s.len() as int;
    assert(vstd::relations::total_ordering(leq));
    s.lemma_sort_by_ensures(leq);
    s.to_multiset_ensures();
    v.to_multiset_ensures();
    assert forall|i: int, j: int| 0 <= i < j < n implies #[trigger] v[i] <= #[trigger] v[j] by {
        assert(leq(v[i], v[j]));
    }
    assert(v.contains(v[0]) && v.to_multiset().count(v[0]) > 0);
    assert(v.contains(v[n - 1]) && v.to_multiset().count(v[n - 1]) > 0);
    if n % 2 == 1 {
        let i = n / 2;
        assert(i == n - (i + 1) && v[i] == v[n / 2]);
    } else {
        let i = n / 2 - 1;
        assert(i == n - (i + 2) && v[i] == v[n / 2 - 1]);
    }
}

} // verus!
