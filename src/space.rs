//! Discrete spaces: the size of each dimension, points given by one value per
//! dimension, and the mixed-radix encoding that flattens a point to one index.

use vstd::prelude::*;

verus! {

/// The number of points of a space whose dimensions have the given sizes.
pub open spec fn dims_product(dims: Seq<usize>) -> nat
    decreases dims.len(),
{
    if dims.len() == 0 {
        1
    } else {
        dims_product(dims.drop_last()) * (dims.last() as nat)
    }
}

/// Every value lies below the size of its dimension, and there is one value per
/// dimension.
pub open spec fn within_bounds(values: Seq<usize>, dims: Seq<usize>) -> bool {
    &&& values.len() == dims.len()
    &&& forall|i: int| 0 <= i < values.len() ==> values[i] < dims[i]
}

/// Every dimension has at least one value.
pub open spec fn all_positive(dims: Seq<usize>) -> bool {
    forall|i: int| 0 <= i < dims.len() ==> dims[i] > 0
}

/// Mixed-radix index of a point: `index = index * size + value`, walking the
/// dimensions in order, so that the last dimension varies fastest.
pub open spec fn mixed_radix(values: Seq<usize>, dims: Seq<usize>) -> nat
    decreases values.len(),
{
    if values.len() == 0 || dims.len() == 0 {
        0
    } else {
        mixed_radix(values.drop_last(), dims.drop_last()) * (dims.last() as nat) + (
        values.last() as nat)
    }
}

/// The point of the space whose mixed-radix index is `index`.
pub open spec fn radix_digits(dims: Seq<usize>, index: nat) -> Seq<usize>
    decreases dims.len(),
{
    if dims.len() == 0 {
        Seq::empty()
    } else {
        let d = dims.last() as nat;
        radix_digits(dims.drop_last(), index / d).push((index % d) as usize)
    }
}

/// A product of positive sizes only grows as dimensions are added.
pub proof fn lemma_prefix_product_le(dims: Seq<usize>, k: int)
    requires
        all_positive(dims),
        0 <= k <= dims.len(),
    ensures
        dims_product(dims.subrange(0, k)) <= dims_product(dims),
    decreases dims.len() - k,
{
    if k < dims.len() {
        let next = dims.subrange(0, k + 1);
        assert(next.drop_last() == dims.subrange(0, k));
        let a = dims_product(dims.subrange(0, k));
        let d = dims[k] as nat;
        assert(a <= a * d) by (nonlinear_arith)
            requires
                d >= 1,
        ;
        lemma_prefix_product_le(dims, k + 1);
    } else {
        assert(dims.subrange(0, k) == dims);
    }
}

/// A space with an empty dimension has no points.
pub proof fn lemma_product_zero(dims: Seq<usize>, j: int)
    requires
        0 <= j < dims.len(),
        dims[j] == 0,
    ensures
        dims_product(dims) == 0,
    decreases dims.len(),
{
    let rest = dims_product(dims.drop_last());
    let last = dims.last() as nat;
    if j < dims.len() - 1 {
        lemma_product_zero(dims.drop_last(), j);
        assert(rest * last == 0) by (nonlinear_arith)
            requires
                rest == 0,
        ;
    } else {
        assert(rest * last == 0) by (nonlinear_arith)
            requires
                last == 0,
        ;
    }
}

/// The shape of a space as the agents read it: the size of each discrete
/// dimension, in order, and the number of continuous dimensions.
#[derive(Debug, Clone, PartialEq, Eq, Hash)]
pub struct SpaceDims {
    pub discrete: Vec<usize>,
    pub continuous: usize,
}

/// The size of the space, or `None` where it does not fit in a `usize`.
pub fn space_size(dims: &[usize]) -> (r: Option<usize>)
    ensures
        r == (if dims_product(dims@) <= usize::MAX {
            Some(dims_product(dims@) as usize)
        } else {
            None::<usize>
        }),
{
    let mut j: usize = 0;
    while j < dims.len()
        invariant
            j <= dims.len(),
            forall|i: int| 0 <= i < j ==> dims@[i] > 0,
        decreases dims.len() - j,
    {
        if dims[j] == 0 {
            proof {
                lemma_product_zero(dims@, j as int);
            }
            return Some(0);
        }
        j = j + 1;
    }
    let mut size: usize = 1;
    let mut i: usize = 0;
    while i < dims.len()
        invariant
            i <= dims.len(),
            all_positive(dims@),
            size == dims_product(dims@.subrange(0, i as int)),
        decreases dims.len() - i,
    {
        assert(dims@.subrange(0, i + 1).drop_last() == dims@.subrange(0, i as int));
        match size.checked_mul(dims[i]) {
            Some(s) => {
                size = s;
            },
            None => {
                proof {
                    lemma_prefix_product_le(dims@, i + 1);
                }
                return None;
            },
        }
        i = i + 1;
    }
    assert(dims@.subrange(0, dims.len() as int) == dims@);
    Some(size)
}

/// The index of a point lies below the size of its space.
pub proof fn lemma_radix_below_product(values: Seq<usize>, dims: Seq<usize>)
    requires
        within_bounds(values, dims),
    ensures
        mixed_radix(values, dims) < dims_product(dims),
    decreases values.len(),
{
    if values.len() > 0 {
        let pv = values.drop_last();
        let pd = dims.drop_last();
        assert(within_bounds(pv, pd));
        lemma_radix_below_product(pv, pd);
        let m = mixed_radix(pv, pd);
        let p = dims_product(pd);
        let d = dims.last() as nat;
        let v = values.last() as nat;
        assert(m * d + v < p * d) by (nonlinear_arith)
            requires
                m < p,
                v < d,
        ;
    }
}

/// Decoding an index below the size of the space gives a point of the space
/// whose index is that number.
pub proof fn lemma_digits_encode(dims: Seq<usize>, index: nat)
    requires
        all_positive(dims),
        index < dims_product(dims),
    ensures
        within_bounds(radix_digits(dims, index), dims),
        mixed_radix(radix_digits(dims, index), dims) == index,
    decreases dims.len(),
{
    if dims.len() > 0 {
        let pd = dims.drop_last();
        let d = dims.last() as nat;
        let q = index / d;
        let p = dims_product(pd);
        assert(q < p) by (nonlinear_arith)
            requires
                index < p * d,
                d > 0,
                q == index / d,
        ;
        lemma_digits_encode(pd, q);
        let digits = radix_digits(dims, index);
        assert(digits.drop_last() == radix_digits(pd, q));
        assert(index == q * d + index % d) by (nonlinear_arith)
            requires
                d > 0,
                q == index / d,
        ;
        assert(index % d < d) by (nonlinear_arith)
            requires
                d > 0,
        ;
    }
}

/// Encoding a point of the space and decoding the index gives the point back.
pub proof fn lemma_encode_digits(values: Seq<usize>, dims: Seq<usize>)
    requires
        within_bounds(values, dims),
    ensures
        radix_digits(dims, mixed_radix(values, dims)) == values,
    decreases values.len(),
{
    if values.len() > 0 {
        let pv = values.drop_last();
        let pd = dims.drop_last();
        assert(within_bounds(pv, pd));
        lemma_encode_digits(pv, pd);
        let m = mixed_radix(pv, pd);
        let d = dims.last() as nat;
        let v = values.last() as nat;
        assert((m * d + v) / d == m && (m * d + v) % d == v) by (nonlinear_arith)
            requires
                v < d,
        ;
        assert(values == pv.push(values.last()));
    }
}

/// The mixed-radix index of a point of the space: `index = index * size + value`
/// over the dimensions in order.
pub fn space_elem_as_int(values: &[usize], dims: &[usize]) -> (r: usize)
    requires
        within_bounds(values@, dims@),
        dims_product(dims@) <= usize::MAX,
    ensures
        r == mixed_radix(values@, dims@),
        r < dims_product(dims@),
{
    proof {
        lemma_radix_below_product(values@, dims@);
    }
    let mut index: usize = 0;
    let mut i: usize = 0;
    while i < dims.len()
        invariant
            i <= dims.len(),
            within_bounds(values@, dims@),
            dims_product(dims@) <= usize::MAX,
            index == mixed_radix(values@.subrange(0, i as int), dims@.subrange(0, i as int)),
        decreases dims.len() - i,
    {
        let ghost pv = values@.subrange(0, i + 1);
        let ghost pd = dims@.subrange(0, i + 1);
        assert(pv.drop_last() == values@.subrange(0, i as int));
        assert(pd.drop_last() == dims@.subrange(0, i as int));
        proof {
            assert(within_bounds(pv, pd));
            lemma_radix_below_product(pv, pd);
            assert(forall|j: int| 0 <= j < dims@.len() ==> dims@[j] > values@[j]);
            lemma_prefix_product_le(dims@, i + 1);
            assert(mixed_radix(pv, pd) == index * dims@[i as int] + values@[i as int]);
        }
        index = index * dims[i] + values[i];
        i = i + 1;
    }
    assert(values@.subrange(0, i as int) == values@);
    assert(dims@.subrange(0, i as int) == dims@);
    index
}

/// The values of `index` in the first `len` dimensions, read as a mixed-radix
/// number.
fn digits_of_prefix(dims: &[usize], len: usize, index: usize) -> (r: Vec<usize>)
    requires
        len <= dims.len(),
        all_positive(dims@),
    ensures
        r@ == radix_digits(dims@.subrange(0, len as int), index as nat),
    decreases len,
{
    if len == 0 {
        Vec::new()
    } else {
        let d = dims[len - 1];
        let mut digits = digits_of_prefix(dims, len - 1, index / d);
        digits.push(index % d);
        assert(dims@.subrange(0, len as int).drop_last() == dims@.subrange(0, len - 1));
        digits
    }
}

/// The point of the space whose mixed-radix index is `index`: the inverse of
/// `space_elem_as_int`.
pub fn elem_of_index(dims: &[usize], index: usize) -> (r: Vec<usize>)
    requires
        all_positive(dims@),
        index < dims_product(dims@),
    ensures
        r@ == radix_digits(dims@, index as nat),
        within_bounds(r@, dims@),
        mixed_radix(r@, dims@) == index,
{
    let r = digits_of_prefix(dims, dims.len(), index);
    assert(dims@.subrange(0, dims.len() as int) == dims@);
    proof {
        lemma_digits_encode(dims@, index as nat);
    }
    r
}

/// Every point of the space, in the order of their mixed-radix indices: from
/// the all-zero point on, the last dimension varying fastest.
pub fn all_elems_as_vec(space: &[usize]) -> (r: Vec<Vec<usize>>)
    requires
        all_positive(space@),
        dims_product(space@) <= usize::MAX,
    ensures
        r.len() == dims_product(space@),
        forall|i: int|
            0 <= i < r.len() ==> within_bounds(#[trigger] r[i]@, space@) && mixed_radix(
                r[i]@,
                space@,
            ) == i,
{
    let n = match space_size(space) {
        Some(n) => n,
        None => 0,
    };
    let mut elems: Vec<Vec<usize>> = Vec::new();
    let mut i: usize = 0;
    while i < n
        invariant
            n == dims_product(space@),
            all_positive(space@),
            i <= n,
            elems.len() == i,
            forall|j: int|
                0 <= j < i ==> within_bounds(#[trigger] elems[j]@, space@) && mixed_radix(
                    elems[j]@,
                    space@,
                ) == j,
        decreases n - i,
    {
        let e = elem_of_index(space, i);
        elems.push(e);
        i = i + 1;
    }
    elems
}

/// Whether a point lies in the space: one value per dimension, each below its
/// dimension's size.
pub fn is_valid_discrete(values: &[usize], dims: &[usize]) -> (r: bool)
    ensures
        r == within_bounds(values@, dims@),
{
    if values.len() != dims.len() {
        return false;
    }
    let mut i: usize = 0;
    while i < values.len()
        invariant
            i <= values.len(),
            values.len() == dims.len(),
            forall|j: int| 0 <= j < i ==> values@[j] < dims@[j],
        decreases values.len() - i,
    {
        if values[i] >= dims[i] {
            return false;
        }
        i = i + 1;
    }
    true
}

/// Relies on `rand::random_range`: a value drawn uniformly from the half-open
/// range `0..n`, which must not be empty.
#[verifier::external_body]
pub(crate) fn random_below(n: usize) -> (r: usize)
    requires
        n > 0,
    ensures
        r < n,
{
    rand::random_range(0..n)
}

/// A point of the space drawn at random, each dimension independently and
/// uniformly.
pub fn gen_random_discrete(dims: &[usize]) -> (r: Vec<usize>)
    requires
        all_positive(dims@),
    ensures
        within_bounds(r@, dims@),
{
    let mut values: Vec<usize> = Vec::new();
    let mut i: usize = 0;
    while i < dims.len()
        invariant
            i <= dims.len(),
            all_positive(dims@),
            values.len() == i,
            forall|j: int| 0 <= j < i ==> values@[j] < dims@[j],
        decreases dims.len() - i,
    {
        let v = random_below(dims[i]);
        values.push(v);
        i = i + 1;
    }
    values
}

} // verus!
