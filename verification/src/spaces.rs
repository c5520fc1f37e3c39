//! Spaces of observations and actions.

use vstd::prelude::*;

use rand::rngs::StdRng;

use crate::rng::next_u32;

verus! {

/// The element of `[0, n)` that a random word selects.
pub open spec fn draw_to_element(draw: u32, n: usize) -> nat {
    draw as nat % n as nat
}

/// The finite set of integers `[0, n)`.
#[derive(Debug, Clone)]
pub struct Discrete {
    pub n: usize,
}

impl Discrete {
    /// The space `[0, n)`.
    pub fn new(n: usize) -> (d: Self)
        ensures
            d.n == n,
    {
        Self { n }
    }

    /// The shape of the space: the single number `n`.
    pub fn shape(&self) -> (s: Vec<usize>)
        ensures
            s@ == seq![self.n],
    {
        let mut s = Vec::new();
        s.push(self.n);
        s
    }

    /// The element of the space that a raw random word selects: the word
    /// reduced modulo `n`.
    pub fn element_from_draw(&self, draw: u32) -> (v: usize)
        requires
            self.n > 0,
        ensures
            v == draw_to_element(draw, self.n),
            v < self.n,
    {
        (draw as usize) % self.n
    }

    /// Draws one element of the space from `rng`: a random word reduced
    /// modulo `n`.
    pub fn sample(&self, rng: &mut StdRng) -> (v: usize)
        requires
            self.n > 0,
        ensures
            v < self.n,
            exists|d: u32| v == #[trigger] draw_to_element(d, self.n),
    {
        let draw = next_u32(rng);
        let v = self.element_from_draw(draw);
        assert(v == draw_to_element(draw, self.n));
        v
    }
}

/// Whether bounds with `low_len` lower and `high_len` upper values fit a box
/// of the given shape: both bound vectors have one value per element of the
/// shape, and the element count does not overflow.
pub open spec fn box_layout_ok(low_len: nat, high_len: nat, shape: Seq<usize>) -> bool {
    &&& low_len == high_len
    &&& !shape_product_overflows(shape)
    &&& low_len == shape_product(shape)
}

/// A box layout is accepted exactly when the lower and upper bounds have
/// the same length, that length is the product of the shape's dimensions,
/// and forming that product never overflows.
pub proof fn lemma_box_layout(low_len: nat, high_len: nat, shape: Seq<usize>)
    ensures
        box_layout_ok(low_len, high_len, shape) ==> low_len == high_len,
        box_layout_ok(low_len, high_len, shape) ==> low_len == shape_product(shape),
        box_layout_ok(low_len, high_len, shape) <== low_len == high_len && low_len
            == shape_product(shape) && !shape_product_overflows(shape),
{
}

/// Checks the layout of a box space: the lower and upper bounds have the
/// same length, and that length is the product of the shape's dimensions.
pub fn box_layout_matches(low_len: usize, high_len: usize, shape: &[usize]) -> (ok: bool)
    ensures
        ok == box_layout_ok(low_len as nat, high_len as nat, shape@),
        ok ==> low_len == high_len,
        ok ==> low_len == shape_product(shape@),
        low_len == high_len && low_len == shape_product(shape@) && !shape_product_overflows(
            shape@,
        ) ==> ok,
{
    if low_len != high_len {
        return false;
    }
    match element_count(shape) {
        Some(count) => low_len == count,
        None => false,
    }
}

/// The product of the dimensions of a shape.
pub open spec fn shape_product(shape: Seq<usize>) -> int
    decreases shape.len(),
{
    if shape.len() == 0 {
        1
    } else {
        shape_product(shape.drop_last()) * shape.last()
    }
}

/// The element count of a shape: an empty shape has one element, and adding
/// a dimension `d` multiplies the count by `d`, whatever the length of the
/// shape. In particular a shape with a zero dimension has no element.
pub proof fn lemma_shape_product(shape: Seq<usize>, d: usize)
    ensures
        shape_product(Seq::<usize>::empty()) == 1,
        shape_product(shape.push(d)) == shape_product(shape) * d,
        shape_product(seq![d]) == d,
{
    assert(shape.push(d).drop_last() =~= shape);
    assert(seq![d].drop_last() =~= Seq::<usize>::empty());
}

/// A shape with a zero dimension has no element.
pub proof fn lemma_shape_product_zero(shape: Seq<usize>, k: int)
    requires
        0 <= k < shape.len(),
        shape[k] == 0,
    ensures
        shape_product(shape) == 0,
    decreases shape.len(),
{
    if k == shape.len() - 1 {
        assert(shape_product(shape) == shape_product(shape.drop_last()) * 0);
    } else {
        lemma_shape_product_zero(shape.drop_last(), k);
        assert(shape_product(shape) == 0 * shape.last());
    }
}

/// Whether multiplying the dimensions one by one, first to last, goes past
/// `usize::MAX` at some point.
pub open spec fn shape_product_overflows(shape: Seq<usize>) -> bool {
    exists|k: int| 0 <= k <= shape.len() && #[trigger] shape_product(shape.take(k)) > usize::MAX
}

/// The number of elements of an array of the given shape, or `None` when
/// computing it overflows a `usize`. A box space is well formed when its
/// bounds hold exactly this many values.
pub fn element_count(shape: &[usize]) -> (count: Option<usize>)
    ensures
        count is None <==> shape_product_overflows(shape@),
        count matches Some(c) ==> c == shape_product(shape@),
{
    let mut acc: usize = 1;
    let mut i: usize = 0;
    assert(shape@.take(0) =~= Seq::<usize>::empty());
    while i < shape.len()
        invariant
            i <= shape.len(),
            acc == shape_product(shape@.take(i as int)),
            forall|k: int| 0 <= k <= i ==> #[trigger] shape_product(shape@.take(k)) <= usize::MAX,
        decreases shape.len() - i,
    {
        assert(shape@.take(i + 1).drop_last() =~= shape@.take(i as int));
        match acc.checked_mul(shape[i]) {
            Some(next) => {
                acc = next;
            },
            None => {
                assert(shape_product(shape@.take(i + 1)) > usize::MAX);
                return None;
            },
        }
        i = i + 1;
    }
    assert(shape@.take(shape.len() as int) =~= shape@);
    assert(!shape_product_overflows(shape@));
    Some(acc)
}

} // verus!
