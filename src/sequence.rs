//! Sampling of an easing curve into the sequence of values that a transition
//! applies, one per step.

use vstd::prelude::*;

verus! {

/// `r` is the sequence of `steps` values for a transition from `start`
/// along `curve`, where `curve(i, total)` is the value after `i` of `total`
/// equal time units: nothing for no step, `start` alone for one step, and
/// otherwise the curve sampled at `0, 1, ..., steps - 1` out of `steps - 1`.
pub open spec fn is_range_of<T, F: Fn(usize, usize) -> T>(
    start: T,
    steps: usize,
    curve: F,
    r: Seq<T>,
) -> bool {
    &&& r.len() == steps
    &&& steps == 1 ==> r[0] == start
    &&& steps >= 2 ==> forall|i: int|
        0 <= i < steps ==> curve.ensures((i as usize, (steps - 1) as usize), #[trigger] r[i])
}

/// The values of a transition of `steps` steps from `start` along `curve`
/// (see `is_range_of`).
pub fn ease_range<T: Copy, F: Fn(usize, usize) -> T>(start: T, steps: usize, curve: F) -> (r: Vec<T>)
    requires
        steps >= 2 ==> forall|i: usize| i < steps ==> #[trigger] curve.requires((i, (steps - 1) as usize)),
    ensures
        is_range_of(start, steps, curve, r@),
        steps == 0 ==> r@ == Seq::<T>::empty(),
        steps == 1 ==> r@ == seq![start],
{
    let mut r: Vec<T> = Vec::new();
    if steps == 0 {
        return r;
    }
    if steps == 1 {
        r.push(start);
        assert(r@ =~= seq![start]);
        return r;
    }
    let total: usize = steps - 1;
    let mut i: usize = 0;
    while i < steps
        invariant
            steps >= 2,
            total == steps - 1,
            i <= steps,
            r.len() == i,
            forall|j: usize| j < steps ==> #[trigger] curve.requires((j, total)),
            forall|j: int| 0 <= j < i ==> curve.ensures((j as usize, total), #[trigger] r@[j]),
        decreases steps - i,
    {
        let v = curve(i, total);
        r.push(v);
        i = i + 1;
    }
    r
}

/// With a curve that gives exactly `start` at elapsed 0 and exactly `end` at
/// elapsed == total, a transition of two or more steps begins at `start`,
/// ends at `end`, and has one value per step.
pub proof fn lemma_range_ends<T, F: Fn(usize, usize) -> T>(
    start: T,
    end: T,
    steps: usize,
    curve: F,
    r: Seq<T>,
)
    requires
        steps >= 2,
        is_range_of(start, steps, curve, r),
        forall|v: T| #[trigger] curve.ensures((0usize, (steps - 1) as usize), v) ==> v == start,
        forall|v: T| #[trigger] curve.ensures(((steps - 1) as usize, (steps - 1) as usize), v) ==> v == end,
    ensures
        r.len() == steps,
        r[0] == start,
        r[steps - 1] == end,
{
    assert(curve.ensures((0usize, (steps - 1) as usize), r[0]));
    assert(curve.ensures(((steps - 1) as usize, (steps - 1) as usize), r[steps - 1]));
}

} // verus!
