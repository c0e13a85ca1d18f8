//! Order statistics on plain values.

use vstd::prelude::*;

verus! {

/// Splits `data` around its first element: the later elements below it, the first element,
/// and the later elements not below it, each side in the order of `data`. `None` for no data.
pub fn partition(data: &[i64]) -> (r: Option<(Vec<i64>, i64, Vec<i64>)>)
    ensures
        data@.len() == 0 <==> r is None,
        r matches Some((left, pivot, right)) ==> {
            &&& pivot == data@[0]
            &&& left@ == data@.drop_first().filter(|x: i64| x < data@[0])
            &&& right@ == data@.drop_first().filter(|x: i64| x >= data@[0])
        },
{
    if data.len() == 0 {
        return None;
    }
    let pivot = data[0];
    let ghost tail = data@.drop_first();
    let ghost below = |x: i64| x < pivot;
    let ghost above = |x: i64| x >= pivot;
    let mut left: Vec<i64> = Vec::new();
    let mut right: Vec<i64> = Vec::new();
    let mut i: usize = 1;
    assert(tail.subrange(0, 0) =~= Seq::<i64>::empty());
    proof {
        reveal(Seq::filter);
    }
    while i < data.len()
        invariant
            1 <= i <= data@.len(),
            pivot == data@[0],
            tail == data@.drop_first(),
            below == (|x: i64| x < pivot),
            above == (|x: i64| x >= pivot),
            left@ == tail.subrange(0, i - 1).filter(below),
            right@ == tail.subrange(0, i - 1).filter(above),
        decreases data.len() - i,
    {
        let x = data[i];
        proof {
            reveal(Seq::filter);
        }
        assert(tail.subrange(0, i as int).drop_last() =~= tail.subrange(0, i - 1));
        assert(tail.subrange(0, i as int).last() == x);
        if x < pivot {
            left.push(x);
        } else {
            right.push(x);
        }
        i = i + 1;
    }
    assert(tail.subrange(0, data@.len() - 1) =~= tail);
    Some((left, pivot, right))
}

} // verus!
