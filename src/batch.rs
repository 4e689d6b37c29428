use vstd::prelude::*;

use crate::error::{check_dimensions, DimensionMismatch};

verus! {

/// Applies `f` to every item and stores the result in the output slot of the
/// same index.
///
/// The lengths are compared before anything is computed: when they differ the
/// call fails with `DimensionMismatch` and `out` is left as it was. Otherwise
/// slot `i` holds what `f` returned for item `i`, for every `i`.
pub fn map_into<T: Copy, U, F: Fn(T) -> U>(items: &[T], out: &mut [U], f: F) -> (r: Result<
    (),
    DimensionMismatch,
>)
    requires
        forall|i: int| 0 <= i < items@.len() ==> f.requires((items@[i],)),
    ensures
        r is Err <==> items@.len() != old(out)@.len(),
        r is Err ==> final(out)@ == old(out)@,
        final(out)@.len() == old(out)@.len(),
        r is Ok ==> forall|i: int|
            0 <= i < items@.len() ==> f.ensures((items@[i],), #[trigger] final(out)@[i]),
{
    let n: usize = out.len();
    check_dimensions(items.len(), n)?;
    let mut i: usize = 0;
    while i < n
        invariant
            n == items@.len(),
            n == out@.len(),
            0 <= i <= n,
            forall|j: int| 0 <= j < items@.len() ==> f.requires((items@[j],)),
            forall|j: int| 0 <= j < i ==> f.ensures((items@[j],), #[trigger] out@[j]),
        decreases n - i,
    {
        let v = f(items[i]);
        out[i] = v;
        i = i + 1;
    }
    Ok(())
}

/// Combines the items of `a` and `b` that stand at the same index with `f`.
///
/// Fails with `DimensionMismatch` exactly when the two lengths differ;
/// otherwise item `i` of the result is what `f` returned for `a[i]` and `b[i]`.
pub fn zip_with<T: Copy, U, F: Fn(T, T) -> U>(a: &[T], b: &[T], f: F) -> (r: Result<
    Vec<U>,
    DimensionMismatch,
>)
    requires
        forall|i: int|
            0 <= i < a@.len() && i < b@.len() ==> f.requires((a@[i], b@[i])),
    ensures
        r is Err <==> a@.len() != b@.len(),
        r matches Ok(v) ==> {
            &&& v@.len() == a@.len()
            &&& forall|i: int|
                0 <= i < a@.len() ==> f.ensures((a@[i], b@[i]), #[trigger] v@[i])
        },
{
    let n: usize = a.len();
    check_dimensions(n, b.len())?;
    let mut v: Vec<U> = Vec::with_capacity(n);
    let mut i: usize = 0;
    while i < n
        invariant
            n == a@.len(),
            n == b@.len(),
            0 <= i <= n,
            v@.len() == i,
            forall|j: int| 0 <= j < n ==> f.requires((a@[j], b@[j])),
            forall|j: int| 0 <= j < i ==> f.ensures((a@[j], b@[j]), #[trigger] v@[j]),
        decreases n - i,
    {
        let x = f(a[i], b[i]);
        v.push(x);
        i = i + 1;
    }
    Ok(v)
}

} // verus!
