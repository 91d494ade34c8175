//! Small result combinators.
use vstd::prelude::*;

verus! {

/// Combines two results with a two-argument function: the first error
/// wins, and two successes are mapped through `f`.
pub fn rmap2<T, U, V, E, F>(r1: Result<T, E>, r2: Result<U, E>, f: F) -> (r: Result<V, E>) where
    F: FnOnce(T, U) -> V,

    requires
        r1 is Ok && r2 is Ok ==> call_requires(f, (r1->Ok_0, r2->Ok_0)),
    ensures
        r1 is Err ==> r is Err && r->Err_0 == r1->Err_0,
        r1 is Ok && r2 is Err ==> r is Err && r->Err_0 == r2->Err_0,
        r1 is Ok && r2 is Ok ==> r is Ok && call_ensures(f, (r1->Ok_0, r2->Ok_0), r->Ok_0),
{
    match r1 {
        Err(e) => Err(e),
        Ok(a) => match r2 {
            Err(e) => Err(e),
            Ok(b) => Ok(f(a, b)),
        },
    }
}

} // verus!
