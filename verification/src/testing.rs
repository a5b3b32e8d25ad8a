//! Checks that run a pipeline once and compare its outcome.

use vstd::prelude::*;
use vstd::std_specs::cmp::PartialEqSpec;

use crate::pipeline::RawPipeline;

verus! {

/// Runs the pipeline on the given input and reports whether it succeeded
/// with exactly the expected result.
pub fn test_ok<V, R: PartialEq, E, P: RawPipeline<V, R, E>>(p: &P, init: V, expect: &R) -> (b:
    bool)
    requires
        p.req(init),
    ensures
        exists|r: Result<R, E>|
            #[trigger] p.runs_to(init, r) && (R::obeys_eq_spec() ==> match r {
                Ok(x) => b == x.eq_spec(expect),
                Err(_) => b == false,
            }),
{
    match p.run(init) {
        Ok(x) => x == *expect,
        Err(_) => false,
    }
}

/// Runs the pipeline on the given input and reports whether it failed
/// with exactly the expected error.
pub fn test_error<V, R, E: PartialEq, P: RawPipeline<V, R, E>>(p: &P, init: V, expect: &E) -> (b:
    bool)
    requires
        p.req(init),
    ensures
        exists|r: Result<R, E>|
            #[trigger] p.runs_to(init, r) && (E::obeys_eq_spec() ==> match r {
                Ok(_) => b == false,
                Err(e) => b == e.eq_spec(expect),
            }),
{
    match p.run(init) {
        Ok(_) => false,
        Err(e) => e == *expect,
    }
}

} // verus!
