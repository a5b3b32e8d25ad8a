//! Pipelines: one-directional fallible transforms with composition.
//!
//! A pipeline turns an input into a `Result`.  Sequential composition
//! short-circuits on the first error; fallback composition replays the
//! input into the second branch when the first fails, which is why it
//! needs the input to be cloneable.  A filter passes the input through or
//! fails with a configured error value.

use core::marker::PhantomData;

use vstd::pervasive::cloned;
use vstd::prelude::*;

verus! {

/// A fallible transform from `V` to `R` with error type `E`.
///
/// `runs_to` relates an input to every result a run may produce; `req`
/// says which inputs a run accepts.
pub trait RawPipeline<V, R, E> {
    /// The inputs this pipeline accepts.
    spec fn req(&self, v: V) -> bool;

    /// The possible outcomes of running on an input.
    spec fn runs_to(&self, v: V, r: Result<R, E>) -> bool;

    /// Runs the pipeline once.
    fn run(&self, value: V) -> (r: Result<R, E>)
        requires
            self.req(value),
        ensures
            self.runs_to(value, r),
    ;
}

/// A pipeline packaged for composition.
pub struct Pipeline<P> {
    pub raw: P,
}

impl<P> Pipeline<P> {
    pub fn new(raw: P) -> (p: Pipeline<P>)
        ensures
            p.raw == raw,
    {
        Pipeline { raw }
    }
}

impl<V, R, E, P: RawPipeline<V, R, E>> RawPipeline<V, R, E> for Pipeline<P> {
    open spec fn req(&self, v: V) -> bool {
        self.raw.req(v)
    }

    open spec fn runs_to(&self, v: V, r: Result<R, E>) -> bool {
        self.raw.runs_to(v, r)
    }

    fn run(&self, value: V) -> (r: Result<R, E>) {
        self.raw.run(value)
    }
}

/// Sequential composition: the first error short-circuits, and the second
/// stage is only reached through a success of the first.
pub struct AndPipeline<M, P1, P2> {
    pub lhs: P1,
    pub rhs: P2,
    pub middle: PhantomData<M>,
}

impl<V, M, R, E, P1: RawPipeline<V, M, E>, P2: RawPipeline<M, R, E>> RawPipeline<
    V,
    R,
    E,
> for AndPipeline<M, P1, P2> {
    open spec fn req(&self, v: V) -> bool {
        &&& self.lhs.req(v)
        &&& forall|m: M| #[trigger] self.lhs.runs_to(v, Ok(m)) ==> self.rhs.req(m)
    }

    open spec fn runs_to(&self, v: V, r: Result<R, E>) -> bool {
        match r {
            Ok(x) => exists|m: M| #[trigger] self.lhs.runs_to(v, Ok(m)) && self.rhs.runs_to(
                m,
                Ok(x),
            ),
            Err(e) => self.lhs.runs_to(v, Err(e)) || exists|m: M| #[trigger] self.lhs.runs_to(
                v,
                Ok(m),
            ) && self.rhs.runs_to(m, Err(e)),
        }
    }

    fn run(&self, value: V) -> (r: Result<R, E>) {
        match self.lhs.run(value) {
            Ok(m) => self.rhs.run(m),
            Err(e) => Err(e),
        }
    }
}

/// Fallback composition: the first branch runs on a copy of the input; if
/// it fails, its error is discarded and the second branch runs on another
/// copy.
pub struct OrPipeline<P1, P2> {
    pub lhs: P1,
    pub rhs: P2,
}

impl<V: Clone, R, E, P1: RawPipeline<V, R, E>, P2: RawPipeline<V, R, E>> RawPipeline<
    V,
    R,
    E,
> for OrPipeline<P1, P2> {
    open spec fn req(&self, v: V) -> bool {
        forall|v2: V| #[trigger] cloned::<V>(v, v2) ==> self.lhs.req(v2) && self.rhs.req(v2)
    }

    open spec fn runs_to(&self, v: V, r: Result<R, E>) -> bool {
        exists|v1: V|
            #[trigger] cloned::<V>(v, v1) && ((r is Ok && self.lhs.runs_to(v1, r)) || (exists|
                e: E,
                v2: V,
            |
                (#[trigger] self.lhs.runs_to(v1, Err(e))) && #[trigger] cloned::<V>(v, v2)
                    && self.rhs.runs_to(v2, r)))
    }

    fn run(&self, value: V) -> (r: Result<R, E>) {
        let c1 = value.clone();
        proof {
            assert(cloned::<V>(value, c1));
        }
        match self.lhs.run(c1) {
            Ok(x) => {
                proof {
                    assert(cloned::<V>(value, c1) && (Ok::<R, E>(x) is Ok && self.lhs.runs_to(
                        c1,
                        Ok(x),
                    )));
                }
                Ok(x)
            },
            Err(e0) => {
                let c2 = value.clone();
                proof {
                    assert(cloned::<V>(value, c2));
                }
                let r = self.rhs.run(c2);
                proof {
                    assert(self.lhs.runs_to(c1, Err(e0)) && cloned::<V>(value, c2)
                        && self.rhs.runs_to(c2, r));
                    assert(cloned::<V>(value, c1) && (exists|e: E, v2: V|
                        (#[trigger] self.lhs.runs_to(c1, Err(e))) && #[trigger] cloned::<V>(
                            value,
                            v2,
                        ) && self.rhs.runs_to(v2, r)));
                }
                r
            },
        }
    }
}

impl<P> Pipeline<P> {
    /// Sequential composition with a second pipeline.
    pub fn and<V, M, R, E, P2: RawPipeline<M, R, E>>(self, rhs: Pipeline<P2>) -> (p: Pipeline<
        AndPipeline<M, P, P2>,
    >) where P: RawPipeline<V, M, E>
        ensures
            p.raw.lhs == self.raw,
            p.raw.rhs == rhs.raw,
    {
        Pipeline { raw: AndPipeline { lhs: self.raw, rhs: rhs.raw, middle: PhantomData } }
    }

    /// Fallback composition with a second pipeline.
    pub fn or<V: Clone, R, E, P2: RawPipeline<V, R, E>>(self, rhs: Pipeline<P2>) -> (p: Pipeline<
        OrPipeline<P, P2>,
    >) where P: RawPipeline<V, R, E>
        ensures
            p.raw.lhs == self.raw,
            p.raw.rhs == rhs.raw,
    {
        Pipeline { raw: OrPipeline { lhs: self.raw, rhs: rhs.raw } }
    }
}

/// A pipeline given directly by a function.
pub struct SimplePipeline<V, R, E, F> {
    pub f: F,
    pub signature: PhantomData<(V, R, E)>,
}

impl<V, R, E, F: Fn(V) -> Result<R, E>> RawPipeline<V, R, E> for SimplePipeline<V, R, E, F> {
    open spec fn req(&self, v: V) -> bool {
        call_requires(self.f, (v,))
    }

    open spec fn runs_to(&self, v: V, r: Result<R, E>) -> bool {
        call_ensures(self.f, (v,), r)
    }

    fn run(&self, value: V) -> (r: Result<R, E>) {
        (self.f)(value)
    }
}

/// Packages a function as a pipeline.
pub fn pipeline<V, R, E, F: Fn(V) -> Result<R, E>>(f: F) -> (p: Pipeline<
    SimplePipeline<V, R, E, F>,
>)
    ensures
        p.raw.f == f,
{
    Pipeline { raw: SimplePipeline { f, signature: PhantomData } }
}

/// A pipeline that passes its input through when a predicate accepts it,
/// and otherwise fails with a configured error value.
pub struct FilterPipeline<V, E, F> {
    pub f: F,
    pub error: E,
    pub input: PhantomData<V>,
}

impl<V, E: Clone, F: Fn(&V) -> bool> RawPipeline<V, V, E> for FilterPipeline<V, E, F> {
    open spec fn req(&self, v: V) -> bool {
        call_requires(self.f, (&v,))
    }

    open spec fn runs_to(&self, v: V, r: Result<V, E>) -> bool {
        exists|b: bool|
            {
                &&& #[trigger] call_ensures(self.f, (&v,), b)
                &&& b ==> r == Ok::<V, E>(v)
                &&& !b ==> match r {
                    Ok(_) => false,
                    Err(e) => cloned::<E>(self.error, e),
                }
            }
    }

    fn run(&self, value: V) -> (r: Result<V, E>) {
        let accepted = (self.f)(&value);
        if accepted {
            Ok(value)
        } else {
            let e = self.error.clone();
            proof {
                assert(cloned::<E>(self.error, e));
            }
            Err(e)
        }
    }
}

/// Packages a predicate and an error value as a filter pipeline.
pub fn filter<V, E: Clone, F: Fn(&V) -> bool>(f: F, error: E) -> (p: Pipeline<
    FilterPipeline<V, E, F>,
>)
    ensures
        p.raw.f == f,
        p.raw.error == error,
{
    Pipeline { raw: FilterPipeline { f, error, input: PhantomData } }
}

/// A consumer that drives a pipeline against a source of inputs.
pub trait RawFramework<P> {
    /// The pipelines this framework accepts.
    spec fn fw_req(&self, p: P) -> bool;

    /// Drives the pipeline.
    fn run(&self, pipeline: P)
        requires
            self.fw_req(pipeline),
    ;
}

/// A framework packaged for composition.
pub struct Framework<Fw> {
    pub raw: Fw,
}

impl<Fw> Framework<Fw> {
    pub fn new(raw: Fw) -> (f: Framework<Fw>)
        ensures
            f.raw == raw,
    {
        Framework { raw }
    }

    /// Drives a pipeline.
    pub fn run<P>(&self, pipeline: P) where Fw: RawFramework<P>
        requires
            self.raw.fw_req(pipeline),
    {
        self.raw.run(pipeline)
    }
}

/// A framework given directly by a function.
pub struct SimpleFramework<P, F> {
    pub f: F,
    pub pipe: PhantomData<P>,
}

impl<P, F: Fn(P)> RawFramework<P> for SimpleFramework<P, F> {
    open spec fn fw_req(&self, p: P) -> bool {
        call_requires(self.f, (p,))
    }

    fn run(&self, pipeline: P) {
        (self.f)(pipeline);
    }
}

/// Packages a function as a framework.
pub fn framework<P, F: Fn(P)>(f: F) -> (fw: Framework<SimpleFramework<P, F>>)
    ensures
        fw.raw.f == f,
{
    Framework { raw: SimpleFramework { f, pipe: PhantomData } }
}

/// Fallback exclusivity: when the first branch can only fail and the
/// second can only succeed with one result, the composition can only
/// return that result — the first branch's error is never seen.
pub proof fn lemma_or_fallback<V: Clone, R, E, P1: RawPipeline<V, R, E>, P2: RawPipeline<V, R, E>>(
    p: OrPipeline<P1, P2>,
    v: V,
    out: Result<R, E>,
    e1: E,
    r0: R,
)
    requires
        forall|x: V, r: Result<R, E>| #[trigger] p.lhs.runs_to(x, r) ==> r == Err::<R, E>(e1),
        forall|x: V, r: Result<R, E>| #[trigger] p.rhs.runs_to(x, r) ==> r == Ok::<R, E>(r0),
        p.runs_to(v, out),
    ensures
        out == Ok::<R, E>(r0),
{
}

/// Short-circuit: when the first stage can only fail with one error, the
/// sequential composition returns exactly that error, and no outcome of
/// the composition involves the second stage.
pub proof fn lemma_and_short_circuit<
    V,
    M,
    R,
    E,
    P1: RawPipeline<V, M, E>,
    P2: RawPipeline<M, R, E>,
>(p: AndPipeline<M, P1, P2>, v: V, out: Result<R, E>, e1: E)
    requires
        forall|x: V, r: Result<M, E>| #[trigger] p.lhs.runs_to(x, r) ==> r == Err::<M, E>(e1),
        p.runs_to(v, out),
    ensures
        out == Err::<R, E>(e1),
{
}

} // verus!
