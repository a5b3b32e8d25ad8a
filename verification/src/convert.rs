//! Converters: partial bidirectional transformations.
//!
//! A converter between a source type `S` and a destination type `D` offers
//! `to(S) -> Option<D>` and `from(Option<S>, D) -> Option<S>`.  The `old`
//! parameter of `from` lets a conversion consult the previous source value
//! when synthesizing a new one.  Returning `None` in either direction is
//! not an error: it marks the value as inapplicable, and composition
//! absorbs it silently.

use core::marker::PhantomData;

use vstd::prelude::*;

use crate::model::{clone_keeps_model, Model};

verus! {

/// A partial bidirectional transformation between `S` and `D`.
///
/// `spec_to` and `spec_from` describe both directions at the model level;
/// the executable methods are bound to them exactly.
pub trait RawConverter<S: Model, D: Model> {
    /// Assumptions this converter makes of its type parameters (usually
    /// that cloning keeps models); trivially true for most converters.
    spec fn wf(&self) -> bool;

    /// The forward direction on models.
    spec fn spec_to(&self, src: S::M) -> Option<D::M>;

    /// The reverse direction on models, given the previous source value.
    spec fn spec_from(&self, old: Option<S::M>, dist: D::M) -> Option<S::M>;

    /// Converts a source value forward, or reports it inapplicable.
    fn to(&self, src: S) -> (r: Option<D>)
        requires
            self.wf(),
        ensures
            r.model() == self.spec_to(src.model()),
    ;

    /// Converts a destination value back, consulting the old source value.
    fn from(&self, old: Option<S>, dist: D) -> (r: Option<S>)
        requires
            self.wf(),
        ensures
            r.model() == self.spec_from(old.model(), dist.model()),
    ;
}

/// A converter packaged with its endpoint types.
pub struct Converter<S, D, C> {
    pub raw: C,
    pub endpoints: PhantomData<(S, D)>,
}

impl<S: Model, D: Model, C: RawConverter<S, D>> Converter<S, D, C> {
    pub fn new(raw: C) -> (c: Converter<S, D, C>)
        ensures
            c.raw == raw,
    {
        Converter { raw, endpoints: PhantomData }
    }
}

impl<S: Model, D: Model, C: RawConverter<S, D>> RawConverter<S, D> for Converter<S, D, C> {
    open spec fn wf(&self) -> bool {
        self.raw.wf()
    }

    open spec fn spec_to(&self, src: S::M) -> Option<D::M> {
        self.raw.spec_to(src)
    }

    open spec fn spec_from(&self, old: Option<S::M>, dist: D::M) -> Option<S::M> {
        self.raw.spec_from(old, dist)
    }

    fn to(&self, src: S) -> (r: Option<D>) {
        self.raw.to(src)
    }

    fn from(&self, old: Option<S>, dist: D) -> (r: Option<S>) {
        self.raw.from(old, dist)
    }
}

/// A converter between `Vec<S>` and `Vec<D>`, marked for broadcast use:
/// composed with a scalar store it wraps the scalar into a one-element
/// vector at the store boundary.
pub struct BroadcastConverter<S, D, C> {
    pub raw: C,
    pub endpoints: PhantomData<(S, D)>,
}

impl<S: Model, D: Model, C: RawConverter<Vec<S>, Vec<D>>> BroadcastConverter<S, D, C> {
    pub fn new(raw: C) -> (c: BroadcastConverter<S, D, C>)
        ensures
            c.raw == raw,
    {
        BroadcastConverter { raw, endpoints: PhantomData }
    }

    /// The same transformation seen as a plain vector-to-vector converter,
    /// both sides treated symmetrically as sequences.
    pub fn to_narrowcast(self) -> (c: Converter<Vec<S>, Vec<D>, C>)
        ensures
            c == (Converter::<Vec<S>, Vec<D>, C> { raw: self.raw, endpoints: PhantomData }),
    {
        Converter { raw: self.raw, endpoints: PhantomData }
    }
}

impl<S: Model, D: Model, C: RawConverter<Vec<S>, Vec<D>>> RawConverter<
    Vec<S>,
    Vec<D>,
> for BroadcastConverter<S, D, C> {
    open spec fn wf(&self) -> bool {
        self.raw.wf()
    }

    open spec fn spec_to(&self, src: Seq<S::M>) -> Option<Seq<D::M>> {
        self.raw.spec_to(src)
    }

    open spec fn spec_from(&self, old: Option<Seq<S::M>>, dist: Seq<D::M>) -> Option<Seq<S::M>> {
        self.raw.spec_from(old, dist)
    }

    fn to(&self, src: Vec<S>) -> (r: Option<Vec<D>>) {
        self.raw.to(src)
    }

    fn from(&self, old: Option<Vec<S>>, dist: Vec<D>) -> (r: Option<Vec<S>>) {
        self.raw.from(old, dist)
    }
}

/// The identity conversion: both directions always apply and change nothing.
pub struct Dummy;

impl<T: Model> RawConverter<T, T> for Dummy {
    open spec fn wf(&self) -> bool {
        true
    }

    open spec fn spec_to(&self, src: T::M) -> Option<T::M> {
        Some(src)
    }

    open spec fn spec_from(&self, old: Option<T::M>, dist: T::M) -> Option<T::M> {
        Some(dist)
    }

    fn to(&self, src: T) -> (r: Option<T>) {
        Some(src)
    }

    fn from(&self, old: Option<T>, dist: T) -> (r: Option<T>) {
        Some(dist)
    }
}

pub fn dummy<T: Model>() -> (c: Converter<T, T, Dummy>)
    ensures
        c.wf(),
        forall|s: T::M| #[trigger] c.spec_to(s) == Some(s),
        forall|o: Option<T::M>, d: T::M| #[trigger] c.spec_from(o, d) == Some(d),
{
    Converter::new(Dummy)
}

/// Write-only: `to` never applies, `from` passes the value through.
pub struct PutOnly;

impl<T: Model> RawConverter<T, T> for PutOnly {
    open spec fn wf(&self) -> bool {
        true
    }

    open spec fn spec_to(&self, src: T::M) -> Option<T::M> {
        None
    }

    open spec fn spec_from(&self, old: Option<T::M>, dist: T::M) -> Option<T::M> {
        Some(dist)
    }

    fn to(&self, src: T) -> (r: Option<T>) {
        None
    }

    fn from(&self, old: Option<T>, dist: T) -> (r: Option<T>) {
        Some(dist)
    }
}

pub fn put_only<T: Model>() -> (c: Converter<T, T, PutOnly>)
    ensures
        c.wf(),
        forall|s: T::M| #[trigger] c.spec_to(s) is None,
        forall|o: Option<T::M>, d: T::M| #[trigger] c.spec_from(o, d) == Some(d),
{
    Converter::new(PutOnly)
}

/// Read-only: `to` passes the value through, `from` never applies.
pub struct GetOnly;

impl<T: Model> RawConverter<T, T> for GetOnly {
    open spec fn wf(&self) -> bool {
        true
    }

    open spec fn spec_to(&self, src: T::M) -> Option<T::M> {
        Some(src)
    }

    open spec fn spec_from(&self, old: Option<T::M>, dist: T::M) -> Option<T::M> {
        None
    }

    fn to(&self, src: T) -> (r: Option<T>) {
        Some(src)
    }

    fn from(&self, old: Option<T>, dist: T) -> (r: Option<T>) {
        None
    }
}

pub fn get_only<T: Model>() -> (c: Converter<T, T, GetOnly>)
    ensures
        c.wf(),
        forall|s: T::M| #[trigger] c.spec_to(s) == Some(s),
        forall|o: Option<T::M>, d: T::M| #[trigger] c.spec_from(o, d) is None,
{
    Converter::new(GetOnly)
}

/// Extracts the success value of a `Result`; an `Err` is inapplicable.
/// The reverse direction wraps the value back into `Ok`.
pub struct Unwrap;

impl<S: Model, E: Model> RawConverter<Result<S, E>, S> for Unwrap {
    open spec fn wf(&self) -> bool {
        true
    }

    open spec fn spec_to(&self, src: Result<S::M, E::M>) -> Option<S::M> {
        match src {
            Ok(s) => Some(s),
            Err(_) => None,
        }
    }

    open spec fn spec_from(&self, old: Option<Result<S::M, E::M>>, dist: S::M) -> Option<
        Result<S::M, E::M>,
    > {
        Some(Ok(dist))
    }

    fn to(&self, src: Result<S, E>) -> (r: Option<S>) {
        match src {
            Ok(s) => Some(s),
            Err(_) => None,
        }
    }

    fn from(&self, old: Option<Result<S, E>>, dist: S) -> (r: Option<Result<S, E>>) {
        Some(Ok(dist))
    }
}

pub fn unwarp<S: Model, E: Model>() -> (c: Converter<Result<S, E>, S, Unwrap>)
    ensures
        c.wf(),
        forall|s: S::M| #[trigger] c.spec_to(Ok(s)) == Some(s),
        forall|e: E::M| #[trigger] c.spec_to(Err(e)) is None,
        forall|o: Option<Result<S::M, E::M>>, d: S::M| #[trigger] c.spec_from(o, d) == Some(
            Ok::<S::M, E::M>(d),
        ),
{
    Converter::new(Unwrap)
}

/// Extracts the error of a `Result`; a success is inapplicable, and no
/// reverse direction exists.
pub struct UnwrapErr;

impl<S: Model, E: Model> RawConverter<Result<S, E>, E> for UnwrapErr {
    open spec fn wf(&self) -> bool {
        true
    }

    open spec fn spec_to(&self, src: Result<S::M, E::M>) -> Option<E::M> {
        match src {
            Ok(_) => None,
            Err(e) => Some(e),
        }
    }

    open spec fn spec_from(&self, old: Option<Result<S::M, E::M>>, dist: E::M) -> Option<
        Result<S::M, E::M>,
    > {
        None
    }

    fn to(&self, src: Result<S, E>) -> (r: Option<E>) {
        match src {
            Ok(_) => None,
            Err(e) => Some(e),
        }
    }

    fn from(&self, old: Option<Result<S, E>>, dist: E) -> (r: Option<Result<S, E>>) {
        None
    }
}

pub fn unwarp_err<S: Model, E: Model>() -> (c: Converter<Result<S, E>, E, UnwrapErr>)
    ensures
        c.wf(),
        forall|s: S::M| #[trigger] c.spec_to(Ok(s)) is None,
        forall|e: E::M| #[trigger] c.spec_to(Err(e)) == Some(e),
        forall|o: Option<Result<S::M, E::M>>, d: E::M| #[trigger] c.spec_from(o, d) is None,
{
    Converter::new(UnwrapErr)
}

/// Extracts the success value of a `Result`, falling back to a configured
/// default on `Err`; the reverse direction wraps into `Ok`.
pub struct UnwrapOr<S> {
    pub or: S,
}

impl<S: Model + Clone, E: Model> RawConverter<Result<S, E>, S> for UnwrapOr<S> {
    open spec fn wf(&self) -> bool {
        clone_keeps_model::<S>()
    }

    open spec fn spec_to(&self, src: Result<S::M, E::M>) -> Option<S::M> {
        match src {
            Ok(s) => Some(s),
            Err(_) => Some(self.or.model()),
        }
    }

    open spec fn spec_from(&self, old: Option<Result<S::M, E::M>>, dist: S::M) -> Option<
        Result<S::M, E::M>,
    > {
        Some(Ok(dist))
    }

    fn to(&self, src: Result<S, E>) -> (r: Option<S>) {
        match src {
            Ok(s) => Some(s),
            Err(_) => {
                let c = self.or.clone();
                proof {
                    assert(vstd::pervasive::cloned::<S>(self.or, c));
                }
                Some(c)
            },
        }
    }

    fn from(&self, old: Option<Result<S, E>>, dist: S) -> (r: Option<Result<S, E>>) {
        Some(Ok(dist))
    }
}

pub fn unwarp_or<S: Model + Clone, E: Model>(or: S) -> (c: Converter<
    Result<S, E>,
    S,
    UnwrapOr<S>,
>)
    requires
        clone_keeps_model::<S>(),
    ensures
        c.wf(),
        forall|s: S::M| #[trigger] c.spec_to(Ok(s)) == Some(s),
        forall|e: E::M| #[trigger] c.spec_to(Err(e)) == Some(or.model()),
        forall|o: Option<Result<S::M, E::M>>, d: S::M| #[trigger] c.spec_from(o, d) == Some(
            Ok::<S::M, E::M>(d),
        ),
{
    Converter::new(UnwrapOr { or })
}

/// Wraps a scalar into a one-element vector; the reverse direction takes
/// the last element of the vector, so that the most recent write wins.
pub struct ToVec;

impl<T: Model + Clone> RawConverter<T, Vec<T>> for ToVec {
    open spec fn wf(&self) -> bool {
        clone_keeps_model::<T>()
    }

    open spec fn spec_to(&self, src: T::M) -> Option<Seq<T::M>> {
        Some(seq![src])
    }

    open spec fn spec_from(&self, old: Option<T::M>, dist: Seq<T::M>) -> Option<T::M> {
        if dist.len() > 0 {
            Some(dist.last())
        } else {
            None
        }
    }

    fn to(&self, src: T) -> (r: Option<Vec<T>>) {
        let v = vec![src];
        proof {
            assert(v.model() =~= seq![v@[0].model()]);
        }
        Some(v)
    }

    fn from(&self, old: Option<T>, dist: Vec<T>) -> (r: Option<T>) {
        if dist.len() > 0 {
            let l = &dist[dist.len() - 1];
            let c = l.clone();
            proof {
                assert(vstd::pervasive::cloned::<T>(*l, c));
            }
            Some(c)
        } else {
            None
        }
    }
}

pub fn to_vec<T: Model + Clone>() -> (c: Converter<T, Vec<T>, ToVec>)
    requires
        clone_keeps_model::<T>(),
    ensures
        c.wf(),
        forall|s: T::M| #[trigger] c.spec_to(s) == Some(seq![s]),
        forall|o: Option<T::M>, d: Seq<T::M>|
            #[trigger] c.spec_from(o, d) == (if d.len() > 0 {
                Some(d.last())
            } else {
                None::<T::M>
            }),
{
    Converter::new(ToVec)
}

/// Takes the last element of a vector; the reverse direction wraps a
/// scalar into a one-element vector.
pub struct FromVec;

impl<T: Model + Clone> RawConverter<Vec<T>, T> for FromVec {
    open spec fn wf(&self) -> bool {
        clone_keeps_model::<T>()
    }

    open spec fn spec_to(&self, src: Seq<T::M>) -> Option<T::M> {
        if src.len() > 0 {
            Some(src.last())
        } else {
            None
        }
    }

    open spec fn spec_from(&self, old: Option<Seq<T::M>>, dist: T::M) -> Option<Seq<T::M>> {
        Some(seq![dist])
    }

    fn to(&self, src: Vec<T>) -> (r: Option<T>) {
        if src.len() > 0 {
            let l = &src[src.len() - 1];
            let c = l.clone();
            proof {
                assert(vstd::pervasive::cloned::<T>(*l, c));
            }
            Some(c)
        } else {
            None
        }
    }

    fn from(&self, old: Option<Vec<T>>, dist: T) -> (r: Option<Vec<T>>) {
        let v = vec![dist];
        proof {
            assert(v.model() =~= seq![v@[0].model()]);
        }
        Some(v)
    }
}

pub fn from_vec<T: Model + Clone>() -> (c: Converter<Vec<T>, T, FromVec>)
    requires
        clone_keeps_model::<T>(),
    ensures
        c.wf(),
        forall|s: Seq<T::M>|
            #[trigger] c.spec_to(s) == (if s.len() > 0 {
                Some(s.last())
            } else {
                None::<T::M>
            }),
        forall|o: Option<Seq<T::M>>, d: T::M| #[trigger] c.spec_from(o, d) == Some(seq![d]),
{
    Converter::new(FromVec)
}

/// A scalar converter applied element-wise: elements on which a direction
/// is inapplicable are dropped, not failed.  The result of the forward map.
pub open spec fn each_to<S: Model, D: Model, C: RawConverter<S, D>>(
    c: &C,
    src: Seq<S::M>,
) -> Seq<D::M>
    decreases src.len(),
{
    if src.len() == 0 {
        Seq::empty()
    } else {
        match c.spec_to(src.first()) {
            Some(d) => seq![d] + each_to(c, src.drop_first()),
            None => each_to(c, src.drop_first()),
        }
    }
}

/// The element-wise reverse map when no old value is available.
pub open spec fn each_from_fresh<S: Model, D: Model, C: RawConverter<S, D>>(
    c: &C,
    dist: Seq<D::M>,
) -> Seq<S::M>
    decreases dist.len(),
{
    if dist.len() == 0 {
        Seq::empty()
    } else {
        match c.spec_from(None, dist.first()) {
            Some(s) => seq![s] + each_from_fresh(c, dist.drop_first()),
            None => each_from_fresh(c, dist.drop_first()),
        }
    }
}

/// The element-wise reverse map with old values: new and old values are
/// paired up positionally, and the surplus of the longer side is dropped.
pub open spec fn each_from_paired<S: Model, D: Model, C: RawConverter<S, D>>(
    c: &C,
    old: Seq<S::M>,
    dist: Seq<D::M>,
) -> Seq<S::M>
    decreases dist.len(),
{
    if dist.len() == 0 || old.len() == 0 {
        Seq::empty()
    } else {
        match c.spec_from(Some(old.first()), dist.first()) {
            Some(s) => seq![s] + each_from_paired(c, old.drop_first(), dist.drop_first()),
            None => each_from_paired(c, old.drop_first(), dist.drop_first()),
        }
    }
}

/// A scalar converter lifted to vectors, element by element.
pub struct VecConverter<S, D, C> {
    pub base: C,
    pub endpoints: PhantomData<(S, D)>,
}

impl<S: Model + Clone, D: Model + Clone, C: RawConverter<S, D>> RawConverter<
    Vec<S>,
    Vec<D>,
> for VecConverter<S, D, C> {
    open spec fn wf(&self) -> bool {
        &&& self.base.wf()
        &&& clone_keeps_model::<S>()
        &&& clone_keeps_model::<D>()
    }

    open spec fn spec_to(&self, src: Seq<S::M>) -> Option<Seq<D::M>> {
        Some(each_to(&self.base, src))
    }

    open spec fn spec_from(&self, old: Option<Seq<S::M>>, dist: Seq<D::M>) -> Option<Seq<S::M>> {
        match old {
            Some(o) => Some(each_from_paired(&self.base, o, dist)),
            None => Some(each_from_fresh(&self.base, dist)),
        }
    }

    fn to(&self, src: Vec<S>) -> (r: Option<Vec<D>>) {
        let ghost full = src.model();
        let mut result: Vec<D> = Vec::new();
        let mut i: usize = 0;
        proof {
            assert(full.skip(0) =~= full);
            assert(result.model() =~= Seq::<D::M>::empty());
            assert(Seq::<D::M>::empty() + each_to(&self.base, full) =~= each_to(&self.base, full));
        }
        while i < src.len()
            invariant
                self.wf(),
                i <= src.len(),
                full == src.model(),
                each_to(&self.base, full) == result.model() + each_to(
                    &self.base,
                    full.skip(i as int),
                ),
            decreases src.len() - i,
        {
            let e = &src[i];
            let c = e.clone();
            proof {
                assert(vstd::pervasive::cloned::<S>(*e, c));
                assert(full.skip(i as int).first() == c.model());
                assert(full.skip(i as int).drop_first() =~= full.skip(i as int + 1));
            }
            let ghost pre = result.model();
            match self.base.to(c) {
                Some(d) => {
                    result.push(d);
                    proof {
                        assert(result.model() =~= pre + seq![result@[pre.len() as int].model()]);
                        assert(pre + (seq![result.model().last()] + each_to(
                            &self.base,
                            full.skip(i as int + 1),
                        )) =~= result.model() + each_to(&self.base, full.skip(i as int + 1)));
                    }
                },
                None => {},
            }
            i = i + 1;
        }
        proof {
            assert(full.skip(src.len() as int) =~= Seq::<S::M>::empty());
            assert(result.model() + Seq::<D::M>::empty() =~= result.model());
        }
        Some(result)
    }

    fn from(&self, old: Option<Vec<S>>, dist: Vec<D>) -> (r: Option<Vec<S>>) {
        match old {
            Some(o) => {
                let ghost fo = o.model();
                let ghost fd = dist.model();
                let n = if o.len() < dist.len() {
                    o.len()
                } else {
                    dist.len()
                };
                let mut result: Vec<S> = Vec::new();
                let mut i: usize = 0;
                proof {
                    assert(fo.skip(0) =~= fo);
                    assert(fd.skip(0) =~= fd);
                    assert(result.model() =~= Seq::<S::M>::empty());
                    assert(Seq::<S::M>::empty() + each_from_paired(&self.base, fo, fd)
                        =~= each_from_paired(&self.base, fo, fd));
                }
                while i < n
                    invariant
                        self.wf(),
                        i <= n,
                        n == vstd::math::min(fo.len() as int, fd.len() as int),
                        fo == o.model(),
                        fd == dist.model(),
                        each_from_paired(&self.base, fo, fd) == result.model() + each_from_paired(
                            &self.base,
                            fo.skip(i as int),
                            fd.skip(i as int),
                        ),
                    decreases n - i,
                {
                    let oe = &o[i];
                    let oc = oe.clone();
                    let de = &dist[i];
                    let dc = de.clone();
                    proof {
                        assert(vstd::pervasive::cloned::<S>(*oe, oc));
                        assert(vstd::pervasive::cloned::<D>(*de, dc));
                        assert(fo.skip(i as int).first() == oc.model());
                        assert(fd.skip(i as int).first() == dc.model());
                        assert(fo.skip(i as int).drop_first() =~= fo.skip(i as int + 1));
                        assert(fd.skip(i as int).drop_first() =~= fd.skip(i as int + 1));
                    }
                    let ghost pre = result.model();
                    match self.base.from(Some(oc), dc) {
                        Some(s) => {
                            result.push(s);
                            proof {
                                assert(result.model() =~= pre + seq![
                                    result@[pre.len() as int].model(),
                                ]);
                                assert(pre + (seq![result.model().last()] + each_from_paired(
                                    &self.base,
                                    fo.skip(i as int + 1),
                                    fd.skip(i as int + 1),
                                )) =~= result.model() + each_from_paired(
                                    &self.base,
                                    fo.skip(i as int + 1),
                                    fd.skip(i as int + 1),
                                ));
                            }
                        },
                        None => {},
                    }
                    i = i + 1;
                }
                proof {
                    assert(fo.skip(n as int).len() == 0 || fd.skip(n as int).len() == 0);
                    assert(result.model() + Seq::<S::M>::empty() =~= result.model());
                }
                Some(result)
            },
            None => {
                let ghost fd = dist.model();
                let mut result: Vec<S> = Vec::new();
                let mut i: usize = 0;
                proof {
                    assert(fd.skip(0) =~= fd);
                    assert(result.model() =~= Seq::<S::M>::empty());
                    assert(Seq::<S::M>::empty() + each_from_fresh(&self.base, fd)
                        =~= each_from_fresh(&self.base, fd));
                }
                while i < dist.len()
                    invariant
                        self.wf(),
                        i <= dist.len(),
                        fd == dist.model(),
                        each_from_fresh(&self.base, fd) == result.model() + each_from_fresh(
                            &self.base,
                            fd.skip(i as int),
                        ),
                    decreases dist.len() - i,
                {
                    let de = &dist[i];
                    let dc = de.clone();
                    proof {
                        assert(vstd::pervasive::cloned::<D>(*de, dc));
                        assert(fd.skip(i as int).first() == dc.model());
                        assert(fd.skip(i as int).drop_first() =~= fd.skip(i as int + 1));
                    }
                    let ghost pre = result.model();
                    match self.base.from(None, dc) {
                        Some(s) => {
                            result.push(s);
                            proof {
                                assert(result.model() =~= pre + seq![
                                    result@[pre.len() as int].model(),
                                ]);
                                assert(pre + (seq![result.model().last()] + each_from_fresh(
                                    &self.base,
                                    fd.skip(i as int + 1),
                                )) =~= result.model() + each_from_fresh(
                                    &self.base,
                                    fd.skip(i as int + 1),
                                ));
                            }
                        },
                        None => {},
                    }
                    i = i + 1;
                }
                proof {
                    assert(fd.skip(dist.len() as int) =~= Seq::<D::M>::empty());
                    assert(result.model() + Seq::<S::M>::empty() =~= result.model());
                }
                Some(result)
            },
        }
    }
}

/// Sequential composition of two converters through a middle type.
///
/// The reverse direction synthesizes the middle-typed old value on demand
/// by forward-converting the old source value, rather than storing it.
pub struct ChainConverter<SD, A, B> {
    pub lhs: A,
    pub rhs: B,
    pub middle: PhantomData<SD>,
}

impl<
    S: Model + Clone,
    SD: Model,
    D: Model,
    A: RawConverter<S, SD>,
    B: RawConverter<SD, D>,
> RawConverter<S, D> for ChainConverter<SD, A, B> {
    open spec fn wf(&self) -> bool {
        &&& self.lhs.wf()
        &&& self.rhs.wf()
        &&& clone_keeps_model::<S>()
    }

    open spec fn spec_to(&self, src: S::M) -> Option<D::M> {
        match self.lhs.spec_to(src) {
            Some(m) => self.rhs.spec_to(m),
            None => None,
        }
    }

    open spec fn spec_from(&self, old: Option<S::M>, dist: D::M) -> Option<S::M> {
        let old_mid = match old {
            Some(o) => self.lhs.spec_to(o),
            None => None,
        };
        match self.rhs.spec_from(old_mid, dist) {
            Some(m) => self.lhs.spec_from(old, m),
            None => None,
        }
    }

    fn to(&self, src: S) -> (r: Option<D>) {
        match self.lhs.to(src) {
            Some(m) => self.rhs.to(m),
            None => None,
        }
    }

    fn from(&self, old: Option<S>, dist: D) -> (r: Option<S>) {
        let old_mid = match &old {
            Some(o) => {
                let c = o.clone();
                proof {
                    assert(vstd::pervasive::cloned::<S>(*o, c));
                }
                self.lhs.to(c)
            },
            None => None,
        };
        match self.rhs.from(old_mid, dist) {
            Some(m) => self.lhs.from(old, m),
            None => None,
        }
    }
}

/// Non-exclusive union of two vector converters: the applicable outputs of
/// both branches are kept and concatenated, left before right.
pub struct MultiConverter<S, D, A, B> {
    pub lhs: A,
    pub rhs: B,
    pub endpoints: PhantomData<(S, D)>,
}

/// How a union combines the two branches' outcomes.
pub open spec fn union_outcomes<T>(l: Option<Seq<T>>, r: Option<Seq<T>>) -> Option<Seq<T>> {
    match (l, r) {
        (Some(lv), Some(rv)) => Some(lv + rv),
        (Some(lv), None) => Some(lv),
        (None, Some(rv)) => Some(rv),
        (None, None) => None,
    }
}

impl<
    S: Model + Clone,
    D: Model + Clone,
    A: RawConverter<Vec<S>, Vec<D>>,
    B: RawConverter<Vec<S>, Vec<D>>,
> RawConverter<Vec<S>, Vec<D>> for MultiConverter<S, D, A, B> {
    open spec fn wf(&self) -> bool {
        &&& self.lhs.wf()
        &&& self.rhs.wf()
        &&& clone_keeps_model::<S>()
        &&& clone_keeps_model::<D>()
    }

    open spec fn spec_to(&self, src: Seq<S::M>) -> Option<Seq<D::M>> {
        union_outcomes(self.lhs.spec_to(src), self.rhs.spec_to(src))
    }

    open spec fn spec_from(&self, old: Option<Seq<S::M>>, dist: Seq<D::M>) -> Option<Seq<S::M>> {
        union_outcomes(self.lhs.spec_from(old, dist), self.rhs.spec_from(old, dist))
    }

    fn to(&self, src: Vec<S>) -> (r: Option<Vec<D>>) {
        let src2 = crate::model::clone_vec(&src);
        let opt_l = self.lhs.to(src2);
        let opt_r = self.rhs.to(src);
        match (opt_l, opt_r) {
            (Some(mut lv), Some(mut rv)) => {
                let ghost lm = lv.model();
                let ghost rm = rv.model();
                lv.append(&mut rv);
                proof {
                    assert(lv.model() =~= lm + rm);
                }
                Some(lv)
            },
            (Some(lv), None) => Some(lv),
            (None, Some(rv)) => Some(rv),
            (None, None) => None,
        }
    }

    fn from(&self, old: Option<Vec<S>>, dist: Vec<D>) -> (r: Option<Vec<S>>) {
        let old2 = match &old {
            Some(o) => Some(crate::model::clone_vec(o)),
            None => None,
        };
        let dist2 = crate::model::clone_vec(&dist);
        let opt_l = self.lhs.from(old2, dist2);
        let opt_r = self.rhs.from(old, dist);
        match (opt_l, opt_r) {
            (Some(mut lv), Some(mut rv)) => {
                let ghost lm = lv.model();
                let ghost rm = rv.model();
                lv.append(&mut rv);
                proof {
                    assert(lv.model() =~= lm + rm);
                }
                Some(lv)
            },
            (Some(lv), None) => Some(lv),
            (None, Some(rv)) => Some(rv),
            (None, None) => None,
        }
    }
}

/// Round-trip of the identity conversion: converting forward and back
/// returns the value unchanged, whatever the old context was.
pub proof fn lemma_dummy_round_trip<T: Model>(old: Option<T::M>, s: T::M)
    ensures
        <Dummy as RawConverter<T, T>>::spec_to(&Dummy, s) matches Some(d)
            && <Dummy as RawConverter<T, T>>::spec_from(&Dummy, old, d) == Some(s),
{
}

/// Round-trip of the success extraction: whenever the forward direction
/// applies, converting back returns the original `Ok` value.
pub proof fn lemma_unwrap_round_trip<S: Model, E: Model>(
    old: Option<Result<S::M, E::M>>,
    src: Result<S::M, E::M>,
)
    ensures
        match <Unwrap as RawConverter<Result<S, E>, S>>::spec_to(&Unwrap, src) {
            Some(d) => <Unwrap as RawConverter<Result<S, E>, S>>::spec_from(&Unwrap, old, d)
                == Some(src),
            None => true,
        },
{
}

/// Round-trip of the vector wrapping: a scalar wrapped into a one-element
/// vector and taken back out is unchanged.
pub proof fn lemma_to_vec_round_trip<T: Model + Clone>(old: Option<T::M>, s: T::M)
    ensures
        <ToVec as RawConverter<T, Vec<T>>>::spec_to(&ToVec, s) matches Some(d)
            && <ToVec as RawConverter<T, Vec<T>>>::spec_from(&ToVec, old, d) == Some(s),
{
    let d = seq![s];
    assert(d.last() == s);
}

impl<S: Model + Clone, D: Model + Clone, C: RawConverter<S, D>> Converter<S, D, C> {
    /// Lifts this scalar converter to vectors, element by element.
    pub fn to_vec_converter(self) -> (c: Converter<Vec<S>, Vec<D>, VecConverter<S, D, C>>)
        ensures
            c.raw.base == self.raw,
    {
        Converter::new(VecConverter { base: self.raw, endpoints: PhantomData })
    }
}

impl<S: Model + Clone, SD: Model, C: RawConverter<S, SD>> Converter<S, SD, C> {
    /// Chains this converter with a second one through the middle type.
    pub fn chain<D: Model, C2: RawConverter<SD, D>>(self, rhs: Converter<SD, D, C2>) -> (c:
        Converter<S, D, ChainConverter<SD, C, C2>>)
        ensures
            c.raw.lhs == self.raw,
            c.raw.rhs == rhs.raw,
    {
        Converter::new(ChainConverter { lhs: self.raw, rhs: rhs.raw, middle: PhantomData })
    }
}

impl<S: Model + Clone, D: Model + Clone, C: RawConverter<Vec<S>, Vec<D>>> Converter<
    Vec<S>,
    Vec<D>,
    C,
> {
    /// Marks this vector converter for broadcast use at a scalar store.
    pub fn to_broadcast(self) -> (c: BroadcastConverter<S, D, C>)
        ensures
            c.raw == self.raw,
    {
        BroadcastConverter::new(self.raw)
    }

    /// The non-exclusive union with another vector converter.
    pub fn union<C2: RawConverter<Vec<S>, Vec<D>>>(self, rhs: Converter<Vec<S>, Vec<D>, C2>) -> (c:
        BroadcastConverter<S, D, MultiConverter<S, D, C, C2>>)
        ensures
            c.raw.lhs == self.raw,
            c.raw.rhs == rhs.raw,
    {
        BroadcastConverter::new(MultiConverter {
            lhs: self.raw,
            rhs: rhs.raw,
            endpoints: PhantomData,
        })
    }
}

} // verus!
