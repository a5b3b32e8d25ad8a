//! Derived stores: a store wrapped with a converter.
//!
//! Wrapping a `Store<S>` with a `Converter<S, D>` yields a `Store<D>`.
//! Reading converts forward; writing converts backward using the current
//! backing value as the old-value context, and a rejected conversion
//! suppresses the write entirely (the backing store is left untouched).
//! A write's read-modify-write happens inside one exclusive call, so no
//! other access can interleave between reading the old value and writing
//! the new one.

use core::marker::PhantomData;

use vstd::prelude::*;

use crate::convert::{each_to, BroadcastConverter, Converter, RawConverter, VecConverter};
use crate::model::Model;
use crate::store::RawStore;

verus! {

/// A store of `D` values derived from a backing store of `S` values.
pub struct Convert<S, D, St, C> {
    pub store: St,
    pub convert: C,
    pub endpoints: PhantomData<(S, D)>,
}

impl<S: Model, D: Model, St: RawStore<S>, C: RawConverter<S, D>> RawStore<D> for Convert<
    S,
    D,
    St,
    C,
> {
    open spec fn wf(&self) -> bool {
        &&& self.store.wf()
        &&& self.convert.wf()
    }

    open spec fn contents(&self) -> Option<D::M> {
        match self.store.contents() {
            Some(s) => self.convert.spec_to(s),
            None => None,
        }
    }

    /// A put converts backward against the current backing value; if the
    /// conversion rejects, the backing contents stay exactly as they were.
    open spec fn put_rel(&self, v: D::M, post: &Self) -> bool {
        &&& post.convert == self.convert
        &&& match self.convert.spec_from(self.store.contents(), v) {
            None => {
                &&& post.store.wf()
                &&& post.store.contents() == self.store.contents()
            },
            Some(s) => {
                exists|mid: St|
                    {
                        &&& mid.wf()
                        &&& mid.contents() == self.store.contents()
                        &&& #[trigger] mid.put_rel(s, &post.store)
                    }
            },
        }
    }

    fn get(&mut self) -> (r: Option<D>) {
        let value = self.store.get();
        match value {
            Some(v) => self.convert.to(v),
            None => None,
        }
    }

    fn put(&mut self, value: D) {
        let old_value = self.store.get();
        let ghost mid = self.store;
        let put_value = self.convert.from(old_value, value);
        match put_value {
            Some(v) => {
                self.store.put(v);
                proof {
                    assert(mid.put_rel(
                        self.convert.spec_from(old(self).store.contents(), value.model())->Some_0,
                        &self.store,
                    ));
                }
            },
            None => {},
        }
    }
}

/// Derives a `Store<D>` from a `Store<S>` and a scalar converter.
pub fn converted<S: Model, D: Model, St: RawStore<S>, C: RawConverter<S, D>>(
    store: St,
    convert: Converter<S, D, C>,
) -> (s: Convert<S, D, St, C>)
    ensures
        s.store == store,
        s.convert == convert.raw,
{
    Convert { store, convert: convert.raw, endpoints: PhantomData }
}

/// Derives a `Store<Vec<D>>` from a `Store<Vec<S>>` by applying a scalar
/// converter element-wise.
pub fn vec_converted<S: Model + Clone, D: Model + Clone, St: RawStore<Vec<S>>, C: RawConverter<
    S,
    D,
>>(store: St, convert: Converter<S, D, C>) -> (s: Convert<
    Vec<S>,
    Vec<D>,
    St,
    VecConverter<S, D, C>,
>)
    ensures
        s.store == store,
        s.convert.base == convert.raw,
{
    Convert {
        store,
        convert: VecConverter { base: convert.raw, endpoints: PhantomData },
        endpoints: PhantomData,
    }
}

/// Derives a `Store<Vec<D>>` from a `Store<Vec<S>>` and a broadcast
/// converter, both sides treated symmetrically as sequences.
pub fn narrow_converted<S: Model, D: Model, St: RawStore<Vec<S>>, C: RawConverter<
    Vec<S>,
    Vec<D>,
>>(store: St, convert: BroadcastConverter<S, D, C>) -> (s: Convert<Vec<S>, Vec<D>, St, C>)
    ensures
        s.store == store,
        s.convert == convert.raw,
{
    Convert { store, convert: convert.raw, endpoints: PhantomData }
}

/// Put-suppression: when the backward conversion rejects the value, the
/// put is dropped and the backing store's contents are untouched.
pub proof fn lemma_put_suppression<S: Model, D: Model, St: RawStore<S>, C: RawConverter<S, D>>(
    pre: Convert<S, D, St, C>,
    v: D::M,
    post: Convert<S, D, St, C>,
)
    requires
        pre.convert.spec_from(pre.store.contents(), v) is None,
        pre.put_rel(v, &post),
    ensures
        post.store.contents() == pre.store.contents(),
{
}

/// A sequence of values written to one store, one `put` after another.
pub open spec fn puts_all<V: Model, St: RawStore<V>>(pre: &St, vs: Seq<V::M>, post: &St) -> bool
    decreases vs.len(),
{
    if vs.len() == 0 {
        post == pre
    } else {
        exists|mid: St|
            {
                &&& #[trigger] pre.put_rel(vs.first(), &mid)
                &&& mid.wf()
                &&& puts_all(&mid, vs.drop_first(), post)
            }
    }
}

/// Extends a `puts_all` chain by one more write at the end.
pub proof fn lemma_puts_all_snoc<V: Model, St: RawStore<V>>(
    pre: St,
    vs: Seq<V::M>,
    mid: St,
    v: V::M,
    post: St,
)
    requires
        puts_all(&pre, vs, &mid),
        mid.put_rel(v, &post),
        post.wf(),
    ensures
        puts_all(&pre, vs.push(v), &post),
    decreases vs.len(),
{
    if vs.len() == 0 {
        assert(mid == pre);
        assert(vs.push(v).first() == v);
        assert(vs.push(v).drop_first() =~= Seq::<V::M>::empty());
        assert(pre.put_rel(vs.push(v).first(), &post));
        assert(puts_all(&post, vs.push(v).drop_first(), &post));
    } else {
        let step = choose|m: St|
            {
                &&& #[trigger] pre.put_rel(vs.first(), &m)
                &&& m.wf()
                &&& puts_all(&m, vs.drop_first(), &mid)
            };
        lemma_puts_all_snoc(step, vs.drop_first(), mid, v, post);
        assert(vs.push(v).first() == vs.first());
        assert(vs.push(v).drop_first() =~= vs.drop_first().push(v));
        assert(pre.put_rel(vs.push(v).first(), &step) && step.wf() && puts_all(
            &step,
            vs.push(v).drop_first(),
            &post,
        ));
    }
}

/// One complete `put` against a broadcast-composed store, witnessed by the
/// backing state `mid` reached after the initial read: the old scalar is
/// wrapped into a one-element sequence, converted back, and the resulting
/// scalars are written one after the other — or, when the conversion
/// rejects, nothing is written at all.
pub open spec fn broadcast_put_step<
    S: Model + Clone,
    D: Model,
    St: RawStore<S>,
    C: RawConverter<Vec<S>, Vec<D>>,
>(
    pre: &BroadcastConvert<S, D, St, C>,
    v: Seq<D::M>,
    post: &BroadcastConvert<S, D, St, C>,
    mid: St,
) -> bool {
    let old_wrapped = match pre.store.contents() {
        Some(s) => Some(seq![s]),
        None => None,
    };
    &&& post.convert == pre.convert
    &&& mid.wf()
    &&& mid.contents() == pre.store.contents()
    &&& match pre.convert.spec_from(old_wrapped, v) {
        None => post.store == mid,
        Some(sv) => puts_all(&mid, sv, &post.store),
    }
}

/// A store of `Vec<D>` derived from a scalar backing store of `S` values
/// and a broadcast converter.
///
/// Reading wraps the scalar into a one-element sequence before converting
/// (the fan-out point); writing converts the sequence back and writes each
/// resulting scalar in order, so the last write wins in the single slot.
pub struct BroadcastConvert<S, D, St, C> {
    pub store: St,
    pub convert: C,
    pub endpoints: PhantomData<(S, D)>,
}

impl<S: Model + Clone, D: Model, St: RawStore<S>, C: RawConverter<Vec<S>, Vec<D>>> RawStore<
    Vec<D>,
> for BroadcastConvert<S, D, St, C> {
    open spec fn wf(&self) -> bool {
        &&& self.store.wf()
        &&& self.convert.wf()
        &&& crate::model::clone_keeps_model::<S>()
    }

    open spec fn contents(&self) -> Option<Seq<D::M>> {
        match self.store.contents() {
            Some(s) => self.convert.spec_to(seq![s]),
            None => None,
        }
    }

    open spec fn put_rel(&self, v: Seq<D::M>, post: &Self) -> bool {
        exists|mid: St| #[trigger] broadcast_put_step(self, v, post, mid)
    }

    fn get(&mut self) -> (r: Option<Vec<D>>) {
        let value = self.store.get();
        match value {
            Some(v) => {
                let wrapped = vec![v];
                proof {
                    assert(wrapped.model() =~= seq![wrapped@[0].model()]);
                }
                self.convert.to(wrapped)
            },
            None => None,
        }
    }

    fn put(&mut self, value: Vec<D>) {
        let old_value = self.store.get();
        let old_wrapped = match old_value {
            Some(o) => {
                let w = vec![o];
                proof {
                    assert(w.model() =~= seq![w@[0].model()]);
                }
                Some(w)
            },
            None => None,
        };
        let ghost mid = self.store;
        let ghost vm = value.model();
        proof {
            assert(old_wrapped.model() == (match old(self).store.contents() {
                Some(s) => Some(seq![s]),
                None => None::<Seq<S::M>>,
            }));
        }
        let put_values = self.convert.from(old_wrapped, value);
        match put_values {
            Some(svec) => {
                let ghost sv = svec.model();
                let mut i: usize = 0;
                proof {
                    assert(puts_all(&mid, sv.take(0), &self.store));
                }
                while i < svec.len()
                    invariant
                        i <= svec.len(),
                        self.convert == old(self).convert,
                        mid.wf(),
                        crate::model::clone_keeps_model::<S>(),
                        sv == svec.model(),
                        self.store.wf(),
                        puts_all(&mid, sv.take(i as int), &self.store),
                    decreases svec.len() - i,
                {
                    let ghost pre_store = self.store;
                    let e = &svec[i];
                    let c = e.clone();
                    proof {
                        assert(vstd::pervasive::cloned::<S>(*e, c));
                        assert(c.model() == sv[i as int]);
                    }
                    self.store.put(c);
                    proof {
                        assert(pre_store.put_rel(sv[i as int], &self.store));
                        lemma_puts_all_snoc(mid, sv.take(i as int), pre_store, sv[i as int], self.store);
                        assert(sv.take(i as int).push(sv[i as int]) =~= sv.take(i as int + 1));
                    }
                    i = i + 1;
                }
                proof {
                    assert(sv.take(sv.len() as int) =~= sv);
                    assert(broadcast_put_step(old(self), vm, self, mid));
                }
            },
            None => {
                proof {
                    assert(broadcast_put_step(old(self), vm, self, mid));
                }
            },
        }
    }
}

/// Derives a `Store<Vec<D>>` from a scalar `Store<S>` and a broadcast
/// converter.
pub fn broadcast_converted<
    S: Model + Clone,
    D: Model,
    St: RawStore<S>,
    C: RawConverter<Vec<S>, Vec<D>>,
>(store: St, convert: BroadcastConverter<S, D, C>) -> (s: BroadcastConvert<S, D, St, C>)
    ensures
        s.store == store,
        s.convert == convert.raw,
{
    BroadcastConvert { store, convert: convert.raw, endpoints: PhantomData }
}

/// Broadcast fan-out on one element: lifting a scalar converter
/// element-wise and applying it to a one-element sequence gives exactly
/// the scalar conversion's outcome — the element when it applies, and the
/// empty sequence when it does not.
pub proof fn lemma_broadcast_singleton<S: Model + Clone, D: Model + Clone, C: RawConverter<S, D>>(
    vc: VecConverter<S, D, C>,
    s: S::M,
)
    ensures
        vc.spec_to(seq![s]) == Some(
            match vc.base.spec_to(s) {
                Some(d) => seq![d],
                None => Seq::<D::M>::empty(),
            },
        ),
{
    let single = seq![s];
    assert(single.first() == s);
    assert(single.drop_first() =~= Seq::<S::M>::empty());
    assert(each_to(&vc.base, Seq::<S::M>::empty()) == Seq::<D::M>::empty());
    match vc.base.spec_to(s) {
        Some(d) => {
            assert(each_to(&vc.base, single) =~= seq![d]);
        },
        None => {
            assert(each_to(&vc.base, single) =~= Seq::<D::M>::empty());
        },
    }
}

} // verus!
