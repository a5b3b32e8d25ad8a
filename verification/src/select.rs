//! Conditions: independent read and write gates over a store's value.
//!
//! A condition holds two predicates: `validation_to` gates what a `get`
//! may hand out, `validation_from` gates what a `put` may accept.  A store
//! wrapped with a condition silently absorbs whatever the gates reject.

use core::marker::PhantomData;

use vstd::prelude::*;
use vstd::std_specs::cmp::PartialEqSpec;

use crate::model::{clone_keeps_model, eq_decides_model, Model};
use crate::propaty::{prop_model, str_eq, Propaty};
use crate::store::RawStore;

verus! {

/// A pair of independent predicates gating reads and writes.
pub trait RawCondition<T: Model> {
    /// Assumptions the condition makes of its type parameters.
    spec fn wf(&self) -> bool;

    /// The read gate, at the model level.
    spec fn to_ok(&self, v: T::M) -> bool;

    /// The write gate, at the model level.
    spec fn from_ok(&self, v: T::M) -> bool;

    /// Whether a value may be handed out by a read.
    fn validation_to(&self, value: &T) -> (b: bool)
        requires
            self.wf(),
        ensures
            b == self.to_ok(value.model()),
    ;

    /// Whether a value may be accepted by a write.
    fn validation_from(&self, value: &T) -> (b: bool)
        requires
            self.wf(),
        ensures
            b == self.from_ok(value.model()),
    ;
}

/// A condition packaged with its subject type.
pub struct Condition<T, C> {
    pub raw: C,
    pub subject: PhantomData<T>,
}

impl<T, C> Condition<T, C> {
    pub fn new(raw: C) -> (c: Condition<T, C>)
        ensures
            c.raw == raw,
    {
        Condition { raw, subject: PhantomData }
    }
}

impl<T: Model, C: RawCondition<T>> RawCondition<T> for Condition<T, C> {
    open spec fn wf(&self) -> bool {
        self.raw.wf()
    }

    open spec fn to_ok(&self, v: T::M) -> bool {
        self.raw.to_ok(v)
    }

    open spec fn from_ok(&self, v: T::M) -> bool {
        self.raw.from_ok(v)
    }

    fn validation_to(&self, value: &T) -> (b: bool) {
        self.raw.validation_to(value)
    }

    fn validation_from(&self, value: &T) -> (b: bool) {
        self.raw.validation_from(value)
    }
}

/// Reads pass only for values equal to a reference value; writes always
/// pass.
pub struct SimpleSelect<T> {
    pub reference: T,
}

impl<T: Model + PartialEq> RawCondition<T> for SimpleSelect<T> {
    open spec fn wf(&self) -> bool {
        eq_decides_model::<T>()
    }

    open spec fn to_ok(&self, v: T::M) -> bool {
        v == self.reference.model()
    }

    open spec fn from_ok(&self, v: T::M) -> bool {
        true
    }

    fn validation_to(&self, value: &T) -> (b: bool) {
        let b = self.reference == *value;
        proof {
            assert(self.reference.eq_spec(value) <==> self.reference.model() == value.model());
        }
        b
    }

    fn validation_from(&self, value: &T) -> (b: bool) {
        true
    }
}

/// A condition that only reads back the given reference value.
pub fn select<T: Model + PartialEq>(reference: T) -> (c: Condition<T, SimpleSelect<T>>)
    requires
        eq_decides_model::<T>(),
    ensures
        c.wf(),
        c.raw.reference == reference,
{
    Condition::new(SimpleSelect { reference })
}

/// Reads pass only for pairs under the given key; writes always pass.
pub struct SelectPropatyGet {
    pub key: String,
}

impl RawCondition<Propaty> for SelectPropatyGet {
    open spec fn wf(&self) -> bool {
        true
    }

    open spec fn to_ok(&self, v: crate::propaty::PropModel) -> bool {
        v.key == self.key@
    }

    open spec fn from_ok(&self, v: crate::propaty::PropModel) -> bool {
        true
    }

    fn validation_to(&self, value: &Propaty) -> (b: bool) {
        str_eq(self.key.as_str(), value.key.as_str())
    }

    fn validation_from(&self, value: &Propaty) -> (b: bool) {
        true
    }
}

/// A condition that only reads back pairs under the given key.
pub fn select_propaty_get(key: &str) -> (c: Condition<Propaty, SelectPropatyGet>)
    ensures
        c.wf(),
        c.raw.key@ == key@,
{
    Condition::new(SelectPropatyGet { key: key.to_owned() })
}

/// Writes pass only for pairs under the given key; reads always pass.
pub struct SelectPropatyPut {
    pub key: String,
}

impl RawCondition<Propaty> for SelectPropatyPut {
    open spec fn wf(&self) -> bool {
        true
    }

    open spec fn to_ok(&self, v: crate::propaty::PropModel) -> bool {
        true
    }

    open spec fn from_ok(&self, v: crate::propaty::PropModel) -> bool {
        v.key == self.key@
    }

    fn validation_to(&self, value: &Propaty) -> (b: bool) {
        true
    }

    fn validation_from(&self, value: &Propaty) -> (b: bool) {
        str_eq(self.key.as_str(), value.key.as_str())
    }
}

/// A condition that only accepts writes of pairs under the given key.
pub fn select_propaty_put(key: &str) -> (c: Condition<Propaty, SelectPropatyPut>)
    ensures
        c.wf(),
        c.raw.key@ == key@,
{
    Condition::new(SelectPropatyPut { key: key.to_owned() })
}

/// Reads always pass, writes never do.
pub struct GetOnly;

impl<T: Model> RawCondition<T> for GetOnly {
    open spec fn wf(&self) -> bool {
        true
    }

    open spec fn to_ok(&self, v: T::M) -> bool {
        true
    }

    open spec fn from_ok(&self, v: T::M) -> bool {
        false
    }

    fn validation_to(&self, value: &T) -> (b: bool) {
        true
    }

    fn validation_from(&self, value: &T) -> (b: bool) {
        false
    }
}

/// A condition that makes a store read-only.
pub fn get_only<T: Model>() -> (c: Condition<T, GetOnly>)
    ensures
        c.wf(),
        forall|v: T::M| #[trigger] c.to_ok(v),
        forall|v: T::M| !(#[trigger] c.from_ok(v)),
{
    Condition::new(GetOnly)
}

/// Writes always pass, reads never do.
pub struct PutOnly;

impl<T: Model> RawCondition<T> for PutOnly {
    open spec fn wf(&self) -> bool {
        true
    }

    open spec fn to_ok(&self, v: T::M) -> bool {
        false
    }

    open spec fn from_ok(&self, v: T::M) -> bool {
        true
    }

    fn validation_to(&self, value: &T) -> (b: bool) {
        false
    }

    fn validation_from(&self, value: &T) -> (b: bool) {
        true
    }
}

/// A condition that makes a store write-only.
pub fn put_only<T: Model>() -> (c: Condition<T, PutOnly>)
    ensures
        c.wf(),
        forall|v: T::M| !(#[trigger] c.to_ok(v)),
        forall|v: T::M| #[trigger] c.from_ok(v),
{
    Condition::new(PutOnly)
}

/// Either gate passes when it passes in either condition.
pub struct MultiCondition<T, A, B> {
    pub lhs: A,
    pub rhs: B,
    pub subject: PhantomData<T>,
}

impl<T: Model, A: RawCondition<T>, B: RawCondition<T>> RawCondition<T> for MultiCondition<T, A, B> {
    open spec fn wf(&self) -> bool {
        self.lhs.wf() && self.rhs.wf()
    }

    open spec fn to_ok(&self, v: T::M) -> bool {
        self.lhs.to_ok(v) || self.rhs.to_ok(v)
    }

    open spec fn from_ok(&self, v: T::M) -> bool {
        self.lhs.from_ok(v) || self.rhs.from_ok(v)
    }

    fn validation_to(&self, value: &T) -> (b: bool) {
        self.lhs.validation_to(value) || self.rhs.validation_to(value)
    }

    fn validation_from(&self, value: &T) -> (b: bool) {
        self.lhs.validation_from(value) || self.rhs.validation_from(value)
    }
}

impl<T: Model, C: RawCondition<T>> Condition<T, C> {
    /// The union of two conditions: either gate passes when it passes in
    /// either of the two.
    pub fn or<C2: RawCondition<T>>(self, rhs: Condition<T, C2>) -> (c: Condition<
        T,
        MultiCondition<T, C, C2>,
    >)
        ensures
            c.raw.lhs == self.raw,
            c.raw.rhs == rhs.raw,
    {
        Condition::new(MultiCondition { lhs: self.raw, rhs: rhs.raw, subject: PhantomData })
    }
}

/// A store gated by a condition: reads of rejected values report an empty
/// store, writes of rejected values are dropped.
pub struct Select<T, St, C> {
    pub store: St,
    pub condition: C,
    pub subject: PhantomData<T>,
}

impl<T: Model, St: RawStore<T>, C: RawCondition<T>> RawStore<T> for Select<T, St, C> {
    open spec fn wf(&self) -> bool {
        &&& self.store.wf()
        &&& self.condition.wf()
    }

    open spec fn contents(&self) -> Option<T::M> {
        match self.store.contents() {
            Some(v) => if self.condition.to_ok(v) {
                Some(v)
            } else {
                None
            },
            None => None,
        }
    }

    open spec fn put_rel(&self, v: T::M, post: &Self) -> bool {
        &&& post.condition == self.condition
        &&& if self.condition.from_ok(v) {
            self.store.put_rel(v, &post.store)
        } else {
            post.store == self.store
        }
    }

    fn get(&mut self) -> (r: Option<T>) {
        let value = self.store.get();
        match value {
            Some(v) => {
                if self.condition.validation_to(&v) {
                    Some(v)
                } else {
                    None
                }
            },
            None => None,
        }
    }

    fn put(&mut self, value: T) {
        if self.condition.validation_from(&value) {
            self.store.put(value);
        }
    }
}

/// Gates a store with a condition.
pub fn selected<T: Model, St: RawStore<T>, C: RawCondition<T>>(
    store: St,
    condition: Condition<T, C>,
) -> (s: Select<T, St, C>)
    ensures
        s.store == store,
        s.condition == condition.raw,
{
    Select { store, condition: condition.raw, subject: PhantomData }
}

/// A vector store gated element-wise: reads keep the elements the read
/// gate passes, writes keep the elements the write gate passes.
pub struct VecSelect<T, St, C> {
    pub store: St,
    pub condition: C,
    pub subject: PhantomData<T>,
}

impl<T: Model + Clone, St: RawStore<Vec<T>>, C: RawCondition<T>> RawStore<Vec<T>> for VecSelect<
    T,
    St,
    C,
> {
    open spec fn wf(&self) -> bool {
        &&& self.store.wf()
        &&& self.condition.wf()
        &&& clone_keeps_model::<T>()
    }

    open spec fn contents(&self) -> Option<Seq<T::M>> {
        match self.store.contents() {
            Some(vs) => Some(vs.filter(|m: T::M| self.condition.to_ok(m))),
            None => None,
        }
    }

    open spec fn put_rel(&self, v: Seq<T::M>, post: &Self) -> bool {
        &&& post.condition == self.condition
        &&& self.store.put_rel(v.filter(|m: T::M| self.condition.from_ok(m)), &post.store)
    }

    fn get(&mut self) -> (r: Option<Vec<T>>) {
        let value = self.store.get();
        match value {
            Some(vs) => {
                let ghost full = vs.model();
                let ghost pred = |m: T::M| self.condition.to_ok(m);
                let mut result: Vec<T> = Vec::new();
                let mut i: usize = 0;
                proof {
                    assert(full.take(0) =~= Seq::<T::M>::empty());
                    assert(full.take(0).filter(pred) =~= Seq::<T::M>::empty());
                    assert(result.model() =~= full.take(0).filter(pred));
                }
                while i < vs.len()
                    invariant
                        i <= vs.len(),
                        self.condition.wf(),
                        clone_keeps_model::<T>(),
                        full == vs.model(),
                        pred == (|m: T::M| self.condition.to_ok(m)),
                        result.model() == full.take(i as int).filter(pred),
                    decreases vs.len() - i,
                {
                    let ghost pre = result.model();
                    proof {
                        assert(full.take(i as int).push(full[i as int]) =~= full.take(i as int + 1));
                        full.take(i as int).lemma_filter_push(full[i as int], pred);
                    }
                    let e = &vs[i];
                    if self.condition.validation_to(e) {
                        let c = e.clone();
                        proof {
                            assert(vstd::pervasive::cloned::<T>(*e, c));
                        }
                        result.push(c);
                        proof {
                            assert(result.model() =~= pre.push(full[i as int]));
                        }
                    }
                    i = i + 1;
                }
                proof {
                    assert(full.take(vs.len() as int) =~= full);
                }
                Some(result)
            },
            None => None,
        }
    }

    fn put(&mut self, value: Vec<T>) {
        let ghost full = value.model();
        let ghost pred = |m: T::M| self.condition.from_ok(m);
        let mut result: Vec<T> = Vec::new();
        let mut i: usize = 0;
        proof {
            assert(full.take(0) =~= Seq::<T::M>::empty());
            assert(full.take(0).filter(pred) =~= Seq::<T::M>::empty());
            assert(result.model() =~= full.take(0).filter(pred));
        }
        while i < value.len()
            invariant
                i <= value.len(),
                self.condition.wf(),
                self.condition == old(self).condition,
                self.store == old(self).store,
                self.store.wf(),
                clone_keeps_model::<T>(),
                full == value.model(),
                pred == (|m: T::M| self.condition.from_ok(m)),
                result.model() == full.take(i as int).filter(pred),
            decreases value.len() - i,
        {
            let ghost pre = result.model();
            proof {
                assert(full.take(i as int).push(full[i as int]) =~= full.take(i as int + 1));
                full.take(i as int).lemma_filter_push(full[i as int], pred);
            }
            let e = &value[i];
            if self.condition.validation_from(e) {
                let c = e.clone();
                proof {
                    assert(vstd::pervasive::cloned::<T>(*e, c));
                }
                result.push(c);
                proof {
                    assert(result.model() =~= pre.push(full[i as int]));
                }
            }
            i = i + 1;
        }
        proof {
            assert(full.take(value.len() as int) =~= full);
        }
        self.store.put(result);
    }
}

/// Gates a vector store with an element-wise condition.
pub fn vec_selected<T: Model + Clone, St: RawStore<Vec<T>>, C: RawCondition<T>>(
    store: St,
    condition: Condition<T, C>,
) -> (s: VecSelect<T, St, C>)
    ensures
        s.store == store,
        s.condition == condition.raw,
{
    VecSelect { store, condition: condition.raw, subject: PhantomData }
}

} // verus!
