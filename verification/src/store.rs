//! Stores: mutable two-way endpoints holding at most one value.
//!
//! A store behaves as a single-slot register: `get` reports the current
//! contents (or `None` when empty or unrepresentable), and `put` writes a
//! value.  Derived stores built from converters may transform or suppress
//! either direction, so the trait describes `put` by a relation between the
//! old and the new store state rather than by a fixed equation.

use vstd::prelude::*;

use crate::model::Model;

verus! {

/// A mutable two-way endpoint for a value of type `V`.
pub trait RawStore<V: Model>: Sized {
    /// Well-formedness of the store state, preserved by every operation.
    spec fn wf(&self) -> bool;

    /// The model of the value the store currently holds, if any.
    spec fn contents(&self) -> Option<V::M>;

    /// Relates the state before a `put` of a value with model `v` to the
    /// state after it.  Each implementation pins down at least the new
    /// contents; a leaf store simply stores `v`.
    spec fn put_rel(&self, v: V::M, post: &Self) -> bool;

    /// Reads the current contents.  Reading may update internal state (a
    /// cache, say) but never changes the contents.
    fn get(&mut self) -> (r: Option<V>)
        requires
            old(self).wf(),
        ensures
            final(self).wf(),
            final(self).contents() == old(self).contents(),
            r.model() == old(self).contents(),
    ;

    /// Writes a value; the new state is as `put_rel` describes.
    fn put(&mut self, value: V)
        requires
            old(self).wf(),
        ensures
            final(self).wf(),
            old(self).put_rel(value.model(), final(self)),
    ;
}

/// A leaf store: one in-memory slot, the most recently put value wins.
pub struct InMemoryStore<V> {
    value: Option<V>,
}

impl<V: Model + Clone> RawStore<V> for InMemoryStore<V> {
    /// The slot only hands out clones, so it insists that clones of `V`
    /// keep their model.
    closed spec fn wf(&self) -> bool {
        crate::model::clone_keeps_model::<V>()
    }

    closed spec fn contents(&self) -> Option<V::M> {
        self.value.model()
    }

    open spec fn put_rel(&self, v: V::M, post: &Self) -> bool {
        post.contents() == Some(v)
    }

    fn get(&mut self) -> (r: Option<V>) {
        match &self.value {
            Some(v) => {
                let c = v.clone();
                proof {
                    assert(vstd::pervasive::cloned::<V>(*v, c));
                }
                Some(c)
            },
            None => None,
        }
    }

    fn put(&mut self, value: V) {
        self.value = Some(value);
    }
}

/// A store primed with an initial value (or empty, when `init` is `None`).
pub fn in_memory<V: Model + Clone>(init: Option<V>) -> (s: InMemoryStore<V>)
    requires
        crate::model::clone_keeps_model::<V>(),
    ensures
        s.wf(),
        s.contents() == init.model(),
{
    InMemoryStore { value: init }
}

/// An initially empty in-memory store.
pub fn temporary<V: Model + Clone>() -> (s: InMemoryStore<V>)
    requires
        crate::model::clone_keeps_model::<V>(),
    ensures
        s.wf(),
        s.contents() is None,
{
    InMemoryStore { value: None }
}

/// The single-slot register law: a leaf store holds exactly the most
/// recently put value.
pub proof fn lemma_single_slot<V: Model + Clone>(
    pre: InMemoryStore<V>,
    v: V::M,
    post: InMemoryStore<V>,
)
    requires
        pre.put_rel(v, &post),
    ensures
        post.contents() == Some(v),
{
}

/// A store remembering the last value that passed through it, so repeated
/// reads spare the backing store.  Its contents are the cached value when
/// one is present, and the backing contents before that.
pub struct CacheStore<V, St> {
    pub cache: Option<V>,
    pub store: St,
}

impl<V: Model + Clone, St: RawStore<V>> RawStore<V> for CacheStore<V, St> {
    open spec fn wf(&self) -> bool {
        &&& self.store.wf()
        &&& crate::model::clone_keeps_model::<V>()
    }

    open spec fn contents(&self) -> Option<V::M> {
        match self.cache {
            Some(c) => Some(c.model()),
            None => self.store.contents(),
        }
    }

    open spec fn put_rel(&self, v: V::M, post: &Self) -> bool {
        &&& post.contents() == Some(v)
        &&& self.store.put_rel(v, &post.store)
    }

    fn get(&mut self) -> (r: Option<V>) {
        match &self.cache {
            Some(c) => {
                let copy = c.clone();
                proof {
                    assert(vstd::pervasive::cloned::<V>(*c, copy));
                }
                Some(copy)
            },
            None => {
                match self.store.get() {
                    Some(v) => {
                        let copy = v.clone();
                        proof {
                            assert(vstd::pervasive::cloned::<V>(v, copy));
                        }
                        self.cache = Some(copy);
                        Some(v)
                    },
                    None => None,
                }
            },
        }
    }

    fn put(&mut self, value: V) {
        let copy = value.clone();
        proof {
            assert(vstd::pervasive::cloned::<V>(value, copy));
        }
        self.cache = Some(copy);
        self.store.put(value);
    }
}

/// Wraps a store with an in-memory cache.
pub fn in_memory_cache<V: Model + Clone, St: RawStore<V>>(store: St) -> (s: CacheStore<V, St>)
    requires
        store.wf(),
        crate::model::clone_keeps_model::<V>(),
    ensures
        s.wf(),
        s.contents() == store.contents(),
        s.store == store,
        s.cache is None,
{
    CacheStore { cache: None, store }
}

/// Copies the value of one store into another: the target sees a put of
/// whatever the source holds, and an empty source moves nothing.
pub fn transport<V: Model, A: RawStore<V>, B: RawStore<V>>(from: &mut A, to: &mut B)
    requires
        old(from).wf(),
        old(to).wf(),
    ensures
        final(from).wf(),
        final(from).contents() == old(from).contents(),
        final(to).wf(),
        match old(from).contents() {
            Some(v) => old(to).put_rel(v, final(to)),
            None => *final(to) == *old(to),
        },
{
    if let Some(value) = from.get() {
        to.put(value);
    }
}

/// Exchanges the values of two stores; when only one holds a value, that
/// value is copied to the other side.
pub fn swap<V: Model, A: RawStore<V>, B: RawStore<V>>(a: &mut A, b: &mut B)
    requires
        old(a).wf(),
        old(b).wf(),
    ensures
        final(a).wf(),
        final(b).wf(),
        match (old(a).contents(), old(b).contents()) {
            (Some(va), Some(vb)) => {
                &&& exists|ma: A|
                    {
                        &&& ma.wf()
                        &&& ma.contents() == old(a).contents()
                        &&& #[trigger] ma.put_rel(vb, final(a))
                    }
                &&& exists|mb: B|
                    {
                        &&& mb.wf()
                        &&& mb.contents() == old(b).contents()
                        &&& #[trigger] mb.put_rel(va, final(b))
                    }
            },
            (Some(va), None) => {
                &&& final(a).contents() == old(a).contents()
                &&& exists|mb: B|
                    {
                        &&& mb.wf()
                        &&& mb.contents() == old(b).contents()
                        &&& #[trigger] mb.put_rel(va, final(b))
                    }
            },
            (None, Some(vb)) => {
                &&& final(b).contents() == old(b).contents()
                &&& exists|ma: A|
                    {
                        &&& ma.wf()
                        &&& ma.contents() == old(a).contents()
                        &&& #[trigger] ma.put_rel(vb, final(a))
                    }
            },
            (None, None) => {
                &&& final(a).contents() == old(a).contents()
                &&& final(b).contents() == old(b).contents()
            },
        },
{
    match a.get() {
        Some(value_a) => {
            let ghost ma = *a;
            match b.get() {
                Some(value_b) => {
                    let ghost mb = *b;
                    a.put(value_b);
                    b.put(value_a);
                    proof {
                        assert(ma.wf() && ma.contents() == old(a).contents() && ma.put_rel(
                            old(b).contents()->Some_0,
                            &*a,
                        ));
                        assert(mb.wf() && mb.contents() == old(b).contents() && mb.put_rel(
                            old(a).contents()->Some_0,
                            &*b,
                        ));
                    }
                },
                None => {
                    let ghost mb = *b;
                    b.put(value_a);
                    proof {
                        assert(mb.wf() && mb.contents() == old(b).contents() && mb.put_rel(
                            old(a).contents()->Some_0,
                            &*b,
                        ));
                    }
                },
            }
        },
        None => {
            match b.get() {
                Some(value_b) => {
                    let ghost ma = *a;
                    a.put(value_b);
                    proof {
                        assert(ma.wf() && ma.contents() == old(a).contents() && ma.put_rel(
                            old(b).contents()->Some_0,
                            &*a,
                        ));
                    }
                },
                None => {},
            }
        },
    }
}

} // verus!
