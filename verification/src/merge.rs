//! Merged stores: one vector store backed by two.
//!
//! Reading concatenates what the two backing stores hold, base first;
//! an entirely empty outcome reads as an absent value.  Writing puts the
//! whole vector to both backing stores.

use core::marker::PhantomData;

use vstd::prelude::*;

use crate::model::{clone_keeps_model, clone_vec, Model};
use crate::store::RawStore;

verus! {

/// A vector store that concatenates two backing stores.
pub struct Merge<T, A, B> {
    pub base: A,
    pub add: B,
    pub elem: PhantomData<T>,
}

/// What an optional vector contributes to the merged contents.
pub open spec fn merged_part<M>(c: Option<Seq<M>>) -> Seq<M> {
    match c {
        Some(v) => v,
        None => Seq::empty(),
    }
}

impl<T: Model + Clone, A: RawStore<Vec<T>>, B: RawStore<Vec<T>>> RawStore<Vec<T>> for Merge<
    T,
    A,
    B,
> {
    open spec fn wf(&self) -> bool {
        &&& self.base.wf()
        &&& self.add.wf()
        &&& clone_keeps_model::<T>()
    }

    open spec fn contents(&self) -> Option<Seq<T::M>> {
        let combined = merged_part(self.base.contents()) + merged_part(self.add.contents());
        if combined.len() == 0 {
            None
        } else {
            Some(combined)
        }
    }

    open spec fn put_rel(&self, v: Seq<T::M>, post: &Self) -> bool {
        &&& self.base.put_rel(v, &post.base)
        &&& self.add.put_rel(v, &post.add)
    }

    fn get(&mut self) -> (r: Option<Vec<T>>) {
        let base_value = self.base.get();
        let add_value = self.add.get();
        let mut result: Vec<T> = match base_value {
            Some(v) => v,
            None => Vec::new(),
        };
        proof {
            assert(result.model() =~= merged_part(self.base.contents()));
        }
        let ghost bm = result.model();
        if let Some(mut v) = add_value {
            let ghost am = v.model();
            result.append(&mut v);
            proof {
                assert(result.model() =~= bm + am);
            }
        } else {
            proof {
                assert(result.model() =~= bm + merged_part(self.add.contents()));
            }
        }
        if result.len() == 0 {
            proof {
                assert(result.model().len() == 0);
            }
            None
        } else {
            Some(result)
        }
    }

    fn put(&mut self, value: Vec<T>) {
        let copy = clone_vec(&value);
        self.base.put(copy);
        self.add.put(value);
    }
}

/// Merges two vector stores, base first.
pub fn merged<T: Model + Clone, A: RawStore<Vec<T>>, B: RawStore<Vec<T>>>(base: A, add: B) -> (s:
    Merge<T, A, B>)
    ensures
        s.base == base,
        s.add == add,
{
    Merge { base, add, elem: PhantomData }
}

} // verus!
