//! Mathematical models of the value types the combinators move around.
//!
//! Every executable type that flows through a store or a converter has a
//! spec-level model: strings become `Seq<char>`, vectors become sequences of
//! element models, and so on.  Contracts throughout the crate are stated
//! over these models, so that two values built differently but holding the
//! same data are treated as equal.

use vstd::prelude::*;
use vstd::std_specs::cmp::PartialEqSpec;

verus! {

/// A type with a spec-level mathematical model.
pub trait Model {
    type M;

    spec fn model(&self) -> Self::M;
}

impl Model for bool {
    type M = bool;

    open spec fn model(&self) -> bool {
        *self
    }
}

impl Model for char {
    type M = char;

    open spec fn model(&self) -> char {
        *self
    }
}

impl Model for u8 {
    type M = u8;

    open spec fn model(&self) -> u8 {
        *self
    }
}

impl Model for i32 {
    type M = i32;

    open spec fn model(&self) -> i32 {
        *self
    }
}

impl Model for i64 {
    type M = i64;

    open spec fn model(&self) -> i64 {
        *self
    }
}

impl Model for usize {
    type M = usize;

    open spec fn model(&self) -> usize {
        *self
    }
}

impl Model for () {
    type M = ();

    open spec fn model(&self) -> () {
        ()
    }
}

impl Model for String {
    type M = Seq<char>;

    open spec fn model(&self) -> Seq<char> {
        self@
    }
}

impl<T: Model> Model for Vec<T> {
    type M = Seq<T::M>;

    open spec fn model(&self) -> Seq<T::M> {
        Seq::new(self@.len(), |i: int| self@[i].model())
    }
}

impl<T: Model> Model for Option<T> {
    type M = Option<T::M>;

    open spec fn model(&self) -> Option<T::M> {
        match self {
            Some(t) => Some(t.model()),
            None => None,
        }
    }
}

impl<T: Model, E: Model> Model for Result<T, E> {
    type M = Result<T::M, E::M>;

    open spec fn model(&self) -> Result<T::M, E::M> {
        match self {
            Ok(t) => Ok(t.model()),
            Err(e) => Err(e.model()),
        }
    }
}

/// Every clone of a `T` has the same model as the original.
///
/// Generic combinators that must duplicate a value (a union converter runs
/// both branches on the same input, a merged store writes to two backing
/// stores) demand this of the element type, so that cloning is invisible at
/// the model level.
pub open spec fn clone_keeps_model<T: Clone + Model>() -> bool {
    forall|a: T, b: T| #[trigger] vstd::pervasive::cloned::<T>(a, b) ==> a.model() == b.model()
}

/// The `==` of a `T` is usable in contracts and agrees with model equality.
pub open spec fn eq_decides_model<T: PartialEq + Model>() -> bool {
    &&& T::obeys_eq_spec()
    &&& forall|a: T, b: T| (#[trigger] a.eq_spec(&b)) <==> a.model() == b.model()
}

/// Cloning a `String` returns an equal value.
pub proof fn string_clone_keeps_model()
    ensures
        clone_keeps_model::<String>(),
{
    assert forall|a: String, b: String| #[trigger]
        vstd::pervasive::cloned::<String>(a, b) implies a.model() == b.model() by {
        if a != b {
            assert(vstd::pervasive::strictly_cloned::<String>(a, b));
        }
    }
}

/// Cloning an `i64` returns an equal value.
pub proof fn i64_clone_keeps_model()
    ensures
        clone_keeps_model::<i64>(),
{
    assert forall|a: i64, b: i64| #[trigger]
        vstd::pervasive::cloned::<i64>(a, b) implies a.model() == b.model() by {
        if a != b {
            assert(vstd::pervasive::strictly_cloned::<i64>(a, b));
        }
    }
}

/// Cloning a `u8` returns an equal value.
pub proof fn u8_clone_keeps_model()
    ensures
        clone_keeps_model::<u8>(),
{
    assert forall|a: u8, b: u8| #[trigger]
        vstd::pervasive::cloned::<u8>(a, b) implies a.model() == b.model() by {
        if a != b {
            assert(vstd::pervasive::strictly_cloned::<u8>(a, b));
        }
    }
}

/// Cloning a vector clones each element; if element clones keep their
/// model, so does the vector clone.
pub proof fn vec_clone_keeps_model<T: Clone + Model>()
    requires
        clone_keeps_model::<T>(),
    ensures
        clone_keeps_model::<Vec<T>>(),
{
    assert forall|a: Vec<T>, b: Vec<T>| #[trigger]
        vstd::pervasive::cloned::<Vec<T>>(a, b) implies a.model() == b.model() by {
        if a != b {
            assert(vstd::pervasive::strictly_cloned::<Vec<T>>(a, b));
            assert(b.len() == a.len() && forall|i: int|
                0 <= i < a.len() ==> vstd::pervasive::cloned::<T>(a[i], b[i]));
            assert forall|i: int| 0 <= i < a.len() implies a@[i].model() == b@[i].model() by {
                assert(vstd::pervasive::cloned::<T>(a[i], b[i]));
            }
            assert(a.model() =~= b.model());
        }
    }
}

/// A byte vector's model is its view.
pub broadcast proof fn vec_u8_model_is_view(v: Vec<u8>)
    ensures
        #[trigger] v.model() == v@,
{
    assert(v.model() =~= v@);
}

/// Clones an entire vector without changing its model.
pub fn clone_vec<T: Clone + Model>(v: &Vec<T>) -> (r: Vec<T>)
    requires
        clone_keeps_model::<T>(),
    ensures
        r.model() == v.model(),
{
    let r = v.clone();
    proof {
        vec_clone_keeps_model::<T>();
        assert(vstd::pervasive::cloned::<Vec<T>>(*v, r));
    }
    r
}

} // verus!
