//! A combinator library for bidirectional data pipelines.
//!
//! Two dual abstractions form the core: a store is a mutable two-way
//! endpoint holding at most one value, and a converter is a partial
//! bidirectional transformation between a source and a destination type.
//! Wrapping a store with a converter yields a derived store of the
//! destination type; converters compose sequentially, element-wise over
//! vectors, and as unions; conditions gate reads and writes independently.
//! A pipeline is the one-directional, fallible counterpart with sequential
//! and fallback composition.

pub mod compose;
pub mod convert;
pub mod crud;
pub mod json;
pub mod merge;
pub mod model;
pub mod multiop;
pub mod pipeline;
pub mod propaty;
pub mod select;
pub mod store;
pub mod testing;
pub mod transport;
pub mod util;

pub use compose::{broadcast_converted, converted, narrow_converted, vec_converted};
pub use convert::{
    dummy, from_vec, get_only, put_only, to_vec, unwarp, unwarp_err, unwarp_or, BroadcastConverter,
    Converter, RawConverter,
};
pub use crud::{create, delete, read, update, Error};
pub use merge::merged;
pub use model::Model;
pub use multiop::{gated, gated_target};
pub use pipeline::{filter, framework, pipeline, Framework, Pipeline, RawFramework, RawPipeline};
pub use propaty::{
    create_propaty, flatten_porpaties, get_value, named, temporary_object, unique_porpaty, Propaty,
    PropatyMap, PropatyValue, UniqueOrder,
};
pub use select::{select, select_propaty_get, select_propaty_put, selected, vec_selected, Condition, RawCondition};
pub use store::{in_memory, in_memory_cache, temporary, RawStore};
pub use testing::{test_error, test_ok};
pub use util::from_utf8;
