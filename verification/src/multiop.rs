//! Condition-gated converters.
//!
//! A converter can be wrapped with a condition on either side.  Gated on
//! the source side, the read gate is checked before the forward conversion
//! and the write gate after the reverse conversion; gated on the
//! destination side, the read gate is checked after the forward conversion
//! and the write gate before the reverse conversion.  Either gate rejects
//! by reporting the value inapplicable, so a gated conversion is lifted to
//! broadcast form by its builders.

use core::marker::PhantomData;

use vstd::prelude::*;

use crate::convert::{BroadcastConverter, Converter, RawConverter, VecConverter};
use crate::model::{clone_keeps_model, Model};
use crate::select::{Condition, RawCondition};

verus! {

/// A converter gated by a condition on its source side.
pub struct ConditionedConverter<S, D, Cd, C> {
    pub condition: Cd,
    pub converter: C,
    pub endpoints: PhantomData<(S, D)>,
}

impl<S: Model, D: Model, Cd: RawCondition<S>, C: RawConverter<S, D>> RawConverter<
    S,
    D,
> for ConditionedConverter<S, D, Cd, C> {
    open spec fn wf(&self) -> bool {
        &&& self.condition.wf()
        &&& self.converter.wf()
    }

    open spec fn spec_to(&self, src: S::M) -> Option<D::M> {
        if self.condition.to_ok(src) {
            self.converter.spec_to(src)
        } else {
            None
        }
    }

    open spec fn spec_from(&self, old: Option<S::M>, dist: D::M) -> Option<S::M> {
        match self.converter.spec_from(old, dist) {
            Some(src) => if self.condition.from_ok(src) {
                Some(src)
            } else {
                None
            },
            None => None,
        }
    }

    fn to(&self, src: S) -> (r: Option<D>) {
        if self.condition.validation_to(&src) {
            self.converter.to(src)
        } else {
            None
        }
    }

    fn from(&self, old: Option<S>, dist: D) -> (r: Option<S>) {
        match self.converter.from(old, dist) {
            Some(src) => {
                if self.condition.validation_from(&src) {
                    Some(src)
                } else {
                    None
                }
            },
            None => None,
        }
    }
}

/// A converter gated by a condition on its destination side.
pub struct ConditionedConverterR<S, D, Cd, C> {
    pub condition: Cd,
    pub converter: C,
    pub endpoints: PhantomData<(S, D)>,
}

impl<S: Model, D: Model, Cd: RawCondition<D>, C: RawConverter<S, D>> RawConverter<
    S,
    D,
> for ConditionedConverterR<S, D, Cd, C> {
    open spec fn wf(&self) -> bool {
        &&& self.condition.wf()
        &&& self.converter.wf()
    }

    open spec fn spec_to(&self, src: S::M) -> Option<D::M> {
        match self.converter.spec_to(src) {
            Some(dist) => if self.condition.to_ok(dist) {
                Some(dist)
            } else {
                None
            },
            None => None,
        }
    }

    open spec fn spec_from(&self, old: Option<S::M>, dist: D::M) -> Option<S::M> {
        if self.condition.from_ok(dist) {
            self.converter.spec_from(old, dist)
        } else {
            None
        }
    }

    fn to(&self, src: S) -> (r: Option<D>) {
        match self.converter.to(src) {
            Some(dist) => {
                if self.condition.validation_to(&dist) {
                    Some(dist)
                } else {
                    None
                }
            },
            None => None,
        }
    }

    fn from(&self, old: Option<S>, dist: D) -> (r: Option<S>) {
        if self.condition.validation_from(&dist) {
            self.converter.from(old, dist)
        } else {
            None
        }
    }
}

/// Gates a converter on its source side and lifts it to broadcast form.
pub fn gated<S: Model + Clone, D: Model + Clone, Cd: RawCondition<S>, C: RawConverter<S, D>>(
    condition: Condition<S, Cd>,
    converter: Converter<S, D, C>,
) -> (c: BroadcastConverter<S, D, VecConverter<S, D, ConditionedConverter<S, D, Cd, C>>>)
    ensures
        c.raw.base.condition == condition.raw,
        c.raw.base.converter == converter.raw,
{
    Converter::new(
        ConditionedConverter {
            condition: condition.raw,
            converter: converter.raw,
            endpoints: PhantomData,
        },
    ).to_vec_converter().to_broadcast()
}

/// Gates a converter on its destination side and lifts it to broadcast
/// form.
pub fn gated_target<S: Model + Clone, D: Model + Clone, Cd: RawCondition<D>, C: RawConverter<S, D>>(
    converter: Converter<S, D, C>,
    condition: Condition<D, Cd>,
) -> (c: BroadcastConverter<S, D, VecConverter<S, D, ConditionedConverterR<S, D, Cd, C>>>)
    ensures
        c.raw.base.condition == condition.raw,
        c.raw.base.converter == converter.raw,
{
    Converter::new(
        ConditionedConverterR {
            condition: condition.raw,
            converter: converter.raw,
            endpoints: PhantomData,
        },
    ).to_vec_converter().to_broadcast()
}

} // verus!
