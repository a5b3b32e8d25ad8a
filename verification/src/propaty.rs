//! Dynamic property records: ordered key-value bags.
//!
//! A [`Propaty`] is one key-value pair; a `Vec<Propaty>` is an ordered
//! record, looked up by first match on the key.  The value side is a closed
//! union of the payload kinds the library moves around: text, integers,
//! decimal numbers kept as their literal text, truth values, nested records
//! and record lists, and the outcome-carrying payloads the property-store
//! converters exchange.

use vstd::prelude::*;

use crate::convert::RawConverter;
use crate::crud::Error;
use crate::model::{clone_keeps_model, Model};
use crate::store::RawStore;

verus! {

broadcast use {vstd::seq::group_seq_axioms, vstd::std_specs::vec::group_vec_axioms};

/// Relies on `<str as PartialEq>::eq`: two string slices are equal exactly
/// when they consist of the same characters.
pub assume_specification[ <str as PartialEq<str>>::eq ](a: &str, b: &str) -> (r: bool)
    ensures
        r == (a@ == b@),
;

/// Compares two string slices character by character.
pub fn str_eq(a: &str, b: &str) -> (r: bool)
    ensures
        r == (a@ == b@),
{
    a.eq(b)
}

/// The spec-level model of a property value.
#[verifier::ext_equal]
pub enum ValModel {
    Text(Seq<char>),
    Int(i64),
    Real(Seq<char>),
    Flag(bool),
    Record(Seq<PropModel>),
    Records(Seq<Seq<PropModel>>),
    RecordResult(Result<Seq<PropModel>, Error>),
    RecordsResult(Result<Seq<Seq<PropModel>>, Error>),
    OptRecord(Option<Seq<PropModel>>),
}

/// The spec-level model of one key-value pair.
#[verifier::ext_equal]
pub struct PropModel {
    pub key: Seq<char>,
    pub value: ValModel,
}

/// A dynamically typed property value: the closed set of payload kinds.
///
/// A floating-point payload is carried as its decimal literal text in the
/// `Real` variant, so the record logic never computes with it.
#[derive(Debug)]
pub enum PropatyValue {
    Text(String),
    Int(i64),
    Real(String),
    Flag(bool),
    Record(Vec<Propaty>),
    Records(Vec<Vec<Propaty>>),
    RecordResult(Result<Vec<Propaty>, Error>),
    RecordsResult(Result<Vec<Vec<Propaty>>, Error>),
    OptRecord(Option<Vec<Propaty>>),
}

/// One key-value pair of an ordered record.
#[derive(Debug)]
pub struct Propaty {
    pub key: String,
    pub value: PropatyValue,
}

/// The model of a property value.
pub open spec fn val_model(v: PropatyValue) -> ValModel
    decreases v,
{
    match v {
        PropatyValue::Text(s) => ValModel::Text(s@),
        PropatyValue::Int(i) => ValModel::Int(i),
        PropatyValue::Real(s) => ValModel::Real(s@),
        PropatyValue::Flag(b) => ValModel::Flag(b),
        PropatyValue::Record(ps) => ValModel::Record(rec_model(ps)),
        PropatyValue::Records(pss) => ValModel::Records(recs_model(pss)),
        PropatyValue::RecordResult(r) => ValModel::RecordResult(
            match r {
                Ok(ps) => Ok(rec_model(ps)),
                Err(e) => Err(e),
            },
        ),
        PropatyValue::RecordsResult(r) => ValModel::RecordsResult(
            match r {
                Ok(pss) => Ok(recs_model(pss)),
                Err(e) => Err(e),
            },
        ),
        PropatyValue::OptRecord(o) => ValModel::OptRecord(
            match o {
                Some(ps) => Some(rec_model(ps)),
                None => None,
            },
        ),
    }
}

/// The model of one pair.
pub open spec fn prop_model(p: Propaty) -> PropModel
    decreases p,
{
    PropModel { key: p.key@, value: val_model(p.value) }
}

/// The model of a record.
pub open spec fn rec_model(ps: Vec<Propaty>) -> Seq<PropModel>
    decreases ps,
{
    Seq::new(
        ps@.len(),
        |i: int|
            if 0 <= i < ps@.len() {
                prop_model(ps@[i])
            } else {
                PropModel { key: Seq::empty(), value: ValModel::Int(0) }
            },
    )
}

/// The model of a list of records.
pub open spec fn recs_model(pss: Vec<Vec<Propaty>>) -> Seq<Seq<PropModel>>
    decreases pss,
{
    Seq::new(
        pss@.len(),
        |i: int|
            if 0 <= i < pss@.len() {
                rec_model(pss@[i])
            } else {
                Seq::empty()
            },
    )
}

impl Model for PropatyValue {
    type M = ValModel;

    open spec fn model(&self) -> ValModel {
        val_model(*self)
    }
}

impl Model for Propaty {
    type M = PropModel;

    open spec fn model(&self) -> PropModel {
        prop_model(*self)
    }
}

/// The generic vector model of a record agrees with `rec_model`.
pub broadcast proof fn lemma_rec_model(ps: Vec<Propaty>)
    ensures
        #[trigger] rec_model(ps) == ps.model(),
{
    assert(rec_model(ps) =~= ps.model());
}

/// The generic vector model of a record list agrees with `recs_model`.
pub broadcast proof fn lemma_recs_model(pss: Vec<Vec<Propaty>>)
    ensures
        #[trigger] recs_model(pss) == pss.model(),
{
    assert forall|i: int| 0 <= i < pss@.len() implies rec_model(pss@[i]) == pss@[i].model() by {
        lemma_rec_model(pss@[i]);
    }
    assert(recs_model(pss) =~= pss.model());
}

/// Structural equality of two values, decided at the model level.
pub fn value_eq(a: &PropatyValue, b: &PropatyValue) -> (r: bool)
    ensures
        r == (val_model(*a) == val_model(*b)),
    decreases *a,
{
    match (a, b) {
        (PropatyValue::Text(x), PropatyValue::Text(y)) => str_eq(x.as_str(), y.as_str()),
        (PropatyValue::Int(x), PropatyValue::Int(y)) => *x == *y,
        (PropatyValue::Real(x), PropatyValue::Real(y)) => str_eq(x.as_str(), y.as_str()),
        (PropatyValue::Flag(x), PropatyValue::Flag(y)) => *x == *y,
        (PropatyValue::Record(x), PropatyValue::Record(y)) => record_eq(x, y),
        (PropatyValue::Records(x), PropatyValue::Records(y)) => records_eq(x, y),
        (PropatyValue::RecordResult(x), PropatyValue::RecordResult(y)) => match (x, y) {
            (Ok(xv), Ok(yv)) => record_eq(xv, yv),
            (Err(xe), Err(ye)) => *xe == *ye,
            _ => false,
        },
        (PropatyValue::RecordsResult(x), PropatyValue::RecordsResult(y)) => match (x, y) {
            (Ok(xv), Ok(yv)) => records_eq(xv, yv),
            (Err(xe), Err(ye)) => *xe == *ye,
            _ => false,
        },
        (PropatyValue::OptRecord(x), PropatyValue::OptRecord(y)) => match (x, y) {
            (Some(xv), Some(yv)) => record_eq(xv, yv),
            (None, None) => true,
            _ => false,
        },
        _ => false,
    }
}

/// Structural equality of two pairs.
pub fn prop_eq(a: &Propaty, b: &Propaty) -> (r: bool)
    ensures
        r == (prop_model(*a) == prop_model(*b)),
    decreases *a,
{
    let keq = str_eq(a.key.as_str(), b.key.as_str());
    let veq = keq && value_eq(&a.value, &b.value);
    proof {
        if keq && veq {
            assert(prop_model(*a) =~= prop_model(*b));
        }
    }
    veq
}

/// Structural equality of two records.
pub fn record_eq(a: &Vec<Propaty>, b: &Vec<Propaty>) -> (r: bool)
    ensures
        r == (rec_model(*a) == rec_model(*b)),
    decreases *a,
{
    if a.len() != b.len() {
        proof {
            assert(rec_model(*a).len() != rec_model(*b).len());
        }
        return false;
    }
    let mut i: usize = 0;
    while i < a.len()
        invariant
            i <= a.len(),
            a.len() == b.len(),
            forall|j: int| 0 <= j < i ==> rec_model(*a)[j] == rec_model(*b)[j],
        decreases a.len() - i,
    {
        let same = prop_eq(&a[i], &b[i]);
        if !same {
            proof {
                assert(rec_model(*a)[i as int] != rec_model(*b)[i as int]);
            }
            return false;
        }
        i = i + 1;
    }
    proof {
        assert(rec_model(*a) =~= rec_model(*b));
    }
    true
}

/// Structural equality of two record lists.
pub fn records_eq(a: &Vec<Vec<Propaty>>, b: &Vec<Vec<Propaty>>) -> (r: bool)
    ensures
        r == (recs_model(*a) == recs_model(*b)),
    decreases *a,
{
    if a.len() != b.len() {
        proof {
            assert(recs_model(*a).len() != recs_model(*b).len());
        }
        return false;
    }
    let mut i: usize = 0;
    while i < a.len()
        invariant
            i <= a.len(),
            a.len() == b.len(),
            forall|j: int| 0 <= j < i ==> recs_model(*a)[j] == recs_model(*b)[j],
        decreases a.len() - i,
    {
        let same = record_eq(&a[i], &b[i]);
        if !same {
            proof {
                assert(recs_model(*a)[i as int] != recs_model(*b)[i as int]);
            }
            return false;
        }
        i = i + 1;
    }
    proof {
        assert(recs_model(*a) =~= recs_model(*b));
    }
    true
}

impl PartialEq for PropatyValue {
    fn eq(&self, other: &PropatyValue) -> (r: bool) {
        value_eq(self, other)
    }
}

impl vstd::std_specs::cmp::PartialEqSpecImpl for PropatyValue {
    open spec fn obeys_eq_spec() -> bool {
        true
    }

    open spec fn eq_spec(&self, other: &PropatyValue) -> bool {
        val_model(*self) == val_model(*other)
    }
}

impl PartialEq for Propaty {
    fn eq(&self, other: &Propaty) -> (r: bool) {
        prop_eq(self, other)
    }
}

impl vstd::std_specs::cmp::PartialEqSpecImpl for Propaty {
    open spec fn obeys_eq_spec() -> bool {
        true
    }

    open spec fn eq_spec(&self, other: &Propaty) -> bool {
        prop_model(*self) == prop_model(*other)
    }
}

/// Copies a value, keeping its model.
pub fn clone_value(v: &PropatyValue) -> (res: PropatyValue)
    ensures
        val_model(res) == val_model(*v),
    decreases *v,
{
    match v {
        PropatyValue::Text(s) => PropatyValue::Text(s.clone()),
        PropatyValue::Int(i) => PropatyValue::Int(*i),
        PropatyValue::Real(s) => PropatyValue::Real(s.clone()),
        PropatyValue::Flag(b) => PropatyValue::Flag(*b),
        PropatyValue::Record(ps) => PropatyValue::Record(clone_record(ps)),
        PropatyValue::Records(pss) => PropatyValue::Records(clone_records(pss)),
        PropatyValue::RecordResult(r) => PropatyValue::RecordResult(
            match r {
                Ok(ps) => Ok(clone_record(ps)),
                Err(e) => Err(*e),
            },
        ),
        PropatyValue::RecordsResult(r) => PropatyValue::RecordsResult(
            match r {
                Ok(pss) => Ok(clone_records(pss)),
                Err(e) => Err(*e),
            },
        ),
        PropatyValue::OptRecord(o) => PropatyValue::OptRecord(
            match o {
                Some(ps) => Some(clone_record(ps)),
                None => None,
            },
        ),
    }
}

/// Copies one pair, keeping its model.
pub fn clone_prop(p: &Propaty) -> (res: Propaty)
    ensures
        prop_model(res) == prop_model(*p),
    decreases *p,
{
    Propaty { key: p.key.clone(), value: clone_value(&p.value) }
}

/// Copies a record, keeping its model.
pub fn clone_record(ps: &Vec<Propaty>) -> (res: Vec<Propaty>)
    ensures
        rec_model(res) == rec_model(*ps),
    decreases *ps,
{
    let mut res: Vec<Propaty> = Vec::new();
    let mut i: usize = 0;
    while i < ps.len()
        invariant
            i <= ps.len(),
            res.len() == i,
            forall|j: int| 0 <= j < i ==> rec_model(res)[j] == rec_model(*ps)[j],
        decreases ps.len() - i,
    {
        res.push(clone_prop(&ps[i]));
        i = i + 1;
    }
    proof {
        assert(rec_model(res) =~= rec_model(*ps));
    }
    res
}

/// Copies a list of records, keeping its model.
pub fn clone_records(pss: &Vec<Vec<Propaty>>) -> (res: Vec<Vec<Propaty>>)
    ensures
        recs_model(res) == recs_model(*pss),
    decreases *pss,
{
    let mut res: Vec<Vec<Propaty>> = Vec::new();
    let mut i: usize = 0;
    while i < pss.len()
        invariant
            i <= pss.len(),
            res.len() == i,
            forall|j: int| 0 <= j < i ==> recs_model(res)[j] == recs_model(*pss)[j],
        decreases pss.len() - i,
    {
        res.push(clone_record(&pss[i]));
        i = i + 1;
    }
    proof {
        assert(recs_model(res) =~= recs_model(*pss));
    }
    res
}

impl Clone for PropatyValue {
    /// A clone has the same model as the original.
    fn clone(&self) -> (res: Self)
        ensures
            val_model(res) == val_model(*self),
    {
        clone_value(self)
    }
}

impl Clone for Propaty {
    /// A clone has the same model as the original.
    fn clone(&self) -> (res: Self)
        ensures
            prop_model(res) == prop_model(*self),
    {
        clone_prop(self)
    }
}

/// Clones of values keep their model.
pub proof fn propaty_value_clone_keeps_model()
    ensures
        clone_keeps_model::<PropatyValue>(),
{
    assert forall|a: PropatyValue, b: PropatyValue| #[trigger]
        vstd::pervasive::cloned::<PropatyValue>(a, b) implies a.model() == b.model() by {
        if a != b {
            assert(vstd::pervasive::strictly_cloned::<PropatyValue>(a, b));
        }
    }
}

/// Clones of pairs keep their model.
pub proof fn propaty_clone_keeps_model()
    ensures
        clone_keeps_model::<Propaty>(),
{
    assert forall|a: Propaty, b: Propaty| #[trigger]
        vstd::pervasive::cloned::<Propaty>(a, b) implies a.model() == b.model() by {
        if a != b {
            assert(vstd::pervasive::strictly_cloned::<Propaty>(a, b));
        }
    }
}

impl Propaty {
    /// Builds one pair from a key and a value.
    pub fn new(key: &str, value: PropatyValue) -> (p: Propaty)
        ensures
            prop_model(p) == (PropModel { key: key@, value: val_model(value) }),
    {
        Propaty { key: key.to_owned(), value }
    }

    /// Hands out a copy of the value.
    pub fn get(&self) -> (v: PropatyValue)
        ensures
            val_model(v) == prop_model(*self).value,
    {
        clone_value(&self.value)
    }

    /// The same value under a new key.
    pub fn rename(&self, new_key: &str) -> (p: Propaty)
        ensures
            prop_model(p) == (PropModel { key: new_key@, value: prop_model(*self).value }),
    {
        Propaty { key: new_key.to_owned(), value: clone_value(&self.value) }
    }
}

/// The value under the first pair with the given key, if any.
pub open spec fn spec_get_value(ps: Seq<PropModel>, key: Seq<char>) -> Option<ValModel>
    decreases ps.len(),
{
    if ps.len() == 0 {
        None
    } else if ps.first().key == key {
        Some(ps.first().value)
    } else {
        spec_get_value(ps.drop_first(), key)
    }
}

/// Whether one of the first `upto` pairs carries the given key.
pub open spec fn key_before(ps: Seq<PropModel>, key: Seq<char>, upto: int) -> bool {
    exists|j: int| 0 <= j < upto && ps[j].key == key
}

/// The first `i` pairs with every repeated key dropped: only the first
/// pair under each key survives, in order.
pub open spec fn unique_prefix(ps: Seq<PropModel>, i: int) -> Seq<PropModel>
    decreases i,
{
    if i <= 0 {
        Seq::empty()
    } else if key_before(ps, ps[i - 1].key, i - 1) {
        unique_prefix(ps, i - 1)
    } else {
        unique_prefix(ps, i - 1).push(ps[i - 1])
    }
}

/// Which occurrence of a repeated key survives deduplication.
#[derive(Clone, Copy)]
pub enum UniqueOrder {
    First,
    Last,
}

/// The record after deduplication: under `First` the earliest pair of each
/// key survives in order; under `Last` the record is walked backwards, so
/// the latest pair of each key survives, in reversed order.
pub open spec fn spec_unique(ps: Seq<PropModel>, order: UniqueOrder) -> Seq<PropModel> {
    match order {
        UniqueOrder::First => unique_prefix(ps, ps.len() as int),
        UniqueOrder::Last => unique_prefix(ps.reverse(), ps.len() as int),
    }
}

/// Ordered records looked up by key, first match wins.
pub trait PropatyMap {
    /// The model of the record.
    spec fn props(&self) -> Seq<PropModel>;

    /// Looks up the value under the first pair with the given key.
    fn get_value(&self, key: &str) -> (r: Option<PropatyValue>)
        ensures
            r.model() == spec_get_value(self.props(), key@),
    ;

    /// Drops repeated keys, keeping the occurrence the order picks.
    fn unique(&self, order: UniqueOrder) -> (r: Vec<Propaty>)
        ensures
            rec_model(r) == spec_unique(self.props(), order),
    ;
}

impl PropatyMap for Vec<Propaty> {
    open spec fn props(&self) -> Seq<PropModel> {
        rec_model(*self)
    }

    fn get_value(&self, key: &str) -> (r: Option<PropatyValue>) {
        let ghost full = rec_model(*self);
        let mut i: usize = 0;
        proof {
            assert(full.skip(0) =~= full);
        }
        while i < self.len()
            invariant
                i <= self.len(),
                full == rec_model(*self),
                spec_get_value(full, key@) == spec_get_value(full.skip(i as int), key@),
            decreases self.len() - i,
        {
            proof {
                assert(full.skip(i as int).first() == full[i as int]);
                assert(full.skip(i as int).drop_first() =~= full.skip(i as int + 1));
            }
            if str_eq(self[i].key.as_str(), key) {
                return Some(clone_value(&self[i].value));
            }
            i = i + 1;
        }
        proof {
            assert(full.skip(self.len() as int) =~= Seq::<PropModel>::empty());
        }
        None
    }

    fn unique(&self, order: UniqueOrder) -> (r: Vec<Propaty>) {
        let walked = match order {
            UniqueOrder::First => clone_record(self),
            UniqueOrder::Last => {
                let mut rev: Vec<Propaty> = Vec::new();
                let mut i: usize = self.len();
                while i > 0
                    invariant
                        i <= self.len(),
                        rec_model(rev).len() == self.len() - i,
                        forall|j: int|
                            0 <= j < rec_model(rev).len() ==> rec_model(rev)[j] == rec_model(
                                *self,
                            )[self.len() - 1 - j],
                    decreases i,
                {
                    i = i - 1;
                    let ghost pre = rec_model(rev);
                    rev.push(clone_prop(&self[i]));
                    proof {
                        assert(rec_model(rev) =~= pre.push(prop_model(self@[i as int])));
                    }
                }
                proof {
                    assert(rec_model(rev) =~= rec_model(*self).reverse());
                }
                rev
            },
        };
        let ghost walked_model = rec_model(walked);
        let mut result: Vec<Propaty> = Vec::new();
        let mut i: usize = 0;
        proof {
            assert(rec_model(result) =~= unique_prefix(walked_model, 0));
        }
        while i < walked.len()
            invariant
                i <= walked.len(),
                walked_model == rec_model(walked),
                rec_model(result) == unique_prefix(walked_model, i as int),
            decreases walked.len() - i,
        {
            let mut seen = false;
            let mut j: usize = 0;
            while j < i
                invariant
                    j <= i,
                    i < walked.len(),
                    walked_model == rec_model(walked),
                    seen == key_before(walked_model, walked_model[i as int].key, j as int),
                decreases i - j,
            {
                let hit = str_eq(walked[j].key.as_str(), walked[i].key.as_str());
                proof {
                    assert(walked_model[j as int].key == walked@[j as int].key@);
                    assert(walked_model[i as int].key == walked@[i as int].key@);
                    if hit {
                        assert(key_before(walked_model, walked_model[i as int].key, j as int + 1));
                    }
                }
                seen = seen || hit;
                j = j + 1;
            }
            let ghost pre = rec_model(result);
            if !seen {
                result.push(clone_prop(&walked[i]));
                proof {
                    assert(rec_model(result) =~= pre.push(walked_model[i as int]));
                }
            }
            i = i + 1;
        }
        result
    }
}

/// Projects a scalar value into a one-pair record under a fixed name; the
/// reverse direction looks the name up in the record.
pub struct Named {
    pub name: String,
}

impl crate::convert::RawConverter<PropatyValue, Vec<Propaty>> for Named {
    open spec fn wf(&self) -> bool {
        true
    }

    open spec fn spec_to(&self, src: ValModel) -> Option<Seq<PropModel>> {
        Some(seq![PropModel { key: self.name@, value: src }])
    }

    open spec fn spec_from(&self, old: Option<ValModel>, dist: Seq<PropModel>) -> Option<
        ValModel,
    > {
        spec_get_value(dist, self.name@)
    }

    fn to(&self, src: PropatyValue) -> (r: Option<Vec<Propaty>>) {
        let v = vec![Propaty { key: self.name.clone(), value: src }];
        proof {
            assert(rec_model(v) =~= seq![prop_model(v@[0])]);
            lemma_rec_model(v);
        }
        Some(v)
    }

    fn from(&self, old: Option<PropatyValue>, dist: Vec<Propaty>) -> (r: Option<PropatyValue>) {
        proof {
            lemma_rec_model(dist);
        }
        dist.get_value(self.name.as_str())
    }
}

/// A converter that names a scalar value, making it a one-pair record.
pub fn named(name: &str) -> (c: crate::convert::Converter<PropatyValue, Vec<Propaty>, Named>)
    ensures
        c.wf(),
        c.raw.name@ == name@,
{
    crate::convert::Converter::new(Named { name: name.to_owned() })
}

/// Looks a value up in a record by name; the reverse direction wraps the
/// value into a one-pair record under that name.
pub struct GetValue {
    pub name: String,
}

impl crate::convert::RawConverter<Vec<Propaty>, PropatyValue> for GetValue {
    open spec fn wf(&self) -> bool {
        true
    }

    open spec fn spec_to(&self, src: Seq<PropModel>) -> Option<ValModel> {
        spec_get_value(src, self.name@)
    }

    open spec fn spec_from(&self, old: Option<Seq<PropModel>>, dist: ValModel) -> Option<
        Seq<PropModel>,
    > {
        Some(seq![PropModel { key: self.name@, value: dist }])
    }

    fn to(&self, src: Vec<Propaty>) -> (r: Option<PropatyValue>) {
        proof {
            lemma_rec_model(src);
        }
        src.get_value(self.name.as_str())
    }

    fn from(&self, old: Option<Vec<Propaty>>, dist: PropatyValue) -> (r: Option<Vec<Propaty>>) {
        let v = vec![Propaty { key: self.name.clone(), value: dist }];
        proof {
            assert(rec_model(v) =~= seq![prop_model(v@[0])]);
            lemma_rec_model(v);
        }
        Some(v)
    }
}

/// A converter that extracts the value under a name from a record.
pub fn get_value(name: &str) -> (c: crate::convert::Converter<Vec<Propaty>, PropatyValue, GetValue>)
    ensures
        c.wf(),
        c.raw.name@ == name@,
{
    crate::convert::Converter::new(GetValue { name: name.to_owned() })
}

/// Drops repeated keys of a record; the reverse direction passes through.
pub struct Unique {
    pub order: UniqueOrder,
}

impl crate::convert::RawConverter<Vec<Propaty>, Vec<Propaty>> for Unique {
    open spec fn wf(&self) -> bool {
        true
    }

    open spec fn spec_to(&self, src: Seq<PropModel>) -> Option<Seq<PropModel>> {
        Some(spec_unique(src, self.order))
    }

    open spec fn spec_from(&self, old: Option<Seq<PropModel>>, dist: Seq<PropModel>) -> Option<
        Seq<PropModel>,
    > {
        Some(dist)
    }

    fn to(&self, src: Vec<Propaty>) -> (r: Option<Vec<Propaty>>) {
        proof {
            lemma_rec_model(src);
        }
        let u = src.unique(self.order);
        proof {
            lemma_rec_model(u);
        }
        Some(u)
    }

    fn from(&self, old: Option<Vec<Propaty>>, dist: Vec<Propaty>) -> (r: Option<Vec<Propaty>>) {
        Some(dist)
    }
}

/// A converter that deduplicates record keys in the given order.
pub fn unique_porpaty(order: UniqueOrder) -> (c: crate::convert::Converter<
    Vec<Propaty>,
    Vec<Propaty>,
    Unique,
>)
    ensures
        c.wf(),
        c.raw.order == order,
{
    crate::convert::Converter::new(Unique { order })
}

/// Concatenates a list of records into one; the reverse direction wraps a
/// record into a one-element list.
pub struct FlattenPropaty;

impl crate::convert::RawConverter<Vec<Vec<Propaty>>, Vec<Propaty>> for FlattenPropaty {
    open spec fn wf(&self) -> bool {
        true
    }

    open spec fn spec_to(&self, src: Seq<Seq<PropModel>>) -> Option<Seq<PropModel>> {
        Some(src.flatten())
    }

    open spec fn spec_from(&self, old: Option<Seq<Seq<PropModel>>>, dist: Seq<PropModel>) -> Option<
        Seq<Seq<PropModel>>,
    > {
        Some(seq![dist])
    }

    fn to(&self, src: Vec<Vec<Propaty>>) -> (r: Option<Vec<Propaty>>) {
        let ghost full = src.model();
        proof {
            lemma_recs_model(src);
        }
        let mut result: Vec<Propaty> = Vec::new();
        let mut i: usize = 0;
        proof {
            assert(rec_model(result) =~= Seq::<PropModel>::empty());
            assert(full.take(0) =~= Seq::<Seq<PropModel>>::empty());
            assert(full.take(0).flatten() =~= Seq::<PropModel>::empty());
        }
        while i < src.len()
            invariant
                i <= src.len(),
                full == recs_model(src),
                full == src.model(),
                rec_model(result) == full.take(i as int).flatten(),
            decreases src.len() - i,
        {
            let ghost pre = rec_model(result);
            let piece = clone_record(&src[i]);
            let mut j: usize = 0;
            while j < piece.len()
                invariant
                    j <= piece.len(),
                    rec_model(piece) == rec_model(src@[i as int]),
                    i < src.len(),
                    full == recs_model(src),
                    rec_model(result) == pre + rec_model(piece).take(j as int),
                decreases piece.len() - j,
            {
                let ghost mid = rec_model(result);
                let p = clone_prop(&piece[j]);
                result.push(p);
                proof {
                    assert(rec_model(result) =~= mid.push(rec_model(piece)[j as int]));
                    assert(mid.push(rec_model(piece)[j as int]) =~= pre + rec_model(piece).take(
                        j as int + 1,
                    ));
                }
                j = j + 1;
            }
            proof {
                assert(rec_model(piece).take(piece.len() as int) =~= rec_model(piece));
                assert(full.take(i as int).push(full[i as int]) =~= full.take(i as int + 1));
                Seq::lemma_flatten_push(full.take(i as int), full[i as int]);
                assert(rec_model(result) =~= full.take(i as int).flatten() + full[i as int]);
            }
            i = i + 1;
        }
        proof {
            assert(full.take(src.len() as int) =~= full);
            lemma_rec_model(result);
        }
        Some(result)
    }

    fn from(&self, old: Option<Vec<Vec<Propaty>>>, dist: Vec<Propaty>) -> (r: Option<
        Vec<Vec<Propaty>>,
    >) {
        let v = vec![dist];
        proof {
            lemma_rec_model(v@[0]);
            assert(recs_model(v) =~= seq![rec_model(v@[0])]);
            lemma_recs_model(v);
        }
        Some(v)
    }
}

/// A converter that flattens a list of records.
pub fn flatten_porpaties() -> (c: crate::convert::Converter<
    Vec<Vec<Propaty>>,
    Vec<Propaty>,
    FlattenPropaty,
>)
    ensures
        c.wf(),
{
    crate::convert::Converter::new(FlattenPropaty)
}

/// Reads a record out of a store, or an empty record if the store has none.
pub fn create_propaty<St: crate::store::RawStore<Vec<Propaty>>>(store: &mut St) -> (r: Vec<Propaty>)
    requires
        old(store).wf(),
    ensures
        final(store).wf(),
        final(store).contents() == old(store).contents(),
        match old(store).contents() {
            Some(ps) => r.model() == ps,
            None => r.model() == Seq::<PropModel>::empty(),
        },
{
    match store.get() {
        Some(v) => v,
        None => {
            let r = Vec::new();
            proof {
                assert(r.model() =~= Seq::<PropModel>::empty());
            }
            r
        },
    }
}

/// An initially empty record store under a name: values put to it are kept
/// in memory as the record's single named entry.
pub fn temporary_object(name: &str) -> (s: crate::compose::Convert<
    PropatyValue,
    Vec<Propaty>,
    crate::store::InMemoryStore<PropatyValue>,
    Named,
>)
    ensures
        s.wf(),
        s.contents() is None,
        s.convert.name@ == name@,
{
    proof {
        propaty_value_clone_keeps_model();
    }
    crate::compose::converted(crate::store::temporary(), named(name))
}

/// Round-trip of the naming converter: projecting a value into a named
/// record and looking the name back up returns the value, whatever the old
/// context was.
pub proof fn lemma_named_round_trip(c: Named, old: Option<ValModel>, s: ValModel)
    ensures
        c.spec_to(s) matches Some(d) && c.spec_from(old, d) == Some(s),
{
    let d = seq![PropModel { key: c.name@, value: s }];
    assert(d.first() == PropModel { key: c.name@, value: s });
    assert(spec_get_value(d, c.name@) == Some(s));
}

} // verus!
