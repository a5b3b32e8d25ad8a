//! Property-store converters for create, read, update and delete.
//!
//! Each converter runs against a record keyed by ids: the entry under the
//! `selecter` key carries the operation's outcome back to the caller, and
//! the remaining entries form the stored collection, one record per id.
//! The reverse direction performs the operation: it finds the id of the
//! incoming record under the configured `key`, rewrites the collection,
//! and reports success or the reason for failure in the outcome entry.

use vstd::prelude::*;

use crate::convert::RawConverter;
use crate::model::Model;
use crate::propaty::{
    clone_record, prop_model, rec_model, recs_model, spec_get_value, str_eq, PropModel, Propaty,
    PropatyValue, ValModel,
};

verus! {

broadcast use
    {
        vstd::seq::group_seq_axioms,
        vstd::std_specs::vec::group_vec_axioms,
        crate::propaty::lemma_rec_model,
        crate::propaty::lemma_recs_model,
    }
;

/// Why a property-store operation did not produce a value.
#[derive(Clone, Copy, Debug, PartialEq, Eq, Structural)]
pub enum Error {
    ValueNotFound,
    AleadyExists,
    KeyNotFound,
    DestinationIsError,
}

impl Model for Error {
    type M = Error;

    open spec fn model(&self) -> Error {
        *self
    }
}

/// The record-outcome payload under a key, if the key holds one.
pub open spec fn spec_get_result(ps: Seq<PropModel>, key: Seq<char>) -> Option<
    Result<Seq<PropModel>, Error>,
> {
    match spec_get_value(ps, key) {
        Some(ValModel::RecordResult(r)) => Some(r),
        _ => None,
    }
}

/// The record-list-outcome payload under a key, if the key holds one.
pub open spec fn spec_get_results(ps: Seq<PropModel>, key: Seq<char>) -> Option<
    Result<Seq<Seq<PropModel>>, Error>,
> {
    match spec_get_value(ps, key) {
        Some(ValModel::RecordsResult(r)) => Some(r),
        _ => None,
    }
}

/// The text payload under a key, if the key holds one.
pub open spec fn spec_get_text(ps: Seq<PropModel>, key: Seq<char>) -> Option<Seq<char>> {
    match spec_get_value(ps, key) {
        Some(ValModel::Text(t)) => Some(t),
        _ => None,
    }
}

/// The nested-record payload under a key, if the key holds one.
pub open spec fn spec_get_record(ps: Seq<PropModel>, key: Seq<char>) -> Option<Seq<PropModel>> {
    match spec_get_value(ps, key) {
        Some(ValModel::Record(r)) => Some(r),
        _ => None,
    }
}

/// A record without its leading outcome entry (empty records stay empty).
pub open spec fn spec_tail(ps: Seq<PropModel>) -> Seq<PropModel> {
    if ps.len() == 0 {
        ps
    } else {
        ps.drop_first()
    }
}

/// Looks up the record-outcome payload under a key.
pub fn get_result_value(ps: &Vec<Propaty>, key: &str) -> (r: Option<Result<Vec<Propaty>, Error>>)
    ensures
        r.model() == spec_get_result(rec_model(*ps), key@),
{
    match crate::propaty::PropatyMap::get_value(ps, key) {
        Some(PropatyValue::RecordResult(r)) => {
            proof {
                match &r {
                    Ok(inner) => crate::propaty::lemma_rec_model(*inner),
                    Err(_) => (),
                }
            }
            Some(r)
        },
        _ => None,
    }
}

/// Looks up the record-list-outcome payload under a key.
pub fn get_results_value(ps: &Vec<Propaty>, key: &str) -> (r: Option<
    Result<Vec<Vec<Propaty>>, Error>,
>)
    ensures
        r.model() == spec_get_results(rec_model(*ps), key@),
{
    match crate::propaty::PropatyMap::get_value(ps, key) {
        Some(PropatyValue::RecordsResult(r)) => {
            proof {
                match &r {
                    Ok(inner) => crate::propaty::lemma_recs_model(*inner),
                    Err(_) => (),
                }
            }
            Some(r)
        },
        _ => None,
    }
}

/// Looks up the text payload under a key.
pub fn get_text_value(ps: &Vec<Propaty>, key: &str) -> (r: Option<String>)
    ensures
        r.model() == spec_get_text(rec_model(*ps), key@),
{
    match crate::propaty::PropatyMap::get_value(ps, key) {
        Some(PropatyValue::Text(t)) => Some(t),
        _ => None,
    }
}

/// Looks up the nested-record payload under a key.
pub fn get_record_value(ps: &Vec<Propaty>, key: &str) -> (r: Option<Vec<Propaty>>)
    ensures
        r.model() == spec_get_record(rec_model(*ps), key@),
{
    match crate::propaty::PropatyMap::get_value(ps, key) {
        Some(PropatyValue::Record(r)) => Some(r),
        _ => None,
    }
}

/// Copies a record without its leading entry.
pub fn record_tail(ps: &Vec<Propaty>) -> (r: Vec<Propaty>)
    ensures
        rec_model(r) == spec_tail(rec_model(*ps)),
{
    let mut r: Vec<Propaty> = Vec::new();
    let mut i: usize = 1;
    if ps.len() == 0 {
        proof {
            assert(rec_model(r) =~= spec_tail(rec_model(*ps)));
        }
        return r;
    }
    while i < ps.len()
        invariant
            1 <= i <= ps.len(),
            rec_model(r).len() == i - 1,
            forall|j: int| 0 <= j < i - 1 ==> rec_model(r)[j] == rec_model(*ps)[j + 1],
        decreases ps.len() - i,
    {
        let ghost pre = rec_model(r);
        r.push(crate::propaty::clone_prop(&ps[i]));
        proof {
            assert(rec_model(r) =~= pre.push(prop_model(ps@[i as int])));
        }
        i = i + 1;
    }
    proof {
        assert(rec_model(r) =~= spec_tail(rec_model(*ps)));
    }
    r
}

/// Appends clones of one record's entries to another record.
pub fn append_record(acc: &mut Vec<Propaty>, more: &Vec<Propaty>)
    ensures
        rec_model(*final(acc)) == rec_model(*old(acc)) + rec_model(*more),
{
    let ghost base = rec_model(*acc);
    let mut i: usize = 0;
    proof {
        assert(base + rec_model(*more).take(0) =~= base);
        assert(rec_model(*acc) =~= base + rec_model(*more).take(0));
    }
    while i < more.len()
        invariant
            i <= more.len(),
            rec_model(*acc) == base + rec_model(*more).take(i as int),
        decreases more.len() - i,
    {
        let ghost pre = rec_model(*acc);
        acc.push(crate::propaty::clone_prop(&more[i]));
        proof {
            assert(rec_model(*acc) =~= pre.push(prop_model(more@[i as int])));
            assert(pre.push(rec_model(*more)[i as int]) =~= base + rec_model(*more).take(
                i as int + 1,
            ));
        }
        i = i + 1;
    }
    proof {
        assert(rec_model(*more).take(more.len() as int) =~= rec_model(*more));
    }
}

/// The outcome entry every reverse direction places first in the record.
pub open spec fn outcome_entry(selecter: Seq<char>, r: Result<Seq<PropModel>, Error>) -> PropModel {
    PropModel { key: selecter, value: ValModel::RecordResult(r) }
}

/// Creates a new record in the collection: rejected when a record with the
/// same id already exists, or when the incoming record lacks the id key.
pub open spec fn spec_create_from(
    selecter: Seq<char>,
    key: Seq<char>,
    old: Option<Seq<PropModel>>,
    dist: Result<Seq<PropModel>, Error>,
) -> Option<Seq<PropModel>> {
    match dist {
        Ok(d) => match spec_get_text(d, key) {
            Some(dist_key) => match old {
                Some(o) => match spec_get_record(o, dist_key) {
                    None => Some(
                        seq![outcome_entry(selecter, Ok(d))] + spec_tail(o) + seq![
                            PropModel { key: dist_key, value: ValModel::Record(d) },
                        ],
                    ),
                    Some(_) => Some(
                        seq![outcome_entry(selecter, Err(Error::AleadyExists))] + spec_tail(o),
                    ),
                },
                None => Some(
                    seq![
                        PropModel { key: selecter, value: ValModel::Record(d) },
                        PropModel { key: dist_key, value: ValModel::Record(d) },
                    ],
                ),
            },
            None => match old {
                Some(o) => Some(
                    seq![outcome_entry(selecter, Err(Error::KeyNotFound))] + spec_tail(o),
                ),
                None => Some(seq![outcome_entry(selecter, Err(Error::KeyNotFound))]),
            },
        },
        Err(_) => match old {
            Some(o) => Some(
                seq![outcome_entry(selecter, Err(Error::DestinationIsError))] + spec_tail(o),
            ),
            None => Some(seq![outcome_entry(selecter, Err(Error::DestinationIsError))]),
        },
    }
}

/// The create converter.
pub struct Create {
    pub selecter: String,
    pub key: String,
}

impl RawConverter<Vec<Propaty>, Result<Vec<Propaty>, Error>> for Create {
    open spec fn wf(&self) -> bool {
        true
    }

    open spec fn spec_to(&self, src: Seq<PropModel>) -> Option<Result<Seq<PropModel>, Error>> {
        spec_get_result(src, self.selecter@)
    }

    open spec fn spec_from(
        &self,
        old: Option<Seq<PropModel>>,
        dist: Result<Seq<PropModel>, Error>,
    ) -> Option<Seq<PropModel>> {
        spec_create_from(self.selecter@, self.key@, old, dist)
    }

    fn to(&self, src: Vec<Propaty>) -> (r: Option<Result<Vec<Propaty>, Error>>) {
        get_result_value(&src, self.selecter.as_str())
    }

    fn from(&self, old: Option<Vec<Propaty>>, dist: Result<Vec<Propaty>, Error>) -> (r: Option<
        Vec<Propaty>,
    >) {
        match dist {
            Ok(d) => match get_text_value(&d, self.key.as_str()) {
                Some(dist_key) => match old {
                    Some(o) => match get_record_value(&o, dist_key.as_str()) {
                        None => {
                            let mut out: Vec<Propaty> = Vec::new();
                            out.push(
                                Propaty {
                                    key: self.selecter.clone(),
                                    value: PropatyValue::RecordResult(Ok(clone_record(&d))),
                                },
                            );
                            let ghost first = rec_model(out);
                            proof {
                                assert(first =~= seq![outcome_entry(self.selecter@, Ok(rec_model(d)))]);
                            }
                            let tail = record_tail(&o);
                            append_record(&mut out, &tail);
                            let ghost mid = rec_model(out);
                            out.push(
                                Propaty { key: dist_key, value: PropatyValue::Record(d) },
                            );
                            proof {
                                assert(rec_model(out) =~= mid.push(
                                    PropModel {
                                        key: dist_key@,
                                        value: ValModel::Record(rec_model(d)),
                                    },
                                ));
                                assert(rec_model(out) =~= seq![
                                    outcome_entry(self.selecter@, Ok(rec_model(d))),
                                ] + spec_tail(rec_model(o)) + seq![
                                    PropModel {
                                        key: dist_key@,
                                        value: ValModel::Record(rec_model(d)),
                                    },
                                ]);
                            }
                            Some(out)
                        },
                        Some(_) => {
                            let mut out: Vec<Propaty> = Vec::new();
                            out.push(
                                Propaty {
                                    key: self.selecter.clone(),
                                    value: PropatyValue::RecordResult(Err(Error::AleadyExists)),
                                },
                            );
                            let ghost first = rec_model(out);
                            proof {
                                assert(first =~= seq![
                                    outcome_entry(self.selecter@, Err(Error::AleadyExists)),
                                ]);
                            }
                            let tail = record_tail(&o);
                            append_record(&mut out, &tail);
                            Some(out)
                        },
                    },
                    None => {
                        let mut out: Vec<Propaty> = Vec::new();
                        out.push(
                            Propaty {
                                key: self.selecter.clone(),
                                value: PropatyValue::Record(clone_record(&d)),
                            },
                        );
                        out.push(Propaty { key: dist_key, value: PropatyValue::Record(d) });
                        proof {
                            assert(rec_model(out) =~= seq![
                                PropModel {
                                    key: self.selecter@,
                                    value: ValModel::Record(rec_model(d)),
                                },
                                PropModel { key: dist_key@, value: ValModel::Record(rec_model(d)) },
                            ]);
                        }
                        Some(out)
                    },
                },
                None => Some(error_outcome(&self.selecter, Error::KeyNotFound, &old)),
            },
            Err(_) => Some(error_outcome(&self.selecter, Error::DestinationIsError, &old)),
        }
    }
}

/// Builds the record reporting a failed operation: the error outcome first,
/// then the old collection unchanged.
pub fn error_outcome(selecter: &String, e: Error, old: &Option<Vec<Propaty>>) -> (r: Vec<Propaty>)
    ensures
        rec_model(r) == (match old {
            Some(o) => seq![outcome_entry(selecter@, Err(e))] + spec_tail(rec_model(*o)),
            None => seq![outcome_entry(selecter@, Err(e))],
        }),
{
    let mut out: Vec<Propaty> = Vec::new();
    out.push(Propaty { key: selecter.clone(), value: PropatyValue::RecordResult(Err(e)) });
    proof {
        assert(rec_model(out) =~= seq![outcome_entry(selecter@, Err(e))]);
    }
    match old {
        Some(o) => {
            let tail = record_tail(o);
            append_record(&mut out, &tail);
            out
        },
        None => out,
    }
}

/// A converter that creates a record in a property-store collection.
pub fn create(key: String, selecter: String) -> (c: crate::convert::Converter<
    Vec<Propaty>,
    Result<Vec<Propaty>, Error>,
    Create,
>)
    ensures
        c.wf(),
        c.raw.key == key,
        c.raw.selecter == selecter,
{
    crate::convert::Converter::new(Create { selecter, key })
}

/// Every entry under the id key replaced by the incoming record.
pub open spec fn replace_key(
    t: Seq<PropModel>,
    dist_key: Seq<char>,
    d: Seq<PropModel>,
) -> Seq<PropModel> {
    Seq::new(
        t.len(),
        |i: int|
            if 0 <= i < t.len() && t[i].key == dist_key {
                PropModel { key: dist_key, value: ValModel::Record(d) }
            } else {
                t[i]
            },
    )
}

/// Updates an existing record in the collection: rejected when no record
/// with the incoming id exists, or when the incoming record lacks the id
/// key.
pub open spec fn spec_update_from(
    selecter: Seq<char>,
    key: Seq<char>,
    old: Option<Seq<PropModel>>,
    dist: Result<Seq<PropModel>, Error>,
) -> Option<Seq<PropModel>> {
    match dist {
        Ok(d) => match spec_get_text(d, key) {
            Some(dist_key) => match old {
                Some(o) => match spec_get_record(o, dist_key) {
                    None => Some(
                        seq![outcome_entry(selecter, Err(Error::ValueNotFound))] + spec_tail(o),
                    ),
                    Some(_) => Some(
                        seq![outcome_entry(selecter, Ok(d))] + replace_key(
                            spec_tail(o),
                            dist_key,
                            d,
                        ),
                    ),
                },
                None => Some(
                    seq![
                        PropModel { key: selecter, value: ValModel::Record(d) },
                        PropModel { key: dist_key, value: ValModel::Record(d) },
                    ],
                ),
            },
            None => match old {
                Some(o) => Some(
                    seq![outcome_entry(selecter, Err(Error::KeyNotFound))] + spec_tail(o),
                ),
                None => Some(seq![outcome_entry(selecter, Err(Error::KeyNotFound))]),
            },
        },
        Err(_) => match old {
            Some(o) => Some(
                seq![outcome_entry(selecter, Err(Error::DestinationIsError))] + spec_tail(o),
            ),
            None => Some(seq![outcome_entry(selecter, Err(Error::DestinationIsError))]),
        },
    }
}

/// The update converter.
pub struct Update {
    pub selecter: String,
    pub key: String,
}

impl RawConverter<Vec<Propaty>, Result<Vec<Propaty>, Error>> for Update {
    open spec fn wf(&self) -> bool {
        true
    }

    open spec fn spec_to(&self, src: Seq<PropModel>) -> Option<Result<Seq<PropModel>, Error>> {
        spec_get_result(src, self.selecter@)
    }

    open spec fn spec_from(
        &self,
        old: Option<Seq<PropModel>>,
        dist: Result<Seq<PropModel>, Error>,
    ) -> Option<Seq<PropModel>> {
        spec_update_from(self.selecter@, self.key@, old, dist)
    }

    fn to(&self, src: Vec<Propaty>) -> (r: Option<Result<Vec<Propaty>, Error>>) {
        get_result_value(&src, self.selecter.as_str())
    }

    fn from(&self, old: Option<Vec<Propaty>>, dist: Result<Vec<Propaty>, Error>) -> (r: Option<
        Vec<Propaty>,
    >) {
        match dist {
            Ok(d) => match get_text_value(&d, self.key.as_str()) {
                Some(dist_key) => match old {
                    Some(o) => match get_record_value(&o, dist_key.as_str()) {
                        None => Some(error_outcome(&self.selecter, Error::ValueNotFound, &Some(o))),
                        Some(_) => {
                            let mut out: Vec<Propaty> = Vec::new();
                            out.push(
                                Propaty {
                                    key: self.selecter.clone(),
                                    value: PropatyValue::RecordResult(Ok(clone_record(&d))),
                                },
                            );
                            proof {
                                assert(rec_model(out) =~= seq![
                                    outcome_entry(self.selecter@, Ok(rec_model(d))),
                                ]);
                            }
                            let tail = record_tail(&o);
                            let ghost tm = rec_model(tail);
                            let ghost dm = rec_model(d);
                            let ghost base = rec_model(out);
                            let mut i: usize = 0;
                            while i < tail.len()
                                invariant
                                    i <= tail.len(),
                                    tm == rec_model(tail),
                                    dm == rec_model(d),
                                    dist_key@ == dist_key@,
                                    rec_model(out).len() == base.len() + i,
                                    base == rec_model(out).take(base.len() as int),
                                    forall|j: int|
                                        0 <= j < i ==> rec_model(out)[base.len() + j]
                                            == replace_key(tm, dist_key@, dm)[j],
                                decreases tail.len() - i,
                            {
                                let ghost pre = rec_model(out);
                                if str_eq(tail[i].key.as_str(), dist_key.as_str()) {
                                    out.push(
                                        Propaty {
                                            key: dist_key.clone(),
                                            value: PropatyValue::Record(clone_record(&d)),
                                        },
                                    );
                                    proof {
                                        assert(rec_model(out) =~= pre.push(
                                            PropModel { key: dist_key@, value: ValModel::Record(dm) },
                                        ));
                                    }
                                } else {
                                    out.push(crate::propaty::clone_prop(&tail[i]));
                                    proof {
                                        assert(rec_model(out) =~= pre.push(tm[i as int]));
                                    }
                                }
                                i = i + 1;
                            }
                            proof {
                                assert(rec_model(out) =~= seq![
                                    outcome_entry(self.selecter@, Ok(dm)),
                                ] + replace_key(tm, dist_key@, dm));
                            }
                            Some(out)
                        },
                    },
                    None => {
                        let mut out: Vec<Propaty> = Vec::new();
                        out.push(
                            Propaty {
                                key: self.selecter.clone(),
                                value: PropatyValue::Record(clone_record(&d)),
                            },
                        );
                        out.push(Propaty { key: dist_key, value: PropatyValue::Record(d) });
                        proof {
                            assert(rec_model(out) =~= seq![
                                PropModel {
                                    key: self.selecter@,
                                    value: ValModel::Record(rec_model(d)),
                                },
                                PropModel { key: dist_key@, value: ValModel::Record(rec_model(d)) },
                            ]);
                        }
                        Some(out)
                    },
                },
                None => Some(error_outcome(&self.selecter, Error::KeyNotFound, &old)),
            },
            Err(_) => Some(error_outcome(&self.selecter, Error::DestinationIsError, &old)),
        }
    }
}

/// A converter that updates a record in a property-store collection.
pub fn update(key: String, selecter: String) -> (c: crate::convert::Converter<
    Vec<Propaty>,
    Result<Vec<Propaty>, Error>,
    Update,
>)
    ensures
        c.wf(),
        c.raw.key == key,
        c.raw.selecter == selecter,
{
    crate::convert::Converter::new(Update { selecter, key })
}

/// The collection without the entries under the id key.
pub open spec fn remove_key(t: Seq<PropModel>, dist_key: Seq<char>) -> Seq<PropModel> {
    t.filter(|p: PropModel| p.key != dist_key)
}

/// Deletes a record from the collection: rejected when no record with the
/// incoming id exists, or when the incoming record lacks the id key.
pub open spec fn spec_delete_from(
    selecter: Seq<char>,
    key: Seq<char>,
    old: Option<Seq<PropModel>>,
    dist: Result<Seq<PropModel>, Error>,
) -> Option<Seq<PropModel>> {
    match dist {
        Ok(d) => match spec_get_text(d, key) {
            Some(dist_key) => match old {
                Some(o) => match spec_get_record(o, dist_key) {
                    None => Some(
                        seq![outcome_entry(selecter, Err(Error::ValueNotFound))] + spec_tail(o),
                    ),
                    Some(_) => Some(
                        seq![outcome_entry(selecter, Ok(d))] + remove_key(spec_tail(o), dist_key),
                    ),
                },
                None => Some(
                    seq![
                        PropModel { key: selecter, value: ValModel::Record(d) },
                        PropModel { key: dist_key, value: ValModel::Record(d) },
                    ],
                ),
            },
            None => match old {
                Some(o) => Some(
                    seq![outcome_entry(selecter, Err(Error::KeyNotFound))] + spec_tail(o),
                ),
                None => Some(seq![outcome_entry(selecter, Err(Error::KeyNotFound))]),
            },
        },
        Err(_) => match old {
            Some(o) => Some(
                seq![outcome_entry(selecter, Err(Error::DestinationIsError))] + spec_tail(o),
            ),
            None => Some(seq![outcome_entry(selecter, Err(Error::DestinationIsError))]),
        },
    }
}

/// The delete converter.
pub struct Delete {
    pub selecter: String,
    pub key: String,
}

impl RawConverter<Vec<Propaty>, Result<Vec<Propaty>, Error>> for Delete {
    open spec fn wf(&self) -> bool {
        true
    }

    open spec fn spec_to(&self, src: Seq<PropModel>) -> Option<Result<Seq<PropModel>, Error>> {
        spec_get_result(src, self.selecter@)
    }

    open spec fn spec_from(
        &self,
        old: Option<Seq<PropModel>>,
        dist: Result<Seq<PropModel>, Error>,
    ) -> Option<Seq<PropModel>> {
        spec_delete_from(self.selecter@, self.key@, old, dist)
    }

    fn to(&self, src: Vec<Propaty>) -> (r: Option<Result<Vec<Propaty>, Error>>) {
        get_result_value(&src, self.selecter.as_str())
    }

    fn from(&self, old: Option<Vec<Propaty>>, dist: Result<Vec<Propaty>, Error>) -> (r: Option<
        Vec<Propaty>,
    >) {
        match dist {
            Ok(d) => match get_text_value(&d, self.key.as_str()) {
                Some(dist_key) => match old {
                    Some(o) => match get_record_value(&o, dist_key.as_str()) {
                        None => Some(error_outcome(&self.selecter, Error::ValueNotFound, &Some(o))),
                        Some(_) => {
                            let mut out: Vec<Propaty> = Vec::new();
                            out.push(
                                Propaty {
                                    key: self.selecter.clone(),
                                    value: PropatyValue::RecordResult(Ok(clone_record(&d))),
                                },
                            );
                            let ghost head = rec_model(out);
                            proof {
                                assert(head =~= seq![outcome_entry(self.selecter@, Ok(rec_model(d)))]);
                            }
                            let tail = record_tail(&o);
                            let ghost tm = rec_model(tail);
                            let ghost pred = |p: PropModel| p.key != dist_key@;
                            let mut i: usize = 0;
                            proof {
                                assert(tm.take(0) =~= Seq::<PropModel>::empty());
                                assert(tm.take(0).filter(pred) =~= Seq::<PropModel>::empty());
                                assert(rec_model(out) =~= head + tm.take(0).filter(pred));
                            }
                            while i < tail.len()
                                invariant
                                    i <= tail.len(),
                                    tm == rec_model(tail),
                                    pred == (|p: PropModel| p.key != dist_key@),
                                    rec_model(out) == head + tm.take(i as int).filter(pred),
                                decreases tail.len() - i,
                            {
                                let ghost pre = rec_model(out);
                                proof {
                                    assert(tm.take(i as int).push(tm[i as int]) =~= tm.take(
                                        i as int + 1,
                                    ));
                                    tm.take(i as int).lemma_filter_push(tm[i as int], pred);
                                }
                                if !str_eq(tail[i].key.as_str(), dist_key.as_str()) {
                                    out.push(crate::propaty::clone_prop(&tail[i]));
                                    proof {
                                        assert(rec_model(out) =~= pre.push(tm[i as int]));
                                        assert(rec_model(out) =~= head + tm.take(i as int + 1).filter(
                                            pred,
                                        ));
                                    }
                                } else {
                                    proof {
                                        assert(rec_model(out) =~= head + tm.take(i as int + 1).filter(
                                            pred,
                                        ));
                                    }
                                }
                                i = i + 1;
                            }
                            proof {
                                assert(tm.take(tail.len() as int) =~= tm);
                                assert(rec_model(out) =~= seq![
                                    outcome_entry(self.selecter@, Ok(rec_model(d))),
                                ] + remove_key(tm, dist_key@));
                            }
                            Some(out)
                        },
                    },
                    None => {
                        let mut out: Vec<Propaty> = Vec::new();
                        out.push(
                            Propaty {
                                key: self.selecter.clone(),
                                value: PropatyValue::Record(clone_record(&d)),
                            },
                        );
                        out.push(Propaty { key: dist_key, value: PropatyValue::Record(d) });
                        proof {
                            assert(rec_model(out) =~= seq![
                                PropModel {
                                    key: self.selecter@,
                                    value: ValModel::Record(rec_model(d)),
                                },
                                PropModel { key: dist_key@, value: ValModel::Record(rec_model(d)) },
                            ]);
                        }
                        Some(out)
                    },
                },
                None => Some(error_outcome(&self.selecter, Error::KeyNotFound, &old)),
            },
            Err(_) => Some(error_outcome(&self.selecter, Error::DestinationIsError, &old)),
        }
    }
}

/// A converter that deletes a record from a property-store collection.
pub fn delete(key: String, selecter: String) -> (c: crate::convert::Converter<
    Vec<Propaty>,
    Result<Vec<Propaty>, Error>,
    Delete,
>)
    ensures
        c.wf(),
        c.raw.key == key,
        c.raw.selecter == selecter,
{
    crate::convert::Converter::new(Delete { selecter, key })
}

/// Whether every pair of `c` occurs somewhere in `vp`.
pub open spec fn spec_subrecord(c: Seq<PropModel>, vp: Seq<PropModel>) -> bool {
    forall|i: int| 0 <= i < c.len() ==> vp.contains(#[trigger] c[i])
}

/// Whether some condition record is entirely contained in `vp`.
pub open spec fn spec_cond_matches(vp: Seq<PropModel>, cond: Seq<Seq<PropModel>>) -> bool {
    exists|ci: int| 0 <= ci < cond.len() && spec_subrecord(#[trigger] cond[ci], vp)
}

/// The nested records of the collection that match some condition record,
/// in collection order.
pub open spec fn spec_found_records(
    src: Seq<PropModel>,
    cond: Seq<Seq<PropModel>>,
) -> Seq<Seq<PropModel>>
    decreases src.len(),
{
    if src.len() == 0 {
        Seq::empty()
    } else {
        let rest = spec_found_records(src.drop_first(), cond);
        match src.first().value {
            ValModel::Record(r) => if spec_cond_matches(r, cond) {
                seq![r] + rest
            } else {
                rest
            },
            _ => rest,
        }
    }
}

/// Reads matching records: the selecter entry holds the condition, and the
/// result is every nested record containing some condition record — or
/// `ValueNotFound` when none matches.
pub open spec fn spec_read_to(selecter: Seq<char>, src: Seq<PropModel>) -> Option<
    Result<Seq<Seq<PropModel>>, Error>,
> {
    match spec_get_results(src, selecter) {
        Some(Ok(cond)) => {
            let f = spec_found_records(src, cond);
            if f.len() == 0 {
                Some(Err(Error::ValueNotFound))
            } else {
                Some(Ok(f))
            }
        },
        Some(Err(e)) => Some(Err(e)),
        None => None,
    }
}

/// The record written back by a read: the outcome first, then the old
/// collection unchanged.
pub open spec fn spec_read_from(
    selecter: Seq<char>,
    old: Option<Seq<PropModel>>,
    dist: Result<Seq<Seq<PropModel>>, Error>,
) -> Option<Seq<PropModel>> {
    let outcome = match dist {
        Ok(d) => PropModel { key: selecter, value: ValModel::RecordsResult(Ok(d)) },
        Err(_) => PropModel {
            key: selecter,
            value: ValModel::RecordsResult(Err(Error::DestinationIsError)),
        },
    };
    match old {
        Some(o) => Some(seq![outcome] + spec_tail(o)),
        None => Some(seq![outcome]),
    }
}

/// Whether a record contains the given pair.
pub fn contains_prop(vp: &Vec<Propaty>, p: &Propaty) -> (b: bool)
    ensures
        b == rec_model(*vp).contains(prop_model(*p)),
{
    let mut j: usize = 0;
    while j < vp.len()
        invariant
            j <= vp.len(),
            forall|k: int| 0 <= k < j ==> rec_model(*vp)[k] != prop_model(*p),
        decreases vp.len() - j,
    {
        if crate::propaty::prop_eq(&vp[j], p) {
            proof {
                assert(rec_model(*vp)[j as int] == prop_model(*p));
            }
            return true;
        }
        j = j + 1;
    }
    proof {
        assert(!rec_model(*vp).contains(prop_model(*p)));
    }
    false
}

/// Whether every pair of `c` occurs in `vp`.
pub fn subrecord(c: &Vec<Propaty>, vp: &Vec<Propaty>) -> (b: bool)
    ensures
        b == spec_subrecord(rec_model(*c), rec_model(*vp)),
{
    let mut i: usize = 0;
    while i < c.len()
        invariant
            i <= c.len(),
            forall|k: int| 0 <= k < i ==> rec_model(*vp).contains(#[trigger] rec_model(*c)[k]),
        decreases c.len() - i,
    {
        if !contains_prop(vp, &c[i]) {
            proof {
                assert(!rec_model(*vp).contains(rec_model(*c)[i as int]));
            }
            return false;
        }
        i = i + 1;
    }
    true
}

/// Whether some condition record is entirely contained in `vp`.
pub fn cond_matches(vp: &Vec<Propaty>, cond: &Vec<Vec<Propaty>>) -> (b: bool)
    ensures
        b == spec_cond_matches(rec_model(*vp), recs_model(*cond)),
{
    let mut ci: usize = 0;
    while ci < cond.len()
        invariant
            ci <= cond.len(),
            forall|k: int|
                0 <= k < ci ==> !spec_subrecord(#[trigger] recs_model(*cond)[k], rec_model(*vp)),
        decreases cond.len() - ci,
    {
        if subrecord(&cond[ci], vp) {
            proof {
                assert(spec_subrecord(recs_model(*cond)[ci as int], rec_model(*vp)));
            }
            return true;
        }
        ci = ci + 1;
    }
    false
}

/// The read converter.
pub struct Read {
    pub selecter: String,
}

impl RawConverter<Vec<Propaty>, Result<Vec<Vec<Propaty>>, Error>> for Read {
    open spec fn wf(&self) -> bool {
        true
    }

    open spec fn spec_to(&self, src: Seq<PropModel>) -> Option<
        Result<Seq<Seq<PropModel>>, Error>,
    > {
        spec_read_to(self.selecter@, src)
    }

    open spec fn spec_from(
        &self,
        old: Option<Seq<PropModel>>,
        dist: Result<Seq<Seq<PropModel>>, Error>,
    ) -> Option<Seq<PropModel>> {
        spec_read_from(self.selecter@, old, dist)
    }

    fn to(&self, src: Vec<Propaty>) -> (r: Option<Result<Vec<Vec<Propaty>>, Error>>) {
        match get_results_value(&src, self.selecter.as_str()) {
            Some(Ok(cond)) => {
                let ghost full = rec_model(src);
                let ghost cm = recs_model(cond);
                let mut found: Vec<Vec<Propaty>> = Vec::new();
                let mut i: usize = 0;
                proof {
                    assert(full.skip(0) =~= full);
                    assert(recs_model(found) =~= Seq::<Seq<PropModel>>::empty());
                    assert(Seq::<Seq<PropModel>>::empty() + spec_found_records(full, cm)
                        =~= spec_found_records(full, cm));
                }
                while i < src.len()
                    invariant
                        i <= src.len(),
                        full == rec_model(src),
                        cm == recs_model(cond),
                        spec_found_records(full, cm) == recs_model(found) + spec_found_records(
                            full.skip(i as int),
                            cm,
                        ),
                    decreases src.len() - i,
                {
                    proof {
                        assert(full.skip(i as int).first() == full[i as int]);
                        assert(full.skip(i as int).drop_first() =~= full.skip(i as int + 1));
                    }
                    match &src[i].value {
                        PropatyValue::Record(rec) => {
                            proof {
                                crate::propaty::lemma_rec_model(*rec);
                            }
                            if cond_matches(rec, &cond) {
                                let ghost pre = recs_model(found);
                                found.push(clone_record(rec));
                                proof {
                                    assert(recs_model(found) =~= pre.push(rec_model(*rec)));
                                    assert(pre + (seq![rec_model(*rec)] + spec_found_records(
                                        full.skip(i as int + 1),
                                        cm,
                                    )) =~= recs_model(found) + spec_found_records(
                                        full.skip(i as int + 1),
                                        cm,
                                    ));
                                }
                            }
                        },
                        _ => {},
                    }
                    i = i + 1;
                }
                proof {
                    assert(full.skip(src.len() as int) =~= Seq::<PropModel>::empty());
                    assert(recs_model(found) + Seq::<Seq<PropModel>>::empty() =~= recs_model(
                        found,
                    ));
                }
                if found.len() == 0 {
                    Some(Err(Error::ValueNotFound))
                } else {
                    Some(Ok(found))
                }
            },
            Some(Err(e)) => Some(Err(e)),
            None => None,
        }
    }

    fn from(&self, old: Option<Vec<Propaty>>, dist: Result<Vec<Vec<Propaty>>, Error>) -> (r: Option<
        Vec<Propaty>,
    >) {
        let outcome = match dist {
            Ok(d) => {
                proof {
                    crate::propaty::lemma_recs_model(d);
                }
                Propaty { key: self.selecter.clone(), value: PropatyValue::RecordsResult(Ok(d)) }
            },
            Err(_) => Propaty {
                key: self.selecter.clone(),
                value: PropatyValue::RecordsResult(Err(Error::DestinationIsError)),
            },
        };
        let ghost om = prop_model(outcome);
        let mut out: Vec<Propaty> = Vec::new();
        out.push(outcome);
        proof {
            assert(rec_model(out) =~= seq![om]);
        }
        match old {
            Some(o) => {
                let tail = record_tail(&o);
                append_record(&mut out, &tail);
                Some(out)
            },
            None => Some(out),
        }
    }
}

/// A converter that reads matching records out of a property-store
/// collection.
pub fn read(selecter: String) -> (c: crate::convert::Converter<
    Vec<Propaty>,
    Result<Vec<Vec<Propaty>>, Error>,
    Read,
>)
    ensures
        c.wf(),
        c.raw.selecter == selecter,
{
    crate::convert::Converter::new(Read { selecter })
}

} // verus!
