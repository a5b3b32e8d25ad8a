//! Moving record entries between keys inside one record store.

use vstd::pervasive::VecAdditionalExecFns;
use vstd::prelude::*;

use crate::model::Model;
use crate::propaty::{
    clone_prop, clone_record, clone_value, prop_model, rec_model, str_eq, PropModel, Propaty,
};
use crate::store::RawStore;

verus! {

broadcast use
    {
        vstd::seq::group_seq_axioms,
        vstd::std_specs::vec::group_vec_axioms,
        crate::propaty::lemma_rec_model,
    }
;

/// The first position of a pair under the given key, from `i` on.
pub open spec fn spec_pos_from(ps: Seq<PropModel>, key: Seq<char>, i: int) -> Option<int>
    decreases ps.len() - i,
{
    if i < 0 || i >= ps.len() {
        None
    } else if ps[i].key == key {
        Some(i)
    } else {
        spec_pos_from(ps, key, i + 1)
    }
}

/// The first position of a pair under the given key.
pub open spec fn spec_pos(ps: Seq<PropModel>, key: Seq<char>) -> Option<int> {
    spec_pos_from(ps, key, 0)
}

/// Finds the first position of a pair under the given key.
#[verifier::loop_isolation(false)]
pub fn find_pos(ps: &Vec<Propaty>, key: &str) -> (r: Option<usize>)
    ensures
        match r {
            Some(i) => spec_pos(rec_model(*ps), key@) == Some(i as int) && i < ps.len(),
            None => spec_pos(rec_model(*ps), key@) is None,
        },
{
    let ghost m = rec_model(*ps);
    let mut i: usize = 0;
    while i < ps.len()
        invariant
            i <= ps.len(),
            spec_pos(m, key@) == spec_pos_from(m, key@, i as int),
        decreases ps.len() - i,
    {
        if str_eq(ps[i].key.as_str(), key) {
            return Some(i);
        }
        i = i + 1;
    }
    None
}

/// Where a record carrying a value under `from` ends up when that value is
/// transported to `to`: if `to` already exists, every entry is replaced by
/// the carried pair, renamed at the `to` positions; otherwise the renamed
/// pair is appended.
pub open spec fn spec_transport(m: Seq<PropModel>, from: Seq<char>, to: Seq<char>) -> Option<
    Seq<PropModel>,
> {
    match spec_pos(m, from) {
        Some(i) => {
            let v = m[i];
            Some(
                match spec_pos(m, to) {
                    Some(_) => Seq::new(
                        m.len(),
                        |j: int|
                            if 0 <= j < m.len() && m[j].key == to {
                                PropModel { key: to, value: v.value }
                            } else {
                                v
                            },
                    ),
                    None => m + seq![PropModel { key: to, value: v.value }],
                },
            )
        },
        None => None,
    }
}

/// Copies the value under `from` to the key `to` inside a record store;
/// without a `from` entry nothing is written.
#[verifier::loop_isolation(false)]
pub fn transport<St: RawStore<Vec<Propaty>>>(store: &mut St, from: &str, to: &str)
    requires
        old(store).wf(),
    ensures
        final(store).wf(),
        match old(store).contents() {
            Some(m) => match spec_transport(m, from@, to@) {
                Some(res) => exists|mid: St|
                    {
                        &&& mid.wf()
                        &&& mid.contents() == old(store).contents()
                        &&& #[trigger] mid.put_rel(res, final(store))
                    },
                None => final(store).contents() == old(store).contents(),
            },
            None => final(store).contents() == old(store).contents(),
        },
{
    match store.get() {
        Some(value) => {
            let ghost mid = *store;
            let ghost m = rec_model(value);
            match find_pos(&value, from) {
                Some(i_from) => {
                    let result: Vec<Propaty> = match find_pos(&value, to) {
                        Some(_) => {
                            let mut result: Vec<Propaty> = Vec::new();
                            let mut j: usize = 0;
                            while j < value.len()
                                invariant
                                    j <= value.len(),
                                    rec_model(result).len() == j,
                                    forall|k: int|
                                        0 <= k < j ==> rec_model(result)[k] == (if m[k].key == to@ {
                                            PropModel { key: to@, value: m[i_from as int].value }
                                        } else {
                                            m[i_from as int]
                                        }),
                                decreases value.len() - j,
                            {
                                let ghost pre = rec_model(result);
                                if str_eq(value[j].key.as_str(), to) {
                                    result.push(
                                        Propaty {
                                            key: to.to_owned(),
                                            value: clone_value(&value[i_from].value),
                                        },
                                    );
                                } else {
                                    result.push(clone_prop(&value[i_from]));
                                }
                                proof {
                                    assert(rec_model(result) =~= pre.push(
                                        rec_model(result).last(),
                                    ));
                                }
                                j = j + 1;
                            }
                            proof {
                                assert(rec_model(result) =~= spec_transport(
                                    m,
                                    from@,
                                    to@,
                                )->Some_0);
                            }
                            result
                        },
                        None => {
                            let mut result = clone_record(&value);
                            let ghost pre = rec_model(result);
                            result.push(
                                Propaty {
                                    key: to.to_owned(),
                                    value: clone_value(&value[i_from].value),
                                },
                            );
                            proof {
                                assert(rec_model(result) =~= pre.push(
                                    PropModel { key: to@, value: m[i_from as int].value },
                                ));
                                assert(rec_model(result) =~= spec_transport(
                                    m,
                                    from@,
                                    to@,
                                )->Some_0);
                            }
                            result
                        },
                    };
                    store.put(result);
                    proof {
                        assert(mid.wf() && mid.contents() == old(store).contents() && mid.put_rel(
                            spec_transport(m, from@, to@)->Some_0,
                            &*store,
                        ));
                    }
                },
                None => {},
            }
        },
        None => {},
    }
}

/// Where a record ends up when the entries under `from` and `to` exchange
/// their values; a missing side is filled by appending a renamed copy of
/// the other, and a record without either key is unchanged.
pub open spec fn spec_swap(m: Seq<PropModel>, from: Seq<char>, to: Seq<char>) -> Seq<PropModel> {
    match (spec_pos(m, from), spec_pos(m, to)) {
        (Some(i), Some(j)) => m.update(i, PropModel { key: from, value: m[j].value }).update(
            j,
            PropModel { key: to, value: m[i].value },
        ),
        (Some(i), None) => m + seq![PropModel { key: to, value: m[i].value }],
        (None, Some(j)) => m + seq![PropModel { key: to, value: m[j].value }],
        (None, None) => m,
    }
}

/// Exchanges the values under two keys inside a record store; whenever the
/// store holds a record, the (possibly unchanged) record is written back.
#[verifier::loop_isolation(false)]
pub fn swap<St: RawStore<Vec<Propaty>>>(store: &mut St, from: &str, to: &str)
    requires
        old(store).wf(),
    ensures
        final(store).wf(),
        match old(store).contents() {
            Some(m) => exists|mid: St|
                {
                    &&& mid.wf()
                    &&& mid.contents() == old(store).contents()
                    &&& #[trigger] mid.put_rel(spec_swap(m, from@, to@), final(store))
                },
            None => final(store).contents() == old(store).contents(),
        },
{
    if let Some(value) = store.get() {
        let ghost mid = *store;
        let ghost m = rec_model(value);
        let mut result = clone_record(&value);
        match find_pos(&value, from) {
            Some(index_from) => match find_pos(&value, to) {
                Some(index_to) => {
                    let ghost pre = rec_model(result);
                    result.set(
                        index_from,
                        Propaty { key: from.to_owned(), value: clone_value(&value[index_to].value) },
                    );
                    proof {
                        assert(rec_model(result) =~= pre.update(
                            index_from as int,
                            PropModel { key: from@, value: m[index_to as int].value },
                        ));
                    }
                    let ghost pre2 = rec_model(result);
                    result.set(
                        index_to,
                        Propaty { key: to.to_owned(), value: clone_value(&value[index_from].value) },
                    );
                    proof {
                        assert(rec_model(result) =~= pre2.update(
                            index_to as int,
                            PropModel { key: to@, value: m[index_from as int].value },
                        ));
                        assert(rec_model(result) =~= spec_swap(m, from@, to@));
                    }
                },
                None => {
                    let ghost pre = rec_model(result);
                    result.push(
                        Propaty { key: to.to_owned(), value: clone_value(&value[index_from].value) },
                    );
                    proof {
                        assert(rec_model(result) =~= pre.push(
                            PropModel { key: to@, value: m[index_from as int].value },
                        ));
                        assert(rec_model(result) =~= spec_swap(m, from@, to@));
                    }
                },
            },
            None => match find_pos(&value, to) {
                Some(index_to) => {
                    let ghost pre = rec_model(result);
                    result.push(
                        Propaty { key: to.to_owned(), value: clone_value(&value[index_to].value) },
                    );
                    proof {
                        assert(rec_model(result) =~= pre.push(
                            PropModel { key: to@, value: m[index_to as int].value },
                        ));
                        assert(rec_model(result) =~= spec_swap(m, from@, to@));
                    }
                },
                None => {
                    proof {
                        assert(rec_model(result) =~= spec_swap(m, from@, to@));
                    }
                },
            },
        }
        store.put(result);
        proof {
            assert(m == old(store).contents()->Some_0);
            assert(mid.wf() && mid.contents() == old(store).contents() && mid.put_rel(
                spec_swap(old(store).contents()->Some_0, from@, to@),
                &*store,
            ));
        }
    }
}

} // verus!
