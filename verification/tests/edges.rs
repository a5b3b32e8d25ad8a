//! Edge cases: empty records, extreme numbers, error paths, and the
//! remaining composition shapes.

use lopin::json::{from_json, to_json, Record};
use lopin::propaty::{Propaty, PropatyValue};
use lopin::{
    converted, delete, dummy, from_vec, in_memory, narrow_converted, to_vec, update,
    vec_converted, vec_selected, Error, RawConverter, RawStore,
};

fn text(s: &str) -> PropatyValue {
    PropatyValue::Text(s.to_string())
}

#[test]
fn empty_record_round_trips() {
    let codec = to_json();
    let written = codec.to(Record::new(vec![])).expect("writing is total");
    assert_eq!(written, "{}".to_string());
    let reread = codec.from(None, written).expect("own output parses");
    assert_eq!(reread, Record::new(vec![]));
}

#[test]
fn extreme_integers_round_trip() {
    let codec = to_json();
    let build = || {
        vec![
            Propaty::new("lo", PropatyValue::Int(i64::MIN)),
            Propaty::new("hi", PropatyValue::Int(i64::MAX)),
            Propaty::new("zero", PropatyValue::Int(0)),
        ]
    };
    let written = codec.to(Record::new(build())).expect("writing is total");
    assert_eq!(
        written,
        "{\"lo\":-9223372036854775808,\"hi\":9223372036854775807,\"zero\":0}".to_string()
    );
    assert_eq!(codec.from(None, written), Some(Record::new(build())));
}

#[test]
fn malformed_text_is_rejected() {
    let codec = from_json();
    assert_eq!(codec.to("".to_string()), None);
    assert_eq!(codec.to("{\"k\":}".to_string()), None);
    assert_eq!(codec.to("{\"k\":1".to_string()), None);
    assert_eq!(codec.to("{\"k\":1}x".to_string()), None);
    assert_eq!(codec.to("[1]".to_string()), None);
}

#[test]
fn skipped_payloads_are_not_written() {
    let codec = to_json();
    let written = codec
        .to(Record::new(vec![
            Propaty::new("kept", PropatyValue::Int(1)),
            Propaty::new("outcome", PropatyValue::RecordResult(Err(Error::KeyNotFound))),
        ]))
        .expect("writing is total");
    assert_eq!(written, "{\"kept\":1}".to_string());
}

#[test]
fn delete_removes_record() {
    let backing = in_memory(Some(vec![
        Propaty::new("sel", PropatyValue::OptRecord(None)),
        Propaty::new(
            "0",
            PropatyValue::Record(vec![Propaty::new("id", text("0"))]),
        ),
    ]));
    let mut pipe = converted(backing, delete("id".to_string(), "sel".to_string()));
    pipe.put(Ok(vec![Propaty::new("id", text("0"))]));
    assert_eq!(pipe.get(), Some(Ok(vec![Propaty::new("id", text("0"))])));
}

#[test]
fn delete_misses_report_value_not_found() {
    let backing = in_memory(Some(vec![Propaty::new(
        "sel",
        PropatyValue::OptRecord(None),
    )]));
    let mut pipe = converted(backing, delete("id".to_string(), "sel".to_string()));
    pipe.put(Ok(vec![Propaty::new("id", text("9"))]));
    assert_eq!(pipe.get(), Some(Err(Error::ValueNotFound)));
}

#[test]
fn update_without_id_reports_key_not_found() {
    let backing = in_memory(Some(vec![Propaty::new(
        "sel",
        PropatyValue::OptRecord(None),
    )]));
    let mut pipe = converted(backing, update("id".to_string(), "sel".to_string()));
    pipe.put(Ok(vec![Propaty::new("other", text("x"))]));
    assert_eq!(pipe.get(), Some(Err(Error::KeyNotFound)));
}

#[test]
fn chained_converters_compose() {
    let c = to_vec::<PropatyValue>().chain(from_vec::<PropatyValue>());
    assert_eq!(c.to(text("v")), Some(text("v")));
    assert_eq!(c.from(Some(text("old")), text("new")), Some(text("new")));
}

#[test]
fn vector_store_converts_element_wise() {
    let backing = in_memory(Some(vec![
        Ok::<PropatyValue, Error>(text("a")),
        Err(Error::ValueNotFound),
        Ok(text("b")),
    ]));
    let mut store = vec_converted(backing, lopin::unwarp());
    assert_eq!(store.get(), Some(vec![text("a"), text("b")]));
}

#[test]
fn narrowcast_treats_both_sides_as_vectors() {
    let lifted = dummy::<PropatyValue>().to_vec_converter().to_broadcast();
    let mut store = narrow_converted(
        in_memory(Some(vec![text("a"), text("b")])),
        lifted,
    );
    assert_eq!(store.get(), Some(vec![text("a"), text("b")]));
    store.put(vec![text("c"), text("d")]);
    assert_eq!(store.get(), Some(vec![text("c"), text("d")]));
}

#[test]
fn vector_store_filters_by_condition() {
    let backing = in_memory(Some(vec![
        Propaty::new("a", PropatyValue::Int(1)),
        Propaty::new("b", PropatyValue::Int(2)),
        Propaty::new("a", PropatyValue::Int(3)),
    ]));
    let mut store = vec_selected(backing, lopin::select_propaty_get("a"));
    assert_eq!(
        store.get(),
        Some(vec![
            Propaty::new("a", PropatyValue::Int(1)),
            Propaty::new("a", PropatyValue::Int(3)),
        ])
    );
}

#[test]
fn write_only_condition_drops_reads() {
    let mut store = lopin::selected(
        in_memory(Some(PropatyValue::Int(1))),
        lopin::select::put_only(),
    );
    assert_eq!(store.get(), None);
    store.put(PropatyValue::Int(2));
    assert_eq!(store.store.get(), Some(PropatyValue::Int(2)));
}

#[test]
fn transport_between_stores_copies_value() {
    let mut source = in_memory(Some(text("moved")));
    let mut target = lopin::temporary::<PropatyValue>();
    lopin::store::transport(&mut source, &mut target);
    assert_eq!(target.get(), Some(text("moved")));
    assert_eq!(source.get(), Some(text("moved")));
}

#[test]
fn swap_between_stores_exchanges_values() {
    let mut a = in_memory(Some(text("one")));
    let mut b = in_memory(Some(text("two")));
    lopin::store::swap(&mut a, &mut b);
    assert_eq!(a.get(), Some(text("two")));
    assert_eq!(b.get(), Some(text("one")));
}
