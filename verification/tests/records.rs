//! Records, converters, derived stores and the text codec.

use lopin::json::{from_json, from_record, to_json, to_record, Record};
use lopin::propaty::{Propaty, PropatyMap, PropatyValue};
use lopin::{
    broadcast_converted, converted, create, dummy, in_memory, merged, named, read, selected,
    unwarp_or, update, RawConverter, RawStore, UniqueOrder,
};

fn text(s: &str) -> PropatyValue {
    PropatyValue::Text(s.to_string())
}

#[test]
fn it_from() {
    let a = converted(in_memory(Some(text("test"))), named("text"));
    let b = converted(in_memory(Some(PropatyValue::Int(1))), named("integer"));
    let c = converted(
        in_memory(Some(PropatyValue::Real("1.0".to_string()))),
        named("float"),
    );
    let m = merged(merged(a, b), c);
    let mut j = converted(converted(m, to_record()), to_json());
    assert_eq!(
        j.get(),
        Some("{\"text\":\"test\",\"integer\":1,\"float\":1.0}".to_string())
    );
}

#[test]
fn it_to() {
    let src = in_memory(Some(
        "{\"text\":\"test\",\"integer\":1,\"float\":1.0}".to_string(),
    ));
    let mut store = converted(converted(src, from_json()), from_record());
    let record = store.get().expect("a record parses");
    assert_eq!(record.get_value("text"), Some(text("test")));
    assert_eq!(record.get_value("integer"), Some(PropatyValue::Int(1)));
    assert_eq!(
        record.get_value("float"),
        Some(PropatyValue::Real("1.0".to_string()))
    );
}

#[test]
fn named_round_trip() {
    let n = named("key");
    let projected = n.to(PropatyValue::Int(5)).expect("naming always applies");
    assert_eq!(
        n.from(Some(PropatyValue::Int(5)), projected),
        Some(PropatyValue::Int(5))
    );
}

#[test]
fn json_round_trip() {
    let build = || {
        vec![
            Propaty::new("text", text("a\"b\\c")),
            Propaty::new("int", PropatyValue::Int(-42)),
            Propaty::new("big", PropatyValue::Int(i64::MAX)),
            Propaty::new("real", PropatyValue::Real("2.5e3".to_string())),
            Propaty::new("flag", PropatyValue::Flag(true)),
            Propaty::new(
                "nested",
                PropatyValue::Record(vec![Propaty::new("x", PropatyValue::Int(0))]),
            ),
        ]
    };
    let codec = to_json();
    let written = codec.to(Record::new(build())).expect("writing always applies");
    let reread = codec.from(None, written).expect("own output parses");
    assert_eq!(reread, Record::new(build()));
}

#[test]
fn json_keeps_oversized_numbers_as_text() {
    let codec = from_json();
    let record = codec
        .to("{\"n\":99999999999999999999}".to_string())
        .expect("parses");
    assert_eq!(
        record.props[0].value,
        PropatyValue::Real("99999999999999999999".to_string())
    );
}

#[test]
fn put_suppression_keeps_backing_value() {
    let mut store = converted(in_memory(Some(text("keep"))), lopin::get_only::<PropatyValue>());
    store.put(text("drop"));
    assert_eq!(store.get(), Some(text("keep")));
}

#[test]
fn broadcast_of_one_element_matches_scalar() {
    let mut direct = converted(in_memory(Some(PropatyValue::Int(7))), dummy());
    let lifted = dummy::<PropatyValue>().to_vec_converter().to_broadcast();
    let mut fanned = broadcast_converted(in_memory(Some(PropatyValue::Int(7))), lifted);
    assert_eq!(fanned.get(), direct.get().map(|v| vec![v]));
}

#[test]
fn broadcast_put_last_write_wins() {
    let lifted = dummy::<PropatyValue>().to_vec_converter().to_broadcast();
    let mut fanned = broadcast_converted(in_memory(None), lifted);
    fanned.put(vec![PropatyValue::Int(1), PropatyValue::Int(2)]);
    assert_eq!(fanned.get(), Some(vec![PropatyValue::Int(2)]));
}

#[test]
fn unique_keeps_first_or_last() {
    let record = vec![
        Propaty::new("a", PropatyValue::Int(1)),
        Propaty::new("b", PropatyValue::Int(2)),
        Propaty::new("a", PropatyValue::Int(3)),
    ];
    assert_eq!(
        record.unique(UniqueOrder::First),
        vec![
            Propaty::new("a", PropatyValue::Int(1)),
            Propaty::new("b", PropatyValue::Int(2)),
        ]
    );
    assert_eq!(
        record.unique(UniqueOrder::Last),
        vec![
            Propaty::new("a", PropatyValue::Int(3)),
            Propaty::new("b", PropatyValue::Int(2)),
        ]
    );
}

#[test]
fn flatten_concatenates_records() {
    let f = lopin::flatten_porpaties();
    let joined = f
        .to(vec![
            vec![Propaty::new("a", PropatyValue::Int(1))],
            vec![Propaty::new("b", PropatyValue::Int(2))],
        ])
        .expect("flattening always applies");
    assert_eq!(
        joined,
        vec![
            Propaty::new("a", PropatyValue::Int(1)),
            Propaty::new("b", PropatyValue::Int(2)),
        ]
    );
}

#[test]
fn it_create() {
    let backing = in_memory(Some(Vec::<Propaty>::new()));
    let mut pipe = converted(
        converted(backing, create("id".to_string(), "sel".to_string())),
        unwarp_or(vec![]),
    );
    pipe.put(vec![Propaty::new("id", text("0"))]);
    assert_eq!(pipe.get(), Some(vec![Propaty::new("id", text("0"))]));
}

#[test]
fn create_rejects_existing_id() {
    let backing = in_memory(Some(vec![
        Propaty::new("sel", PropatyValue::OptRecord(None)),
        Propaty::new(
            "0",
            PropatyValue::Record(vec![Propaty::new("id", text("0"))]),
        ),
    ]));
    let mut pipe = converted(backing, create("id".to_string(), "sel".to_string()));
    pipe.put(Ok(vec![Propaty::new("id", text("0"))]));
    assert_eq!(pipe.get(), Some(Err(lopin::Error::AleadyExists)));
}

#[test]
fn it_update() {
    let backing = in_memory(Some(vec![
        Propaty::new("sel", PropatyValue::OptRecord(None)),
        Propaty::new(
            "0",
            PropatyValue::Record(vec![
                Propaty::new("id", text("0")),
                Propaty::new("data", PropatyValue::Int(0)),
            ]),
        ),
    ]));
    let mut pipe = converted(
        converted(backing, update("id".to_string(), "sel".to_string())),
        unwarp_or(vec![]),
    );
    let new_record = vec![
        Propaty::new("id", text("0")),
        Propaty::new("data", PropatyValue::Int(1)),
    ];
    pipe.put(new_record.clone());
    assert_eq!(pipe.get(), Some(new_record));
}

#[test]
fn it_read() {
    let backing = in_memory(Some(vec![
        Propaty::new("sel", PropatyValue::OptRecord(None)),
        Propaty::new(
            "0",
            PropatyValue::Record(vec![
                Propaty::new("id", text("0")),
                Propaty::new("data", PropatyValue::Int(0)),
            ]),
        ),
    ]));
    let mut pipe = converted(
        converted(backing, read("sel".to_string())),
        unwarp_or(vec![]),
    );
    pipe.put(vec![vec![Propaty::new("id", text("0"))]]);
    assert_eq!(
        pipe.get(),
        Some(vec![vec![
            Propaty::new("id", text("0")),
            Propaty::new("data", PropatyValue::Int(0)),
        ]])
    );
}

#[test]
fn read_misses_report_value_not_found() {
    let backing = in_memory(Some(vec![Propaty::new(
        "sel",
        PropatyValue::RecordsResult(Ok(vec![vec![Propaty::new("id", text("9"))]])),
    )]));
    let mut pipe = converted(backing, read("sel".to_string()));
    assert_eq!(pipe.get(), Some(Err(lopin::Error::ValueNotFound)));
}

#[test]
fn selection_gates_reads() {
    let mut hit = selected(in_memory(Some(PropatyValue::Int(1))), lopin::select(PropatyValue::Int(1)));
    assert_eq!(hit.get(), Some(PropatyValue::Int(1)));
    let mut miss = selected(in_memory(Some(PropatyValue::Int(1))), lopin::select(PropatyValue::Int(2)));
    assert_eq!(miss.get(), None);
}

#[test]
fn read_only_store_drops_writes() {
    let mut store = selected(
        in_memory(Some(PropatyValue::Int(1))),
        lopin::select::get_only(),
    );
    store.put(PropatyValue::Int(5));
    assert_eq!(store.get(), Some(PropatyValue::Int(1)));
}

#[test]
fn merged_stores_concatenate() {
    let mut both = merged(
        in_memory(Some(vec![PropatyValue::Int(1)])),
        in_memory(Some(vec![PropatyValue::Int(2)])),
    );
    assert_eq!(
        both.get(),
        Some(vec![PropatyValue::Int(1), PropatyValue::Int(2)])
    );
    let mut neither = merged(
        lopin::temporary::<Vec<PropatyValue>>(),
        lopin::temporary::<Vec<PropatyValue>>(),
    );
    assert_eq!(neither.get(), None);
}

#[test]
fn transport_and_swap_move_entries() {
    let mut store = in_memory(Some(vec![
        Propaty::new("a", PropatyValue::Int(1)),
        Propaty::new("b", PropatyValue::Int(2)),
    ]));
    lopin::transport::swap(&mut store, "a", "b");
    assert_eq!(
        store.get(),
        Some(vec![
            Propaty::new("a", PropatyValue::Int(2)),
            Propaty::new("b", PropatyValue::Int(1)),
        ])
    );
    let mut fresh = in_memory(Some(vec![Propaty::new("a", PropatyValue::Int(1))]));
    lopin::transport::transport(&mut fresh, "a", "c");
    assert_eq!(
        fresh.get(),
        Some(vec![
            Propaty::new("a", PropatyValue::Int(1)),
            Propaty::new("c", PropatyValue::Int(1)),
        ])
    );
}

#[test]
fn cache_remembers_values() {
    let mut store = lopin::in_memory_cache(in_memory(Some(PropatyValue::Int(1))));
    assert_eq!(store.get(), Some(PropatyValue::Int(1)));
    store.put(PropatyValue::Int(2));
    assert_eq!(store.get(), Some(PropatyValue::Int(2)));
}

#[test]
fn store_returns_last_put() {
    let mut store = in_memory(None);
    store.put(text("one"));
    store.put(text("two"));
    assert_eq!(store.get(), Some(text("two")));
}

#[test]
fn gated_converter_filters_elements() {
    let g = lopin::gated(lopin::select(PropatyValue::Int(1)), dummy());
    assert_eq!(
        g.to(vec![PropatyValue::Int(1), PropatyValue::Int(2)]),
        Some(vec![PropatyValue::Int(1)])
    );
}

#[test]
fn utf8_converters_round_trip() {
    let enc = lopin::util::from_utf8_converter();
    let bytes = enc.to("caf\u{e9}".to_string()).expect("encoding is total");
    assert_eq!(enc.from(None, bytes), Some("caf\u{e9}".to_string()));
    let dec = lopin::util::to_utf8();
    assert_eq!(dec.to(vec![0xff]), None);
}

#[test]
fn unwrap_converters_pick_sides() {
    let ok = lopin::unwarp::<PropatyValue, lopin::Error>();
    assert_eq!(ok.to(Ok(PropatyValue::Int(1))), Some(PropatyValue::Int(1)));
    assert_eq!(ok.to(Err(lopin::Error::KeyNotFound)), None);
    let err = lopin::unwarp_err::<PropatyValue, lopin::Error>();
    assert_eq!(err.to(Ok(PropatyValue::Int(1))), None);
    assert_eq!(
        err.to(Err(lopin::Error::KeyNotFound)),
        Some(lopin::Error::KeyNotFound)
    );
    let fallback = lopin::unwarp_or::<PropatyValue, lopin::Error>(PropatyValue::Int(0));
    assert_eq!(
        fallback.to(Err(lopin::Error::KeyNotFound)),
        Some(PropatyValue::Int(0))
    );
}

#[test]
fn temporary_object_keeps_named_entry() {
    let mut store = lopin::temporary_object("slot");
    assert_eq!(store.get(), None);
    store.put(vec![Propaty::new("slot", text("v"))]);
    assert_eq!(store.get(), Some(vec![Propaty::new("slot", text("v"))]));
}
