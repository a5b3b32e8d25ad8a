//! Pipeline composition behaviour.

use std::cell::Cell;

use lopin::pipeline::RawPipeline;
use lopin::{filter, pipeline, test_error, test_ok};

#[test]
fn it_works() {
    assert!(test_ok(&filter(|_: &i32| true, 0), 10, &10));
}

#[test]
fn it_works2() {
    assert!(test_error(&filter(|_: &i32| false, 0), 10, &0));
}

#[test]
fn it_works3() {
    assert!(test_ok(
        &pipeline(|v: i32| Ok::<String, String>(v.to_string())),
        10,
        &"10".to_string(),
    ));
}

#[test]
fn it_works4() {
    assert!(test_error(&pipeline(|_: i32| Err::<i32, i32>(0)), 10, &0));
}

#[test]
fn it_works5() {
    let p = filter(|_: &i32| true, 1).and(filter(|_: &i32| true, 2));
    assert!(test_ok(&p, 10, &10));
}

#[test]
fn it_works6() {
    let p = filter(|_: &i32| false, 1).and(filter(|_: &i32| true, 2));
    assert!(test_error(&p, 10, &1));
}

#[test]
fn it_works7() {
    let p = filter(|_: &i32| true, 1).and(filter(|_: &i32| false, 2));
    assert!(test_error(&p, 10, &2));
}

#[test]
fn it_works8() {
    let p = filter(|_: &i32| true, 1).or(filter(|_: &i32| false, 2));
    assert!(test_ok(&p, 10, &10));
}

#[test]
fn it_works9() {
    let p = filter(|_: &i32| true, 1).or(filter(|_: &i32| false, 2));
    assert!(test_ok(&p, 10, &10));
}

#[test]
fn it_works10() {
    let p = filter(|v: &i32| v % 2 == 0, 1)
        .and(pipeline(|v: i32| Ok::<i32, i32>(v / 2)))
        .or(pipeline(|v: i32| Ok::<i32, i32>(v)));
    assert!(test_ok(&p, 10, &5));
}

#[test]
fn it_works11() {
    let p = filter(|v: &i32| v % 2 == 0, 1)
        .and(pipeline(|v: i32| Ok::<i32, i32>(v / 2)))
        .or(pipeline(|v: i32| Ok::<i32, i32>(v)));
    assert!(test_ok(&p, 9, &9));
}

#[test]
fn and_short_circuit_skips_second_stage() {
    let calls = Cell::new(0);
    let second = pipeline(|v: i32| {
        calls.set(calls.get() + 1);
        Ok::<i32, i32>(v)
    });
    let p = pipeline(|_: i32| Err::<i32, i32>(1)).and(second);
    assert_eq!(p.run(5), Err(1));
    assert_eq!(calls.get(), 0);
}

#[test]
fn or_fallback_hides_first_error() {
    let p = pipeline(|_: i32| Err::<i32, i32>(7)).or(pipeline(|_: i32| Ok::<i32, i32>(42)));
    assert_eq!(p.run(0), Ok(42));
    assert_eq!(p.run(123), Ok(42));
}

#[test]
fn filter_reports_configured_error() {
    let p = filter(|v: &i32| *v > 0, -1);
    assert_eq!(p.run(5), Ok(5));
    assert_eq!(p.run(-5), Err(-1));
}

#[test]
fn utf8_pipeline_decodes_bytes() {
    let p = lopin::from_utf8();
    assert_eq!(p.run(vec![104, 105]), Ok("hi".to_string()));
    assert_eq!(p.run(vec![0xff, 0xfe]), Err(lopin::util::Utf8Error));
}
