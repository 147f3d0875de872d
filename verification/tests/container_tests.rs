use rust_higher_kined_types::custom_types::container::Container;

#[test]
fn an_option_maps_its_value() {
    let doubled = Container::map(Some(1i32), |x: &i32| *x as i64 * 2);
    assert_eq!(doubled, Some(2i64));
    let nothing = Container::map(None::<i32>, |x: &i32| *x as i64 * 2);
    assert_eq!(nothing, None);
}

#[test]
fn a_result_maps_its_value_and_keeps_its_error() {
    let ok: Result<i32, &str> = Ok(1);
    assert_eq!(Container::map(ok, |x: &i32| *x as i64 * 2), Ok(2i64));
    let err: Result<i32, &str> = Err("broken");
    assert_eq!(Container::map(err, |x: &i32| *x as i64 * 2), Err("broken"));
}

#[test]
fn a_mapping_may_count_its_calls() {
    let mut calls = 0;
    let mapped = Container::map(Some("text"), |text: &&str| {
        calls += 1;
        text.len()
    });
    assert_eq!(mapped, Some(4));
    assert_eq!(calls, 1);
}
