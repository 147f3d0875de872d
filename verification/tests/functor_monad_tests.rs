use rust_higher_kined_types::custom_types::functor_monad::{
    chain_option_operations, chain_result_operations, option_to_string_example,
    result_to_string_example, value_string, Applicative, Functor, Monad,
};

#[test]
fn test_option_monad() {
    let result = Option::pure(42)
        .bind(|x| Some(x * 2))
        .bind(|x| Some(x.to_string()));

    assert_eq!(result, Some("84".to_string()));
}

#[test]
fn test_result_monad() {
    let result: Result<String, &str> = Result::pure(21)
        .bind(|x| Ok(x * 2))
        .bind(|x| Ok(x.to_string()));

    assert_eq!(result, Ok("42".to_string()));
}

#[test]
fn test_chain_option_operations() {
    let result = chain_option_operations(
        Some(5),
        |x| Some(x * 2),
        |x| Some(x + 1),
    );

    assert_eq!(result, Some(11));
}

#[test]
fn test_chain_result_operations() {
    let result: Result<i32, &str> = chain_result_operations(
        Ok(5),
        |x| Ok(x * 2),
        |x| Ok(x + 1),
    );

    assert_eq!(result, Ok(11));
}

#[test]
fn test_option_applicative() {
    let result = Some(5).apply(Some(|x: i32| x * 2));
    assert_eq!(result, Some(10));

    let result2: Option<i32> = None.apply(Some(|x: i32| x * 2));
    assert_eq!(result2, None);

    let result3: Option<i32> = Some(5).apply(None::<fn(i32) -> i32>);
    assert_eq!(result3, None);
}

#[test]
fn test_result_applicative() {
    let result: Result<i32, &str> = Ok(10).apply(Ok(|x: i32| x / 2));
    assert_eq!(result, Ok(5));

    let result2: Result<i32, &str> = Err("error").apply(Ok(|x: i32| x / 2));
    assert_eq!(result2, Err("error"));

    let result3: Result<i32, &str> = Ok(10).apply(Err::<fn(i32) -> i32, &str>("func error"));
    assert_eq!(result3, Err("func error"));
}

#[test]
fn fmap_maps_the_value_and_keeps_what_is_missing() {
    assert_eq!(Some(3).fmap(|x: i32| x + 1), Some(4));
    assert_eq!(None::<i32>.fmap(|x: i32| x + 1), None);
    let ok: Result<i32, &str> = Ok(3);
    assert_eq!(ok.fmap(|x: i32| x.to_string()), Ok("3".to_string()));
    let err: Result<i32, &str> = Err("broken");
    assert_eq!(err.fmap(|x: i32| x.to_string()), Err("broken"));
}

#[test]
fn bind_stops_at_the_first_missing_value() {
    let none: Option<i32> = chain_option_operations(Some(5), |_x: i32| None::<i32>, |x| Some(x + 1));
    assert_eq!(none, None);
    let from_none: Option<i32> = chain_option_operations(None::<i32>, |x| Some(x * 2), |x| Some(x + 1));
    assert_eq!(from_none, None);
    let last: Option<i32> = chain_option_operations(Some(5), |x| Some(x * 2), |_x: i32| None::<i32>);
    assert_eq!(last, None);
}

#[test]
fn chain_returns_the_first_error() {
    let first: Result<i32, &str> = chain_result_operations(Err("start"), |x: i32| Ok(x * 2), |x: i32| Ok(x + 1));
    assert_eq!(first, Err("start"));
    let second: Result<i32, &str> =
        chain_result_operations(Ok(5), |_x: i32| Err::<i32, &str>("middle"), |x: i32| Ok(x + 1));
    assert_eq!(second, Err("middle"));
    let third: Result<i32, &str> =
        chain_result_operations(Ok(5), |x: i32| Ok(x * 2), |_x: i32| Err::<i32, &str>("end"));
    assert_eq!(third, Err("end"));
}

#[test]
fn values_are_presented_in_decimal() {
    assert_eq!(option_to_string_example(Some(42)), Some("Value: 42".to_string()));
    assert_eq!(option_to_string_example(Some(0)), Some("Value: 0".to_string()));
    assert_eq!(option_to_string_example(Some(-7)), Some("Value: -7".to_string()));
    assert_eq!(option_to_string_example(None), None);
    assert_eq!(value_string(i32::MAX), "Value: 2147483647");
    assert_eq!(value_string(i32::MIN), "Value: -2147483648");
    assert_eq!(value_string(1000), "Value: 1000");
    assert_eq!(value_string(-10), "Value: -10");
}

#[test]
fn result_values_are_presented_and_errors_kept() {
    let ok: Result<i32, &str> = Ok(305);
    assert_eq!(result_to_string_example(ok), Ok("Value: 305".to_string()));
    let err: Result<i32, &str> = Err("no value");
    assert_eq!(result_to_string_example(err), Err("no value"));
}
