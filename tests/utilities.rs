use ti_engine::utilities::string_to_int;

#[test]
fn test_string_to_int() {
    let one = string_to_int("1");
    let two = string_to_int("2");
    let three = string_to_int("3");

    assert_eq!(one, 1);
    assert_eq!(two, 2);
    assert_eq!(three, 3);
}

#[test]
fn string_to_int_signs() {
    assert_eq!(string_to_int("-42"), -42);
    assert_eq!(string_to_int("+7"), 7);
    assert_eq!(string_to_int("007"), 7);
}

#[test]
fn string_to_int_limits() {
    assert_eq!(string_to_int("2147483647"), i32::MAX);
    assert_eq!(string_to_int("-2147483648"), i32::MIN);
    assert_eq!(string_to_int("2147483648"), 0);
    assert_eq!(string_to_int("-2147483649"), 0);
}

#[test]
fn string_to_int_rejects_other_text() {
    assert_eq!(string_to_int(""), 0);
    assert_eq!(string_to_int("-"), 0);
    assert_eq!(string_to_int("+"), 0);
    assert_eq!(string_to_int(" 1"), 0);
    assert_eq!(string_to_int("1 "), 0);
    assert_eq!(string_to_int("1_000"), 0);
    assert_eq!(string_to_int("abc"), 0);
    assert_eq!(string_to_int("12x"), 0);
}
