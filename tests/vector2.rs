use ti_engine::types::Vector2;

#[test]
fn add_i32() {
    let v1 = Vector2 { x: 2, y: 2 };
    let v2 = Vector2 { x: 4, y: 4 };

    assert_eq!(v1 + v2, Vector2 { x: 6, y: 6 });

    let mut v3 = Vector2 { x: 1, y: 2 };
    v3.add_assign(v1);

    assert_eq!(v3, Vector2 { x: 3, y: 4 });
}

#[test]
fn add_f64() {
    let v1 = Vector2 { x: 2.0, y: 1.0 };
    let v2 = Vector2 { x: 3.0, y: 0.0 };

    assert_eq!(v1 + v2, Vector2 { x: 5.0, y: 1.0 });

    let mut v3 = Vector2 { x: 2.0, y: 3.0 };
    v3.add_assign(v1);

    assert_eq!(v3, Vector2 { x: 4.0, y: 4.0 });
}

#[test]
fn multiply_i32() {
    let mut v1 = Vector2 { x: 2, y: 1 };
    assert_eq!(v1 * 5, Vector2 { x: 10, y: 5 });

    v1.mul_assign(3);
    assert_eq!(v1, Vector2 { x: 6, y: 3 });
}

#[test]
fn multiply_f64() {
    let mut v1 = Vector2 { x: 3.0, y: 4.0 };
    assert_eq!(v1 * 2.0, Vector2 { x: 6.0, y: 8.0 });

    v1.mul_assign(4.0);
    assert_eq!(v1, Vector2 { x: 12.0, y: 16.0 });
}

#[test]
fn vector_from_pair() {
    let v: Vector2<i32> = (3, -7).into();
    assert_eq!(v, Vector2 { x: 3, y: -7 });
    assert_eq!(Vector2::from((1.5, 2.5)), Vector2 { x: 1.5, y: 2.5 });
}

#[test]
fn vector_add_associative_i32() {
    let u = Vector2 { x: 1, y: -5 };
    let v = Vector2 { x: 40, y: 7 };
    let w = Vector2 { x: -13, y: 100 };
    assert_eq!((u + v) + w, u + (v + w));
    assert_eq!((u + v) + w, Vector2 { x: 28, y: 102 });
}

#[test]
fn vector_add_associative_f64() {
    let u: Vector2<f64> = Vector2 { x: 0.1, y: 1.5 };
    let v = Vector2 { x: 0.2, y: -2.25 };
    let w = Vector2 { x: 0.3, y: 4.0 };
    let left = (u + v) + w;
    let right = u + (v + w);
    assert!((left.x - right.x).abs() < 1e-12);
    assert!((left.y - right.y).abs() < 1e-12);
}

#[test]
fn vector_times_one_is_unchanged() {
    let v = Vector2 { x: -9, y: 12 };
    assert_eq!(v * 1, v);
    let f = Vector2 { x: 0.25, y: -3.5 };
    assert_eq!(f * 1.0, f);
}

#[test]
fn vector_times_zero_and_negative() {
    assert_eq!(Vector2 { x: 4, y: -2 } * 0, Vector2 { x: 0, y: 0 });
    assert_eq!(Vector2 { x: 4, y: -2 } * -3, Vector2 { x: -12, y: 6 });
}
