//! Vector and point arithmetic on the fixed-point scale.

use rust_raytracer::vector_library::Vec3D;

/// One world unit on the fixed-point scale.
const FX: i64 = 65536;

fn fx(v: i64) -> i64 {
    v * FX
}

#[test]
fn scale() {
    // Arrange
    let v = Vec3D::new(fx(3), fx(4), fx(1));
    let k: i64 = 5 * FX / 2;

    // Act
    let kv = v.scale(k);

    // Assert
    assert_eq!(kv.x(), 15 * FX / 2);
    assert_eq!(kv.y(), fx(10));
    assert_eq!(kv.z(), 5 * FX / 2);
}

#[test]
fn plus() {
    // Arrange
    let v = Vec3D::new(fx(2), fx(1), fx(3));
    let u = Vec3D::new(fx(1), fx(5), fx(3));

    // Act
    let v_plus_u = v.plus(&u);

    // Assert
    assert_eq!(v_plus_u.x(), fx(3));
    assert_eq!(v_plus_u.y(), fx(6));
    assert_eq!(v_plus_u.z(), fx(6));
}

#[test]
fn minus() {
    // Arrange
    let v = Vec3D::new(fx(2), fx(1), fx(3));
    let u = Vec3D::new(fx(1), fx(5), fx(3));

    // Act
    let v_minus_u = v.minus(&u);

    // Assert
    assert_eq!(v_minus_u.x(), fx(1));
    assert_eq!(v_minus_u.y(), fx(-4));
    assert_eq!(v_minus_u.z(), fx(0));
}

#[test]
fn dot() {
    // Arrange
    let v = Vec3D::new(fx(2), fx(5), fx(3));
    let u = Vec3D::new(fx(1), fx(2), fx(3));

    // Act
    let dot = v.dot(&u);

    // Assert
    assert_eq!(dot, fx(2) + fx(10) + fx(9));
}

#[test]
fn dot_with_self() {
    // Arrange
    let v = Vec3D::new(fx(1), fx(2), fx(3));

    // Act
    let dot = v.dot(&v);

    // Assert
    assert_eq!(dot, fx(1 * 1) + fx(2 * 2) + fx(3 * 3));
}

#[test]
fn len_unit_vector() {
    // Arrange
    let v = Vec3D::new(fx(1), fx(0), fx(0));

    // Act
    let len = v.len();

    // Assert
    assert_eq!(len, fx(1));
}

#[test]
fn len() {
    // Arrange
    let v = Vec3D::new(fx(2), fx(6), fx(3));

    // Act
    let len = v.len();

    // Assert
    assert_eq!(len, fx(7));
}

#[test]
fn unit_of_axis_vector_is_exact() {
    let v = Vec3D::new(fx(0), fx(0), fx(-5));
    let u = v.unit();
    assert_eq!(u.x(), 0);
    assert_eq!(u.y(), 0);
    assert_eq!(u.z(), -FX);
}
