use arkhe::octonion::{Octonion, OctonionLinear, Quaternion};
use arkhe::octonion_buf::{flat_to_octonions, octonions_to_flat};

fn unit(i: usize) -> Octonion<i64> {
    let mut a = [0i64; 8];
    a[i] = 1;
    Octonion::from_array(a)
}

#[test]
fn imaginary_units_multiply() {
    assert_eq!(unit(1) * unit(2), unit(3));
    assert_eq!(unit(2) * unit(1), -unit(3));
    assert_eq!(unit(1) * unit(4), -unit(5));
    assert_eq!(unit(4) * unit(1), unit(5));
    assert_eq!(unit(7) * unit(7), -unit(0));
}

#[test]
fn product_exact_value() {
    let x = Octonion::new(1i64, 2, 3, 4, 5, 6, 7, 8);
    let y = Octonion::new(8i64, -7, 6, -5, 4, -3, 2, -1);
    let p = x * y;
    assert_eq!(p.to_array(), [16, 32, 48, 64, 80, 96, 112, -76]);
    assert_eq!(p.norm_sq(), x.norm_sq() * y.norm_sq());
    assert_eq!(x.norm_sq(), 204);
}

#[test]
fn one_is_a_unit() {
    let x = Octonion::new(3i64, -1, 4, -1, 5, -9, 2, -6);
    let one = Octonion::from_real(1);
    assert_eq!(one * x, x);
    assert_eq!(x * one, x);
}

#[test]
fn conjugate_laws() {
    let x = Octonion::new(3i64, -1, 4, -1, 5, -9, 2, -6);
    let y = Octonion::new(-2i64, 7, 1, 8, -2, 8, 1, 8);
    assert_eq!(x.conj().conj(), x);
    assert_eq!(x.conj().norm_sq(), x.norm_sq());
    assert_eq!((x * y).conj(), y.conj() * x.conj());
    assert_eq!(x.conj().to_array(), [3, 1, -4, 1, -5, 9, -2, 6]);
    assert_eq!(x * x.conj(), Octonion::from_real(x.norm_sq()));
    assert_eq!(x.conj() * x, Octonion::from_real(x.norm_sq()));
    assert_eq!((x * y).norm_sq(), x.norm_sq() * y.norm_sq());
}

#[test]
fn add_sub_neg() {
    let x = Octonion::new(1i64, 2, 3, 4, 5, 6, 7, 8);
    let y = Octonion::new(8i64, 7, 6, 5, 4, 3, 2, 1);
    assert_eq!((x + y).to_array(), [9; 8]);
    assert_eq!((x - y).to_array(), [-7, -5, -3, -1, 1, 3, 5, 7]);
    assert_eq!(x - y, x + (-y));
    assert_eq!(x + (-x), Octonion::default());
}

#[test]
fn array_roundtrip() {
    let a = [1i64, -2, 3, -4, 5, -6, 7, -8];
    assert_eq!(Octonion::from_array(a).to_array(), a);
    let x = Octonion::new(1u8, 2, 3, 4, 5, 6, 7, 8);
    assert_eq!(Octonion::from_array(x.to_array()), x);
}

#[test]
fn display_form() {
    let x = Octonion::new(1i64, -2, 0, 3, 0, 0, 0, i64::MIN);
    assert_eq!(
        x.to_string(),
        "(1 + -2e1 + 0e2 + 3e3 + 0e4 + 0e5 + 0e6 + -9223372036854775808e7)"
    );
}

#[test]
fn quaternion_conversions() {
    let x = Octonion::new(1i64, 2, 3, 4, 5, 6, 7, 8);
    let q: Quaternion<i64> = x.into();
    assert_eq!(q, Quaternion { w: 1, x: 2, y: 3, z: 4 });
    let back: Octonion<i64> = q.into();
    assert_eq!(back.to_array(), [1, 2, 3, 4, 0, 0, 0, 0]);
}

#[test]
fn linear_layer_forward() {
    let layer = OctonionLinear {
        weights: vec![unit(1), Octonion::from_real(2)],
        bias: Octonion::from_real(10),
    };
    let input = vec![unit(2), Octonion::from_real(3), Octonion::from_real(4)];
    let out = layer.forward(&input);
    assert_eq!(out.len(), 2);
    assert_eq!(out[0], unit(3) + Octonion::from_real(10));
    assert_eq!(out[1], Octonion::from_real(16));
}

#[test]
fn flat_roundtrip_and_errors() {
    let octs = vec![Octonion::new(1i64, 2, 3, 4, 5, 6, 7, 8), unit(3)];
    let flat = octonions_to_flat(&octs);
    assert_eq!(flat.len(), 16);
    assert_eq!(&flat[..8], &[1, 2, 3, 4, 5, 6, 7, 8]);
    assert_eq!(flat_to_octonions(&flat).unwrap(), octs);
    let short: Vec<i64> = vec![0; 12];
    assert_eq!(
        flat_to_octonions(&short).unwrap_err(),
        "flat buffer length 12 is not a multiple of 8"
    );
    let floats = vec![0.5f32; 8];
    let o = flat_to_octonions(&floats).unwrap();
    assert_eq!(o[0].e7, 0.5);
}
