use ruscv_sim::fpu::d_register::Dpr;
#[test]
fn test_dpr_bits() {
    let value: f64 = std::f64::consts::E;
    let dpr = Dpr::from_bits(value.to_bits());
    assert_eq!(dpr.bits(), value.to_bits());
}

#[test]
fn test_dpr_quiet_nan() {
    let nan = Dpr::canonical_nan();
    assert!(nan.is_quiet_nan());
}

#[test]
fn test_dpr_signaling_nan() {
    // Signaling NaN - MSB of significand clear
    let signaling_nan = Dpr::from_bits(0x7FF0_0000_0000_0001u64);
    assert!(signaling_nan.is_signaling_nan());
}

#[test]
fn test_dpr_default() {
    let dpr = Dpr::default();
    assert_eq!(dpr.bits(), 0);
}

#[test]
fn test_dpr_clone_copy() {
    let dpr1 = Dpr::from_bits(42.0f64.to_bits());
    let dpr2 = dpr1; // Copy
    #[allow(clippy::clone_on_copy)]
    let dpr3 = dpr1.clone(); // Intentionally testing clone
    assert_eq!(dpr1.bits(), dpr2.bits());
    assert_eq!(dpr1.bits(), dpr3.bits());
}

#[test]
fn test_dpr_new() {
    let value: f64 = std::f64::consts::PI;
    let dpr = Dpr::from_bits(value.to_bits());
    assert!((f64::from_bits(dpr.bits()) - value).abs() < 1e-10);
}

#[test]
fn test_dpr_from_bits() {
    let raw_bits: u64 = std::f64::consts::PI.to_bits();
    let dpr = Dpr::from_bits(raw_bits);
    assert_eq!(f64::from_bits(dpr.bits()), std::f64::consts::PI);
}

#[test]
fn test_dpr_canonical_nan() {
    let nan = Dpr::canonical_nan();
    assert!(f64::from_bits(nan.bits()).is_nan());
}

#[test]
fn test_dpr_default_nan() {
    let nan = Dpr::default_nan();
    assert!(f64::from_bits(nan.bits()).is_nan());
}

#[test]
fn test_dpr_special_values() {
    // Positive zero
    let pos_zero = Dpr::from_bits(0.0f64.to_bits());
    assert!(pos_zero.is_positive_zero());

    // Negative zero
    let neg_zero = Dpr::from_bits((-0.0f64).to_bits());
    assert!(neg_zero.is_negative_zero());

    // Infinity
    let inf = Dpr::from_bits(f64::INFINITY.to_bits());
    assert_eq!(f64::from_bits(inf.bits()), f64::INFINITY);

    // Negative infinity
    let neg_inf = Dpr::from_bits(f64::NEG_INFINITY.to_bits());
    assert_eq!(f64::from_bits(neg_inf.bits()), f64::NEG_INFINITY);

    // NaN
    let nan = Dpr::from_bits(f64::NAN.to_bits());
    assert!(f64::from_bits(nan.bits()).is_nan());
}

#[test]
fn test_dpr_debug() {
    let dpr = Dpr::from_bits(1.0f64.to_bits());
    let debug_str = dpr.debug_text();
    assert!(debug_str.contains("0x"));
    assert_eq!(debug_str, "0x3ff0000000000000");
}

#[test]
fn quiet_and_signaling_nans_are_told_apart() {
    let s = Dpr::from_bits(0x7FF0_0000_0000_0001u64);
    let q = Dpr::canonical_nan();
    assert!(!s.is_quiet_nan());
    assert!(s.is_signaling_nan());
    assert!(q.is_quiet_nan());
    assert!(!q.is_signaling_nan());
    assert!(!Dpr::from_bits(1.0f64.to_bits()).is_quiet_nan());
}
