use ruscv_sim::fpu::nan_boxing::format_nan_boxed;
use ruscv_sim::fpu::nan_boxing::NAN_BOX_MASK;
use ruscv_sim::fpu::nan_boxing::NAN_BOX_UPPER;
use ruscv_sim::fpu::nan_boxing::NanBoxingResult;
use ruscv_sim::fpu::nan_boxing::canonical_nan_f32;
use ruscv_sim::fpu::nan_boxing::canonical_nan_f64;
use ruscv_sim::fpu::nan_boxing::default_nan;
use ruscv_sim::fpu::nan_boxing::is_double_precision;
use ruscv_sim::fpu::nan_boxing::is_invalid_boxed_value;
use ruscv_sim::fpu::nan_boxing::is_nan_boxed;
use ruscv_sim::fpu::nan_boxing::validate_nan_boxing;
#[test]
fn test_is_nan_boxed_valid() {
    // Valid NaN boxed value
    let valid = NAN_BOX_MASK | 0x12345678u64;
    assert!(is_nan_boxed(valid));
}

#[test]
fn test_is_nan_boxed_invalid() {
    // Invalid - upper bits not all 1s
    let invalid = 0x1234_5678_ABAB_ABABu64;
    assert!(!is_nan_boxed(invalid));
}

#[test]
fn test_is_double_precision_normal() {
    // Normal double
    let normal = std::f64::consts::PI.to_bits();
    assert!(is_double_precision(normal));
}

#[test]
fn test_is_double_precision_nan() {
    // Double NaN - exponent is 0x7FF, significand != 0
    let nan = f64::NAN.to_bits();
    assert!(!is_double_precision(nan));
}

#[test]
fn test_is_double_precision_infinity() {
    // Double infinity - exponent is 0x7FF, significand = 0
    let inf = f64::INFINITY.to_bits();
    assert!(is_double_precision(inf));
}

#[test]
fn test_is_double_precision_zero() {
    // Double zero - exponent = 0, significand = 0
    let zero = 0u64;
    assert!(!is_double_precision(zero));
}









#[test]
fn test_validate_nan_boxing_double() {
    let double = std::f64::consts::PI.to_bits();
    assert_eq!(
        validate_nan_boxing(double),
        NanBoxingResult::DoublePrecision
    );
}

#[test]
fn test_validate_nan_boxing_invalid() {
    // A value that is neither NaN-boxed nor a valid double precision normal/infinity
    // This is a subnormal double (exponent = 0, significand != 0) that isn't NaN-boxed
    // Note: Many bit patterns can be valid doubles, so we need to pick carefully
    // 0x0000_0000_0000_0001 is a subnormal with exp=0, which is_double_precision returns false for
    // But that's still a valid f64 representation (denormalized)
    // The "Invalid" category is for values that should have been NaN-boxed but aren't
    // In practice, the upper bits being neither all-1s (NaN-boxed) nor forming a valid double
    // For testing purposes, we pick a pattern that our is_double_precision() rejects
    let subnormal = 0x0000_0000_ABAB_ABABu64; // exponent = 0, not NaN-boxed
    assert_eq!(validate_nan_boxing(subnormal), NanBoxingResult::Invalid);
}

#[test]
fn test_validate_quiet_nan() {
    // Canonical quiet NaN (double)
    let quiet_nan = 0x7FF8_0000_0000_0000u64;
    assert_eq!(validate_nan_boxing(quiet_nan), NanBoxingResult::QuietNan);
}

#[test]
fn test_validate_signaling_nan() {
    // Signaling NaN (double) - MSB of significand clear
    let signaling_nan = 0x7FF0_0000_0000_0001u64;
    assert_eq!(
        validate_nan_boxing(signaling_nan),
        NanBoxingResult::SignalingNan
    );
}

#[test]
fn test_canonical_nan_f32() {
    let nan = canonical_nan_f32();
    assert!(is_nan_boxed(nan));
    let f32_val = f32::from_bits(nan as u32);
    assert!(f32_val.is_nan());
}

#[test]
fn test_canonical_nan_f64() {
    let nan = canonical_nan_f64();
    let f64_val = f64::from_bits(nan);
    assert!(f64_val.is_nan());
}







#[test]
fn test_is_invalid_boxed_value_valid_double() {
    // Valid double
    assert!(!is_invalid_boxed_value(std::f64::consts::PI.to_bits()));
}



#[test]
fn test_is_invalid_boxed_value_invalid() {
    // Invalid - subnormal double that isn't NaN boxed
    // exponent = 0, significand != 0, and not NaN-boxed (upper bits not all 1s)
    assert!(is_invalid_boxed_value(0x0000_0000_ABAB_ABABu64));
}

#[test]
fn test_default_nan_f32() {
    let nan = default_nan(false);
    assert!(is_nan_boxed(nan));
    assert!(f32::from_bits(nan as u32).is_nan());
}

#[test]
fn test_default_nan_f64() {
    let nan = default_nan(true);
    assert!(f64::from_bits(nan).is_nan());
}



#[test]
fn test_format_nan_boxed_double() {
    let double = std::f64::consts::PI.to_bits();
    let output = format_nan_boxed(double);
    assert!(output.contains("double precision"));
}

#[test]
fn test_format_nan_boxed_invalid() {
    // Subnormal double that isn't NaN-boxed
    let invalid = 0x0000_0000_ABAB_ABABu64;
    let output = format_nan_boxed(invalid);
    assert!(output.contains("INVALID"));
}

#[test]
fn test_format_nan_boxed_quiet_nan() {
    let quiet_nan = 0x7FF8_0000_0000_0000u64;
    let output = format_nan_boxed(quiet_nan);
    assert!(output.contains("quiet NaN"));
}

#[test]
fn test_format_nan_boxed_signaling_nan() {
    let signaling_nan = 0x7FF0_0000_0000_0001u64;
    let output = format_nan_boxed(signaling_nan);
    assert!(output.contains("signaling NaN"));
}





#[test]
fn test_constants() {
    // Verify NaN boxing constants
    assert_eq!(NAN_BOX_MASK, 0xFFFF_FFFF_0000_0000u64);
    assert_eq!(NAN_BOX_UPPER, 0xFFFF_FFFFu64);
}

fn nan_box_f32(value: f32) -> u64 {
    NAN_BOX_MASK | value.to_bits() as u64
}

#[test]
fn test_validate_nan_boxing_valid() {
    let valid = nan_box_f32(1.0f32);
    assert_eq!(validate_nan_boxing(valid), NanBoxingResult::Valid);
}

#[test]
fn test_is_invalid_boxed_value_valid_nan_boxed() {
    // Valid NaN boxed
    assert!(!is_invalid_boxed_value(nan_box_f32(1.0f32)));
}

#[test]
fn test_format_nan_boxed_valid() {
    let valid = nan_box_f32(1.0f32);
    let output = format_nan_boxed(valid);
    assert!(output.contains("valid NaN-boxed"));
}
