use ruscv_sim::fpu::Fpr;
use ruscv_sim::fpu::FpuRegisterFile;
use ruscv_sim::fpu::effective_operand;
#[test]
fn test_fpr_from_bits() {
    let bits = 0xFFFF_FFFF_4048_F5C3u64; // NaN-boxed ~3.14
    let fpr = Fpr::from_bits(bits);
    assert!(fpr.is_nan_boxed());
}

#[test]
fn test_fpr_bits() {
    let fpr = Fpr::boxed(1.0f32.to_bits());
    let bits = fpr.bits();
    assert!((bits >> 32) == 0xFFFF_FFFF);
}

#[test]
fn test_fpr_lower() {
    let fpr = Fpr::boxed(1.0f32.to_bits());
    let lower = fpr.lower();
    assert_eq!(lower, 1.0f32.to_bits());
}

#[test]
fn test_fpr_default() {
    let fpr = Fpr::default();
    assert!(fpr.is_nan_boxed());
}

#[test]
fn test_fpu_register_file_new() {
    let frf = FpuRegisterFile::new();
    let val = frf.read(1);
    assert!(val.is_nan_boxed());
}

#[test]
fn test_fpu_register_file_write_u32_f0() {
    let mut frf = FpuRegisterFile::new();
    frf.write_u32(0, 0x3F800000u32);
    let val = frf.read_u32(0);
    assert_eq!(val, 0u32); // f0 is hardwired to 0
}

#[test]
fn test_fpu_register_file_read_u32() {
    let mut frf = FpuRegisterFile::new();
    frf.write(3, Fpr::boxed(2.0f32.to_bits()));
    let val = frf.read_u32(3);
    assert_eq!(val, 2.0f32.to_bits());
}

#[test]
fn test_fpu_register_file_is_valid_reg() {
    assert!(FpuRegisterFile::is_valid_reg(0));
    assert!(FpuRegisterFile::is_valid_reg(31));
    assert!(!FpuRegisterFile::is_valid_reg(32));
}

#[test]
fn test_fpu_register_file_default() {
    let frf = FpuRegisterFile::default();
    let val = frf.read(1);
    assert!(val.is_nan_boxed());
}

#[test]
fn test_effective_operand_subtract() {
    // The effective_operand flips the sign bit at bit 63 (for 64-bit representation)
    // For NaN-boxed f32, this doesn't affect the 32-bit value
    // Let's test with a 64-bit double interpretation instead
    let fpr = Fpr::from_bits(1.0f64.to_bits()); // Store as f64 bits
    let result = effective_operand(fpr, true);
    // The sign bit at position 63 should be flipped
    let result_f64 = f64::from_bits(result.bits());
    assert!((result_f64 - (-1.0f64)).abs() < 1e-10);
}

#[test]
fn test_fpr_new() {
    let fpr = Fpr::boxed(std::f32::consts::PI.to_bits());
    assert!((f32::from_bits(fpr.lower()) - std::f32::consts::PI).abs() < 1e-5);
}

#[test]
fn test_fpr_canonical_nan() {
    let nan = Fpr::canonical_nan();
    assert!(f32::from_bits(nan.lower()).is_nan());
    assert!(nan.is_nan_boxed());
}

#[test]
fn test_fpr_default_nan() {
    let nan = Fpr::default_nan();
    assert!(f32::from_bits(nan.lower()).is_nan());
}

#[test]
fn test_fpu_register_file_reset() {
    let mut frf = FpuRegisterFile::new();
    frf.write(5, Fpr::boxed(42.0f32.to_bits()));
    frf.reset();
    let val = frf.read(5);
    assert_eq!(f32::from_bits(val.lower()), 0.0f32);
}

#[test]
fn test_fpu_register_file_read_write() {
    let mut frf = FpuRegisterFile::new();
    frf.write(10, Fpr::boxed(std::f32::consts::PI.to_bits()));
    let val = frf.read(10);
    assert!((f32::from_bits(val.lower()) - std::f32::consts::PI).abs() < 1e-5);
}

#[test]
fn test_fpu_register_file_f0_hardwired() {
    let mut frf = FpuRegisterFile::new();
    frf.write(0, Fpr::boxed(42.0f32.to_bits()));
    let val = frf.read(0);
    assert_eq!(f32::from_bits(val.lower()), 0.0f32); // f0 should still be 0
}

#[test]
fn test_fpu_register_file_write_u32() {
    let mut frf = FpuRegisterFile::new();
    frf.write_u32(5, 0x3F800000u32); // 1.0 in IEEE 754
    let val = frf.read(5);
    assert!(val.is_nan_boxed());
    assert!((f32::from_bits(val.lower()) - 1.0f32).abs() < 1e-10);
}

#[test]
fn test_fpu_register_file_reg_masking() {
    let mut frf = FpuRegisterFile::new();
    // Register numbers should be masked to 0-31
    frf.write(35, Fpr::boxed(5.0f32.to_bits())); // 35 & 0x1F = 3
    let val = frf.read(3);
    assert!((f32::from_bits(val.lower()) - 5.0f32).abs() < 1e-5);
}

#[test]
fn test_effective_operand_no_subtract() {
    let fpr = Fpr::boxed(1.0f32.to_bits());
    let result = effective_operand(fpr, false);
    assert!((f32::from_bits(result.lower()) - 1.0f32).abs() < 1e-10);
}

#[test]
fn test_effective_operand_subtract_boxed_single_keeps_low_word() {
    let fpr = Fpr::boxed(1.5f32.to_bits());
    let result = effective_operand(fpr, true);
    assert_eq!(result.bits(), 0x7FFF_FFFF_3FC0_0000);
    assert_eq!(result.lower(), 1.5f32.to_bits());
}

#[test]
fn test_fpu_register_file_write_then_read_other_untouched() {
    let mut frf = FpuRegisterFile::new();
    frf.write_u32(7, 0xDEAD_BEEF);
    assert_eq!(frf.read(7).bits(), 0xFFFF_FFFF_DEAD_BEEF);
    assert_eq!(frf.read(8).bits(), 0xFFFF_FFFF_0000_0000);
    assert_eq!(frf.read_u32(39), 0xDEAD_BEEF);
}

#[test]
fn test_fpr_debug() {
    let fpr = Fpr::boxed(1.0f32.to_bits());
    let debug_str = fpr.debug_text();
    assert!(debug_str.contains("0x"));
    assert_eq!(debug_str, "0xffffffff3f800000");
}
