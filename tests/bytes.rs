use cmsis_dap::bytes::{u16_hi, u16_lo, u32_hi, u32_lo};

#[test]
fn byte_halves() {
    assert_eq!(u16_lo(0x1234), 0x34);
    assert_eq!(u16_hi(0x1234), 0x12);
    assert_eq!(u32_lo(0x0603_0000), 0x0000);
    assert_eq!(u32_hi(0x0603_0000), 0x0603);
    assert_eq!(u32_lo(0xdead_beef), 0xbeef);
    assert_eq!(u32_hi(0xdead_beef), 0xdead);
}
