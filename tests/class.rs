use cmsis_dap::class::{
    interface_string, is_descriptor_set_request, platform_capability, RequestKind,
    INTERFACE_NAME, MS_VENDOR_CODE,
};

#[test]
fn descriptor_set_request_is_recognised() {
    assert!(is_descriptor_set_request(RequestKind::Vendor, MS_VENDOR_CODE, 0, 7));
}

#[test]
fn other_control_requests_are_left_alone() {
    assert!(!is_descriptor_set_request(RequestKind::Standard, MS_VENDOR_CODE, 0, 7));
    assert!(!is_descriptor_set_request(RequestKind::Class, MS_VENDOR_CODE, 0, 7));
    assert!(!is_descriptor_set_request(RequestKind::Vendor, 0x02, 0, 7));
    assert!(!is_descriptor_set_request(RequestKind::Vendor, MS_VENDOR_CODE, 1, 7));
    assert!(!is_descriptor_set_request(RequestKind::Vendor, MS_VENDOR_CODE, 0, 6));
}

#[test]
fn interface_string_only_for_own_index() {
    assert_eq!(interface_string(4, 4), Some("CMSIS-DAP interface"));
    assert_eq!(INTERFACE_NAME, "CMSIS-DAP interface");
    assert_eq!(interface_string(4, 5), None);
}

#[test]
fn platform_capability_bytes() {
    assert_eq!(
        platform_capability(),
        [
            0, 0xdf, 0x60, 0xdd, 0xd8, 0x89, 0x45, 0xc7, 0x4c, 0x9c, 0xd2, 0x65, 0x9d, 0x9e,
            0x64, 0x8a, 0x9f, 0x00, 0x00, 0x03, 0x06, 174, 0, 0x01, 0x00,
        ]
    );
}
