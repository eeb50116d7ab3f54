use cmsis_dap::descriptor::{
    compose_descriptor_set, fill_utf16, write_compatible_id, write_descriptor_set,
    write_registry_property, ComposeError, RegPropertyType, DESCRIPTOR_SET_LENGTH,
    WINDOWS_VERSION,
};

const GOLDEN: [u8; 174] = [
    0x0a, 0x00, 0x00, 0x00, 0x00, 0x00, 0x03, 0x06, 0xae, 0x00, 0x08, 0x00,
    0x01, 0x00, 0x00, 0x00, 0xa4, 0x00, 0x08, 0x00, 0x02, 0x00, 0x00, 0x00,
    0x9c, 0x00, 0x14, 0x00, 0x03, 0x00, 0x57, 0x49, 0x4e, 0x55, 0x53, 0x42,
    0x00, 0x00, 0x00, 0x00, 0x00, 0x00, 0x00, 0x00, 0x00, 0x00, 0x80, 0x00,
    0x04, 0x00, 0x01, 0x00, 0x28, 0x00, 0x44, 0x00, 0x65, 0x00, 0x76, 0x00,
    0x69, 0x00, 0x63, 0x00, 0x65, 0x00, 0x49, 0x00, 0x6e, 0x00, 0x74, 0x00,
    0x65, 0x00, 0x72, 0x00, 0x66, 0x00, 0x61, 0x00, 0x63, 0x00, 0x65, 0x00,
    0x47, 0x00, 0x55, 0x00, 0x49, 0x00, 0x44, 0x00, 0x00, 0x00, 0x4e, 0x00,
    0x7b, 0x00, 0x41, 0x00, 0x35, 0x00, 0x44, 0x00, 0x43, 0x00, 0x42, 0x00,
    0x46, 0x00, 0x31, 0x00, 0x30, 0x00, 0x2d, 0x00, 0x36, 0x00, 0x35, 0x00,
    0x33, 0x00, 0x30, 0x00, 0x2d, 0x00, 0x31, 0x00, 0x31, 0x00, 0x44, 0x00,
    0x32, 0x00, 0x2d, 0x00, 0x39, 0x00, 0x30, 0x00, 0x31, 0x00, 0x46, 0x00,
    0x2d, 0x00, 0x30, 0x00, 0x30, 0x00, 0x43, 0x00, 0x30, 0x00, 0x34, 0x00,
    0x46, 0x00, 0x42, 0x00, 0x39, 0x00, 0x35, 0x00, 0x31, 0x00, 0x45, 0x00,
    0x44, 0x00, 0x7d, 0x00, 0x00, 0x00,
];

fn failing_record_offset(len: usize) -> usize {
    if len < 10 {
        0
    } else if len < 18 {
        10
    } else if len < 26 {
        18
    } else if len < 46 {
        26
    } else {
        46
    }
}

#[test]
fn compose_matches_golden_bytes() {
    let mut buf = [0u8; 174];
    assert_eq!(compose_descriptor_set(&mut buf, 0), Ok(174));
    assert_eq!(buf, GOLDEN);
    assert_eq!(DESCRIPTOR_SET_LENGTH, 174);
}

#[test]
fn compose_is_deterministic() {
    let mut a = [0x11u8; 174];
    let mut b = [0x22u8; 174];
    assert_eq!(compose_descriptor_set(&mut a, 5), Ok(174));
    assert_eq!(compose_descriptor_set(&mut b, 5), Ok(174));
    assert_eq!(a, b);
}

#[test]
fn compose_leaves_rest_of_buffer_alone() {
    let mut buf = [0xaau8; 200];
    assert_eq!(compose_descriptor_set(&mut buf, 0), Ok(174));
    assert_eq!(&buf[..174], &GOLDEN[..]);
    assert!(buf[174..].iter().all(|&b| b == 0xaa));
}

#[test]
fn compose_writes_interface_number_in_function_subset() {
    let mut buf = [0u8; 256];
    assert_eq!(compose_descriptor_set(&mut buf, 3), Ok(174));
    assert_eq!(buf[22], 3);
    let mut expected = GOLDEN;
    expected[22] = 3;
    assert_eq!(&buf[..174], &expected[..]);
}

#[test]
fn compose_fails_on_every_short_buffer() {
    for len in 0..174usize {
        let mut buf = vec![0xaau8; len];
        assert_eq!(
            compose_descriptor_set(&mut buf, 0),
            Err(ComposeError::BufferOverflow),
            "length {}",
            len
        );
        let fail = failing_record_offset(len);
        assert!(buf[fail..].iter().all(|&b| b == 0xaa), "length {}", len);
    }
}

#[test]
fn compose_fails_in_registry_property() {
    let mut buf = vec![0xaau8; 173];
    assert_eq!(compose_descriptor_set(&mut buf, 0), Err(ComposeError::BufferOverflow));
    assert_eq!(&buf[..8], &GOLDEN[..8]);
    assert_eq!(&buf[26..46], &GOLDEN[26..46]);
    assert!(buf[46..].iter().all(|&b| b == 0xaa));
    // No enclosing length field was filled in.
    assert_eq!(&buf[8..10], &[0xaa, 0xaa]);
    assert_eq!(&buf[16..18], &[0xaa, 0xaa]);
    assert_eq!(&buf[24..26], &[0xaa, 0xaa]);
}

#[test]
fn descriptor_set_with_other_windows_version() {
    let mut buf = [0u8; 174];
    assert_eq!(write_descriptor_set(&mut buf, 0x0a00_0001, 0), Ok(174));
    assert_eq!(&buf[4..8], &[0x01, 0x00, 0x00, 0x0a]);
    assert_eq!(WINDOWS_VERSION, 0x0603_0000);
}

#[test]
fn fill_utf16_widens_ascii() {
    let mut buf = [0xffu8; 8];
    fill_utf16(&mut buf, 1, b"ab\0");
    assert_eq!(buf, [0xff, b'a', 0, b'b', 0, 0, 0, 0xff]);
}

#[test]
fn compatible_id_record() {
    let mut buf = [0xeeu8; 22];
    let r = write_compatible_id(&mut buf, 2, b"WINUSB\0\0", &[0u8; 8]);
    assert_eq!(r, Ok(20));
    assert_eq!(&buf[..2], &[0xee, 0xee]);
    assert_eq!(&buf[2..6], &[20, 0, 3, 0]);
    assert_eq!(&buf[6..14], b"WINUSB\0\0");
    assert_eq!(&buf[14..22], &[0u8; 8]);
}

#[test]
fn compatible_id_overflow_writes_nothing() {
    let mut buf = [0xeeu8; 21];
    let r = write_compatible_id(&mut buf, 2, b"WINUSB\0\0", &[0u8; 8]);
    assert_eq!(r, Err(ComposeError::BufferOverflow));
    assert_eq!(buf, [0xeeu8; 21]);
}

#[test]
fn registry_property_record() {
    let mut buf = [0u8; 20];
    let r = write_registry_property(&mut buf, 0, b"N\0", RegPropertyType::DwordBigEndian, b"v");
    assert_eq!(r, Ok(16));
    assert_eq!(
        &buf[..16],
        &[16, 0, 4, 0, 5, 0, 4, 0, b'N', 0, 0, 0, 2, 0, b'v', 0]
    );
}

#[test]
fn registry_property_overflow_writes_nothing() {
    let mut buf = [0x5au8; 15];
    let r = write_registry_property(&mut buf, 0, b"N\0", RegPropertyType::String, b"v");
    assert_eq!(r, Err(ComposeError::BufferOverflow));
    assert_eq!(buf, [0x5au8; 15]);
}

#[test]
fn registry_property_type_codes() {
    assert_eq!(RegPropertyType::Reserved.code(), 0);
    assert_eq!(RegPropertyType::String.code(), 1);
    assert_eq!(RegPropertyType::ExpandString.code(), 2);
    assert_eq!(RegPropertyType::Binary.code(), 3);
    assert_eq!(RegPropertyType::DwordLittleEndian.code(), 4);
    assert_eq!(RegPropertyType::DwordBigEndian.code(), 5);
    assert_eq!(RegPropertyType::Link.code(), 6);
    assert_eq!(RegPropertyType::MultiString.code(), 7);
}
