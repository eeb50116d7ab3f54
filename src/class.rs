//! Decisions of the USB class that carries the CMSIS-DAP interface: what it
//! registers, which control requests and string lookups it answers, and the
//! BOS capability that points the host at its descriptor set.
use vstd::prelude::*;

use crate::bytes::{le16, le32};
use crate::descriptor::{
    lemma_descriptor_set_length, ms_os_20_descriptor_set, DESCRIPTOR_SET_LENGTH, WINDOWS_VERSION,
};

verus! {

/// Interface class: vendor specific.
pub const USB_IF_CLASS_VENDOR: u8 = 0xff;

/// Interface subclass.
pub const USB_IF_SUBCLASS_VENDOR: u8 = 0x00;

/// Interface protocol: none.
pub const USB_IF_PROTOCOL_NONE: u8 = 0x00;

/// BOS device capability type of a platform capability.
pub const BOS_CAPABILITY_TYPE_PLATFORM: u8 = 0x05;

/// Vendor request code the host uses to fetch the descriptor set.
pub const MS_VENDOR_CODE: u8 = 0x01;

/// `wIndex` of the vendor request that fetches the descriptor set.
pub const MS_OS_20_DESCRIPTOR_INDEX: u16 = 7;

/// Human-readable name of the interface.
pub const INTERFACE_NAME: &'static str = "CMSIS-DAP interface";

/// Type of a control request, as its `bmRequestType` gives it.
#[derive(Clone, Copy, Debug, PartialEq, Eq, Structural)]
pub enum RequestKind {
    Standard,
    Class,
    Vendor,
    Reserved,
}

/// Whether a control IN request asks for the descriptor set.
pub open spec fn spec_is_descriptor_set_request(
    kind: RequestKind,
    request: u8,
    value: u16,
    index: u16,
) -> bool {
    kind == RequestKind::Vendor && request == MS_VENDOR_CODE && value == 0 && index
        == MS_OS_20_DESCRIPTOR_INDEX
}

/// Whether the class answers a control IN request: only the vendor request
/// for the descriptor set; any other is left to the rest of the device.
pub fn is_descriptor_set_request(kind: RequestKind, request: u8, value: u16, index: u16) -> (r:
    bool)
    ensures
        r == spec_is_descriptor_set_request(kind, request, value, index),
{
    kind == RequestKind::Vendor && request == MS_VENDOR_CODE && value == 0 && index
        == MS_OS_20_DESCRIPTOR_INDEX
}

/// The string for string index `index`, if it is the interface's own index
/// `own_index`; any other index is left to the rest of the device.
pub fn interface_string(own_index: u8, index: u8) -> (r: Option<&'static str>)
    ensures
        r == (if index == own_index {
            Some(INTERFACE_NAME)
        } else {
            None::<&str>
        }),
{
    if index == own_index {
        Some(INTERFACE_NAME)
    } else {
        None
    }
}

/// `{D8DD60DF-4589-4CC7-9CD2-659D9E648A9F}` as stored on the wire.
pub open spec fn ms_os_20_platform_id() -> Seq<u8> {
    seq![
        0xdfu8, 0x60, 0xdd, 0xd8, 0x89, 0x45, 0xc7, 0x4c,
        0x9c, 0xd2, 0x65, 0x9d, 0x9e, 0x64, 0x8a, 0x9f,
    ]
}

/// Data of the platform capability: a reserved byte, the platform ID, the
/// Windows version, the length of the descriptor set, the vendor code, and
/// no alternate enumeration.
pub open spec fn platform_capability_data() -> Seq<u8> {
    seq![0u8] + ms_os_20_platform_id() + le32(WINDOWS_VERSION) + le16(
        DESCRIPTOR_SET_LENGTH as u16,
    ) + seq![MS_VENDOR_CODE, 0u8]
}

/// The data of the BOS platform capability that announces the descriptor set.
pub fn platform_capability() -> (r: [u8; 25])
    ensures
        r@ == platform_capability_data(),
{
    let r = [
        0u8,
        0xdf, 0x60, 0xdd, 0xd8,
        0x89, 0x45, 0xc7, 0x4c,
        0x9c, 0xd2, 0x65, 0x9d,
        0x9e, 0x64, 0x8a, 0x9f,
        0x00, 0x00, 0x03, 0x06,
        174, 0,
        MS_VENDOR_CODE,
        0x00,
    ];
    assert(r@ =~= platform_capability_data());
    r
}

/// The capability announces the exact length of the descriptor set that the
/// vendor request then returns, whatever the interface number.
pub proof fn lemma_capability_announces_set_length(first_interface: u8)
    ensures
        platform_capability_data().subrange(21, 23) == le16(
            ms_os_20_descriptor_set(first_interface).len() as u16,
        ),
{
    lemma_descriptor_set_length(first_interface);
    assert(platform_capability_data().subrange(21, 23) =~= le16(
        ms_os_20_descriptor_set(first_interface).len() as u16,
    ));
}

} // verus!
