//! Microsoft OS 2.0 descriptor set and the BOS platform capability that
//! announces it.
//!
//! Every record is `{length: u16, type: u16, payload}` in little-endian order.
//! A container writes its fixed header, lets its children write after it, and
//! fills in its total length once the children have reported their sizes.
use vstd::prelude::*;

use crate::bytes::{
    le16, le32, lemma_written_then_written, put_bytes, put_le16, u32_hi, u32_lo, written,
};

verus! {

/// Type code of the descriptor set header.
pub const MS_OS_20_SET_HEADER_DESCRIPTOR: u16 = 0x0000;

/// Type code of a configuration subset header.
pub const MS_OS_20_SUBSET_HEADER_CONFIGURATION: u16 = 0x0001;

/// Type code of a function subset header.
pub const MS_OS_20_SUBSET_HEADER_FUNCTION: u16 = 0x0002;

/// Type code of a compatible-ID feature descriptor.
pub const MS_OS_20_FEATURE_COMPATIBLE_ID: u16 = 0x0003;

/// Type code of a registry-property feature descriptor.
pub const MS_OS_20_FEATURE_REG_PROPERTY: u16 = 0x0004;

/// Windows version the descriptor set targets (Windows 8.1 and later).
pub const WINDOWS_VERSION: u32 = 0x0603_0000;

/// Length of the descriptor set header.
pub const SET_HEADER_LENGTH: usize = 10;

/// Length of a configuration or function subset header.
pub const SUBSET_HEADER_LENGTH: usize = 8;

/// Length of a compatible-ID feature descriptor.
pub const COMPATIBLE_ID_LENGTH: usize = 20;

/// Length of the whole descriptor set this device hands out.
pub const DESCRIPTOR_SET_LENGTH: usize = 174;

/// A record did not fit in what was left of the destination buffer.
#[derive(Clone, Copy, Debug, PartialEq, Eq, Structural)]
pub enum ComposeError {
    BufferOverflow,
}

/// Value type of a registry property.
#[derive(Clone, Copy, Debug, PartialEq, Eq, Structural)]
pub enum RegPropertyType {
    Reserved,
    String,
    ExpandString,
    Binary,
    DwordLittleEndian,
    DwordBigEndian,
    Link,
    MultiString,
}

impl RegPropertyType {
    pub open spec fn spec_code(self) -> u16 {
        match self {
            RegPropertyType::Reserved => 0,
            RegPropertyType::String => 1,
            RegPropertyType::ExpandString => 2,
            RegPropertyType::Binary => 3,
            RegPropertyType::DwordLittleEndian => 4,
            RegPropertyType::DwordBigEndian => 5,
            RegPropertyType::Link => 6,
            RegPropertyType::MultiString => 7,
        }
    }

    /// The wire value of the property type.
    pub fn code(self) -> (r: u16)
        ensures
            r == self.spec_code(),
    {
        match self {
            RegPropertyType::Reserved => 0,
            RegPropertyType::String => 1,
            RegPropertyType::ExpandString => 2,
            RegPropertyType::Binary => 3,
            RegPropertyType::DwordLittleEndian => 4,
            RegPropertyType::DwordBigEndian => 5,
            RegPropertyType::Link => 6,
            RegPropertyType::MultiString => 7,
        }
    }
}

/// ASCII text widened to UTF-16LE: a zero high byte after every byte.
pub open spec fn utf16_of(s: Seq<u8>) -> Seq<u8> {
    Seq::new(2 * s.len(), |i: int| if i % 2 == 0 { s[i / 2] } else { 0u8 })
}

/// Compatible-ID feature descriptor.
pub open spec fn compatible_id_feature(id: Seq<u8>, sub_id: Seq<u8>) -> Seq<u8> {
    le16(20) + le16(MS_OS_20_FEATURE_COMPATIBLE_ID) + id + sub_id
}

/// Registry-property feature descriptor; `name` and `data` are already encoded.
pub open spec fn registry_property_feature(name: Seq<u8>, ty: u16, data: Seq<u8>) -> Seq<u8> {
    le16((name.len() + data.len() + 10) as u16) + le16(MS_OS_20_FEATURE_REG_PROPERTY) + le16(ty)
        + le16(name.len() as u16) + name + le16(data.len() as u16) + data
}

/// Function subset header followed by its features.
pub open spec fn function_subset(first_interface: u8, body: Seq<u8>) -> Seq<u8> {
    le16(8) + le16(MS_OS_20_SUBSET_HEADER_FUNCTION) + seq![first_interface, 0u8] + le16(
        (body.len() + 8) as u16,
    ) + body
}

/// Configuration subset header (configuration 0) followed by its functions.
pub open spec fn configuration_subset(body: Seq<u8>) -> Seq<u8> {
    le16(8) + le16(MS_OS_20_SUBSET_HEADER_CONFIGURATION) + seq![0u8, 0u8] + le16(
        (body.len() + 8) as u16,
    ) + body
}

/// Descriptor set header followed by its configuration subsets.
pub open spec fn descriptor_set(windows_version: u32, body: Seq<u8>) -> Seq<u8> {
    le16(10) + le16(MS_OS_20_SET_HEADER_DESCRIPTOR) + le32(windows_version) + le16(
        (body.len() + 10) as u16,
    ) + body
}

/// `"WINUSB\0\0"`.
pub open spec fn winusb_id() -> Seq<u8> {
    seq![0x57u8, 0x49, 0x4e, 0x55, 0x53, 0x42, 0x00, 0x00]
}

/// `"DeviceInterfaceGUID\0"`.
pub open spec fn property_name_text() -> Seq<u8> {
    seq![
        0x44u8, 0x65, 0x76, 0x69, 0x63, 0x65, 0x49, 0x6e, 0x74, 0x65,
        0x72, 0x66, 0x61, 0x63, 0x65, 0x47, 0x55, 0x49, 0x44, 0x00,
    ]
}

/// `"{A5DCBF10-6530-11D2-901F-00C04FB951ED}\0"`, the USB device interface class.
pub open spec fn property_data_text() -> Seq<u8> {
    seq![
        0x7bu8, 0x41, 0x35, 0x44, 0x43, 0x42, 0x46, 0x31, 0x30, 0x2d,
        0x36, 0x35, 0x33, 0x30, 0x2d, 0x31, 0x31, 0x44, 0x32, 0x2d,
        0x39, 0x30, 0x31, 0x46, 0x2d, 0x30, 0x30, 0x43, 0x30, 0x34,
        0x46, 0x42, 0x39, 0x35, 0x31, 0x45, 0x44, 0x7d, 0x00,
    ]
}

/// The two features of the debug interface: WinUSB as compatible ID, and
/// the device interface GUID as a string registry property.
pub open spec fn interface_features() -> Seq<u8> {
    compatible_id_feature(winusb_id(), Seq::new(8, |i: int| 0u8)) + registry_property_feature(
        utf16_of(property_name_text()),
        RegPropertyType::String.spec_code(),
        utf16_of(property_data_text()),
    )
}

/// The whole Microsoft OS 2.0 descriptor set for the interface numbered
/// `first_interface`.
pub open spec fn ms_os_20_descriptor_set(first_interface: u8) -> Seq<u8> {
    descriptor_set(
        WINDOWS_VERSION,
        configuration_subset(function_subset(first_interface, interface_features())),
    )
}

/// Offset, within the features, of the record that does not fit in `avail` bytes.
pub open spec fn features_failure_offset(avail: int) -> int {
    if avail < 20 {
        0
    } else {
        20
    }
}

/// Offset, within a function subset, of the record that does not fit in `avail` bytes.
pub open spec fn function_failure_offset(avail: int) -> int {
    if avail < 8 {
        0
    } else {
        8 + features_failure_offset(avail - 8)
    }
}

/// Offset, within a configuration subset, of the record that does not fit in `avail` bytes.
pub open spec fn configuration_failure_offset(avail: int) -> int {
    if avail < 8 {
        0
    } else {
        8 + function_failure_offset(avail - 8)
    }
}

/// Offset, within the descriptor set, of the record that does not fit in `avail` bytes.
pub open spec fn set_failure_offset(avail: int) -> int {
    if avail < 10 {
        0
    } else {
        10 + configuration_failure_offset(avail - 10)
    }
}

/// What a failed writer leaves: nothing before `off` and nothing from the
/// failing record's offset `off + fail` on has changed.
pub open spec fn untouched_outside(old: Seq<u8>, new: Seq<u8>, off: int, fail: int) -> bool {
    &&& new.len() == old.len()
    &&& new.subrange(0, off) == old.subrange(0, off)
    &&& new.subrange(off + fail, old.len() as int) == old.subrange(off + fail, old.len() as int)
}

/// Writes `b` widened to UTF-16LE into `buf` at `at`.
pub fn fill_utf16(buf: &mut [u8], at: usize, b: &[u8])
    requires
        at + 2 * b@.len() <= old(buf)@.len(),
    ensures
        final(buf)@ == written(old(buf)@, at as int, utf16_of(b@)),
{
    let n = b.len();
    let len = buf.len();
    let mut i: usize = 0;
    while i < n
        invariant
            n == b@.len(),
            len == old(buf)@.len(),
            at + 2 * n <= old(buf)@.len(),
            i <= n,
            buf@ == written(old(buf)@, at as int, utf16_of(b@).subrange(0, 2 * i)),
        decreases n - i,
    {
        buf[at + i * 2] = b[i];
        buf[at + i * 2 + 1] = 0;
        assert(buf@ =~= written(old(buf)@, at as int, utf16_of(b@).subrange(0, 2 * (i + 1))));
        i = i + 1;
    }
    assert(utf16_of(b@).subrange(0, 2 * n) =~= utf16_of(b@));
}

proof fn lemma_header_patched(s: Seq<u8>, off: int, h: Seq<u8>, p: Seq<u8>, body: Seq<u8>)
    requires
        0 <= off,
        off + h.len() + p.len() + body.len() <= s.len(),
    ensures
        written(written(written(s, off, h), off + h.len() + p.len(), body), off + h.len(), p)
            == written(s, off, h + p + body),
{
    assert(written(written(written(s, off, h), off + h.len() + p.len(), body), off + h.len(), p)
        =~= written(s, off, h + p + body));
}

/// The two bytes of a length field at `at` are as they were: nothing was
/// filled in there.
pub open spec fn field_kept(old: Seq<u8>, new: Seq<u8>, at: int) -> bool {
    new.subrange(at, at + 2) == old.subrange(at, at + 2)
}

proof fn lemma_field_kept_through(s: Seq<u8>, off: int, h: Seq<u8>, new: Seq<u8>, at: int)
    requires
        0 <= off,
        off + h.len() <= at,
        at + 2 <= s.len(),
        field_kept(written(s, off, h), new, at),
    ensures
        field_kept(s, new, at),
{
    assert(written(s, off, h).subrange(at, at + 2) =~= s.subrange(at, at + 2));
}

proof fn lemma_nested_failure(s: Seq<u8>, off: int, h: Seq<u8>, hlen: int, new: Seq<u8>, fail: int)
    requires
        0 <= off,
        h.len() + 2 == hlen,
        0 <= fail,
        off + hlen + fail <= s.len(),
        untouched_outside(written(s, off, h), new, off + hlen, fail),
    ensures
        untouched_outside(s, new, off, hlen + fail),
        field_kept(s, new, off + h.len()),
{
    let t = written(s, off, h);
    assert(new.subrange(off + h.len(), off + hlen) =~= new.subrange(0, off + hlen).subrange(
        off + h.len(),
        off + hlen,
    ));
    assert(t.subrange(off + h.len(), off + hlen) =~= t.subrange(0, off + hlen).subrange(
        off + h.len(),
        off + hlen,
    ));
    assert(t.subrange(off + h.len(), off + hlen) =~= s.subrange(off + h.len(), off + hlen));
    assert(new.subrange(0, off) =~= new.subrange(0, off + hlen).subrange(0, off));
    assert(t.subrange(0, off) =~= t.subrange(0, off + hlen).subrange(0, off));
    assert(t.subrange(0, off) =~= s.subrange(0, off));
    assert(t.subrange(off + hlen + fail, s.len() as int) =~= s.subrange(
        off + hlen + fail,
        s.len() as int,
    ));
}

/// Bytes of `"WINUSB\0\0"`.
fn winusb_compatible_id() -> (r: [u8; 8])
    ensures
        r@ == winusb_id(),
{
    let r = [0x57u8, 0x49, 0x4e, 0x55, 0x53, 0x42, 0x00, 0x00];
    assert(r@ =~= winusb_id());
    r
}

/// Bytes of `"DeviceInterfaceGUID\0"`.
fn property_name_bytes() -> (r: [u8; 20])
    ensures
        r@ == property_name_text(),
{
    let r = [
        0x44u8, 0x65, 0x76, 0x69, 0x63, 0x65, 0x49, 0x6e, 0x74, 0x65,
        0x72, 0x66, 0x61, 0x63, 0x65, 0x47, 0x55, 0x49, 0x44, 0x00,
    ];
    assert(r@ =~= property_name_text());
    r
}

/// Bytes of `"{A5DCBF10-6530-11D2-901F-00C04FB951ED}\0"`.
fn property_data_bytes() -> (r: [u8; 39])
    ensures
        r@ == property_data_text(),
{
    let r = [
        0x7bu8, 0x41, 0x35, 0x44, 0x43, 0x42, 0x46, 0x31, 0x30, 0x2d,
        0x36, 0x35, 0x33, 0x30, 0x2d, 0x31, 0x31, 0x44, 0x32, 0x2d,
        0x39, 0x30, 0x31, 0x46, 0x2d, 0x30, 0x30, 0x43, 0x30, 0x34,
        0x46, 0x42, 0x39, 0x35, 0x31, 0x45, 0x44, 0x7d, 0x00,
    ];
    assert(r@ =~= property_data_text());
    r
}

/// Writes a compatible-ID feature descriptor at `off`, and returns its length.
pub fn write_compatible_id(
    buf: &mut [u8],
    off: usize,
    compatible_id: &[u8],
    sub_compatible_id: &[u8],
) -> (r: Result<usize, ComposeError>)
    requires
        off <= old(buf)@.len(),
        compatible_id@.len() == 8,
        sub_compatible_id@.len() == 8,
    ensures
        r is Ok <==> old(buf)@.len() - off >= COMPATIBLE_ID_LENGTH,
        r is Ok ==> r == Ok::<usize, ComposeError>(COMPATIBLE_ID_LENGTH) && final(buf)@ == written(
            old(buf)@,
            off as int,
            compatible_id_feature(compatible_id@, sub_compatible_id@),
        ),
        r is Err ==> r == Err::<usize, ComposeError>(ComposeError::BufferOverflow) && final(buf)@
            == old(buf)@,
{
    let length: usize = COMPATIBLE_ID_LENGTH;
    if buf.len() - off < length {
        return Err(ComposeError::BufferOverflow);
    }
    let ghost s = buf@;
    put_le16(buf, off, length as u16);
    put_le16(buf, off + 2, MS_OS_20_FEATURE_COMPATIBLE_ID);
    proof {
        lemma_written_then_written(s, off as int, le16(20), le16(MS_OS_20_FEATURE_COMPATIBLE_ID));
    }
    put_bytes(buf, off + 4, compatible_id);
    proof {
        lemma_written_then_written(
            s,
            off as int,
            le16(20) + le16(MS_OS_20_FEATURE_COMPATIBLE_ID),
            compatible_id@,
        );
    }
    put_bytes(buf, off + 12, sub_compatible_id);
    proof {
        lemma_written_then_written(
            s,
            off as int,
            le16(20) + le16(MS_OS_20_FEATURE_COMPATIBLE_ID) + compatible_id@,
            sub_compatible_id@,
        );
    }
    Ok(length)
}

/// Writes a registry-property feature descriptor at `off`, and returns its
/// length. `name` and `data` are ASCII and are stored widened to UTF-16LE.
pub fn write_registry_property(
    buf: &mut [u8],
    off: usize,
    name: &[u8],
    property_type: RegPropertyType,
    data: &[u8],
) -> (r: Result<usize, ComposeError>)
    requires
        off <= old(buf)@.len(),
        2 * name@.len() + 2 * data@.len() + 10 <= u16::MAX,
    ensures
        ({
            let rec = registry_property_feature(
                utf16_of(name@),
                property_type.spec_code(),
                utf16_of(data@),
            );
            &&& r is Ok <==> old(buf)@.len() - off >= rec.len()
            &&& r is Ok ==> r == Ok::<usize, ComposeError>(rec.len() as usize) && final(buf)@
                == written(old(buf)@, off as int, rec)
            &&& r is Err ==> r == Err::<usize, ComposeError>(ComposeError::BufferOverflow)
                && final(buf)@ == old(buf)@
        }),
{
    let name_len: usize = 2 * name.len();
    let data_len: usize = 2 * data.len();
    let length: usize = name_len + data_len + 10;
    if buf.len() - off < length {
        return Err(ComposeError::BufferOverflow);
    }
    let ghost s = buf@;
    let ghost p0 = le16(length as u16);
    let ghost p1 = p0 + le16(MS_OS_20_FEATURE_REG_PROPERTY);
    let ghost p2 = p1 + le16(property_type.spec_code());
    let ghost p3 = p2 + le16(name_len as u16);
    let ghost p4 = p3 + utf16_of(name@);
    let ghost p5 = p4 + le16(data_len as u16);
    put_le16(buf, off, length as u16);
    put_le16(buf, off + 2, MS_OS_20_FEATURE_REG_PROPERTY);
    proof {
        lemma_written_then_written(s, off as int, p0, le16(MS_OS_20_FEATURE_REG_PROPERTY));
    }
    put_le16(buf, off + 4, property_type.code());
    proof {
        lemma_written_then_written(s, off as int, p1, le16(property_type.spec_code()));
    }
    put_le16(buf, off + 6, name_len as u16);
    proof {
        lemma_written_then_written(s, off as int, p2, le16(name_len as u16));
    }
    fill_utf16(buf, off + 8, name);
    proof {
        lemma_written_then_written(s, off as int, p3, utf16_of(name@));
    }
    put_le16(buf, off + 8 + name_len, data_len as u16);
    proof {
        lemma_written_then_written(s, off as int, p4, le16(data_len as u16));
    }
    fill_utf16(buf, off + 10 + name_len, data);
    proof {
        lemma_written_then_written(s, off as int, p5, utf16_of(data@));
    }
    Ok(length)
}

proof fn lemma_interface_features_len()
    ensures
        interface_features().len() == 148,
        compatible_id_feature(winusb_id(), Seq::new(8, |i: int| 0u8)).len() == 20,
{
}

/// Writes the features of the debug interface at `off`, and returns how many
/// bytes they take.
pub fn write_interface_features(buf: &mut [u8], off: usize) -> (r: Result<usize, ComposeError>)
    requires
        off <= old(buf)@.len(),
    ensures
        r is Ok <==> old(buf)@.len() - off >= interface_features().len(),
        r is Ok ==> r == Ok::<usize, ComposeError>(interface_features().len() as usize)
            && final(buf)@ == written(old(buf)@, off as int, interface_features()),
        r is Err ==> r == Err::<usize, ComposeError>(ComposeError::BufferOverflow)
            && untouched_outside(
            old(buf)@,
            final(buf)@,
            off as int,
            features_failure_offset(old(buf)@.len() - off),
        ),
{
    proof {
        lemma_interface_features_len();
    }
    let ghost s = buf@;
    let len = buf.len();
    let compatible_id = winusb_compatible_id();
    let sub_compatible_id = [0u8; 8];
    assert(sub_compatible_id@ =~= Seq::new(8, |i: int| 0u8));
    let name = property_name_bytes();
    let data = property_data_bytes();
    let mut offset: usize = off;
    match write_compatible_id(buf, offset, &compatible_id, &sub_compatible_id) {
        Ok(n) => offset = offset + n,
        Err(e) => {
            assert(buf@.subrange(0, off as int) =~= s.subrange(0, off as int));
            return Err(e);
        },
    }
    let ghost t = buf@;
    match write_registry_property(buf, offset, &name, RegPropertyType::String, &data) {
        Ok(n) => offset = offset + n,
        Err(e) => {
            assert(buf@.subrange(0, off as int) =~= s.subrange(0, off as int));
            assert(buf@.subrange(off + 20, s.len() as int) =~= s.subrange(
                off + 20,
                s.len() as int,
            ));
            return Err(e);
        },
    }
    proof {
        lemma_written_then_written(
            s,
            off as int,
            compatible_id_feature(winusb_id(), Seq::new(8, |i: int| 0u8)),
            registry_property_feature(
                utf16_of(property_name_text()),
                RegPropertyType::String.spec_code(),
                utf16_of(property_data_text()),
            ),
        );
    }
    Ok(offset - off)
}

/// Writes the function subset of the interface numbered `first_interface`
/// at `off`, its features included, and returns its total length.
pub fn write_function_subset(buf: &mut [u8], off: usize, first_interface: u8) -> (r: Result<
    usize,
    ComposeError,
>)
    requires
        off <= old(buf)@.len(),
    ensures
        ({
            let rec = function_subset(first_interface, interface_features());
            &&& r is Ok <==> old(buf)@.len() - off >= rec.len()
            &&& r is Ok ==> r == Ok::<usize, ComposeError>(rec.len() as usize) && final(buf)@
                == written(old(buf)@, off as int, rec)
            &&& r is Err ==> r == Err::<usize, ComposeError>(ComposeError::BufferOverflow)
                && untouched_outside(
                old(buf)@,
                final(buf)@,
                off as int,
                function_failure_offset(old(buf)@.len() - off),
            ) && (old(buf)@.len() - off >= 8 ==> field_kept(old(buf)@, final(buf)@, off + 6))
        }),
{
    proof {
        lemma_interface_features_len();
    }
    let length: usize = SUBSET_HEADER_LENGTH;
    if buf.len() - off < length {
        assert(buf@.subrange(0, off as int) =~= old(buf)@.subrange(0, off as int));
        return Err(ComposeError::BufferOverflow);
    }
    let ghost s = buf@;
    let ghost h = le16(8) + le16(MS_OS_20_SUBSET_HEADER_FUNCTION) + seq![first_interface, 0u8];
    put_le16(buf, off, length as u16);
    put_le16(buf, off + 2, MS_OS_20_SUBSET_HEADER_FUNCTION);
    buf[off + 4] = first_interface;
    buf[off + 5] = 0;
    assert(buf@ =~= written(s, off as int, h));
    let body = match write_interface_features(buf, off + length) {
        Ok(n) => n,
        Err(e) => {
            proof {
                lemma_nested_failure(
                    s,
                    off as int,
                    h,
                    8,
                    buf@,
                    features_failure_offset(s.len() - off - 8),
                );
            }
            return Err(e);
        },
    };
    let total_length = body + length;
    put_le16(buf, off + 6, total_length as u16);
    proof {
        lemma_header_patched(s, off as int, h, le16(total_length as u16), interface_features());
    }
    Ok(total_length)
}

/// Writes the configuration subset of configuration 0 at `off`, the function
/// subset of `first_interface` included, and returns its total length.
pub fn write_configuration_subset(buf: &mut [u8], off: usize, first_interface: u8) -> (r: Result<
    usize,
    ComposeError,
>)
    requires
        off <= old(buf)@.len(),
    ensures
        ({
            let rec = configuration_subset(function_subset(first_interface, interface_features()));
            &&& r is Ok <==> old(buf)@.len() - off >= rec.len()
            &&& r is Ok ==> r == Ok::<usize, ComposeError>(rec.len() as usize) && final(buf)@
                == written(old(buf)@, off as int, rec)
            &&& r is Err ==> r == Err::<usize, ComposeError>(ComposeError::BufferOverflow)
                && untouched_outside(
                old(buf)@,
                final(buf)@,
                off as int,
                configuration_failure_offset(old(buf)@.len() - off),
            ) && (old(buf)@.len() - off >= 8 ==> field_kept(old(buf)@, final(buf)@, off + 6))
                && (old(buf)@.len() - off >= 16 ==> field_kept(old(buf)@, final(buf)@, off + 14))
        }),
{
    proof {
        lemma_interface_features_len();
    }
    let length: usize = SUBSET_HEADER_LENGTH;
    if buf.len() - off < length {
        assert(buf@.subrange(0, off as int) =~= old(buf)@.subrange(0, off as int));
        return Err(ComposeError::BufferOverflow);
    }
    let ghost s = buf@;
    let ghost h = le16(8) + le16(MS_OS_20_SUBSET_HEADER_CONFIGURATION) + seq![0u8, 0u8];
    put_le16(buf, off, length as u16);
    put_le16(buf, off + 2, MS_OS_20_SUBSET_HEADER_CONFIGURATION);
    // Configuration 0: the USB stack offers a single configuration.
    buf[off + 4] = 0;
    buf[off + 5] = 0;
    assert(buf@ =~= written(s, off as int, h));
    let body = match write_function_subset(buf, off + length, first_interface) {
        Ok(n) => n,
        Err(e) => {
            proof {
                lemma_nested_failure(
                    s,
                    off as int,
                    h,
                    8,
                    buf@,
                    function_failure_offset(s.len() - off - 8),
                );
                if s.len() - off >= 16 {
                    lemma_field_kept_through(s, off as int, h, buf@, off + 14);
                }
            }
            return Err(e);
        },
    };
    let total_length = body + length;
    put_le16(buf, off + 6, total_length as u16);
    proof {
        lemma_header_patched(
            s,
            off as int,
            h,
            le16(total_length as u16),
            function_subset(first_interface, interface_features()),
        );
    }
    Ok(total_length)
}

/// Writes the descriptor set header at the start of `buf`, the configuration
/// subset after it, and returns the total length of the set.
pub fn write_descriptor_set(buf: &mut [u8], windows_version: u32, first_interface: u8) -> (r:
    Result<usize, ComposeError>)
    ensures
        ({
            let rec = descriptor_set(
                windows_version,
                configuration_subset(function_subset(first_interface, interface_features())),
            );
            &&& r is Ok <==> old(buf)@.len() >= rec.len()
            &&& r is Ok ==> r == Ok::<usize, ComposeError>(rec.len() as usize) && final(buf)@
                == written(old(buf)@, 0, rec)
            &&& r is Err ==> r == Err::<usize, ComposeError>(ComposeError::BufferOverflow)
                && untouched_outside(
                old(buf)@,
                final(buf)@,
                0,
                set_failure_offset(old(buf)@.len() as int),
            ) && (old(buf)@.len() >= 10 ==> field_kept(old(buf)@, final(buf)@, 8))
                && (old(buf)@.len() >= 18 ==> field_kept(old(buf)@, final(buf)@, 16))
                && (old(buf)@.len() >= 26 ==> field_kept(old(buf)@, final(buf)@, 24))
        }),
{
    proof {
        lemma_interface_features_len();
    }
    let length: usize = SET_HEADER_LENGTH;
    if buf.len() < length {
        assert(buf@.subrange(0, 0) =~= old(buf)@.subrange(0, 0));
        return Err(ComposeError::BufferOverflow);
    }
    let ghost s = buf@;
    let ghost h = le16(10) + le16(MS_OS_20_SET_HEADER_DESCRIPTOR) + le32(windows_version);
    put_le16(buf, 0, length as u16);
    put_le16(buf, 2, MS_OS_20_SET_HEADER_DESCRIPTOR);
    put_le16(buf, 4, u32_lo(windows_version));
    put_le16(buf, 6, u32_hi(windows_version));
    assert(buf@ =~= written(s, 0, h));
    let body = match write_configuration_subset(buf, length, first_interface) {
        Ok(n) => n,
        Err(e) => {
            proof {
                lemma_nested_failure(
                    s,
                    0,
                    h,
                    10,
                    buf@,
                    configuration_failure_offset(s.len() - 10),
                );
                if s.len() >= 18 {
                    lemma_field_kept_through(s, 0, h, buf@, 16);
                }
                if s.len() >= 26 {
                    lemma_field_kept_through(s, 0, h, buf@, 24);
                }
            }
            return Err(e);
        },
    };
    let total_length = body + length;
    put_le16(buf, 8, total_length as u16);
    proof {
        lemma_header_patched(
            s,
            0,
            h,
            le16(total_length as u16),
            configuration_subset(function_subset(first_interface, interface_features())),
        );
    }
    Ok(total_length)
}

/// The descriptor set is 174 bytes long whatever the interface number.
pub proof fn lemma_descriptor_set_length(first_interface: u8)
    ensures
        ms_os_20_descriptor_set(first_interface).len() == DESCRIPTOR_SET_LENGTH,
{
    lemma_interface_features_len();
}

/// Composes the Microsoft OS 2.0 descriptor set of the interface numbered
/// `first_interface` at the start of `buf`.
///
/// It succeeds exactly when `buf` holds the 174 bytes of the set, and then
/// leaves the rest of `buf` alone. On overflow nothing has been written from
/// the offset of the record that did not fit on, and no length field of an
/// enclosing header has been filled in.
pub fn compose_descriptor_set(buf: &mut [u8], first_interface: u8) -> (r: Result<
    usize,
    ComposeError,
>)
    ensures
        r is Ok <==> old(buf)@.len() >= DESCRIPTOR_SET_LENGTH,
        r is Ok ==> r == Ok::<usize, ComposeError>(DESCRIPTOR_SET_LENGTH) && final(buf)@.subrange(
            0,
            DESCRIPTOR_SET_LENGTH as int,
        ) == ms_os_20_descriptor_set(first_interface) && final(buf)@.subrange(
            DESCRIPTOR_SET_LENGTH as int,
            final(buf)@.len() as int,
        ) == old(buf)@.subrange(DESCRIPTOR_SET_LENGTH as int, old(buf)@.len() as int),
        r is Err ==> r == Err::<usize, ComposeError>(ComposeError::BufferOverflow)
            && untouched_outside(
            old(buf)@,
            final(buf)@,
            0,
            set_failure_offset(old(buf)@.len() as int),
        ) && (old(buf)@.len() >= 10 ==> field_kept(old(buf)@, final(buf)@, 8))
            && (old(buf)@.len() >= 18 ==> field_kept(old(buf)@, final(buf)@, 16))
            && (old(buf)@.len() >= 26 ==> field_kept(old(buf)@, final(buf)@, 24)),
{
    proof {
        lemma_descriptor_set_length(first_interface);
    }
    let r = write_descriptor_set(buf, WINDOWS_VERSION, first_interface);
    assert(r is Ok ==> buf@.subrange(0, DESCRIPTOR_SET_LENGTH as int) =~= ms_os_20_descriptor_set(
        first_interface,
    ));
    assert(r is Ok ==> buf@.subrange(DESCRIPTOR_SET_LENGTH as int, buf@.len() as int)
        =~= old(buf)@.subrange(DESCRIPTOR_SET_LENGTH as int, old(buf)@.len() as int));
    r
}

} // verus!
