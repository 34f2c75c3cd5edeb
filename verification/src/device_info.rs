//! Fixed-layout codec for the device descriptor.
//!
//! The wire format is the descriptor's native in-memory layout on the target:
//! the 16-bit device address little-endian at offset 0, two padding bytes,
//! then the two 32-bit fields little-endian at offsets 4 and 8.  The encoder
//! zero-fills the padding; the decoder ignores it.

use vstd::prelude::*;

verus! {

/// Number of bytes a serialized [`DeviceInfo`] occupies, padding included.
pub const DEVICE_INFO_LEN: usize = 12;

/// The fixed-size record persisted at the configured base address: the
/// device's bus address, its firmware version, and the address at which the
/// rule-list payload is stored.
#[derive(Debug, Clone, Copy, PartialEq, Eq, Structural)]
pub struct DeviceInfo {
    pub device_address: u16,
    pub firmware_version: u32,
    pub event_processor_info_address: u32,
}

/// Error of the descriptor codec.
#[derive(Debug, Clone, Copy, PartialEq, Eq, Structural)]
pub enum DeviceInfoError {
    /// The input buffer is not exactly [`DEVICE_INFO_LEN`] bytes long.
    WrongSize,
}

/// The two bytes of `v`, least significant first.
pub open spec fn spec_u16_le(v: u16) -> Seq<u8> {
    seq![(v % 0x100) as u8, (v / 0x100) as u8]
}

/// The four bytes of `v`, least significant first.
pub open spec fn spec_u32_le(v: u32) -> Seq<u8> {
    seq![
        (v % 0x100) as u8,
        ((v / 0x100) % 0x100) as u8,
        ((v / 0x10000) % 0x100) as u8,
        (v / 0x1000000) as u8,
    ]
}

/// The value whose little-endian bytes are `b0`, `b1`.
pub open spec fn spec_u16_from_le(b0: u8, b1: u8) -> u16 {
    (b0 + b1 * 0x100) as u16
}

/// The value whose little-endian bytes are `b0` .. `b3`.
pub open spec fn spec_u32_from_le(b0: u8, b1: u8, b2: u8, b3: u8) -> u32 {
    (b0 + b1 * 0x100 + b2 * 0x10000 + b3 * 0x1000000) as u32
}

/// The exact byte image of a descriptor: both fields little-endian, two
/// zero-filled padding bytes between the 16-bit and the first 32-bit field.
pub open spec fn spec_encode_device_info(d: DeviceInfo) -> Seq<u8> {
    spec_u16_le(d.device_address) + seq![0u8, 0u8] + spec_u32_le(d.firmware_version)
        + spec_u32_le(d.event_processor_info_address)
}

/// The descriptor read from a [`DEVICE_INFO_LEN`]-byte image; the padding
/// bytes do not take part.
pub open spec fn spec_decode_device_info(b: Seq<u8>) -> DeviceInfo
    recommends
        b.len() == DEVICE_INFO_LEN,
{
    DeviceInfo {
        device_address: spec_u16_from_le(b[0], b[1]),
        firmware_version: spec_u32_from_le(b[4], b[5], b[6], b[7]),
        event_processor_info_address: spec_u32_from_le(b[8], b[9], b[10], b[11]),
    }
}

/// Decodes descriptors out of byte buffers.
pub struct DeviceInfoReader {}

impl DeviceInfoReader {
    /// Decodes a descriptor from a buffer holding exactly its byte image;
    /// any other buffer length is rejected.  Every bit pattern of the fields
    /// is a legal descriptor, so a buffer of the right length always decodes.
    pub fn read_from_vec(data: &Vec<u8>) -> (r: Result<DeviceInfo, DeviceInfoError>)
        ensures
            data@.len() == DEVICE_INFO_LEN ==> r == Ok::<DeviceInfo, DeviceInfoError>(
                spec_decode_device_info(data@),
            ),
            data@.len() != DEVICE_INFO_LEN ==> r == Err::<DeviceInfo, DeviceInfoError>(
                DeviceInfoError::WrongSize,
            ),
    {
        if data.len() != DEVICE_INFO_LEN {
            return Err(DeviceInfoError::WrongSize);
        }
        let device_address: u16 = (data[0] as u16) + (data[1] as u16) * 0x100;
        let firmware_version: u32 = (data[4] as u32) + (data[5] as u32) * 0x100
            + (data[6] as u32) * 0x10000 + (data[7] as u32) * 0x1000000;
        let event_processor_info_address: u32 = (data[8] as u32) + (data[9] as u32) * 0x100
            + (data[10] as u32) * 0x10000 + (data[11] as u32) * 0x1000000;
        Ok(DeviceInfo { device_address, firmware_version, event_processor_info_address })
    }
}

/// Encodes descriptors into byte buffers.
pub struct DeviceInfoWriter {}

impl DeviceInfoWriter {
    /// Appends the exact [`DEVICE_INFO_LEN`]-byte image of `device_info` to
    /// `data`.  Encoding succeeds for every descriptor.
    pub fn write_to_vec(data: &mut Vec<u8>, device_info: &DeviceInfo) -> (r: Result<
        (),
        DeviceInfoError,
    >)
        ensures
            r is Ok,
            final(data)@ == old(data)@ + spec_encode_device_info(*device_info),
    {
        data.push((device_info.device_address % 0x100) as u8);
        data.push((device_info.device_address / 0x100) as u8);
        data.push(0);
        data.push(0);
        data.push((device_info.firmware_version % 0x100) as u8);
        data.push(((device_info.firmware_version / 0x100) % 0x100) as u8);
        data.push(((device_info.firmware_version / 0x10000) % 0x100) as u8);
        data.push((device_info.firmware_version / 0x1000000) as u8);
        data.push((device_info.event_processor_info_address % 0x100) as u8);
        data.push(((device_info.event_processor_info_address / 0x100) % 0x100) as u8);
        data.push(((device_info.event_processor_info_address / 0x10000) % 0x100) as u8);
        data.push((device_info.event_processor_info_address / 0x1000000) as u8);
        proof {
            assert(data@ =~= old(data)@ + spec_encode_device_info(*device_info));
        }
        Ok(())
    }
}

/// Law: a descriptor survives an encode followed by a decode unchanged,
/// whatever its field values.
pub proof fn lemma_device_info_round_trip(d: DeviceInfo)
    ensures
        spec_decode_device_info(spec_encode_device_info(d)) == d,
{
    let b = spec_encode_device_info(d);
    assert(b[0] == (d.device_address % 0x100) as u8);
    assert(b[1] == (d.device_address / 0x100) as u8);
    assert(spec_u16_from_le(b[0], b[1]) == d.device_address);
    assert(spec_u32_from_le(b[4], b[5], b[6], b[7]) == d.firmware_version);
    assert(spec_u32_from_le(b[8], b[9], b[10], b[11]) == d.event_processor_info_address);
}

} // verus!
