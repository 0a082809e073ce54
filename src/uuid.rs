use vstd::prelude::*;

verus! {

/// Attribute type identifier, in one of the three lengths that BLE allows.
#[derive(Clone, Copy, Debug, PartialEq, Eq, Structural)]
pub enum BleUuid {
    Uuid16(u16),
    Uuid32(u32),
    Uuid128(u128),
}

/// The Characteristic User Description descriptor type.
pub const USER_DESCRIPTION_UUID16: u16 = 0x2901;

/// The Client Characteristic Configuration descriptor type.
pub const CCCD_UUID16: u16 = 0x2902;

impl BleUuid {
    /// A 16-bit identifier.
    pub fn from_uuid16(uuid: u16) -> (r: Self)
        ensures
            r == BleUuid::Uuid16(uuid),
    {
        BleUuid::Uuid16(uuid)
    }

    /// A 32-bit identifier.
    pub fn from_uuid32(uuid: u32) -> (r: Self)
        ensures
            r == BleUuid::Uuid32(uuid),
    {
        BleUuid::Uuid32(uuid)
    }

    /// A 128-bit identifier.
    pub fn from_uuid128(uuid: u128) -> (r: Self)
        ensures
            r == BleUuid::Uuid128(uuid),
    {
        BleUuid::Uuid128(uuid)
    }

    /// Whether this identifies a Client Characteristic Configuration descriptor.
    pub fn is_cccd(&self) -> (r: bool)
        ensures
            r == (*self == BleUuid::Uuid16(CCCD_UUID16)),
    {
        match self {
            BleUuid::Uuid16(u) => *u == CCCD_UUID16,
            _ => false,
        }
    }
}

} // verus!
