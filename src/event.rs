use vstd::prelude::*;
use crate::uuid::BleUuid;

verus! {

/// A link to a remote client, from connect to disconnect.
#[derive(Clone, Copy, Debug)]
pub struct Connection {
    /// The identifier that the controller gave the link.
    pub id: u16,
    /// The client's address.
    pub remote_bda: [u8; 6],
}

/// A node of the attribute tree, by its position.
#[derive(Clone, Copy, Debug, PartialEq, Eq, Hash, Structural)]
pub enum AttributeRef {
    Characteristic { profile: usize, service: usize, characteristic: usize },
    Descriptor { profile: usize, service: usize, characteristic: usize, descriptor: usize },
}

/// An event that the controller reports, as plain values.
#[derive(Debug)]
pub enum GattsEvent {
    Connect { conn_id: u16, remote_bda: [u8; 6] },
    Disconnect { conn_id: u16, remote_bda: [u8; 6] },
    Mtu { conn_id: u16, mtu: u16 },
    /// A profile (application) was registered.
    Register { success: bool, app_id: u16 },
    /// A response was sent.
    Response { success: bool, handle: u16 },
    /// An attribute value set by the host was applied.
    SetAttrValue { success: bool, service_handle: u16, attr_handle: u16 },
    /// A service was created.
    Create { success: bool, service_uuid: BleUuid, service_handle: u16 },
    /// A service was started.
    Start { success: bool, service_handle: u16 },
    /// A characteristic was added to a service.
    AddChar { success: bool, service_handle: u16, char_uuid: BleUuid, attr_handle: u16 },
    /// A descriptor was added to a service.
    AddCharDescr { success: bool, service_handle: u16, descr_uuid: BleUuid, attr_handle: u16 },
    /// A client wrote an attribute.
    Write {
        conn_id: u16,
        trans_id: u32,
        remote_bda: [u8; 6],
        handle: u16,
        need_rsp: bool,
        value: Vec<u8>,
    },
    /// A client reads an attribute.
    Read { conn_id: u16, trans_id: u32, remote_bda: [u8; 6], handle: u16 },
    /// Any other event.
    Other { code: u32 },
}

/// Where the host reads a client's subscription state for one connection.
#[derive(Clone, Copy, Debug)]
pub struct CccdRead {
    pub conn_id: u16,
    pub remote_bda: [u8; 6],
    /// The handle of the characteristic's configuration descriptor.
    pub cccd_handle: u16,
}

/// What the host must do next, in order.
#[derive(Debug)]
pub enum GattCommand {
    /// Register a profile under its application identifier.
    RegisterApp { app_id: u16 },
    /// Give the controller the device name.
    SetDeviceName,
    /// Give the controller the advertising payload.
    ConfigAdvertisingData,
    /// Give the controller the scan response payload.
    ConfigScanResponseData,
    /// Start (again) to advertise.
    StartAdvertising,
    /// Create a service on a profile's interface.
    CreateService { interface: u8, uuid: BleUuid, primary: bool, num_handles: u16 },
    /// Start a created service.
    StartService { service_handle: u16 },
    /// Add the characteristic at `target` to the service at `service_handle`.
    AddCharacteristic { service_handle: u16, target: AttributeRef },
    /// Add the descriptor at `target` to the service at `service_handle`.
    AddDescriptor { service_handle: u16, target: AttributeRef },
    /// Hand `value` to the write callback of `target`.
    InvokeWrite {
        target: AttributeRef,
        conn_id: u16,
        remote_bda: [u8; 6],
        handle: u16,
        value: Vec<u8>,
    },
    /// Call the read callback of `target` and answer the request with its result.
    RespondFromRead {
        target: AttributeRef,
        interface: u8,
        conn_id: u16,
        trans_id: u32,
        remote_bda: [u8; 6],
        handle: u16,
    },
    /// Read each subscription state, then push the value of `target` to the subscribers.
    CheckSubscriptions {
        target: AttributeRef,
        interface: u8,
        attr_handle: u16,
        reads: Vec<CccdRead>,
    },
}

} // verus!
