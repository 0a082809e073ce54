use vstd::prelude::*;
use vstd::string::{StrSliceExecFns, StringSliceAdditionalSpecFns};
use crate::uuid::{BleUuid, CCCD_UUID16, USER_DESCRIPTION_UUID16};

verus! {

/// Access rights of an attribute.
#[derive(Clone, Copy, Debug, PartialEq, Eq, Structural)]
pub struct AttributePermissions {
    pub read_access: bool,
    pub write_access: bool,
    pub encryption_required: bool,
}

impl AttributePermissions {
    /// No access at all.
    pub fn new() -> (r: Self)
        ensures
            !r.read_access && !r.write_access && !r.encryption_required,
    {
        AttributePermissions { read_access: false, write_access: false, encryption_required: false }
    }

    /// Adds read access.
    pub fn read(self) -> (r: Self)
        ensures
            r == (AttributePermissions { read_access: true, ..self }),
    {
        AttributePermissions { read_access: true, ..self }
    }

    /// Adds write access.
    pub fn write(self) -> (r: Self)
        ensures
            r == (AttributePermissions { write_access: true, ..self }),
    {
        AttributePermissions { write_access: true, ..self }
    }

    /// Requires an encrypted link for every access.
    pub fn encrypted(self) -> (r: Self)
        ensures
            r == (AttributePermissions { encryption_required: true, ..self }),
    {
        AttributePermissions { encryption_required: true, ..self }
    }
}

/// Who answers reads of an attribute.
#[derive(Clone, Copy, Debug, PartialEq, Eq, Structural)]
pub enum AttributeControl {
    /// The controller serves the cached value by itself.
    AutomaticResponse,
    /// The host's read callback computes the value for each request.
    ResponseByApp,
}

/// A descriptor of a characteristic.
#[derive(Debug)]
pub struct Descriptor {
    pub name: Option<String>,
    pub uuid: BleUuid,
    pub permissions: AttributePermissions,
    pub control: AttributeControl,
    /// The value served when the controller answers by itself.
    pub value: Vec<u8>,
    /// Whether writes are handed to the host's write callback.
    pub write_callback: bool,
    /// Set by the controller's confirmation; absent until then.
    pub attribute_handle: Option<u16>,
}

/// What a descriptor is, apart from its diagnostic name.
pub struct DescriptorView {
    pub uuid: BleUuid,
    pub permissions: AttributePermissions,
    pub control: AttributeControl,
    pub value: Seq<u8>,
    pub write_callback: bool,
    pub attribute_handle: Option<u16>,
}

impl View for Descriptor {
    type V = DescriptorView;

    open spec fn view(&self) -> DescriptorView {
        DescriptorView {
            uuid: self.uuid,
            permissions: self.permissions,
            control: self.control,
            value: self.value@,
            write_callback: self.write_callback,
            attribute_handle: self.attribute_handle,
        }
    }
}

/// A copy of an optional name.
pub(crate) fn copy_name(name: &Option<String>) -> (r: Option<String>)
    ensures
        r is Some <==> name is Some,
        r is Some ==> r->0@ == name->0@,
{
    match name {
        Some(n) => Some(n.clone()),
        None => None,
    }
}

/// A copy of a byte buffer.
pub(crate) fn copy_bytes(v: &Vec<u8>) -> (r: Vec<u8>)
    ensures
        r@ == v@,
{
    let mut r: Vec<u8> = Vec::new();
    let mut i: usize = 0;
    while i < v.len()
        invariant
            i <= v.len(),
            r@ == v@.subrange(0, i as int),
        decreases v.len() - i,
    {
        r.push(v[i]);
        i += 1;
        assert(r@ =~= v@.subrange(0, i as int));
    }
    assert(r@ =~= v@);
    r
}

impl Descriptor {
    /// An independent copy of this descriptor, to be added to a characteristic.
    pub fn build(&self) -> (r: Self)
        ensures
            r@ == self@,
    {
        Descriptor {
            name: copy_name(&self.name),
            uuid: self.uuid,
            permissions: self.permissions,
            control: self.control,
            value: copy_bytes(&self.value),
            write_callback: self.write_callback,
            attribute_handle: self.attribute_handle,
        }
    }

    /// A descriptor of the given type, with no access, an empty cached value and no handle.
    pub fn new(uuid: BleUuid) -> (r: Self)
        ensures
            r.name is None,
            r.uuid == uuid,
            r.permissions == AttributePermissions::new_spec(),
            r.control == AttributeControl::AutomaticResponse,
            r.value@ == Seq::<u8>::empty(),
            !r.write_callback,
            r.attribute_handle is None,
    {
        Descriptor {
            name: None,
            uuid,
            permissions: AttributePermissions::new(),
            control: AttributeControl::AutomaticResponse,
            value: Vec::new(),
            write_callback: false,
            attribute_handle: None,
        }
    }

    /// Sets the name, used for diagnostics only.
    pub fn name(&mut self, name: &str) -> (r: &mut Self)
        ensures
            *r == (Descriptor { name: r.name, ..*old(self) }),
            r.name matches Some(n) && n@ == name@,
            *final(self) == *final(r),
    {
        self.name = Some(name.to_owned());
        self
    }

    /// Sets the access rights.
    pub fn permissions(&mut self, permissions: AttributePermissions) -> (r: &mut Self)
        ensures
            *r == (Descriptor { permissions, ..*old(self) }),
            *final(self) == *final(r),
    {
        self.permissions = permissions;
        self
    }

    /// Makes the controller serve `value` by itself.
    pub fn set_value(&mut self, value: Vec<u8>) -> (r: &mut Self)
        ensures
            *r == (Descriptor { value, control: AttributeControl::AutomaticResponse, ..*old(self) }),
            *final(self) == *final(r),
    {
        self.value = value;
        self.control = AttributeControl::AutomaticResponse;
        self
    }

    /// Hands every read to the host's read callback.
    pub fn on_read(&mut self) -> (r: &mut Self)
        ensures
            *r == (Descriptor { control: AttributeControl::ResponseByApp, ..*old(self) }),
            *final(self) == *final(r),
    {
        self.control = AttributeControl::ResponseByApp;
        self
    }

    /// Hands every write to the host's write callback.
    pub fn on_write(&mut self) -> (r: &mut Self)
        ensures
            *r == (Descriptor { write_callback: true, ..*old(self) }),
            *final(self) == *final(r),
    {
        self.write_callback = true;
        self
    }

    /// A Characteristic User Description descriptor (`0x2901`), readable, whose
    /// cached value is the bytes of `description`.
    pub fn user_description(description: &str) -> (r: Self)
        ensures
            r.uuid == BleUuid::Uuid16(USER_DESCRIPTION_UUID16),
            r.name matches Some(n) && n@ == "User Description"@,
            r.permissions == AttributePermissions::new_spec().read_spec(),
            r.control == AttributeControl::AutomaticResponse,
            r.value@ == description.spec_bytes(),
            !r.write_callback,
            r.attribute_handle is None,
    {
        let mut d = Descriptor::new(BleUuid::from_uuid16(USER_DESCRIPTION_UUID16));
        d.name("User Description")
            .permissions(AttributePermissions::new().read())
            .set_value(description.as_bytes_vec());
        d
    }

    /// A Client Characteristic Configuration descriptor (`0x2902`), readable and
    /// writable. Its value is kept per connection by the host, so both reads and
    /// writes go to the host's callbacks.
    pub fn cccd() -> (r: Self)
        ensures
            r.uuid == BleUuid::Uuid16(CCCD_UUID16),
            r.name matches Some(n) && n@ == "Client Characteristic Configuration"@,
            r.permissions == AttributePermissions::new_spec().read_spec().write_spec(),
            r.control == AttributeControl::ResponseByApp,
            r.value@ == Seq::<u8>::empty(),
            r.write_callback,
            r.attribute_handle is None,
    {
        let mut d = Descriptor::new(BleUuid::from_uuid16(CCCD_UUID16));
        d.name("Client Characteristic Configuration")
            .permissions(AttributePermissions::new().read().write())
            .on_read()
            .on_write();
        d
    }
}

impl AttributePermissions {
    pub open spec fn new_spec() -> Self {
        AttributePermissions { read_access: false, write_access: false, encryption_required: false }
    }

    pub open spec fn read_spec(self) -> Self {
        AttributePermissions { read_access: true, ..self }
    }

    pub open spec fn write_spec(self) -> Self {
        AttributePermissions { write_access: true, ..self }
    }
}

} // verus!
