use vstd::prelude::*;
use crate::uuid::BleUuid;
use crate::attributes::{
    AttributeControl, AttributePermissions, Descriptor, DescriptorView, copy_bytes, copy_name,
};

verus! {

/// What a characteristic offers to clients.
#[derive(Clone, Copy, Debug, PartialEq, Eq, Structural)]
pub struct CharacteristicProperties {
    pub broadcast: bool,
    pub read: bool,
    pub write_without_response: bool,
    pub write: bool,
    pub notify: bool,
    pub indicate: bool,
}

impl CharacteristicProperties {
    pub open spec fn none() -> Self {
        CharacteristicProperties {
            broadcast: false,
            read: false,
            write_without_response: false,
            write: false,
            notify: false,
            indicate: false,
        }
    }

    /// No property at all.
    pub fn new() -> (r: Self)
        ensures
            r == Self::none(),
    {
        CharacteristicProperties {
            broadcast: false,
            read: false,
            write_without_response: false,
            write: false,
            notify: false,
            indicate: false,
        }
    }

    /// Adds reads.
    pub fn read(self) -> (r: Self)
        ensures
            r == (CharacteristicProperties { read: true, ..self }),
    {
        CharacteristicProperties { read: true, ..self }
    }

    /// Adds acknowledged writes.
    pub fn write(self) -> (r: Self)
        ensures
            r == (CharacteristicProperties { write: true, ..self }),
    {
        CharacteristicProperties { write: true, ..self }
    }

    /// Adds unacknowledged writes.
    pub fn write_without_response(self) -> (r: Self)
        ensures
            r == (CharacteristicProperties { write_without_response: true, ..self }),
    {
        CharacteristicProperties { write_without_response: true, ..self }
    }

    /// Adds unacknowledged value pushes.
    pub fn notify(self) -> (r: Self)
        ensures
            r == (CharacteristicProperties { notify: true, ..self }),
    {
        CharacteristicProperties { notify: true, ..self }
    }

    /// Adds acknowledged value pushes.
    pub fn indicate(self) -> (r: Self)
        ensures
            r == (CharacteristicProperties { indicate: true, ..self }),
    {
        CharacteristicProperties { indicate: true, ..self }
    }
}

/// A characteristic: a value with its properties and its descriptors.
#[derive(Debug)]
pub struct Characteristic {
    pub name: Option<String>,
    pub uuid: BleUuid,
    pub properties: CharacteristicProperties,
    pub permissions: AttributePermissions,
    pub control: AttributeControl,
    /// Whether writes are handed to the host's write callback.
    pub write_callback: bool,
    pub descriptors: Vec<Descriptor>,
    /// Set by the controller's confirmation; absent until then.
    pub attribute_handle: Option<u16>,
    /// The value last set by the host.
    pub internal_value: Vec<u8>,
}

/// What a characteristic is, apart from its diagnostic name.
pub struct CharacteristicView {
    pub uuid: BleUuid,
    pub properties: CharacteristicProperties,
    pub permissions: AttributePermissions,
    pub control: AttributeControl,
    pub write_callback: bool,
    pub descriptors: Seq<DescriptorView>,
    pub attribute_handle: Option<u16>,
    pub internal_value: Seq<u8>,
}

pub open spec fn descriptor_views(ds: Seq<Descriptor>) -> Seq<DescriptorView> {
    ds.map_values(|d: Descriptor| d@)
}

impl View for Characteristic {
    type V = CharacteristicView;

    open spec fn view(&self) -> CharacteristicView {
        CharacteristicView {
            uuid: self.uuid,
            properties: self.properties,
            permissions: self.permissions,
            control: self.control,
            write_callback: self.write_callback,
            descriptors: descriptor_views(self.descriptors@),
            attribute_handle: self.attribute_handle,
            internal_value: self.internal_value@,
        }
    }
}

pub(crate) fn copy_descriptors(ds: &Vec<Descriptor>) -> (r: Vec<Descriptor>)
    ensures
        descriptor_views(r@) == descriptor_views(ds@),
{
    let mut r: Vec<Descriptor> = Vec::new();
    let mut i: usize = 0;
    while i < ds.len()
        invariant
            i <= ds.len(),
            r@.len() == i,
            forall|j: int| 0 <= j < i ==> (#[trigger] r@[j])@ == ds@[j]@,
        decreases ds.len() - i,
    {
        r.push(ds[i].build());
        i += 1;
    }
    assert(descriptor_views(r@) =~= descriptor_views(ds@));
    r
}

impl Characteristic {
    /// A characteristic of the given type, with no property, no access, no
    /// descriptor, an empty value and no handle.
    pub fn new(uuid: BleUuid) -> (r: Self)
        ensures
            r.name is None,
            r@ == (CharacteristicView {
                uuid,
                properties: CharacteristicProperties::none(),
                permissions: AttributePermissions::new_spec(),
                control: AttributeControl::AutomaticResponse,
                write_callback: false,
                descriptors: Seq::empty(),
                attribute_handle: None,
                internal_value: Seq::empty(),
            }),
    {
        let r = Characteristic {
            name: None,
            uuid,
            properties: CharacteristicProperties::new(),
            permissions: AttributePermissions::new(),
            control: AttributeControl::AutomaticResponse,
            write_callback: false,
            descriptors: Vec::new(),
            attribute_handle: None,
            internal_value: Vec::new(),
        };
        assert(descriptor_views(r.descriptors@) =~= Seq::empty());
        r
    }

    /// An independent copy of this characteristic, to be added to a service.
    pub fn build(&self) -> (r: Self)
        ensures
            r@ == self@,
    {
        Characteristic {
            name: copy_name(&self.name),
            uuid: self.uuid,
            properties: self.properties,
            permissions: self.permissions,
            control: self.control,
            write_callback: self.write_callback,
            descriptors: copy_descriptors(&self.descriptors),
            attribute_handle: self.attribute_handle,
            internal_value: copy_bytes(&self.internal_value),
        }
    }

    /// Sets the name, used for diagnostics only.
    pub fn name(&mut self, name: &str) -> (r: &mut Self)
        ensures
            r@ == old(self)@,
            r.name matches Some(n) && n@ == name@,
            *final(self) == *final(r),
    {
        self.name = Some(name.to_owned());
        self
    }

    /// Sets the properties.
    pub fn properties(&mut self, properties: CharacteristicProperties) -> (r: &mut Self)
        ensures
            *r == (Characteristic { properties, ..*old(self) }),
            *final(self) == *final(r),
    {
        self.properties = properties;
        self
    }

    /// Sets the access rights.
    pub fn permissions(&mut self, permissions: AttributePermissions) -> (r: &mut Self)
        ensures
            *r == (Characteristic { permissions, ..*old(self) }),
            *final(self) == *final(r),
    {
        self.permissions = permissions;
        self
    }

    /// Hands every read to the host's read callback.
    pub fn on_read(&mut self) -> (r: &mut Self)
        ensures
            *r == (Characteristic { control: AttributeControl::ResponseByApp, ..*old(self) }),
            *final(self) == *final(r),
    {
        self.control = AttributeControl::ResponseByApp;
        self
    }

    /// Hands every write to the host's write callback.
    pub fn on_write(&mut self) -> (r: &mut Self)
        ensures
            *r == (Characteristic { write_callback: true, ..*old(self) }),
            *final(self) == *final(r),
    {
        self.write_callback = true;
        self
    }

    /// Sets the value that the server holds.
    pub fn set_value(&mut self, value: Vec<u8>) -> (r: &mut Self)
        ensures
            *r == (Characteristic { internal_value: value, ..*old(self) }),
            *final(self) == *final(r),
    {
        self.internal_value = value;
        self
    }

    /// Appends a copy of `descriptor` to the descriptors.
    pub fn descriptor(&mut self, descriptor: &Descriptor) -> (r: &mut Self)
        ensures
            r@ == (CharacteristicView {
                descriptors: old(self)@.descriptors.push(descriptor@),
                ..old(self)@
            }),
            *final(self) == *final(r),
    {
        let d = descriptor.build();
        self.descriptors.push(d);
        assert(descriptor_views(self.descriptors@) =~= old(self)@.descriptors.push(descriptor@));
        self
    }
}

} // verus!
