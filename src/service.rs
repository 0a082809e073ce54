use vstd::prelude::*;
use crate::uuid::BleUuid;
use crate::attributes::copy_name;
use crate::resolve::finds_first;
use crate::characteristic::{Characteristic, CharacteristicView};

verus! {

/// A GATT service: an ordered list of characteristics.
#[derive(Debug)]
pub struct Service {
    pub name: Option<String>,
    pub uuid: BleUuid,
    pub characteristics: Vec<Characteristic>,
    pub primary: bool,
    /// Set by the controller's confirmation; absent until then.
    pub handle: Option<u16>,
    /// How many characteristic registrations have been issued so far.
    pub characteristics_issued: usize,
    /// Whether the last issued characteristic registration is still unconfirmed.
    pub characteristic_in_flight: bool,
}

/// What a service is, apart from its diagnostic name.
pub struct ServiceView {
    pub uuid: BleUuid,
    pub primary: bool,
    pub handle: Option<u16>,
    pub characteristics: Seq<CharacteristicView>,
    pub characteristics_issued: nat,
    pub characteristic_in_flight: bool,
}

pub open spec fn characteristic_views(cs: Seq<Characteristic>) -> Seq<CharacteristicView> {
    cs.map_values(|c: Characteristic| c@)
}

impl View for Service {
    type V = ServiceView;

    open spec fn view(&self) -> ServiceView {
        ServiceView {
            uuid: self.uuid,
            primary: self.primary,
            handle: self.handle,
            characteristics: characteristic_views(self.characteristics@),
            characteristics_issued: self.characteristics_issued as nat,
            characteristic_in_flight: self.characteristic_in_flight,
        }
    }
}

/// The characteristic is registered at `handle`.
pub open spec fn char_at(handle: u16) -> spec_fn(CharacteristicView) -> bool {
    |c: CharacteristicView| c.attribute_handle == Some(handle)
}

pub(crate) fn copy_characteristics(cs: &Vec<Characteristic>) -> (r: Vec<Characteristic>)
    ensures
        characteristic_views(r@) == characteristic_views(cs@),
{
    let mut r: Vec<Characteristic> = Vec::new();
    let mut i: usize = 0;
    while i < cs.len()
        invariant
            i <= cs.len(),
            r@.len() == i,
            forall|j: int| 0 <= j < i ==> (#[trigger] r@[j])@ == cs@[j]@,
        decreases cs.len() - i,
    {
        r.push(cs[i].build());
        i += 1;
    }
    assert(characteristic_views(r@) =~= characteristic_views(cs@));
    r
}

impl Service {
    /// A secondary service of the given type, with no characteristic and no handle.
    pub fn new(uuid: BleUuid) -> (r: Self)
        ensures
            r.name is None,
            r@ == (ServiceView {
                uuid,
                primary: false,
                handle: None,
                characteristics: Seq::empty(),
                characteristics_issued: 0,
                characteristic_in_flight: false,
            }),
    {
        let r = Service {
            name: None,
            uuid,
            characteristics: Vec::new(),
            primary: false,
            handle: None,
            characteristics_issued: 0,
            characteristic_in_flight: false,
        };
        assert(characteristic_views(r.characteristics@) =~= Seq::empty());
        r
    }

    /// Sets the name, used for diagnostics only.
    pub fn name(&mut self, name: &str) -> (r: &mut Self)
        ensures
            r@ == old(self)@,
            r.name matches Some(n) && n@ == name@,
            *final(self) == *final(r),
    {
        self.name = Some(name.to_owned());
        self
    }

    /// Makes the service primary, so that clients find it by discovery.
    pub fn primary(&mut self) -> (r: &mut Self)
        ensures
            *r == (Service { primary: true, ..*old(self) }),
            *final(self) == *final(r),
    {
        self.primary = true;
        self
    }

    /// Appends a copy of `characteristic` to the characteristics.
    pub fn characteristic(&mut self, characteristic: &Characteristic) -> (r: &mut Self)
        ensures
            r@ == (ServiceView {
                characteristics: old(self)@.characteristics.push(characteristic@),
                ..old(self)@
            }),
            r.name == old(self).name,
            *final(self) == *final(r),
    {
        let c = characteristic.build();
        self.characteristics.push(c);
        assert(characteristic_views(self.characteristics@) =~= old(self)@.characteristics.push(
            characteristic@,
        ));
        self
    }

    /// An independent copy of this service, to be added to a profile.
    pub fn build(&self) -> (r: Self)
        ensures
            r@ == self@,
    {
        Service {
            name: copy_name(&self.name),
            uuid: self.uuid,
            characteristics: copy_characteristics(&self.characteristics),
            primary: self.primary,
            handle: self.handle,
            characteristics_issued: self.characteristics_issued,
            characteristic_in_flight: self.characteristic_in_flight,
        }
    }

    /// The index of the first characteristic registered at `handle`.
    pub fn get_characteristic_by_handle(&self, handle: u16) -> (r: Option<usize>)
        ensures
            finds_first(self@.characteristics, char_at(handle), r),
    {
        let mut i: usize = 0;
        while i < self.characteristics.len()
            invariant
                i <= self.characteristics@.len(),
                forall|j: int|
                    0 <= j < i ==> (#[trigger] self.characteristics@[j]).attribute_handle != Some(
                        handle,
                    ),
            decreases self.characteristics.len() - i,
        {
            if self.characteristics[i].attribute_handle == Some(handle) {
                proof {
                    let cs = self@.characteristics;
                    assert forall|j: int| 0 <= j < i implies !char_at(handle)(#[trigger] cs[j]) by {
                        assert(cs[j] == self.characteristics@[j]@);
                    }
                }
                return Some(i);
            }
            i += 1;
        }
        None
    }
}

} // verus!
