//! The registration sequence: each confirmation that the controller reports
//! records a handle in the tree and yields the commands that come next.
//!
//! Characteristics of a service are registered strictly one at a time: the
//! next is asked for only once the previous one has its handle, so a failed
//! registration leaves the rest of the service unregistered. Descriptors of
//! a registered characteristic are asked for all at once, and their
//! confirmations are matched in the order in which they were asked for.
use vstd::prelude::*;
use crate::uuid::BleUuid;
use crate::attributes::DescriptorView;
use crate::characteristic::CharacteristicView;
use crate::service::ServiceView;
use crate::profile::{
    Profile, ProfileView, service_at, unregistered_service, profile_handles_kept,
    lemma_profile_kept_refl, lemma_profile_kept_update,
};
use crate::resolve::{is_first, none_match, lemma_first_unique};
use crate::event::{AttributeRef, GattCommand};

verus! {

/// `sv` once the controller confirmed its creation at `handle`: the first
/// characteristic, if any, is asked for.
pub open spec fn service_created(sv: ServiceView, handle: u16) -> ServiceView {
    let any = sv.characteristics.len() > 0;
    ServiceView {
        handle: Some(handle),
        characteristics_issued: if any { 1 } else { 0 },
        characteristic_in_flight: any,
        ..sv
    }
}

/// The commands that follow the creation of service `s` of profile `p` at `handle`.
pub open spec fn service_created_commands(sv: ServiceView, p: usize, s: usize, handle: u16) -> Seq<
    GattCommand,
> {
    let start = seq![GattCommand::StartService { service_handle: handle }];
    if sv.characteristics.len() > 0 {
        start.push(
            GattCommand::AddCharacteristic {
                service_handle: handle,
                target: AttributeRef::Characteristic { profile: p, service: s, characteristic: 0 },
            },
        )
    } else {
        start
    }
}

/// The service waits for the confirmation of a characteristic of type `uuid`.
pub open spec fn awaits_characteristic(sv: ServiceView, uuid: BleUuid) -> bool {
    &&& sv.characteristic_in_flight
    &&& 0 < sv.characteristics_issued <= sv.characteristics.len()
    &&& sv.characteristics[sv.characteristics_issued - 1].uuid == uuid
    &&& sv.characteristics[sv.characteristics_issued - 1].attribute_handle is None
}

/// `sv` once the awaited characteristic is confirmed. On success it takes
/// `handle` and the next characteristic, if any, is asked for. On failure it
/// stays without a handle, and as the next one may only follow a registered
/// one, no further characteristic of the service is asked for.
pub open spec fn characteristic_confirmed(sv: ServiceView, success: bool, handle: u16) -> ServiceView {
    let k = sv.characteristics_issued - 1;
    let more = success && sv.characteristics_issued < sv.characteristics.len();
    ServiceView {
        characteristics: if success {
            sv.characteristics.update(
                k,
                CharacteristicView { attribute_handle: Some(handle), ..sv.characteristics[k] },
            )
        } else {
            sv.characteristics
        },
        characteristics_issued: if more {
            sv.characteristics_issued + 1
        } else {
            sv.characteristics_issued
        },
        characteristic_in_flight: more,
        ..sv
    }
}

/// The commands that follow the confirmation of the awaited characteristic of
/// service `s` of profile `p`: if it was registered, its descriptors in
/// declared order, then the next characteristic, if any; nothing otherwise.
pub open spec fn characteristic_confirmed_commands(
    sv: ServiceView,
    p: usize,
    s: usize,
    service_handle: u16,
    success: bool,
) -> Seq<GattCommand> {
    let k = sv.characteristics_issued - 1;
    let descriptors = if success {
        Seq::new(
            sv.characteristics[k].descriptors.len(),
            |j: int|
                GattCommand::AddDescriptor {
                    service_handle,
                    target: AttributeRef::Descriptor {
                        profile: p,
                        service: s,
                        characteristic: k as usize,
                        descriptor: j as usize,
                    },
                },
        )
    } else {
        Seq::empty()
    };
    if success && sv.characteristics_issued < sv.characteristics.len() {
        descriptors.push(
            GattCommand::AddCharacteristic {
                service_handle,
                target: AttributeRef::Characteristic {
                    profile: p,
                    service: s,
                    characteristic: sv.characteristics_issued as usize,
                },
            },
        )
    } else {
        descriptors
    }
}

/// The descriptor has type `uuid` and is not registered yet.
pub open spec fn unassigned_descriptor(uuid: BleUuid) -> spec_fn(DescriptorView) -> bool {
    |d: DescriptorView| d.uuid == uuid && d.attribute_handle is None
}

/// The characteristic holds a descriptor of type `uuid` that is not registered yet.
pub open spec fn holds_unassigned(uuid: BleUuid) -> spec_fn(CharacteristicView) -> bool {
    |c: CharacteristicView|
        exists|d: int| 0 <= d < c.descriptors.len() && unassigned_descriptor(uuid)(#[trigger] c.descriptors[d])
}

/// `sv` once descriptor `d` of characteristic `c` is registered at `handle`.
pub open spec fn descriptor_registered(sv: ServiceView, c: int, d: int, handle: u16) -> ServiceView {
    let cv = sv.characteristics[c];
    ServiceView {
        characteristics: sv.characteristics.update(
            c,
            CharacteristicView {
                descriptors: cv.descriptors.update(
                    d,
                    DescriptorView { attribute_handle: Some(handle), ..cv.descriptors[d] },
                ),
                ..cv
            },
        ),
        ..sv
    }
}

/// What handling a service creation confirmation does to a profile.
pub open spec fn create_effect(
    old: ProfileView,
    new: ProfileView,
    p: usize,
    success: bool,
    uuid: BleUuid,
    service_handle: u16,
    r: Seq<GattCommand>,
) -> bool {
    &&& forall|i: int| 0 <= i < r.len()
        ==> (#[trigger] r[i] is StartService || r[i] is AddCharacteristic)
    &&& new.identifier == old.identifier
    &&& new.interface == old.interface
    &&& !success || none_match(old.services, unregistered_service(uuid)) ==> {
        &&& new == old
        &&& r == Seq::<GattCommand>::empty()
    }
    &&& forall|s: int|
        success && is_first(old.services, unregistered_service(uuid), s) ==> {
            &&& new.services == old.services.update(
                s,
                service_created(old.services[s], service_handle),
            )
            &&& r == service_created_commands(
                old.services[s],
                p,
                s as usize,
                service_handle,
            )
        }
}

/// What handling a characteristic confirmation does to a profile.
pub open spec fn char_add_effect(
    old: ProfileView,
    new: ProfileView,
    p: usize,
    success: bool,
    service_handle: u16,
    uuid: BleUuid,
    attr_handle: u16,
    r: Seq<GattCommand>,
) -> bool {
    &&& forall|i: int| 0 <= i < r.len()
        ==> (#[trigger] r[i] is AddDescriptor || r[i] is AddCharacteristic)
    &&& new.identifier == old.identifier
    &&& new.interface == old.interface
    &&& none_match(old.services, service_at(service_handle)) ==> {
        &&& new == old
        &&& r == Seq::<GattCommand>::empty()
    }
    &&& forall|s: int|
        is_first(old.services, service_at(service_handle), s) ==> {
            &&& !awaits_characteristic(old.services[s], uuid) ==> {
                &&& new == old
                &&& r == Seq::<GattCommand>::empty()
            }
            &&& awaits_characteristic(old.services[s], uuid) ==> {
                &&& new.services == old.services.update(
                    s,
                    characteristic_confirmed(old.services[s], success, attr_handle),
                )
                &&& r == characteristic_confirmed_commands(
                    old.services[s],
                    p,
                    s as usize,
                    service_handle,
                    success,
                )
            }
        }
}

/// What handling a descriptor confirmation does to a profile.
pub open spec fn char_add_descr_effect(
    old: ProfileView,
    new: ProfileView,
    success: bool,
    service_handle: u16,
    uuid: BleUuid,
    attr_handle: u16,
) -> bool {
    &&& new.identifier == old.identifier
    &&& new.interface == old.interface
    &&& !success || none_match(old.services, service_at(service_handle))
        ==> new == old
    &&& forall|s: int|
        is_first(old.services, service_at(service_handle), s) && none_match(
            old.services[s].characteristics,
            holds_unassigned(uuid),
        ) ==> new == old
    &&& forall|s: int, c: int, d: int|
        success && is_first(old.services, service_at(service_handle), s)
            && is_first(old.services[s].characteristics, holds_unassigned(uuid), c)
            && is_first(
            old.services[s].characteristics[c].descriptors,
            unassigned_descriptor(uuid),
            d,
        ) ==> new.services == old.services.update(
            s,
            descriptor_registered(old.services[s], c, d, attr_handle),
        )
}

impl Profile {
    /// Handles the confirmation that a service of type `uuid` was created at
    /// `service_handle`. The first service of that type without a handle takes
    /// it; the service is then started and its first characteristic asked for.
    /// `p` is this profile's position in its server.
    pub fn on_create(&mut self, p: usize, success: bool, uuid: BleUuid, service_handle: u16) -> (r:
        Vec<GattCommand>)
        ensures
            create_effect(old(self)@, final(self)@, p, success, uuid, service_handle, r@),
            profile_handles_kept(old(self)@, final(self)@),

    {
        let mut r: Vec<GattCommand> = Vec::new();
        if !success {
            return r;
        }
        let found = self.get_service_by_id(uuid);
        let s = match found {
            Some(s) => s,
            None => {
                return r;
            },
        };
        let ghost old_services = self@.services;
        let any = self.services[s].characteristics.len() > 0;
        self.services[s].handle = Some(service_handle);
        self.services[s].characteristics_issued = if any { 1 } else { 0 };
        self.services[s].characteristic_in_flight = any;
        r.push(GattCommand::StartService { service_handle });
        if any {
            r.push(
                GattCommand::AddCharacteristic {
                    service_handle,
                    target: AttributeRef::Characteristic {
                        profile: p,
                        service: s,
                        characteristic: 0,
                    },
                },
            );
        }
        assert(self@.services =~= old_services.update(
            s as int,
            service_created(old_services[s as int], service_handle),
        ));
        assert(r@ =~= service_created_commands(old_services[s as int], p, s, service_handle));
        r
    }

    /// Handles the confirmation that a characteristic of type `uuid` was added
    /// to the service at `service_handle`. It answers the characteristic that
    /// the service awaits, if that one has this type; otherwise it is dropped.
    pub fn on_char_add(
        &mut self,
        p: usize,
        success: bool,
        service_handle: u16,
        uuid: BleUuid,
        attr_handle: u16,
    ) -> (r: Vec<GattCommand>)
        ensures
            char_add_effect(old(self)@, final(self)@, p, success, service_handle, uuid, attr_handle, r@),
            profile_handles_kept(old(self)@, final(self)@),

    {
        let mut r: Vec<GattCommand> = Vec::new();
        let s = match self.get_service(service_handle) {
            Some(s) => s,
            None => {
                return r;
            },
        };
        let issued = self.services[s].characteristics_issued;
        let len = self.services[s].characteristics.len();
        if !self.services[s].characteristic_in_flight || issued == 0 || issued > len {
            return r;
        }
        let k = issued - 1;
        if self.services[s].characteristics[k].uuid != uuid
            || self.services[s].characteristics[k].attribute_handle.is_some() {
            return r;
        }
        let ghost old_services = self@.services;
        let ghost sv = old_services[s as int];
        if success {
            self.services[s].characteristics[k].attribute_handle = Some(attr_handle);
            let n = self.services[s].characteristics[k].descriptors.len();
            let mut j: usize = 0;
            while j < n
                invariant
                    j <= n,
                    n == sv.characteristics[k as int].descriptors.len(),
                    r@.len() == j,
                    forall|t: int|
                        0 <= t < j ==> #[trigger] r@[t] == (GattCommand::AddDescriptor {
                            service_handle,
                            target: AttributeRef::Descriptor {
                                profile: p,
                                service: s,
                                characteristic: k,
                                descriptor: t as usize,
                            },
                        }),
                decreases n - j,
            {
                r.push(
                    GattCommand::AddDescriptor {
                        service_handle,
                        target: AttributeRef::Descriptor {
                            profile: p,
                            service: s,
                            characteristic: k,
                            descriptor: j,
                        },
                    },
                );
                j += 1;
            }
        }
        let more = success && issued < len;
        if more {
            r.push(
                GattCommand::AddCharacteristic {
                    service_handle,
                    target: AttributeRef::Characteristic {
                        profile: p,
                        service: s,
                        characteristic: issued,
                    },
                },
            );
            self.services[s].characteristics_issued = issued + 1;
        }
        self.services[s].characteristic_in_flight = more;
        assert(self@.services[s as int] =~= characteristic_confirmed(sv, success, attr_handle)) by {
            if success {
                assert(self@.services[s as int].characteristics =~= sv.characteristics.update(
                    k as int,
                    CharacteristicView {
                        attribute_handle: Some(attr_handle),
                        ..sv.characteristics[k as int]
                    },
                ));
            } else {
                assert(self@.services[s as int].characteristics =~= sv.characteristics);
            }
        }
        assert(self@.services =~= old_services.update(
            s as int,
            characteristic_confirmed(sv, success, attr_handle),
        ));
        assert(r@ =~= characteristic_confirmed_commands(sv, p, s, service_handle, success));
        r
    }

    /// Handles the confirmation that a descriptor of type `uuid` was added to
    /// the service at `service_handle`. Its handle goes to the first descriptor
    /// of that type without a handle, in declared order over the service's
    /// characteristics: confirmations come in the order of the requests.
    pub fn on_char_add_descr(
        &mut self,
        success: bool,
        service_handle: u16,
        uuid: BleUuid,
        attr_handle: u16,
    )
        ensures
            char_add_descr_effect(old(self)@, final(self)@, success, service_handle, uuid, attr_handle),
            profile_handles_kept(old(self)@, final(self)@),

    {
        if !success {
            return;
        }
        let s = match self.get_service(service_handle) {
            Some(s) => s,
            None => {
                return;
            },
        };
        let ghost old_services = self@.services;
        let ghost sv = old_services[s as int];
        let nc = self.services[s].characteristics.len();
        let mut c: usize = 0;
        while c < nc
            invariant
                self@.services == old_services,
                old_services == old(self)@.services,
                success,
                self.identifier == old(self).identifier,
                self.interface == old(self).interface,
                sv == old_services[s as int],
                is_first(old_services, service_at(service_handle), s as int),
                s < old_services.len(),
                nc == sv.characteristics.len(),
                c <= nc,
                forall|j: int| 0 <= j < c ==> !holds_unassigned(uuid)(#[trigger] sv.characteristics[j]),
            decreases nc - c,
        {
            let nd = self.services[s].characteristics[c].descriptors.len();
            let mut d: usize = 0;
            while d < nd
                invariant
                    self@.services == old_services,
                    old_services == old(self)@.services,
                    success,
                    self.identifier == old(self).identifier,
                    self.interface == old(self).interface,
                    sv == old_services[s as int],
                    is_first(old_services, service_at(service_handle), s as int),
                    s < old_services.len(),
                    nc == sv.characteristics.len(),
                    c < nc,
                    nd == sv.characteristics[c as int].descriptors.len(),
                    d <= nd,
                    forall|j: int| 0 <= j < c ==> !holds_unassigned(uuid)(#[trigger] sv.characteristics[j]),
                    forall|t: int|
                        0 <= t < d ==> !unassigned_descriptor(uuid)(
                            #[trigger] sv.characteristics[c as int].descriptors[t],
                        ),
                decreases nd - d,
            {
                if self.services[s].characteristics[c].descriptors[d].uuid == uuid
                    && self.services[s].characteristics[c].descriptors[d].attribute_handle.is_none() {
                    self.services[s].characteristics[c].descriptors[d].attribute_handle = Some(attr_handle);
                    proof {
                        let cv = sv.characteristics[c as int];
                        assert(holds_unassigned(uuid)(cv)) by {
                            assert(unassigned_descriptor(uuid)(cv.descriptors[d as int]));
                        }
                        assert(service_at(service_handle)(old_services[s as int]));
                        assert forall|s2: int|
                            is_first(old_services, service_at(service_handle), s2) implies s2
                            == s as int by {
                            lemma_first_unique(old_services, service_at(service_handle), s2, s as int);
                        }
                        assert(self@.services[s as int].characteristics[c as int].descriptors
                            =~= cv.descriptors.update(
                            d as int,
                            DescriptorView {
                                attribute_handle: Some(attr_handle),
                                ..cv.descriptors[d as int]
                            },
                        ));
                        assert(self@.services[s as int].characteristics =~= descriptor_registered(
                            sv,
                            c as int,
                            d as int,
                            attr_handle,
                        ).characteristics);
                        assert(self@.services =~= old_services.update(
                            s as int,
                            descriptor_registered(sv, c as int, d as int, attr_handle),
                        ));
                    }
                    return;
                }
                d += 1;
            }
            c += 1;
        }
    }
}

} // verus!
