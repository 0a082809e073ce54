use vstd::prelude::*;
use crate::uuid::BleUuid;
use crate::attributes::copy_name;
use crate::resolve::finds_first;
use crate::service::{Service, ServiceView};
use crate::event::GattCommand;

verus! {

/// The handle budget asked for each service when it is created.
pub const SERVICE_HANDLE_BUDGET: u16 = 256;

/// A profile (an "application" of the controller): a group of services
/// registered under one application identifier.
#[derive(Debug)]
pub struct Profile {
    pub name: Option<String>,
    pub services: Vec<Service>,
    /// Chosen by the application; unique within a server.
    pub identifier: u16,
    /// Assigned by the controller when the profile is registered.
    pub interface: Option<u8>,
}

/// What a profile is, apart from its diagnostic name.
pub struct ProfileView {
    pub identifier: u16,
    pub interface: Option<u8>,
    pub services: Seq<ServiceView>,
}

pub open spec fn service_views(ss: Seq<Service>) -> Seq<ServiceView> {
    ss.map_values(|s: Service| s@)
}

impl View for Profile {
    type V = ProfileView;

    open spec fn view(&self) -> ProfileView {
        ProfileView {
            identifier: self.identifier,
            interface: self.interface,
            services: service_views(self.services@),
        }
    }
}

/// The service is registered at `handle`.
pub open spec fn service_at(handle: u16) -> spec_fn(ServiceView) -> bool {
    |s: ServiceView| s.handle == Some(handle)
}

/// The service has type `uuid` and is not registered yet.
pub open spec fn unregistered_service(uuid: BleUuid) -> spec_fn(ServiceView) -> bool {
    |s: ServiceView| s.uuid == uuid && s.handle is None
}

/// The commands that ask the controller to create each service of a profile
/// registered on `interface`, in declared order.
pub open spec fn is_service_creation(
    cmds: Seq<GattCommand>,
    services: Seq<ServiceView>,
    interface: u8,
) -> bool {
    &&& cmds.len() == services.len()
    &&& forall|i: int|
        0 <= i < cmds.len() ==> #[trigger] cmds[i] == (GattCommand::CreateService {
            interface,
            uuid: services[i].uuid,
            primary: services[i].primary,
            num_handles: SERVICE_HANDLE_BUDGET,
        })
}

/// Every handle that `o` holds is still in `n`: the shape is the same, and a
/// handle once set does not change.
pub open spec fn service_handles_kept(o: ServiceView, n: ServiceView) -> bool {
    &&& o.handle is Some ==> n.handle == o.handle
    &&& n.characteristics.len() == o.characteristics.len()
    &&& forall|c: int|
        0 <= c < o.characteristics.len() ==> {
            let oc = #[trigger] o.characteristics[c];
            let nc = n.characteristics[c];
            &&& oc.attribute_handle is Some ==> nc.attribute_handle == oc.attribute_handle
            &&& nc.descriptors.len() == oc.descriptors.len()
            &&& forall|d: int|
                0 <= d < oc.descriptors.len() && (#[trigger] oc.descriptors[d]).attribute_handle is Some
                    ==> nc.descriptors[d].attribute_handle == oc.descriptors[d].attribute_handle
        }
}

/// Every handle that profile `o` holds is still in `n`.
pub open spec fn profile_handles_kept(o: ProfileView, n: ProfileView) -> bool {
    &&& n.services.len() == o.services.len()
    &&& forall|s: int| 0 <= s < o.services.len() ==> service_handles_kept(#[trigger] o.services[s], n.services[s])
}

pub proof fn lemma_service_kept_refl(sv: ServiceView)
    ensures
        service_handles_kept(sv, sv),
{
}

pub proof fn lemma_profile_kept_refl(pv: ProfileView)
    ensures
        profile_handles_kept(pv, pv),
{
}

/// Changing one service of a profile keeps the handles where that service keeps them.
pub proof fn lemma_profile_kept_update(pv: ProfileView, s: int, sv: ServiceView)
    requires
        0 <= s < pv.services.len(),
        service_handles_kept(pv.services[s], sv),
    ensures
        profile_handles_kept(pv, ProfileView { services: pv.services.update(s, sv), ..pv }),
{
    assert forall|t: int| 0 <= t < pv.services.len() implies service_handles_kept(
        #[trigger] pv.services[t],
        pv.services.update(s, sv)[t],
    ) by {
        if t != s {
            lemma_service_kept_refl(pv.services[t]);
        }
    }
}

pub(crate) fn copy_services(ss: &Vec<Service>) -> (r: Vec<Service>)
    ensures
        service_views(r@) == service_views(ss@),
{
    let mut r: Vec<Service> = Vec::new();
    let mut i: usize = 0;
    while i < ss.len()
        invariant
            i <= ss.len(),
            r@.len() == i,
            forall|j: int| 0 <= j < i ==> (#[trigger] r@[j])@ == ss@[j]@,
        decreases ss.len() - i,
    {
        r.push(ss[i].build());
        i += 1;
    }
    assert(service_views(r@) =~= service_views(ss@));
    r
}

impl Profile {
    /// A profile with the given application identifier, no service and no interface.
    pub fn new(identifier: u16) -> (r: Self)
        ensures
            r.name is None,
            r@ == (ProfileView { identifier, interface: None, services: Seq::empty() }),
    {
        let r = Profile { name: None, services: Vec::new(), identifier, interface: None };
        assert(service_views(r.services@) =~= Seq::empty());
        r
    }

    /// Sets the name, used for diagnostics only.
    pub fn name(&mut self, name: &str) -> (r: &mut Self)
        ensures
            r@ == old(self)@,
            r.name matches Some(n) && n@ == name@,
            *final(self) == *final(r),
    {
        self.name = Some(name.to_owned());
        self
    }

    /// Appends a copy of `service` to the services.
    pub fn service(&mut self, service: &Service) -> (r: &mut Self)
        ensures
            r@ == (ProfileView { services: old(self)@.services.push(service@), ..old(self)@ }),
            r.name == old(self).name,
            *final(self) == *final(r),
    {
        let s = service.build();
        self.services.push(s);
        assert(service_views(self.services@) =~= old(self)@.services.push(service@));
        self
    }

    /// An independent copy of this profile, to be handed to a server.
    pub fn build(&self) -> (r: Self)
        ensures
            r@ == self@,
    {
        Profile {
            name: copy_name(&self.name),
            services: copy_services(&self.services),
            identifier: self.identifier,
            interface: self.interface,
        }
    }

    /// The index of the first service registered at `handle`.
    pub fn get_service(&self, handle: u16) -> (r: Option<usize>)
        ensures
            finds_first(self@.services, service_at(handle), r),
    {
        let mut i: usize = 0;
        while i < self.services.len()
            invariant
                i <= self.services@.len(),
                forall|j: int|
                    0 <= j < i ==> !service_at(handle)(#[trigger] service_views(self.services@)[j]),
            decreases self.services.len() - i,
        {
            if self.services[i].handle == Some(handle) {
                return Some(i);
            }
            i += 1;
        }
        None
    }

    /// The index of the first service of type `uuid` that is not registered yet.
    pub fn get_service_by_id(&self, uuid: BleUuid) -> (r: Option<usize>)
        ensures
            finds_first(self@.services, unregistered_service(uuid), r),
    {
        let mut i: usize = 0;
        while i < self.services.len()
            invariant
                i <= self.services@.len(),
                forall|j: int|
                    0 <= j < i ==> !unregistered_service(uuid)(
                        #[trigger] service_views(self.services@)[j],
                    ),
            decreases self.services.len() - i,
        {
            if self.services[i].uuid == uuid && self.services[i].handle.is_none() {
                return Some(i);
            }
            i += 1;
        }
        None
    }

    /// The command that registers this profile.
    pub fn register_self(&self) -> (r: GattCommand)
        ensures
            r == (GattCommand::RegisterApp { app_id: self.identifier }),
    {
        GattCommand::RegisterApp { app_id: self.identifier }
    }

    /// The commands that create each service, once the profile is registered on `interface`.
    pub fn register_services(&self, interface: u8) -> (r: Vec<GattCommand>)
        ensures
            is_service_creation(r@, self@.services, interface),
    {
        let mut r: Vec<GattCommand> = Vec::new();
        let mut i: usize = 0;
        while i < self.services.len()
            invariant
                i <= self.services@.len(),
                is_service_creation(r@, self@.services.subrange(0, i as int), interface),
            decreases self.services.len() - i,
        {
            r.push(
                GattCommand::CreateService {
                    interface,
                    uuid: self.services[i].uuid,
                    primary: self.services[i].primary,
                    num_handles: SERVICE_HANDLE_BUDGET,
                },
            );
            i += 1;
        }
        assert(self@.services.subrange(0, i as int) =~= self@.services);
        r
    }
}

} // verus!
