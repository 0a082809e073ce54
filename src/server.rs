//! The server: the profiles it registers, the active connections, and the
//! router that every controller event goes through.
use vstd::prelude::*;
use crate::uuid::BleUuid;
use crate::characteristic::{Characteristic, CharacteristicView};
use crate::attributes::DescriptorView;
use crate::service::char_at;
use crate::profile::{
    Profile, ProfileView, is_service_creation, service_at, profile_handles_kept,
    lemma_profile_kept_refl, lemma_service_kept_refl,
};
use crate::registration::{char_add_descr_effect, char_add_effect, create_effect};
use crate::routing::{read_effect, write_effect};
use crate::resolve::{finds_first, is_first, none_match, lemma_first_unique, lemma_first_exists};
use crate::connections::{has_conn, ids_unique, insert_connection, remove_connection};
use crate::event::{AttributeRef, CccdRead, Connection, GattCommand, GattsEvent};
use crate::notify::{CccdReading, Push, notifications, pushes, reading_views};

verus! {

/// A GATT server: its profiles, the connections open now, and whether the
/// one-time device setup has been asked for.
#[derive(Debug)]
pub struct GattServer {
    pub device_name: String,
    pub profiles: Vec<Profile>,
    pub active_connections: Vec<Connection>,
    pub advertisement_configured: bool,
}

/// What a server is, apart from its device name.
pub struct GattServerView {
    pub profiles: Seq<ProfileView>,
    pub connections: Seq<Connection>,
    pub advertisement_configured: bool,
}

pub open spec fn profile_views(ps: Seq<Profile>) -> Seq<ProfileView> {
    ps.map_values(|p: Profile| p@)
}

impl View for GattServer {
    type V = GattServerView;

    open spec fn view(&self) -> GattServerView {
        GattServerView {
            profiles: profile_views(self.profiles@),
            connections: self.active_connections@,
            advertisement_configured: self.advertisement_configured,
        }
    }
}

/// The profile is registered on `interface`.
pub open spec fn on_interface(interface: u8) -> spec_fn(ProfileView) -> bool {
    |pv: ProfileView| pv.interface == Some(interface)
}

/// The profile has application identifier `app_id`.
pub open spec fn app_is(app_id: u16) -> spec_fn(ProfileView) -> bool {
    |pv: ProfileView| pv.identifier == app_id
}

/// No two profiles are registered on the same interface.
pub open spec fn interfaces_unique(ps: Seq<ProfileView>) -> bool {
    forall|p: int, q: int|
        0 <= p < ps.len() && 0 <= q < ps.len() && p != q && (#[trigger] ps[p]).interface is Some
            ==> (#[trigger] ps[q]).interface != ps[p].interface
}

/// A profile other than `p` is registered on `interface`.
pub open spec fn interface_taken(ps: Seq<ProfileView>, p: int, interface: u8) -> bool {
    exists|q: int| 0 <= q < ps.len() && q != p && (#[trigger] ps[q]).interface == Some(interface)
}

/// The one-time device setup: name, advertising payload, scan response payload;
/// nothing once it was done.
pub open spec fn device_setup(configured: bool) -> Seq<GattCommand> {
    if configured {
        Seq::empty()
    } else {
        seq![
            GattCommand::SetDeviceName,
            GattCommand::ConfigAdvertisingData,
            GattCommand::ConfigScanResponseData,
        ]
    }
}

/// The descriptor is a Client Characteristic Configuration descriptor.
pub open spec fn is_cccd_descriptor() -> spec_fn(DescriptorView) -> bool {
    |d: DescriptorView| d.uuid == BleUuid::Uuid16(crate::uuid::CCCD_UUID16)
}

/// The handle of the first configuration descriptor of `cv`, if it has one.
pub open spec fn cccd_handle_of(cv: CharacteristicView) -> Option<u16> {
    if exists|d: int| is_first(cv.descriptors, is_cccd_descriptor(), d) {
        cv.descriptors[choose|d: int| is_first(cv.descriptors, is_cccd_descriptor(), d)].attribute_handle
    } else {
        None
    }
}

/// One read of the configuration descriptor at `cccd` per active connection.
pub open spec fn subscription_reads(conns: Seq<Connection>, cccd: Option<u16>) -> Seq<CccdRead> {
    match cccd {
        Some(h) => conns.map_values(
            |c: Connection| CccdRead { conn_id: c.id, remote_bda: c.remote_bda, cccd_handle: h },
        ),
        None => Seq::empty(),
    }
}

pub open spec fn connect_effect(
    old: GattServerView,
    new: GattServerView,
    conn_id: u16,
    remote_bda: [u8; 6],
    r: Seq<GattCommand>,
) -> bool {
    &&& new.profiles == old.profiles
    &&& new.advertisement_configured == old.advertisement_configured
    &&& forall|x: u16| has_conn(new.connections, x) <==> (has_conn(old.connections, x) || x == conn_id)
    &&& forall|k: int|
        0 <= k < new.connections.len() && new.connections[k].id == conn_id ==> new.connections[k]
            == (Connection { id: conn_id, remote_bda })
    &&& forall|k: int|
        0 <= k < old.connections.len() && old.connections[k].id != conn_id
            ==> new.connections.contains(old.connections[k])
    &&& r == Seq::<GattCommand>::empty()
}

pub open spec fn disconnect_effect(
    old: GattServerView,
    new: GattServerView,
    conn_id: u16,
    r: Seq<GattCommand>,
) -> bool {
    &&& new.profiles == old.profiles
    &&& new.advertisement_configured == old.advertisement_configured
    &&& forall|x: u16| has_conn(new.connections, x) <==> (has_conn(old.connections, x) && x != conn_id)
    &&& forall|k: int|
        0 <= k < old.connections.len() && old.connections[k].id != conn_id
            ==> new.connections.contains(old.connections[k])
    &&& r == seq![GattCommand::StartAdvertising]
}

pub open spec fn register_effect(
    old: GattServerView,
    new: GattServerView,
    interface: u8,
    success: bool,
    app_id: u16,
    r: Seq<GattCommand>,
) -> bool {
    &&& new.connections == old.connections
    &&& !success || none_match(old.profiles, app_is(app_id)) ==> {
        &&& new == old
        &&& r == Seq::<GattCommand>::empty()
    }
    &&& forall|p: int|
        success && is_first(old.profiles, app_is(app_id), p) ==> {
            let k = device_setup(old.advertisement_configured).len() as int;
            &&& interface_taken(old.profiles, p, interface) ==> {
                &&& new == old
                &&& r == Seq::<GattCommand>::empty()
            }
            &&& !interface_taken(old.profiles, p, interface) ==> {
            &&& new.profiles == old.profiles.update(
                p,
                ProfileView { interface: Some(interface), ..old.profiles[p] },
            )
            &&& new.advertisement_configured
            &&& k <= r.len()
            &&& r.subrange(0, k) == device_setup(old.advertisement_configured)
            &&& is_service_creation(r.subrange(k, r.len() as int), old.profiles[p].services, interface)
            }
        }
}

pub open spec fn set_attr_val_effect(
    sv: GattServerView,
    interface: u8,
    service_handle: u16,
    attr_handle: u16,
    r: Seq<GattCommand>,
) -> bool {
    let ps = sv.profiles;
    &&& forall|i: int| 0 <= i < r.len() ==> #[trigger] r[i] is CheckSubscriptions
    &&& forall|p: int, s: int, c: int|
        is_first(ps, on_interface(interface), p) && is_first(
            ps[p].services,
            service_at(service_handle),
            s,
        ) && is_first(ps[p].services[s].characteristics, char_at(attr_handle), c) ==> {
            &&& r.len() == 1
            &&& r[0] matches GattCommand::CheckSubscriptions {
                target,
                interface: i,
                attr_handle: a,
                reads,
            }
            &&& target == AttributeRef::Characteristic {
                profile: p as usize,
                service: s as usize,
                characteristic: c as usize,
            }
            &&& i == interface
            &&& a == attr_handle
            &&& reads@ == subscription_reads(
                sv.connections,
                cccd_handle_of(ps[p].services[s].characteristics[c]),
            )
        }
    &&& (none_match(ps, on_interface(interface)) || forall|p: int|
        is_first(ps, on_interface(interface), p) ==> (none_match(
            ps[p].services,
            service_at(service_handle),
        ) || forall|s: int|
            is_first(ps[p].services, service_at(service_handle), s) ==> none_match(
                ps[p].services[s].characteristics,
                char_at(attr_handle),
            ))) ==> r == Seq::<GattCommand>::empty()
}

/// An event for the profiles registered on `interface` goes to each of them,
/// where `step` says what it does; without such a profile it is dropped. As
/// an interface belongs to one profile at most, the first profile on it is
/// the only one.
pub open spec fn forward_effect(
    old: GattServerView,
    new: GattServerView,
    interface: u8,
    r: Seq<GattCommand>,
    step: spec_fn(ProfileView, ProfileView, usize, Seq<GattCommand>) -> bool,
) -> bool {
    &&& new.connections == old.connections
    &&& new.advertisement_configured == old.advertisement_configured
    &&& none_match(old.profiles, on_interface(interface)) ==> {
        &&& new == old
        &&& r == Seq::<GattCommand>::empty()
    }
    &&& forall|p: int|
        is_first(old.profiles, on_interface(interface), p) ==> {
            &&& forall|q: int|
                0 <= q < old.profiles.len() && q != p ==> !on_interface(interface)(
                    #[trigger] old.profiles[q],
                )
            &&& new.profiles.len() == old.profiles.len()
            &&& forall|q: int|
                0 <= q < old.profiles.len() && q != p ==> new.profiles[q] == old.profiles[q]
            &&& step(old.profiles[p], new.profiles[p], p as usize, r)
        }
}

/// The characteristic that `target` names in `sv`, if any.
pub open spec fn characteristic_at(sv: GattServerView, target: AttributeRef) -> Option<
    CharacteristicView,
> {
    match target {
        AttributeRef::Characteristic { profile, service, characteristic } => {
            if profile < sv.profiles.len() && service < sv.profiles[profile as int].services.len()
                && characteristic < sv.profiles[profile as int].services[service as int].characteristics.len() {
                Some(
                    sv.profiles[profile as int].services[service as int].characteristics[characteristic as int],
                )
            } else {
                None
            }
        },
        AttributeRef::Descriptor { .. } => None,
    }
}

/// How one routed event bears on the device setup: once asked for it stays
/// done, and the name command comes first in the one answer that flips it.
pub open spec fn setup_step(configured: bool, configured_after: bool, r: Seq<GattCommand>) -> bool {
    &&& configured ==> configured_after
    &&& !configured && configured_after ==> r.len() > 0
    &&& forall|i: int|
        0 <= i < r.len() ==> ((#[trigger] r[i] is SetDeviceName) <==> (i == 0 && !configured
            && configured_after))
}

/// Every handle that server `o` holds is still in `n`: a handle, once set,
/// never changes, and the tree keeps its shape.
pub open spec fn handles_kept(o: GattServerView, n: GattServerView) -> bool {
    &&& n.profiles.len() == o.profiles.len()
    &&& forall|p: int|
        0 <= p < o.profiles.len() ==> profile_handles_kept(#[trigger] o.profiles[p], n.profiles[p])
}

proof fn lemma_kept_update(o: GattServerView, n: GattServerView, p: int)
    requires
        0 <= p < o.profiles.len(),
        n.profiles.len() == o.profiles.len(),
        forall|q: int| 0 <= q < o.profiles.len() && q != p ==> n.profiles[q] == o.profiles[q],
        profile_handles_kept(o.profiles[p], n.profiles[p]),
    ensures
        handles_kept(o, n),
{
    assert forall|q: int| 0 <= q < o.profiles.len() implies profile_handles_kept(
        #[trigger] o.profiles[q],
        n.profiles[q],
    ) by {
        if q != p {
            lemma_profile_kept_refl(o.profiles[q]);
        }
    }
}

proof fn lemma_interfaces_kept(o: GattServerView, n: GattServerView, p: int)
    requires
        interfaces_unique(o.profiles),
        0 <= p < o.profiles.len(),
        n.profiles.len() == o.profiles.len(),
        forall|q: int| 0 <= q < o.profiles.len() && q != p ==> n.profiles[q] == o.profiles[q],
        n.profiles[p].interface == o.profiles[p].interface,
    ensures
        interfaces_unique(n.profiles),
{
    assert forall|a: int, b: int|
        0 <= a < n.profiles.len() && 0 <= b < n.profiles.len() && a != b && (
        #[trigger] n.profiles[a]).interface is Some implies (#[trigger] n.profiles[b]).interface
        != n.profiles[a].interface by {
        assert(n.profiles[a].interface == o.profiles[a].interface);
        assert(n.profiles[b].interface == o.profiles[b].interface);
    }
}

proof fn lemma_kept_same(o: GattServerView, n: GattServerView)
    requires
        n.profiles == o.profiles,
    ensures
        handles_kept(o, n),
{
    assert forall|q: int| 0 <= q < o.profiles.len() implies profile_handles_kept(
        #[trigger] o.profiles[q],
        n.profiles[q],
    ) by {
        lemma_profile_kept_refl(o.profiles[q]);
    }
}

/// What the router does with `event`, reported on `interface`.
pub open spec fn event_effect(
    old: GattServerView,
    new: GattServerView,
    interface: u8,
    event: GattsEvent,
    r: Seq<GattCommand>,
) -> bool {
    match event {
        GattsEvent::Connect { conn_id, remote_bda } => connect_effect(old, new, conn_id, remote_bda, r),
        GattsEvent::Disconnect { conn_id, .. } => disconnect_effect(old, new, conn_id, r),
        GattsEvent::Register { success, app_id } => register_effect(
            old,
            new,
            interface,
            success,
            app_id,
            r,
        ),
        GattsEvent::SetAttrValue { service_handle, attr_handle, .. } => {
            &&& new == old
            &&& set_attr_val_effect(old, interface, service_handle, attr_handle, r)
        },
        GattsEvent::Create { success, service_uuid, service_handle } => forward_effect(
            old,
            new,
            interface,
            r,
            |o: ProfileView, n: ProfileView, p: usize, r: Seq<GattCommand>|
                create_effect(o, n, p, success, service_uuid, service_handle, r),
        ),
        GattsEvent::AddChar { success, service_handle, char_uuid, attr_handle } => forward_effect(
            old,
            new,
            interface,
            r,
            |o: ProfileView, n: ProfileView, p: usize, r: Seq<GattCommand>|
                char_add_effect(o, n, p, success, service_handle, char_uuid, attr_handle, r),
        ),
        GattsEvent::AddCharDescr { success, service_handle, descr_uuid, attr_handle } => forward_effect(
            old,
            new,
            interface,
            r,
            |o: ProfileView, n: ProfileView, p: usize, r: Seq<GattCommand>|
                char_add_descr_effect(o, n, success, service_handle, descr_uuid, attr_handle) && r
                    == Seq::<GattCommand>::empty(),
        ),
        GattsEvent::Write { conn_id, trans_id, remote_bda, handle, need_rsp, value } => forward_effect(
            old,
            new,
            interface,
            r,
            |o: ProfileView, n: ProfileView, p: usize, r: Seq<GattCommand>|
                n == o && write_effect(
                    o,
                    p,
                    interface,
                    conn_id,
                    trans_id,
                    remote_bda,
                    handle,
                    need_rsp,
                    value,
                    r,
                ),
        ),
        GattsEvent::Read { conn_id, trans_id, remote_bda, handle } => forward_effect(
            old,
            new,
            interface,
            r,
            |o: ProfileView, n: ProfileView, p: usize, r: Seq<GattCommand>|
                n == o && read_effect(o, p, interface, conn_id, trans_id, remote_bda, handle, r),
        ),
        _ => {
            &&& new == old
            &&& r == Seq::<GattCommand>::empty()
        },
    }
}

/// The handle of the first configuration descriptor of `c`, if it has one.
pub fn cccd_handle(c: &Characteristic) -> (r: Option<u16>)
    ensures
        r == cccd_handle_of(c@),
{
    let ghost ds = c@.descriptors;
    let mut d: usize = 0;
    while d < c.descriptors.len()
        invariant
            ds == c@.descriptors,
            d <= ds.len(),
            forall|j: int| 0 <= j < d ==> !is_cccd_descriptor()(#[trigger] ds[j]),
        decreases c.descriptors.len() - d,
    {
        if c.descriptors[d].uuid.is_cccd() {
            proof {
                assert(is_first(ds, is_cccd_descriptor(), d as int));
                let e = choose|e: int| is_first(ds, is_cccd_descriptor(), e);
                if e < d {
                    assert(!is_cccd_descriptor()(ds[e]));
                } else if e > d {
                    assert(!is_cccd_descriptor()(ds[d as int]));
                }
            }
            return c.descriptors[d].attribute_handle;
        }
        d += 1;
    }
    proof {
        if exists|e: int| is_first(ds, is_cccd_descriptor(), e) {
            let e = choose|e: int| is_first(ds, is_cccd_descriptor(), e);
            assert(!is_cccd_descriptor()(ds[e]));
        }
    }
    None
}

impl GattServer {
    /// The server's invariant: active connections are keyed by identifier, and
    /// each interface belongs to one profile at most.
    pub open spec fn wf(&self) -> bool {
        &&& ids_unique(self.active_connections@)
        &&& interfaces_unique(self@.profiles)
    }

    /// A server with no profile and no connection.
    pub fn new(device_name: &str) -> (r: Self)
        ensures
            r.wf(),
            r.device_name@ == device_name@,
            r@ == (GattServerView {
                profiles: Seq::empty(),
                connections: Seq::empty(),
                advertisement_configured: false,
            }),
    {
        let r = GattServer {
            device_name: device_name.to_owned(),
            profiles: Vec::new(),
            active_connections: Vec::new(),
            advertisement_configured: false,
        };
        assert(profile_views(r.profiles@) =~= Seq::empty());
        r
    }

    /// Appends a copy of `profile` to the profiles.
    pub fn profile(&mut self, profile: &Profile) -> (r: &mut Self)
        ensures
            r@ == (GattServerView { profiles: old(self)@.profiles.push(profile@), ..old(self)@ }),
            r.device_name == old(self).device_name,
            old(self).wf() && profile.interface is None ==> r.wf(),
            *final(self) == *final(r),
    {
        let p = profile.build();
        self.profiles.push(p);
        assert(profile_views(self.profiles@) =~= old(self)@.profiles.push(profile@));
        self
    }

    /// The commands that register every profile, in order.
    pub fn start(&self) -> (r: Vec<GattCommand>)
        ensures
            r@.len() == self@.profiles.len(),
            forall|i: int|
                0 <= i < r@.len() ==> #[trigger] r@[i] == (GattCommand::RegisterApp {
                    app_id: self@.profiles[i].identifier,
                }),
    {
        let mut r: Vec<GattCommand> = Vec::new();
        let mut i: usize = 0;
        while i < self.profiles.len()
            invariant
                i <= self@.profiles.len(),
                r@.len() == i,
                forall|j: int|
                    0 <= j < i ==> #[trigger] r@[j] == (GattCommand::RegisterApp {
                        app_id: self@.profiles[j].identifier,
                    }),
            decreases self.profiles.len() - i,
        {
            r.push(self.profiles[i].register_self());
            i += 1;
        }
        r
    }

    /// The position of the first profile registered on `interface`.
    pub fn get_profile(&self, interface: u8) -> (r: Option<usize>)
        ensures
            finds_first(self@.profiles, on_interface(interface), r),
    {
        let mut i: usize = 0;
        while i < self.profiles.len()
            invariant
                i <= self@.profiles.len(),
                forall|j: int| 0 <= j < i ==> !on_interface(interface)(#[trigger] self@.profiles[j]),
            decreases self.profiles.len() - i,
        {
            if self.profiles[i].interface == Some(interface) {
                return Some(i);
            }
            i += 1;
        }
        None
    }

    /// The position of the first profile with application identifier `app_id`.
    pub fn get_profile_by_app_id(&self, app_id: u16) -> (r: Option<usize>)
        ensures
            finds_first(self@.profiles, app_is(app_id), r),
    {
        let mut i: usize = 0;
        while i < self.profiles.len()
            invariant
                i <= self@.profiles.len(),
                forall|j: int| 0 <= j < i ==> !app_is(app_id)(#[trigger] self@.profiles[j]),
            decreases self.profiles.len() - i,
        {
            if self.profiles[i].identifier == app_id {
                return Some(i);
            }
            i += 1;
        }
        None
    }

    /// Whether a profile other than the one at `p` is registered on `interface`.
    pub fn interface_taken(&self, p: usize, interface: u8) -> (r: bool)
        ensures
            r == interface_taken(self@.profiles, p as int, interface),
    {
        let mut q: usize = 0;
        while q < self.profiles.len()
            invariant
                q <= self@.profiles.len(),
                forall|t: int|
                    0 <= t < q && t != p ==> (#[trigger] self@.profiles[t]).interface != Some(
                        interface,
                    ),
            decreases self.profiles.len() - q,
        {
            if q != p && self.profiles[q].interface == Some(interface) {
                assert(self@.profiles[q as int].interface == Some(interface));
                return true;
            }
            q += 1;
        }
        false
    }

    /// Handles a connection: it joins the active connections.
    pub fn on_connect(&mut self, conn_id: u16, remote_bda: [u8; 6]) -> (r: Vec<GattCommand>)
        requires
            old(self).wf(),
        ensures
            final(self).wf(),
            final(self).device_name == old(self).device_name,
            connect_effect(old(self)@, final(self)@, conn_id, remote_bda, r@),
    {
        insert_connection(&mut self.active_connections, Connection { id: conn_id, remote_bda });
        Vec::new()
    }

    /// Handles a disconnection: the connection leaves the active connections,
    /// whether or not its connection was seen, and advertising starts again.
    pub fn on_disconnect(&mut self, conn_id: u16) -> (r: Vec<GattCommand>)
        requires
            old(self).wf(),
        ensures
            final(self).wf(),
            final(self).device_name == old(self).device_name,
            disconnect_effect(old(self)@, final(self)@, conn_id, r@),
    {
        remove_connection(&mut self.active_connections, conn_id);
        let mut r: Vec<GattCommand> = Vec::new();
        r.push(GattCommand::StartAdvertising);
        r
    }

    /// Handles the confirmation that the profile with application identifier
    /// `app_id` was registered on `interface`. The first such registration
    /// also asks for the one-time device setup; then the profile's services
    /// are created. A registration on an interface that another profile
    /// already holds is malformed and dropped, so that each interface keeps
    /// one profile at most.
    pub fn on_register(&mut self, interface: u8, success: bool, app_id: u16) -> (r: Vec<
        GattCommand,
    >)
        requires
            old(self).wf(),
        ensures
            final(self).wf(),
            final(self).device_name == old(self).device_name,
            register_effect(old(self)@, final(self)@, interface, success, app_id, r@),
    {
        let mut r: Vec<GattCommand> = Vec::new();
        if !success {
            return r;
        }
        let p = match self.get_profile_by_app_id(app_id) {
            Some(p) => p,
            None => {
                return r;
            },
        };
        let ghost old_view = self@;
        if self.interface_taken(p, interface) {
            return r;
        }
        self.profiles[p].interface = Some(interface);
        if !self.advertisement_configured {
            r.push(GattCommand::SetDeviceName);
            r.push(GattCommand::ConfigAdvertisingData);
            r.push(GattCommand::ConfigScanResponseData);
            self.advertisement_configured = true;
        }
        let ghost k = r@.len();
        assert(r@ =~= device_setup(old_view.advertisement_configured));
        let mut creation = self.profiles[p].register_services(interface);
        assert(self@.profiles[p as int].services == old_view.profiles[p as int].services);
        let ghost created = creation@;
        r.append(&mut creation);
        assert(r@.subrange(0, k as int) =~= device_setup(old_view.advertisement_configured));
        assert(r@.subrange(k as int, r@.len() as int) =~= created);
        assert(self@.profiles =~= old_view.profiles.update(
            p as int,
            ProfileView { interface: Some(interface), ..old_view.profiles[p as int] },
        ));
        proof {
            assert forall|q: int| is_first(old_view.profiles, app_is(app_id), q) implies q
                == p as int by {
                if q < p {
                    assert(!app_is(app_id)(old_view.profiles[q]));
                } else if q > p {
                    assert(!app_is(app_id)(old_view.profiles[p as int]));
                }
            }
            assert(app_is(app_id)(old_view.profiles[p as int]));
        }
        r
    }

    /// Handles the confirmation that the value of the characteristic at
    /// `attr_handle`, in the service at `service_handle` of the profile on
    /// `interface`, was set: each active connection's subscription state is to
    /// be read before the value is pushed.
    pub fn on_set_attr_val(&self, interface: u8, service_handle: u16, attr_handle: u16) -> (r: Vec<
        GattCommand,
    >)
        ensures
            set_attr_val_effect(self@, interface, service_handle, attr_handle, r@),
    {
        let ghost ps = self@.profiles;
        let p = match self.get_profile(interface) {
            Some(p) => p,
            None => {
                return Vec::new();
            },
        };
        let s = match self.profiles[p].get_service(service_handle) {
            Some(s) => s,
            None => {
                proof {
                    assert forall|q: int| is_first(ps, on_interface(interface), q) implies none_match(
                        ps[q].services,
                        service_at(service_handle),
                    ) by {
                        lemma_first_unique(ps, on_interface(interface), q, p as int);
                    }
                }
                return Vec::new();
            },
        };
        let c = match self.profiles[p].services[s].get_characteristic_by_handle(attr_handle) {
            Some(c) => c,
            None => {
                proof {
                    assert forall|q: int| is_first(ps, on_interface(interface), q) implies (none_match(
                        ps[q].services,
                        service_at(service_handle),
                    ) || forall|t: int|
                        is_first(ps[q].services, service_at(service_handle), t) ==> none_match(
                            ps[q].services[t].characteristics,
                            char_at(attr_handle),
                        )) by {
                        lemma_first_unique(ps, on_interface(interface), q, p as int);
                        assert forall|t: int|
                            is_first(ps[q].services, service_at(service_handle), t) implies none_match(
                            ps[q].services[t].characteristics,
                            char_at(attr_handle),
                        ) by {
                            lemma_first_unique(ps[q].services, service_at(service_handle), t, s as int);
                        }
                    }
                }
                return Vec::new();
            },
        };
        let ch = cccd_handle(&self.profiles[p].services[s].characteristics[c]);
        let mut reads: Vec<CccdRead> = Vec::new();
        match ch {
            Some(h) => {
                let mut i: usize = 0;
                while i < self.active_connections.len()
                    invariant
                        i <= self@.connections.len(),
                        reads@ =~= subscription_reads(self@.connections.subrange(0, i as int), Some(h)),
                    decreases self.active_connections.len() - i,
                {
                    let conn = self.active_connections[i];
                    reads.push(CccdRead { conn_id: conn.id, remote_bda: conn.remote_bda, cccd_handle: h });
                    i += 1;
                    assert(reads@ =~= subscription_reads(self@.connections.subrange(0, i as int), Some(h)));
                }
                assert(self@.connections.subrange(0, i as int) =~= self@.connections);
            },
            None => {},
        }
        let ghost rs = reads@;
        let mut r: Vec<GattCommand> = Vec::new();
        r.push(
            GattCommand::CheckSubscriptions {
                target: AttributeRef::Characteristic { profile: p, service: s, characteristic: c },
                interface,
                attr_handle,
                reads,
            },
        );
        proof {
            assert(ps[p as int].services[s as int] == self.profiles@[p as int].services@[s as int]@);
            assert(ps[p as int].services[s as int].characteristics[c as int]
                == self.profiles@[p as int].services@[s as int].characteristics@[c as int]@);
            assert forall|q: int, t: int, u: int|
                is_first(ps, on_interface(interface), q) && is_first(
                    ps[q].services,
                    service_at(service_handle),
                    t,
                ) && is_first(ps[q].services[t].characteristics, char_at(attr_handle), u) implies q
                == p && t == s && u == c by {
                lemma_first_unique(ps, on_interface(interface), q, p as int);
                lemma_first_unique(ps[q].services, service_at(service_handle), t, s as int);
                lemma_first_unique(ps[q].services[t].characteristics, char_at(attr_handle), u, c as int);
            }
            assert(on_interface(interface)(ps[p as int]));
            assert(service_at(service_handle)(ps[p as int].services[s as int]));
            assert(char_at(attr_handle)(ps[p as int].services[s as int].characteristics[c as int]));
        }
        r
    }

    /// The single entry point for controller events reported on `interface`.
    /// Connections, disconnections, profile registrations and value-set
    /// confirmations are handled here; the other events of a profile go to the
    /// profile registered on `interface`.
    pub fn handle_event(&mut self, interface: u8, event: GattsEvent) -> (r: Vec<GattCommand>)
        requires
            old(self).wf(),
        ensures
            final(self).wf(),
            final(self).device_name == old(self).device_name,
            event_effect(old(self)@, final(self)@, interface, event, r@),
            setup_step(old(self).advertisement_configured, final(self).advertisement_configured, r@),
            handles_kept(old(self)@, final(self)@),
    {
        let ghost old_view = self@;
        match event {
            GattsEvent::Connect { conn_id, remote_bda } => {
                let r = self.on_connect(conn_id, remote_bda);
                proof { lemma_kept_same(old_view, self@); }
                r
            },
            GattsEvent::Disconnect { conn_id, .. } => {
                let r = self.on_disconnect(conn_id);
                proof { lemma_kept_same(old_view, self@); }
                r
            },
            GattsEvent::Register { success, app_id } => {
                let r = self.on_register(interface, success, app_id);
                proof {
                    if success && exists|p: int| is_first(old_view.profiles, app_is(app_id), p) {
                        let p = choose|p: int| is_first(old_view.profiles, app_is(app_id), p);
                        assert forall|t: int| 0 <= t < old_view.profiles[p].services.len() implies
                            crate::profile::service_handles_kept(
                            #[trigger] old_view.profiles[p].services[t],
                            self@.profiles[p].services[t],
                        ) by {
                            lemma_service_kept_refl(old_view.profiles[p].services[t]);
                        }
                        lemma_kept_update(old_view, self@, p);
                        let k = device_setup(old_view.advertisement_configured).len() as int;
                        assert forall|i: int| 0 <= i < r@.len() implies ((r@[i] is SetDeviceName) <==> (
                        i == 0 && !old_view.advertisement_configured)) by {
                            if i < k {
                                assert(r@[i] == r@.subrange(0, k)[i]);
                            } else {
                                assert(r@[i] == r@.subrange(k, r@.len() as int)[i - k]);
                            }
                        }
                    } else {
                        if success {
                            assert forall|p: int| 0 <= p < old_view.profiles.len() implies !app_is(
                                app_id,
                            )(#[trigger] old_view.profiles[p]) by {
                                if app_is(app_id)(old_view.profiles[p]) {
                                    lemma_first_exists(old_view.profiles, app_is(app_id), p);
                                }
                            }
                        }
                        lemma_kept_same(old_view, self@);
                    }
                }
                r
            },
            GattsEvent::SetAttrValue { service_handle, attr_handle, .. } => {
                let r = self.on_set_attr_val(interface, service_handle, attr_handle);
                proof { lemma_kept_same(old_view, self@); }
                r
            },
            GattsEvent::Create { success, service_uuid, service_handle } => {
                match self.get_profile(interface) {
                    Some(p) => {
                        let r = self.profiles[p].on_create(p, success, service_uuid, service_handle);
                        proof {
                            self.lemma_forwarded(old_view, p as int, interface);
                            lemma_kept_update(old_view, self@, p as int);
                            lemma_interfaces_kept(old_view, self@, p as int);
                            assert(forall|i: int| 0 <= i < r@.len() ==> !(r@[i] is SetDeviceName));
                        }
                        r
                    },
                    None => {
                        proof { lemma_kept_same(old_view, self@); }
                        Vec::new()
                    },
                }
            },
            GattsEvent::AddChar { success, service_handle, char_uuid, attr_handle } => {
                match self.get_profile(interface) {
                    Some(p) => {
                        let r = self.profiles[p].on_char_add(
                            p,
                            success,
                            service_handle,
                            char_uuid,
                            attr_handle,
                        );
                        proof {
                            self.lemma_forwarded(old_view, p as int, interface);
                            lemma_kept_update(old_view, self@, p as int);
                            lemma_interfaces_kept(old_view, self@, p as int);
                            assert(forall|i: int| 0 <= i < r@.len() ==> !(r@[i] is SetDeviceName));
                        }
                        r
                    },
                    None => {
                        proof { lemma_kept_same(old_view, self@); }
                        Vec::new()
                    },
                }
            },
            GattsEvent::AddCharDescr { success, service_handle, descr_uuid, attr_handle } => {
                match self.get_profile(interface) {
                    Some(p) => {
                        self.profiles[p].on_char_add_descr(
                            success,
                            service_handle,
                            descr_uuid,
                            attr_handle,
                        );
                        proof {
                            self.lemma_forwarded(old_view, p as int, interface);
                            lemma_kept_update(old_view, self@, p as int);
                            lemma_interfaces_kept(old_view, self@, p as int);
                        }
                        Vec::new()
                    },
                    None => {
                        proof { lemma_kept_same(old_view, self@); }
                        Vec::new()
                    },
                }
            },
            GattsEvent::Write { conn_id, trans_id, remote_bda, handle, need_rsp, value } => {
                match self.get_profile(interface) {
                    Some(p) => {
                        let r = self.profiles[p].on_write(
                            p,
                            interface,
                            conn_id,
                            trans_id,
                            remote_bda,
                            handle,
                            need_rsp,
                            value,
                        );
                        proof {
                            self.lemma_forwarded(old_view, p as int, interface);
                            lemma_kept_update(old_view, self@, p as int);
                            lemma_interfaces_kept(old_view, self@, p as int);
                            assert(forall|i: int| 0 <= i < r@.len() ==> !(r@[i] is SetDeviceName));
                        }
                        r
                    },
                    None => {
                        proof { lemma_kept_same(old_view, self@); }
                        Vec::new()
                    },
                }
            },
            GattsEvent::Read { conn_id, trans_id, remote_bda, handle } => {
                match self.get_profile(interface) {
                    Some(p) => {
                        let r = self.profiles[p].on_read(
                            p,
                            interface,
                            conn_id,
                            trans_id,
                            remote_bda,
                            handle,
                        );
                        proof {
                            self.lemma_forwarded(old_view, p as int, interface);
                            lemma_kept_update(old_view, self@, p as int);
                            lemma_interfaces_kept(old_view, self@, p as int);
                            assert(forall|i: int| 0 <= i < r@.len() ==> !(r@[i] is SetDeviceName));
                        }
                        r
                    },
                    None => {
                        proof { lemma_kept_same(old_view, self@); }
                        Vec::new()
                    },
                }
            },
            _ => {
                proof { lemma_kept_same(old_view, self@); }
                Vec::new()
            },
        }
    }

    /// The pushes that a confirmed change of the value of the characteristic
    /// at `target` causes, given each active connection's subscription state
    /// as the configuration descriptor's read callback gave it.
    pub fn value_change_pushes(&self, target: AttributeRef, readings: &Vec<CccdReading>) -> (r: Vec<
        Push,
    >)
        ensures
            characteristic_at(self@, target) matches Some(cv) ==> r@ == pushes(
                cv.properties,
                reading_views(readings@),
            ),
            characteristic_at(self@, target) is None ==> r@ == Seq::<Push>::empty(),
    {
        match target {
            AttributeRef::Characteristic { profile, service, characteristic } => {
                if profile < self.profiles.len() && service < self.profiles[profile].services.len()
                    && characteristic
                    < self.profiles[profile].services[service].characteristics.len() {
                    let properties =
                        self.profiles[profile].services[service].characteristics[characteristic].properties;
                    notifications(properties, readings)
                } else {
                    Vec::new()
                }
            },
            AttributeRef::Descriptor { .. } => Vec::new(),
        }
    }

    proof fn lemma_forwarded(&self, old_view: GattServerView, p: int, interface: u8)
        requires
            is_first(old_view.profiles, on_interface(interface), p),
            self@.profiles.len() == old_view.profiles.len(),
        ensures
            forall|q: int| is_first(old_view.profiles, on_interface(interface), q) ==> q == p,
    {
        assert forall|q: int| is_first(old_view.profiles, on_interface(interface), q) implies q
            == p by {
            lemma_first_unique(old_view.profiles, on_interface(interface), q, p);
        }
    }
}

} // verus!
