//! Properties of the server that span several events.
use vstd::prelude::*;
use crate::characteristic::CharacteristicProperties;
use crate::event::GattCommand;
use crate::notify::{Push, cccd_status_of, push_for, pushes};
use crate::server::setup_step;
use crate::service::ServiceView;
use crate::characteristic::CharacteristicView;
use crate::attributes::DescriptorView;
use crate::uuid::BleUuid;
use crate::profile::{ProfileView, service_at};
use crate::resolve::{is_first, lemma_first_unique};
use crate::event::AttributeRef;
use crate::registration::{
    char_add_descr_effect, holds_unassigned, unassigned_descriptor, descriptor_registered,
    awaits_characteristic, characteristic_confirmed, characteristic_confirmed_commands,
    service_created, service_created_commands,
};

verus! {

/// How many device name commands `r` holds.
pub open spec fn setup_count(r: Seq<GattCommand>) -> nat
    decreases r.len(),
{
    if r.len() == 0 {
        0
    } else {
        setup_count(r.drop_last()) + if r.last() is SetDeviceName {
            1nat
        } else {
            0nat
        }
    }
}

/// How many device name commands the answers `outs` hold in all.
pub open spec fn total_setups(outs: Seq<Seq<GattCommand>>) -> nat
    decreases outs.len(),
{
    if outs.len() == 0 {
        0
    } else {
        total_setups(outs.drop_last()) + setup_count(outs.last())
    }
}

proof fn lemma_setup_count(r: Seq<GattCommand>, first: bool)
    requires
        forall|i: int| 0 <= i < r.len() ==> ((#[trigger] r[i] is SetDeviceName) <==> (i == 0 && first)),
    ensures
        setup_count(r) == if first && r.len() > 0 {
            1nat
        } else {
            0nat
        },
    decreases r.len(),
{
    if r.len() > 0 {
        let s = r.drop_last();
        assert forall|i: int| 0 <= i < s.len() implies ((#[trigger] s[i] is SetDeviceName) <==> (i
            == 0 && first)) by {
            assert(s[i] == r[i]);
        }
        lemma_setup_count(s, first);
        assert(r.last() == r[r.len() - 1]);
    }
}

/// The device setup is asked for once in a server's life at most, however
/// many profiles register: over any run of routed events from a fresh server,
/// with `configured[k]` the server's flag before event `k` and `outs[k]` its
/// answer, one name command was issued if the server ends configured, and
/// none otherwise.
pub proof fn lemma_device_setup_once(configured: Seq<bool>, outs: Seq<Seq<GattCommand>>)
    requires
        configured.len() == outs.len() + 1,
        !configured[0],
        forall|k: int|
            0 <= k < outs.len() ==> setup_step(configured[k], configured[k + 1], #[trigger] outs[k]),
    ensures
        total_setups(outs) == if configured.last() {
            1nat
        } else {
            0nat
        },
        total_setups(outs) <= 1,
    decreases outs.len(),
{
    if outs.len() > 0 {
        let n = outs.len() - 1;
        let c = configured.drop_last();
        let o = outs.drop_last();
        assert forall|k: int| 0 <= k < o.len() implies setup_step(c[k], c[k + 1], #[trigger] o[k]) by {
            assert(o[k] == outs[k]);
            assert(setup_step(configured[k], configured[k + 1], outs[k]));
        }
        lemma_device_setup_once(c, o);
        assert(setup_step(configured[n], configured[n + 1], outs[n]));
        let last = outs[n];
        lemma_setup_count(last, !configured[n] && configured[n + 1]);
        assert(outs.last() == last);
        assert(outs.drop_last() == o);
        assert(c.last() == configured[n]);
        assert(configured.last() == configured[n + 1]);
        assert(total_setups(outs) == total_setups(o) + setup_count(last));

        if configured[n] {
            assert(configured[n + 1]);
        }
    }
}

/// A connection with both notifications and indications enabled gets an
/// indication, not a notification, from a characteristic that supports both.
pub proof fn lemma_indicate_wins(
    properties: CharacteristicProperties,
    readings: Seq<(u16, Seq<u8>)>,
    k: int,
)
    requires
        properties.notify && properties.indicate,
        0 <= k < readings.len(),
        cccd_status_of(readings[k].1) == Some((true, true)),
        forall|j: int| 0 <= j < readings.len() && j != k ==> readings[j].0 != readings[k].0,
    ensures
        pushes(properties, readings).contains(Push { conn_id: readings[k].0, indicate: true }),
        !pushes(properties, readings).contains(Push { conn_id: readings[k].0, indicate: false }),
    decreases readings.len(),
{
    let n = readings.len() - 1;
    let rest = readings.drop_last();
    if k < n {
        assert forall|j: int| 0 <= j < rest.len() && j != k implies rest[j].0 != rest[k].0 by {
            assert(rest[j] == readings[j]);
        }
        lemma_indicate_wins(properties, rest, k);
        assert(readings.last() == readings[n]);
        assert(readings.last().0 != readings[k].0);
        assert(rest[k] == readings[k]);
        let pr = pushes(properties, rest);
        let pa = pushes(properties, readings);
        let want = Push { conn_id: readings[k].0, indicate: true };
        let other = Push { conn_id: readings[k].0, indicate: false };
        let i = choose|i: int| 0 <= i < pr.len() && pr[i] == want;
        match push_for(properties, cccd_status_of(readings.last().1), readings.last().0) {
            Some(q) => {
                assert(pa == pr.push(q));
                assert(pa[i] == want);
                assert forall|j: int| 0 <= j < pa.len() implies pa[j] != other by {
                    if j < pr.len() {
                        assert(pa[j] == pr[j]);
                    } else {
                        assert(pa[j] == q);
                    }
                }
            },
            None => {
                assert(pa == pr);
            },
        }
    } else {
        lemma_no_push_to(properties, rest, readings[k].0);
        assert(pushes(properties, readings) == pushes(properties, rest).push(
            Push { conn_id: readings[k].0, indicate: true },
        ));
        assert(pushes(properties, readings).last() == Push {
            conn_id: readings[k].0,
            indicate: true,
        });
    }
}

/// A connection that has no reading gets no push.
pub proof fn lemma_no_push_to(
    properties: CharacteristicProperties,
    readings: Seq<(u16, Seq<u8>)>,
    conn_id: u16,
)
    requires
        forall|j: int| 0 <= j < readings.len() ==> readings[j].0 != conn_id,
    ensures
        forall|i: int|
            0 <= i < pushes(properties, readings).len() ==> (#[trigger] pushes(
                properties,
                readings,
            )[i]).conn_id != conn_id,
    decreases readings.len(),
{
    if readings.len() > 0 {
        let rest = readings.drop_last();
        assert forall|j: int| 0 <= j < rest.len() implies rest[j].0 != conn_id by {
            assert(rest[j] == readings[j]);
        }
        lemma_no_push_to(properties, rest, conn_id);
        assert(readings.last() == readings[readings.len() - 1]);
        let pr = pushes(properties, rest);
        let pa = pushes(properties, readings);
        match push_for(properties, cccd_status_of(readings.last().1), readings.last().0) {
            Some(q) => {
                assert(pa == pr.push(q));
                assert forall|i: int| 0 <= i < pa.len() implies (#[trigger] pa[i]).conn_id
                    != conn_id by {
                    if i < pr.len() {
                        assert(pa[i] == pr[i]);
                    }
                }
            },
            None => {
                assert(pa == pr);
            },
        }
    }
}

/// From a characteristic that notifies but does not indicate, a value change
/// pushes one unacknowledged notification to each connection with
/// notifications enabled and nothing to the others.
pub proof fn lemma_notify_only_subscribed(
    properties: CharacteristicProperties,
    readings: Seq<(u16, Seq<u8>)>,
)
    requires
        properties.notify && !properties.indicate,
    ensures
        pushes(properties, readings) == readings.filter(
            |r: (u16, Seq<u8>)| cccd_status_of(r.1) matches Some((n, _)) && n,
        ).map_values(|r: (u16, Seq<u8>)| Push { conn_id: r.0, indicate: false }),
    decreases readings.len(),
{
    reveal(Seq::filter);
    let f = |r: (u16, Seq<u8>)| cccd_status_of(r.1) matches Some((n, _)) && n;
    let m = |r: (u16, Seq<u8>)| Push { conn_id: r.0, indicate: false };
    if readings.len() == 0 {
        assert(readings.filter(f).map_values(m) =~= Seq::empty());
    } else {
        let rest = readings.drop_last();
        lemma_notify_only_subscribed(properties, rest);
        if f(readings.last()) {
            assert(readings.filter(f) == rest.filter(f).push(readings.last()));
            assert(readings.filter(f).map_values(m) =~= rest.filter(f).map_values(m).push(
                m(readings.last()),
            ));
        } else {
            assert(readings.filter(f) == rest.filter(f));
        }
    }
}

/// A service after the characteristics it awaited were registered in turn,
/// the `j`-th one at handle `handles[j]`.
pub open spec fn registered_in_turn(sv: ServiceView, handles: Seq<u16>) -> ServiceView
    decreases handles.len(),
{
    if handles.len() == 0 {
        sv
    } else {
        characteristic_confirmed(registered_in_turn(sv, handles.drop_last()), true, handles.last())
    }
}

/// `cmds` asks for characteristic `c` of service `s` of profile `p` last, and
/// for no other characteristic.
pub open spec fn asks_only_for(
    cmds: Seq<GattCommand>,
    service_handle: u16,
    p: usize,
    s: usize,
    c: int,
) -> bool {
    &&& cmds.len() > 0
    &&& cmds.last() == GattCommand::AddCharacteristic {
        service_handle,
        target: AttributeRef::Characteristic { profile: p, service: s, characteristic: c as usize },
    }
    &&& forall|i: int| 0 <= i < cmds.len() - 1 ==> !(#[trigger] cmds[i] is AddCharacteristic)
}

/// `cmds` asks for no characteristic.
pub open spec fn asks_for_none(cmds: Seq<GattCommand>) -> bool {
    forall|i: int| 0 <= i < cmds.len() ==> !(#[trigger] cmds[i] is AddCharacteristic)
}

/// Characteristics are registered one at a time, in declared order, each only
/// once the previous one has its handle. Once a service with `K`
/// characteristics, none registered yet, is created, its first characteristic
/// is asked for. After `j < K` successful registrations, characteristics
/// `0..j` hold their handles, characteristic `j` alone is awaited, and the
/// answer to its confirmation asks for characteristic `j + 1` if it succeeded
/// and there is one, and for no characteristic otherwise; a failure stops the
/// service's registration. So `K` registrations are issued in all.
pub proof fn lemma_serial_registration(
    sv: ServiceView,
    p: usize,
    s: usize,
    handle: u16,
    handles: Seq<u16>,
)
    requires
        0 < sv.characteristics.len(),
        handles.len() < sv.characteristics.len(),
        forall|i: int|
            0 <= i < sv.characteristics.len() ==> (#[trigger] sv.characteristics[i]).attribute_handle
                is None,
    ensures
        asks_only_for(service_created_commands(sv, p, s, handle), handle, p, s, 0),
        ({
            let j = handles.len() as int;
            let now = registered_in_turn(service_created(sv, handle), handles);
            &&& now.characteristics.len() == sv.characteristics.len()
            &&& forall|i: int|
                0 <= i < sv.characteristics.len() ==> (#[trigger] now.characteristics[i]).uuid
                    == sv.characteristics[i].uuid
            &&& forall|i: int|
                0 <= i < j ==> (#[trigger] now.characteristics[i]).attribute_handle == Some(
                    handles[i],
                )
            &&& forall|i: int|
                j <= i < sv.characteristics.len() ==> (#[trigger] now.characteristics[i]).attribute_handle
                    is None
            &&& now.characteristics_issued == j + 1
            &&& awaits_characteristic(now, sv.characteristics[j].uuid)
            &&& j + 1 < sv.characteristics.len() ==> asks_only_for(
                characteristic_confirmed_commands(now, p, s, handle, true),
                handle,
                p,
                s,
                j + 1,
            )
            &&& j + 1 == sv.characteristics.len() ==> asks_for_none(
                characteristic_confirmed_commands(now, p, s, handle, true),
            )
            &&& forall|h: u16|
                j + 1 == sv.characteristics.len() ==> !(#[trigger] characteristic_confirmed(
                    now,
                    true,
                    h,
                )).characteristic_in_flight
            &&& asks_for_none(characteristic_confirmed_commands(now, p, s, handle, false))
            &&& forall|h: u16|
                {
                    let after = #[trigger] characteristic_confirmed(now, false, h);
                    &&& !after.characteristic_in_flight
                    &&& after.characteristics_issued == now.characteristics_issued
                    &&& after.characteristics == now.characteristics
                }
        }),
    decreases handles.len(),
{
    let cmds = service_created_commands(sv, p, s, handle);
    assert(cmds.len() == 2);
    let j = handles.len() as int;
    let created = service_created(sv, handle);
    let now = registered_in_turn(created, handles);
    if j > 0 {
        let n = j - 1;
        let hd = handles.drop_last();
        lemma_serial_registration(sv, p, s, handle, hd);
        let prev = registered_in_turn(created, hd);
        assert(now == characteristic_confirmed(prev, true, handles[n]));
        assert(prev.characteristics_issued == j);
        assert(now.characteristics_issued == j + 1);
        assert forall|i: int| 0 <= i < sv.characteristics.len() implies (
        #[trigger] now.characteristics[i]).uuid == sv.characteristics[i].uuid by {
            assert(now.characteristics[i].uuid == prev.characteristics[i].uuid);
        }
        assert forall|i: int| 0 <= i < j implies (#[trigger] now.characteristics[i]).attribute_handle
            == Some(handles[i]) by {
            if i < n {
                assert(now.characteristics[i] == prev.characteristics[i]);
                assert(hd[i] == handles[i]);
            }
        }
        assert forall|i: int| j <= i < sv.characteristics.len() implies (
        #[trigger] now.characteristics[i]).attribute_handle is None by {
            assert(now.characteristics[i] == prev.characteristics[i]);
        }
    } else {
        assert(now == created);
    }
    let k = now.characteristics_issued - 1;
    let descriptors = Seq::new(
        now.characteristics[k].descriptors.len(),
        |t: int|
            GattCommand::AddDescriptor {
                service_handle: handle,
                target: AttributeRef::Descriptor {
                    profile: p,
                    service: s,
                    characteristic: k as usize,
                    descriptor: t as usize,
                },
            },
    );
    let next = characteristic_confirmed_commands(now, p, s, handle, true);
    assert(forall|i: int|
        0 <= i < descriptors.len() ==> !(#[trigger] descriptors[i] is AddCharacteristic));
    if j + 1 < sv.characteristics.len() {
        assert(next == descriptors.push(
            GattCommand::AddCharacteristic {
                service_handle: handle,
                target: AttributeRef::Characteristic {
                    profile: p,
                    service: s,
                    characteristic: (j + 1) as usize,
                },
            },
        ));
        assert forall|i: int| 0 <= i < next.len() - 1 implies !(
        #[trigger] next[i] is AddCharacteristic) by {
            assert(next[i] == descriptors[i]);
        }
    } else {
        assert(next == descriptors);
    }
    assert(characteristic_confirmed_commands(now, p, s, handle, false) =~= Seq::<
        GattCommand,
    >::empty());
}

/// `pos` lists in increasing order every descriptor of type `uuid` without a
/// handle in `ds`.
pub open spec fn lists_unassigned(ds: Seq<DescriptorView>, uuid: BleUuid, pos: Seq<int>) -> bool {
    &&& forall|a: int, b: int| 0 <= a < b < pos.len() ==> pos[a] < pos[b]
    &&& forall|a: int|
        0 <= a < pos.len() ==> 0 <= #[trigger] pos[a] < ds.len() && unassigned_descriptor(uuid)(
            ds[pos[a]],
        )
    &&& forall|t: int|
        0 <= t < ds.len() && unassigned_descriptor(uuid)(#[trigger] ds[t]) ==> exists|a: int|
            0 <= a < pos.len() && pos[a] == t
}

/// Service `vm` is `v0` where, in characteristic `c`, descriptor `pos[a]` got
/// handle `handles[a]` for each `a < m`, and nothing else changed.
pub open spec fn fifo_state(
    v0: ServiceView,
    vm: ServiceView,
    c: int,
    pos: Seq<int>,
    handles: Seq<u16>,
    m: int,
) -> bool {
    let d0 = v0.characteristics[c].descriptors;
    let dm = vm.characteristics[c].descriptors;
    &&& vm == ServiceView { characteristics: vm.characteristics, ..v0 }
    &&& vm.characteristics.len() == v0.characteristics.len()
    &&& forall|j: int|
        0 <= j < v0.characteristics.len() && j != c ==> #[trigger] vm.characteristics[j]
            == v0.characteristics[j]
    &&& vm.characteristics[c] == CharacteristicView { descriptors: dm, ..v0.characteristics[c] }
    &&& dm.len() == d0.len()
    &&& forall|t: int|
        0 <= t < d0.len() && (forall|a: int| 0 <= a < m ==> pos[a] != t) ==> #[trigger] dm[t]
            == d0[t]
    &&& forall|a: int|
        0 <= a < m ==> dm[#[trigger] pos[a]] == DescriptorView {
            attribute_handle: Some(handles[a]),
            ..d0[pos[a]]
        }
}

proof fn lemma_fifo_prefix(
    views: Seq<ProfileView>,
    service_handle: u16,
    uuid: BleUuid,
    handles: Seq<u16>,
    s: int,
    c: int,
    pos: Seq<int>,
    m: int,
)
    requires
        views.len() == handles.len() + 1,
        pos.len() == handles.len(),
        0 <= m <= handles.len(),
        forall|k: int|
            0 <= k < handles.len() ==> char_add_descr_effect(
                views[k],
                #[trigger] views[k + 1],
                true,
                service_handle,
                uuid,
                handles[k],
            ),
        is_first(views[0].services, service_at(service_handle), s),
        0 <= c < views[0].services[s].characteristics.len(),
        forall|j: int|
            0 <= j < c ==> !holds_unassigned(uuid)(
                #[trigger] views[0].services[s].characteristics[j],
            ),
        lists_unassigned(views[0].services[s].characteristics[c].descriptors, uuid, pos),
    ensures
        views[m].services.len() == views[0].services.len(),
        forall|j: int|
            0 <= j < views[0].services.len() && j != s ==> #[trigger] views[m].services[j]
                == views[0].services[j],
        fifo_state(views[0].services[s], views[m].services[s], c, pos, handles, m),
    decreases m,
{
    if m > 0 {
        let k = m - 1;
        lemma_fifo_prefix(views, service_handle, uuid, handles, s, c, pos, k);
        let v0 = views[0].services[s];
        let vk = views[k].services[s];
        let d0 = v0.characteristics[c].descriptors;
        let dk = vk.characteristics[c].descriptors;
        assert(char_add_descr_effect(views[k], views[k + 1], true, service_handle, uuid, handles[k]));
        // The service is still the first at its handle.
        assert(is_first(views[k].services, service_at(service_handle), s)) by {
            assert forall|j: int| 0 <= j < s implies !service_at(service_handle)(
                #[trigger] views[k].services[j],
            ) by {
                assert(views[k].services[j] == views[0].services[j]);
            }
        }
        // The characteristic is the first one with an unregistered descriptor of that type.
        let p = pos[k];
        assert(unassigned_descriptor(uuid)(d0[p]));
        assert(dk[p] == d0[p]) by {
            assert forall|a: int| 0 <= a < k implies pos[a] != p by {
                assert(pos[a] < pos[k]);
            }
        }
        assert(is_first(vk.characteristics, holds_unassigned(uuid), c)) by {
            assert(holds_unassigned(uuid)(vk.characteristics[c])) by {
                assert(unassigned_descriptor(uuid)(vk.characteristics[c].descriptors[p]));
            }
            assert forall|j: int| 0 <= j < c implies !holds_unassigned(uuid)(
                #[trigger] vk.characteristics[j],
            ) by {
                assert(vk.characteristics[j] == v0.characteristics[j]);
            }
        }
        // The descriptor is the first one of that type without a handle.
        assert(is_first(dk, unassigned_descriptor(uuid), p)) by {
            assert forall|t: int| 0 <= t < p implies !unassigned_descriptor(uuid)(#[trigger] dk[t]) by {
                if exists|a: int| 0 <= a < k && pos[a] == t {
                    let a = choose|a: int| 0 <= a < k && pos[a] == t;
                    assert(dk[pos[a]].attribute_handle == Some(handles[a]));
                } else {
                    assert(dk[t] == d0[t]);
                    if unassigned_descriptor(uuid)(d0[t]) {
                        let a = choose|a: int| 0 <= a < pos.len() && pos[a] == t;
                        if a >= k {
                            if a > k {
                                assert(pos[k] < pos[a]);
                            }
                        }
                    }
                }
            }
        }
        assert forall|s2: int, c2: int, d2: int|
            is_first(views[k].services, service_at(service_handle), s2) && is_first(
                views[k].services[s2].characteristics,
                holds_unassigned(uuid),
                c2,
            ) && is_first(
                views[k].services[s2].characteristics[c2].descriptors,
                unassigned_descriptor(uuid),
                d2,
            ) implies s2 == s && c2 == c && d2 == p by {
            lemma_first_unique(views[k].services, service_at(service_handle), s2, s);
            lemma_first_unique(vk.characteristics, holds_unassigned(uuid), c2, c);
            lemma_first_unique(dk, unassigned_descriptor(uuid), d2, p);
        }
        let vm = views[m].services[s];
        assert(views[m].services == views[k].services.update(
            s,
            descriptor_registered(vk, c, p, handles[k]),
        ));
        let dm = vm.characteristics[c].descriptors;
        assert forall|t: int|
            0 <= t < d0.len() && (forall|a: int| 0 <= a < m ==> pos[a] != t) implies #[trigger] dm[t]
            == d0[t] by {
            assert(pos[k] != t);
            assert(dk[t] == d0[t]);
        }
        assert forall|a: int| 0 <= a < m implies dm[#[trigger] pos[a]] == DescriptorView {
            attribute_handle: Some(handles[a]),
            ..d0[pos[a]]
        } by {
            if a < k {
                assert(pos[a] < pos[k]);
            }
        }
        assert forall|j: int|
            0 <= j < views[0].services.len() && j != s implies #[trigger] views[m].services[j]
            == views[0].services[j] by {
            assert(views[m].services[j] == views[k].services[j]);
        }
    }
}

/// Descriptors that share a type are matched to confirmations in the order of
/// the requests. Take the service at `service_handle`, a characteristic `c`
/// of it with no unregistered descriptor of type `uuid` in the characteristics
/// before it, and `pos`, its descriptors of that type without a handle in
/// declared order. When as many successful confirmations for that type arrive
/// as `pos` holds, the `k`-th one's handle goes to descriptor `pos[k]`.
pub proof fn lemma_descriptor_fifo(
    views: Seq<ProfileView>,
    service_handle: u16,
    uuid: BleUuid,
    handles: Seq<u16>,
    s: int,
    c: int,
    pos: Seq<int>,
)
    requires
        views.len() == handles.len() + 1,
        pos.len() == handles.len(),
        forall|k: int|
            0 <= k < handles.len() ==> char_add_descr_effect(
                views[k],
                #[trigger] views[k + 1],
                true,
                service_handle,
                uuid,
                handles[k],
            ),
        is_first(views[0].services, service_at(service_handle), s),
        0 <= c < views[0].services[s].characteristics.len(),
        forall|j: int|
            0 <= j < c ==> !holds_unassigned(uuid)(
                #[trigger] views[0].services[s].characteristics[j],
            ),
        lists_unassigned(views[0].services[s].characteristics[c].descriptors, uuid, pos),
    ensures
        forall|k: int|
            0 <= k < handles.len() ==> (#[trigger] views.last().services[s].characteristics[c].descriptors[pos[k]]).attribute_handle
                == Some(handles[k]),
{
    let n = handles.len() as int;
    lemma_fifo_prefix(views, service_handle, uuid, handles, s, c, pos, n);
    assert(views.last() == views[n]);
}

} // verus!
