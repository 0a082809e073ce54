//! Routing of client reads and writes to the node that an attribute handle names.
use vstd::prelude::*;
use crate::attributes::{AttributeControl, DescriptorView};
use crate::characteristic::CharacteristicView;
use crate::service::{ServiceView, char_at};
use crate::profile::{Profile, ProfileView};
use crate::resolve::{is_first, none_match, lemma_first_unique};
use crate::event::{AttributeRef, GattCommand};

verus! {

/// The service holds a characteristic registered at `handle`.
pub open spec fn holds_char_at(handle: u16) -> spec_fn(ServiceView) -> bool {
    |sv: ServiceView|
        exists|c: int| 0 <= c < sv.characteristics.len() && char_at(handle)(#[trigger] sv.characteristics[c])
}

/// The descriptor is registered at `handle`.
pub open spec fn descr_at(handle: u16) -> spec_fn(DescriptorView) -> bool {
    |d: DescriptorView| d.attribute_handle == Some(handle)
}

/// The characteristic holds a descriptor registered at `handle`.
pub open spec fn char_holds_descr_at(handle: u16) -> spec_fn(CharacteristicView) -> bool {
    |cv: CharacteristicView|
        exists|d: int| 0 <= d < cv.descriptors.len() && descr_at(handle)(#[trigger] cv.descriptors[d])
}

/// The service holds a descriptor registered at `handle`.
pub open spec fn holds_descr_at(handle: u16) -> spec_fn(ServiceView) -> bool {
    |sv: ServiceView|
        exists|c: int|
            0 <= c < sv.characteristics.len() && char_holds_descr_at(handle)(
                #[trigger] sv.characteristics[c],
            )
}

/// Characteristic `c` of service `s` is the first one, in declared order, registered at `handle`.
pub open spec fn first_char_at(ss: Seq<ServiceView>, handle: u16, s: int, c: int) -> bool {
    is_first(ss, holds_char_at(handle), s) && is_first(ss[s].characteristics, char_at(handle), c)
}

/// Descriptor `d` of characteristic `c` of service `s` is the first one, in
/// declared order, registered at `handle`.
pub open spec fn first_descr_at(ss: Seq<ServiceView>, handle: u16, s: int, c: int, d: int) -> bool {
    &&& is_first(ss, holds_descr_at(handle), s)
    &&& is_first(ss[s].characteristics, char_holds_descr_at(handle), c)
    &&& is_first(ss[s].characteristics[c].descriptors, descr_at(handle), d)
}

/// The commands for a write of `value` to characteristic `cv` at `target`:
/// the write callback gets the bytes, and, when the client waits for a
/// response and the host answers reads, the read callback then gives the
/// response. Without a write callback the write is dropped.
pub open spec fn write_commands(
    cv: CharacteristicView,
    target: AttributeRef,
    interface: u8,
    conn_id: u16,
    trans_id: u32,
    remote_bda: [u8; 6],
    handle: u16,
    need_rsp: bool,
    value: Vec<u8>,
) -> Seq<GattCommand> {
    if !cv.write_callback {
        Seq::empty()
    } else {
        let write = seq![GattCommand::InvokeWrite { target, conn_id, remote_bda, handle, value }];
        if need_rsp && cv.control == AttributeControl::ResponseByApp {
            write.push(
                GattCommand::RespondFromRead {
                    target,
                    interface,
                    conn_id,
                    trans_id,
                    remote_bda,
                    handle,
                },
            )
        } else {
            write
        }
    }
}

/// The commands for a read of a node at `target` whose reads are answered as
/// `control` says: one call of the read callback, whose result is the response,
/// or nothing when the controller answers by itself.
pub open spec fn read_commands(
    control: AttributeControl,
    target: AttributeRef,
    interface: u8,
    conn_id: u16,
    trans_id: u32,
    remote_bda: [u8; 6],
    handle: u16,
) -> Seq<GattCommand> {
    if control == AttributeControl::ResponseByApp {
        seq![
            GattCommand::RespondFromRead {
                target,
                interface,
                conn_id,
                trans_id,
                remote_bda,
                handle,
            },
        ]
    } else {
        Seq::empty()
    }
}

/// The commands for a client's write, routed in profile `pv`.
pub open spec fn write_effect(
    pv: ProfileView,
    p: usize,
    interface: u8,
    conn_id: u16,
    trans_id: u32,
    remote_bda: [u8; 6],
    handle: u16,
    need_rsp: bool,
    value: Vec<u8>,
    r: Seq<GattCommand>,
) -> bool {
    &&& forall|i: int| 0 <= i < r.len() ==> (#[trigger] r[i] is InvokeWrite || r[i] is RespondFromRead)
    &&& none_match(pv.services, holds_char_at(handle)) ==> r == Seq::<GattCommand>::empty()
    &&& forall|s: int, c: int|
        first_char_at(pv.services, handle, s, c) ==> r == write_commands(
            pv.services[s].characteristics[c],
            AttributeRef::Characteristic {
                profile: p,
                service: s as usize,
                characteristic: c as usize,
            },
            interface,
            conn_id,
            trans_id,
            remote_bda,
            handle,
            need_rsp,
            value,
        )
}

/// The commands for a client's read, routed in profile `pv`.
pub open spec fn read_effect(
    pv: ProfileView,
    p: usize,
    interface: u8,
    conn_id: u16,
    trans_id: u32,
    remote_bda: [u8; 6],
    handle: u16,
    r: Seq<GattCommand>,
) -> bool {
    &&& forall|i: int| 0 <= i < r.len() ==> #[trigger] r[i] is RespondFromRead
    &&& forall|s: int, c: int|
        first_char_at(pv.services, handle, s, c) ==> r == read_commands(
            pv.services[s].characteristics[c].control,
            AttributeRef::Characteristic {
                profile: p,
                service: s as usize,
                characteristic: c as usize,
            },
            interface,
            conn_id,
            trans_id,
            remote_bda,
            handle,
        )
    &&& none_match(pv.services, holds_char_at(handle)) ==> {
        &&& none_match(pv.services, holds_descr_at(handle)) ==> r == Seq::<
            GattCommand,
        >::empty()
        &&& forall|s: int, c: int, d: int|
            first_descr_at(pv.services, handle, s, c, d) ==> r == read_commands(
                pv.services[s].characteristics[c].descriptors[d].control,
                AttributeRef::Descriptor {
                    profile: p,
                    service: s as usize,
                    characteristic: c as usize,
                    descriptor: d as usize,
                },
                interface,
                conn_id,
                trans_id,
                remote_bda,
                handle,
            )
    }
}

impl Profile {
    /// The position of the first characteristic registered at `handle`.
    pub fn find_characteristic(&self, handle: u16) -> (r: Option<(usize, usize)>)
        ensures
            r matches Some((s, c)) ==> first_char_at(self@.services, handle, s as int, c as int),
            r is None ==> none_match(self@.services, holds_char_at(handle)),
    {
        let ghost ss = self@.services;
        let mut s: usize = 0;
        while s < self.services.len()
            invariant
                ss == self@.services,
                s <= ss.len(),
                forall|j: int| 0 <= j < s ==> !holds_char_at(handle)(#[trigger] ss[j]),
            decreases self.services.len() - s,
        {
            let mut c: usize = 0;
            let n = self.services[s].characteristics.len();
            while c < n
                invariant
                    ss == self@.services,
                    s < ss.len(),
                    n == ss[s as int].characteristics.len(),
                    c <= n,
                    forall|j: int| 0 <= j < s ==> !holds_char_at(handle)(#[trigger] ss[j]),
                    forall|t: int| 0 <= t < c ==> !char_at(handle)(#[trigger] ss[s as int].characteristics[t]),
                decreases n - c,
            {
                if self.services[s].characteristics[c].attribute_handle == Some(handle) {
                    assert(char_at(handle)(ss[s as int].characteristics[c as int]));
                    assert(holds_char_at(handle)(ss[s as int]));
                    return Some((s, c));
                }
                c += 1;
            }
            assert(!holds_char_at(handle)(ss[s as int]));
            s += 1;
        }
        None
    }

    /// The position of the first descriptor registered at `handle`.
    pub fn find_descriptor(&self, handle: u16) -> (r: Option<(usize, usize, usize)>)
        ensures
            r matches Some((s, c, d)) ==> first_descr_at(
                self@.services,
                handle,
                s as int,
                c as int,
                d as int,
            ),
            r is None ==> none_match(self@.services, holds_descr_at(handle)),
    {
        let ghost ss = self@.services;
        let mut s: usize = 0;
        while s < self.services.len()
            invariant
                ss == self@.services,
                s <= ss.len(),
                forall|j: int| 0 <= j < s ==> !holds_descr_at(handle)(#[trigger] ss[j]),
            decreases self.services.len() - s,
        {
            let mut c: usize = 0;
            let n = self.services[s].characteristics.len();
            while c < n
                invariant
                    ss == self@.services,
                    s < ss.len(),
                    n == ss[s as int].characteristics.len(),
                    c <= n,
                    forall|j: int| 0 <= j < s ==> !holds_descr_at(handle)(#[trigger] ss[j]),
                    forall|t: int|
                        0 <= t < c ==> !char_holds_descr_at(handle)(
                            #[trigger] ss[s as int].characteristics[t],
                        ),
                decreases n - c,
            {
                let mut d: usize = 0;
                let m = self.services[s].characteristics[c].descriptors.len();
                while d < m
                    invariant
                        ss == self@.services,
                        s < ss.len(),
                        n == ss[s as int].characteristics.len(),
                        c < n,
                        m == ss[s as int].characteristics[c as int].descriptors.len(),
                        d <= m,
                        forall|j: int| 0 <= j < s ==> !holds_descr_at(handle)(#[trigger] ss[j]),
                        forall|t: int|
                            0 <= t < c ==> !char_holds_descr_at(handle)(
                                #[trigger] ss[s as int].characteristics[t],
                            ),
                        forall|t: int|
                            0 <= t < d ==> !descr_at(handle)(
                                #[trigger] ss[s as int].characteristics[c as int].descriptors[t],
                            ),
                    decreases m - d,
                {
                    if self.services[s].characteristics[c].descriptors[d].attribute_handle == Some(
                        handle,
                    ) {
                        let ghost cv = ss[s as int].characteristics[c as int];
                        assert(descr_at(handle)(cv.descriptors[d as int]));
                        assert(char_holds_descr_at(handle)(cv));
                        assert(holds_descr_at(handle)(ss[s as int]));
                        return Some((s, c, d));
                    }
                    d += 1;
                }
                assert(!char_holds_descr_at(handle)(ss[s as int].characteristics[c as int]));
                c += 1;
            }
            assert(!holds_descr_at(handle)(ss[s as int]));
            s += 1;
        }
        None
    }

    /// Routes a client's write of `value` to the characteristic registered at
    /// `handle`, if any. `p` is this profile's position in its server.
    pub fn on_write(
        &self,
        p: usize,
        interface: u8,
        conn_id: u16,
        trans_id: u32,
        remote_bda: [u8; 6],
        handle: u16,
        need_rsp: bool,
        value: Vec<u8>,
    ) -> (r: Vec<GattCommand>)
        ensures
            write_effect(self@, p, interface, conn_id, trans_id, remote_bda, handle, need_rsp, value, r@),

    {
        let mut r: Vec<GattCommand> = Vec::new();
        let (s, c) = match self.find_characteristic(handle) {
            Some(found) => found,
            None => {
                return r;
            },
        };
        let ghost ss = self@.services;
        proof {
            assert forall|s2: int, c2: int| first_char_at(ss, handle, s2, c2) implies s2 == s
                && c2 == c by {
                lemma_first_unique(ss, holds_char_at(handle), s2, s as int);
                lemma_first_unique(ss[s as int].characteristics, char_at(handle), c2, c as int);
            }
        }
        if !self.services[s].characteristics[c].write_callback {
            return r;
        }
        let target = AttributeRef::Characteristic { profile: p, service: s, characteristic: c };
        let app = match self.services[s].characteristics[c].control {
            AttributeControl::ResponseByApp => true,
            AttributeControl::AutomaticResponse => false,
        };
        r.push(GattCommand::InvokeWrite { target, conn_id, remote_bda, handle, value });
        if need_rsp && app {
            r.push(
                GattCommand::RespondFromRead {
                    target,
                    interface,
                    conn_id,
                    trans_id,
                    remote_bda,
                    handle,
                },
            );
        }
        r
    }

    /// Routes a client's read to the characteristic registered at `handle`, or
    /// failing that to the descriptor registered there, if any. `p` is this
    /// profile's position in its server.
    pub fn on_read(
        &self,
        p: usize,
        interface: u8,
        conn_id: u16,
        trans_id: u32,
        remote_bda: [u8; 6],
        handle: u16,
    ) -> (r: Vec<GattCommand>)
        ensures
            read_effect(self@, p, interface, conn_id, trans_id, remote_bda, handle, r@),

    {
        let mut r: Vec<GattCommand> = Vec::new();
        let ghost ss = self@.services;
        match self.find_characteristic(handle) {
            Some((s, c)) => {
                proof {
                    assert forall|s2: int, c2: int| first_char_at(ss, handle, s2, c2) implies s2
                        == s && c2 == c by {
                        lemma_first_unique(ss, holds_char_at(handle), s2, s as int);
                        lemma_first_unique(ss[s as int].characteristics, char_at(handle), c2, c as int);
                    }
                }
                if let AttributeControl::ResponseByApp = self.services[s].characteristics[c].control {
                    r.push(
                        GattCommand::RespondFromRead {
                            target: AttributeRef::Characteristic {
                                profile: p,
                                service: s,
                                characteristic: c,
                            },
                            interface,
                            conn_id,
                            trans_id,
                            remote_bda,
                            handle,
                        },
                    );
                }
                return r;
            },
            None => {},
        }
        match self.find_descriptor(handle) {
            Some((s, c, d)) => {
                proof {
                    assert forall|s2: int, c2: int, d2: int|
                        first_descr_at(ss, handle, s2, c2, d2) implies s2 == s && c2 == c && d2
                        == d by {
                        lemma_first_unique(ss, holds_descr_at(handle), s2, s as int);
                        let cs = ss[s as int].characteristics;
                        lemma_first_unique(cs, char_holds_descr_at(handle), c2, c as int);
                        lemma_first_unique(cs[c as int].descriptors, descr_at(handle), d2, d as int);
                    }
                }
                if let AttributeControl::ResponseByApp =
                    self.services[s].characteristics[c].descriptors[d].control {
                    r.push(
                        GattCommand::RespondFromRead {
                            target: AttributeRef::Descriptor {
                                profile: p,
                                service: s,
                                characteristic: c,
                                descriptor: d,
                            },
                            interface,
                            conn_id,
                            trans_id,
                            remote_bda,
                            handle,
                        },
                    );
                }
                r
            },
            None => r,
        }
    }
}

} // verus!
