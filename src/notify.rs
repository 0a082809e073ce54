//! Subscription state, value pushes and read responses.
use vstd::prelude::*;
use crate::characteristic::CharacteristicProperties;

verus! {

/// The size of the controller's response buffer.
pub const RESPONSE_BUFFER_LEN: usize = 600;

/// A response to a client's read: `len` bytes of `value` are meaningful, and
/// `value` fills the whole response buffer.
#[derive(Debug)]
pub struct GattResponse {
    pub handle: u16,
    pub len: u16,
    pub value: Vec<u8>,
}

/// `v` cut or padded with zeros to the size of the response buffer.
pub open spec fn response_payload(v: Seq<u8>) -> Seq<u8> {
    Seq::new(RESPONSE_BUFFER_LEN as nat, |i: int| if i < v.len() { v[i] } else { 0u8 })
}

/// The response that carries `value`, the result of a read callback, for the
/// attribute at `handle`.
pub fn read_response(handle: u16, value: &Vec<u8>) -> (r: GattResponse)
    ensures
        r.handle == handle,
        r.len as int == if value@.len() < RESPONSE_BUFFER_LEN { value@.len() as int } else {
            RESPONSE_BUFFER_LEN as int
        },
        r.value@ == response_payload(value@),
{
    let n: usize = if value.len() < RESPONSE_BUFFER_LEN { value.len() } else { RESPONSE_BUFFER_LEN };
    let mut buf: Vec<u8> = Vec::new();
    let mut i: usize = 0;
    while i < RESPONSE_BUFFER_LEN
        invariant
            i <= RESPONSE_BUFFER_LEN,
            n <= RESPONSE_BUFFER_LEN,
            n <= value@.len(),
            n == value@.len() || n == RESPONSE_BUFFER_LEN,
            buf@.len() == i,
            forall|j: int| 0 <= j < i ==> #[trigger] buf@[j] == response_payload(value@)[j],
        decreases RESPONSE_BUFFER_LEN - i,
    {
        if i < n {
            buf.push(value[i]);
        } else {
            buf.push(0u8);
        }
        i += 1;
    }
    assert(buf@ =~= response_payload(value@));
    GattResponse { handle, len: n as u16, value: buf }
}

/// A client's subscription state as its configuration descriptor holds it:
/// `(notifications, indications)`, or nothing for an empty value.
pub open spec fn cccd_status_of(v: Seq<u8>) -> Option<(bool, bool)> {
    if v.len() == 0 {
        None
    } else {
        Some((v[0] & 1u8 != 0u8, v[0] & 2u8 != 0u8))
    }
}

/// Decodes a configuration descriptor's value.
pub fn cccd_status(value: &Vec<u8>) -> (r: Option<(bool, bool)>)
    ensures
        r == cccd_status_of(value@),
{
    if value.len() == 0 {
        None
    } else {
        Some((value[0] & 1u8 != 0u8, value[0] & 2u8 != 0u8))
    }
}

/// The configuration descriptor's value for one connection, as its read callback gave it.
#[derive(Debug)]
pub struct CccdReading {
    pub conn_id: u16,
    pub value: Vec<u8>,
}

/// A value push to one connection: acknowledged (indicate) or not (notify).
#[derive(Clone, Copy, Debug, PartialEq, Eq, Structural)]
pub struct Push {
    pub conn_id: u16,
    pub indicate: bool,
}

/// The push, if any, that a connection with subscription state `status` gets
/// from a characteristic with `properties`. Indications win over notifications.
pub open spec fn push_for(
    properties: CharacteristicProperties,
    status: Option<(bool, bool)>,
    conn_id: u16,
) -> Option<Push> {
    match status {
        None => None,
        Some((notifications, indications)) => if properties.indicate && indications {
            Some(Push { conn_id, indicate: true })
        } else if properties.notify && notifications {
            Some(Push { conn_id, indicate: false })
        } else {
            None
        },
    }
}

pub open spec fn reading_views(rs: Seq<CccdReading>) -> Seq<(u16, Seq<u8>)> {
    rs.map_values(|r: CccdReading| (r.conn_id, r.value@))
}

/// The pushes for a value change, one reading per connection, in order.
pub open spec fn pushes(properties: CharacteristicProperties, readings: Seq<(u16, Seq<u8>)>) -> Seq<
    Push,
>
    decreases readings.len(),
{
    if readings.len() == 0 {
        Seq::empty()
    } else {
        let rest = pushes(properties, readings.drop_last());
        let last = readings.last();
        match push_for(properties, cccd_status_of(last.1), last.0) {
            Some(p) => rest.push(p),
            None => rest,
        }
    }
}

/// The pushes that a change of a characteristic's value causes, given each
/// active connection's subscription state.
pub fn notifications(properties: CharacteristicProperties, readings: &Vec<CccdReading>) -> (r: Vec<
    Push,
>)
    ensures
        r@ == pushes(properties, reading_views(readings@)),
{
    let mut r: Vec<Push> = Vec::new();
    let mut i: usize = 0;
    while i < readings.len()
        invariant
            i <= readings@.len(),
            r@ == pushes(properties, reading_views(readings@.subrange(0, i as int))),
        decreases readings.len() - i,
    {
        let status = cccd_status(&readings[i].value);
        let conn_id = readings[i].conn_id;
        proof {
            let pre = reading_views(readings@.subrange(0, i as int));
            let post = reading_views(readings@.subrange(0, i + 1));
            assert(post.drop_last() =~= pre);
            assert(post.last() == (conn_id, readings@[i as int].value@));
        }
        match status {
            Some((notifications, indications)) => {
                if properties.indicate && indications {
                    r.push(Push { conn_id, indicate: true });
                } else if properties.notify && notifications {
                    r.push(Push { conn_id, indicate: false });
                }
            },
            None => {},
        }
        i += 1;
    }
    assert(readings@.subrange(0, readings@.len() as int) =~= readings@);
    r
}

} // verus!
