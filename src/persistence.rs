//! How subscription states are keyed and read back from the host's
//! non-volatile store.
use vstd::prelude::*;

verus! {

/// The ASCII upper-case hexadecimal digit of `n < 16`.
pub open spec fn hex_digit(n: int) -> u8 {
    if n < 10 {
        (48 + n) as u8
    } else {
        (55 + n) as u8
    }
}

/// The two digits of a byte, most significant first.
pub open spec fn byte_hex(b: u8) -> Seq<u8> {
    seq![hex_digit(b as int / 16), hex_digit(b as int % 16)]
}

/// The store key of a client's subscription state for the configuration
/// descriptor at `handle`: the last four bytes of the client's address, then
/// `-`, then the handle, all as upper-case hexadecimal (`"A1B2C3D4-002B"`).
pub open spec fn cccd_key_of(remote_bda: [u8; 6], handle: u16) -> Seq<u8> {
    byte_hex(remote_bda[2]) + byte_hex(remote_bda[3]) + byte_hex(remote_bda[4]) + byte_hex(
        remote_bda[5],
    ) + seq![45u8] + byte_hex((handle / 256) as u8) + byte_hex((handle % 256) as u8)
}

fn push_hex_digit(out: &mut Vec<u8>, n: u8)
    requires
        n < 16,
    ensures
        final(out)@ == old(out)@.push(hex_digit(n as int)),
{
    if n < 10 {
        out.push(48 + n);
    } else {
        out.push(55 + n);
    }
}

fn push_byte_hex(out: &mut Vec<u8>, b: u8)
    ensures
        final(out)@ == old(out)@ + byte_hex(b),
{
    push_hex_digit(out, b / 16);
    push_hex_digit(out, b % 16);
    assert(out@ =~= old(out)@ + byte_hex(b));
}

/// The store key of a client's subscription state, as ASCII bytes.
pub fn cccd_key(remote_bda: [u8; 6], handle: u16) -> (r: Vec<u8>)
    ensures
        r@ == cccd_key_of(remote_bda, handle),
{
    let mut r: Vec<u8> = Vec::new();
    push_byte_hex(&mut r, remote_bda[2]);
    push_byte_hex(&mut r, remote_bda[3]);
    push_byte_hex(&mut r, remote_bda[4]);
    push_byte_hex(&mut r, remote_bda[5]);
    r.push(45u8);
    push_byte_hex(&mut r, (handle / 256) as u8);
    push_byte_hex(&mut r, (handle % 256) as u8);
    assert(r@ =~= cccd_key_of(remote_bda, handle));
    r
}

/// A stored subscription state, or neither notifications nor indications
/// (`[0, 0]`) for a client that never wrote one.
pub fn stored_cccd_value(stored: Option<Vec<u8>>) -> (r: Vec<u8>)
    ensures
        stored matches Some(v) ==> r@ == v@,
        stored is None ==> r@ == seq![0u8, 0u8],
{
    match stored {
        Some(v) => v,
        None => {
            let mut r: Vec<u8> = Vec::new();
            r.push(0u8);
            r.push(0u8);
            assert(r@ =~= seq![0u8, 0u8]);
            r
        },
    }
}

} // verus!
