//! The set of active connections, keyed by connection identifier.
use vstd::prelude::*;
use crate::event::Connection;

verus! {

/// No two entries share a connection identifier.
pub open spec fn ids_unique(cs: Seq<Connection>) -> bool {
    forall|i: int, j: int| 0 <= i < j < cs.len() ==> cs[i].id != cs[j].id
}

/// Some entry has connection identifier `id`.
pub open spec fn has_conn(cs: Seq<Connection>, id: u16) -> bool {
    exists|k: int| 0 <= k < cs.len() && #[trigger] cs[k].id == id
}

/// The position of the entry with identifier `id`.
pub fn position_of(cs: &Vec<Connection>, id: u16) -> (r: Option<usize>)
    ensures
        r matches Some(k) ==> k < cs@.len() && cs@[k as int].id == id,
        r is None ==> !has_conn(cs@, id),
{
    let mut k: usize = 0;
    while k < cs.len()
        invariant
            k <= cs@.len(),
            forall|j: int| 0 <= j < k ==> #[trigger] cs@[j].id != id,
        decreases cs.len() - k,
    {
        if cs[k].id == id {
            return Some(k);
        }
        k += 1;
    }
    None
}

/// Removes the entry with identifier `id`, if there is one.
pub fn remove_connection(cs: &mut Vec<Connection>, id: u16)
    requires
        ids_unique(old(cs)@),
    ensures
        ids_unique(final(cs)@),
        forall|x: u16| has_conn(final(cs)@, x) <==> (has_conn(old(cs)@, x) && x != id),
        forall|k: int|
            0 <= k < old(cs)@.len() && old(cs)@[k].id != id ==> final(cs)@.contains(old(cs)@[k]),
        forall|k: int| 0 <= k < final(cs)@.len() ==> old(cs)@.contains(#[trigger] final(cs)@[k]),
{
    match position_of(cs, id) {
        Some(k) => {
            let ghost o = cs@;
            cs.remove(k);
            assert(cs@ == o.remove(k as int));
            assert forall|x: u16| has_conn(cs@, x) <==> (has_conn(o, x) && x != id) by {
                if has_conn(cs@, x) {
                    let j = choose|j: int| 0 <= j < cs@.len() && #[trigger] cs@[j].id == x;
                    if j < k {
                        assert(o[j].id == x);
                    } else {
                        assert(o[j + 1].id == x);
                    }
                }
                if has_conn(o, x) && x != id {
                    let j = choose|j: int| 0 <= j < o.len() && #[trigger] o[j].id == x;
                    if j < k {
                        assert(cs@[j].id == x);
                    } else {
                        assert(j != k);
                        assert(cs@[j - 1].id == x);
                    }
                }
            }
            assert forall|j: int| 0 <= j < o.len() && o[j].id != id implies cs@.contains(o[j]) by {
                if j < k {
                    assert(cs@[j] == o[j]);
                } else {
                    assert(cs@[j - 1] == o[j]);
                }
            }
            assert forall|j: int| 0 <= j < cs@.len() implies o.contains(#[trigger] cs@[j]) by {
                if j < k {
                    assert(o[j] == cs@[j]);
                } else {
                    assert(o[j + 1] == cs@[j]);
                }
            }
        },
        None => {
            assert forall|j: int| 0 <= j < cs@.len() implies cs@.contains(#[trigger] cs@[j]) by {}
        },
    }
}

/// Records `connection`, in place of any entry with the same identifier.
pub fn insert_connection(cs: &mut Vec<Connection>, connection: Connection)
    requires
        ids_unique(old(cs)@),
    ensures
        ids_unique(final(cs)@),
        forall|x: u16| has_conn(final(cs)@, x) <==> (has_conn(old(cs)@, x) || x == connection.id),
        forall|k: int|
            0 <= k < final(cs)@.len() && final(cs)@[k].id == connection.id ==> final(cs)@[k]
                == connection,
        forall|k: int|
            0 <= k < old(cs)@.len() && old(cs)@[k].id != connection.id ==> final(cs)@.contains(
                old(cs)@[k],
            ),
{
    remove_connection(cs, connection.id);
    let ghost mid = cs@;
    cs.push(connection);
    assert forall|x: u16| has_conn(cs@, x) <==> (has_conn(mid, x) || x == connection.id) by {
        if has_conn(cs@, x) {
            let j = choose|j: int| 0 <= j < cs@.len() && #[trigger] cs@[j].id == x;
            if j < mid.len() {
                assert(mid[j].id == x);
                assert(has_conn(mid, x));
            }
        }
        if has_conn(mid, x) {
            let j = choose|j: int| 0 <= j < mid.len() && #[trigger] mid[j].id == x;
            assert(cs@[j].id == x);
            assert(has_conn(cs@, x));
        }
        if x == connection.id {
            assert(cs@[mid.len() as int].id == x);
            assert(has_conn(cs@, x));
        }
    }
    assert forall|k: int| 0 <= k < cs@.len() && cs@[k].id == connection.id implies cs@[k]
        == connection by {
        if k < mid.len() {
            assert(mid[k].id == connection.id);
            assert(has_conn(mid, connection.id));
        }
    }
    assert forall|k: int|
        0 <= k < old(cs)@.len() && old(cs)@[k].id != connection.id implies cs@.contains(
        old(cs)@[k],
    ) by {
        let j = choose|j: int| 0 <= j < mid.len() && mid[j] == old(cs)@[k];
        assert(cs@[j] == mid[j]);
    }
    assert forall|i: int, j: int| 0 <= i < j < cs@.len() implies cs@[i].id != cs@[j].id by {
        if j == mid.len() {
            assert(mid[i].id == cs@[i].id);
            if mid[i].id == connection.id {
                assert(has_conn(mid, connection.id));
            }
        }
    }
}

} // verus!
