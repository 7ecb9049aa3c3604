//! Compact and extended addressing of switches.
use vstd::prelude::*;

verus! {

/// Group ids in compact mode are below this bound.
pub const MAX_GID: u64 = 4;

/// Device ids in compact mode are below this bound.
pub const MAX_DID: u64 = 4;

/// House ids are below this bound (2^26).
pub const MAX_HID: u64 = 67_108_864;

/// Flat device ids in extended mode are below this bound (2^30).
pub const MAX_ID: u64 = 1_073_741_824;

/// Splits a flat device id into `(house_id, group_id, device_id)`: the low two
/// bits are the device id, the next two the group id, the rest the house id.
pub fn derive_ids(id: u64) -> (r: (u64, u64, u64))
    ensures
        r.0 == id >> 4,
        r.1 == (id >> 2) & 3,
        r.2 == id & 3,
{
    let device_id: u64 = id & 0b11;
    let rest: u64 = id >> 2;
    let group_id: u64 = rest & 0b11;
    let house_id: u64 = rest >> 2;
    assert(rest >> 2 == id >> 4) by (bit_vector)
        requires
            rest == id >> 2,
    ;
    (house_id, group_id, device_id)
}

/// Putting the three parts of a flat id back at their places gives the flat
/// id again.
pub proof fn lemma_derive_ids_recompose(f: u64)
    requires
        f < MAX_ID,
    ensures
        ((f >> 4) << 4) | (((f >> 2) & 3) << 2) | (f & 3) == f,
{
    assert(((f >> 4) << 4) | (((f >> 2) & 3) << 2) | (f & 3) == f) by (bit_vector);
}

/// Distinct flat ids never split into the same triple.
pub proof fn lemma_derive_ids_injective(f1: u64, f2: u64)
    requires
        f1 < MAX_ID,
        f2 < MAX_ID,
        f1 != f2,
    ensures
        (f1 >> 4, (f1 >> 2) & 3, f1 & 3) != (f2 >> 4, (f2 >> 2) & 3, f2 & 3),
{
    lemma_derive_ids_recompose(f1);
    lemma_derive_ids_recompose(f2);
}

} // verus!
