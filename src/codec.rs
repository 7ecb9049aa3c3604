//! Wire layout of a 32-bit packet:
//!
//! ```text
//! HHHH HHHH HHHH HHHH HHHH HHHH HHGO CCEE
//! H: house id, G: group switch, O: device switch, C: group id, E: device id
//! ```
use vstd::prelude::*;

use crate::addressing::MAX_ID;

verus! {

pub const HOUSE_CODE_OFFSET: u32 = 6;
pub const HOUSE_CODE_MASK: u32 = 0xFFFF_FFC0;
pub const GROUP_SWITCH_OFFSET: u32 = 5;
pub const GROUP_SWITCH_MASK: u32 = 0x20;
pub const DEVICE_SWITCH_OFFSET: u32 = 4;
pub const DEVICE_SWITCH_MASK: u32 = 0x10;
pub const CHANNEL_OFFSET: u32 = 2;
pub const CHANNEL_MASK: u32 = 0xC;
pub const UNIT_OFFSET: u32 = 0;
pub const UNIT_MASK: u32 = 0x3;

/// The house id field of a packet (bits 31..6).
pub open spec fn house_field(p: u32) -> u32 {
    p >> 6
}

/// The group-switch flag of a packet (bit 5).
pub open spec fn group_switch_field(p: u32) -> bool {
    (p >> 5) & 1 == 1
}

/// The device-switch flag of a packet (bit 4).
pub open spec fn device_switch_field(p: u32) -> bool {
    (p >> 4) & 1 == 1
}

/// The group id field of a packet (bits 3..2).
pub open spec fn group_field(p: u32) -> u32 {
    (p >> 2) & 3
}

/// The device id field of a packet (bits 1..0).
pub open spec fn device_field(p: u32) -> u32 {
    p & 3
}

/// The device-scope packet: house id in bits 31..6, the state in bit 4, the
/// group id in bits 3..2 and the device id in bits 1..0. Each id is cut to the
/// width of its field.
pub open spec fn device_packet(house_id: u64, group_id: u64, device_id: u64, on: bool) -> u32 {
    ((house_id & 0x3FF_FFFF) as u32) << 6 | (if on { 1u32 } else { 0u32 }) << 4 | ((group_id
        & 3) as u32) << 2 | ((device_id & 3) as u32)
}

/// The group-scope packet: house id in bits 31..6, the state in bit 5, the
/// group id in bits 3..2; bits 4 and 1..0 are clear.
pub open spec fn group_packet(house_id: u64, group_id: u64, on: bool) -> u32 {
    ((house_id & 0x3FF_FFFF) as u32) << 6 | (if on { 1u32 } else { 0u32 }) << 5 | ((group_id
        & 3) as u32) << 2
}

/// Builds the device-scope packet from the layout's masks and offsets.
pub fn encode_device(house_id: u64, group_id: u64, device_id: u64, on: bool) -> (r: u32)
    ensures
        r == device_packet(house_id, group_id, device_id, on),
{
    let s: u32 = if on { 1 } else { 0 };
    let mut packet: u32 = 0;
    packet = packet | (((device_id as u32) << UNIT_OFFSET) & UNIT_MASK);
    packet = packet | (((group_id as u32) << CHANNEL_OFFSET) & CHANNEL_MASK);
    packet = packet | (((house_id as u32) << HOUSE_CODE_OFFSET) & HOUSE_CODE_MASK);
    packet = packet | ((s << DEVICE_SWITCH_OFFSET) & DEVICE_SWITCH_MASK);
    assert(packet == ((house_id & 0x3FF_FFFF) as u32) << 6 | s << 4 | ((group_id & 3) as u32) << 2
        | ((device_id & 3) as u32)) by (bit_vector)
        requires
            s <= 1,
            packet == ((0u32 | (((device_id as u32) << 0u32) & 3u32)) | (((group_id as u32)
                << 2u32) & 0xCu32) | (((house_id as u32) << 6u32) & 0xFFFF_FFC0u32)) | ((s
                << 4u32) & 0x10u32),
    ;
    packet
}

/// Builds the group-scope packet from the layout's masks and offsets.
pub fn encode_group(house_id: u64, group_id: u64, on: bool) -> (r: u32)
    ensures
        r == group_packet(house_id, group_id, on),
{
    let s: u32 = if on { 1 } else { 0 };
    let mut packet: u32 = 0;
    packet = packet | (((group_id as u32) << CHANNEL_OFFSET) & CHANNEL_MASK);
    packet = packet | (((house_id as u32) << HOUSE_CODE_OFFSET) & HOUSE_CODE_MASK);
    packet = packet | ((s << GROUP_SWITCH_OFFSET) & GROUP_SWITCH_MASK);
    assert(packet == ((house_id & 0x3FF_FFFF) as u32) << 6 | s << 5 | ((group_id & 3) as u32) << 2)
        by (bit_vector)
        requires
            s <= 1,
            packet == ((0u32 | (((group_id as u32) << 2u32) & 0xCu32)) | (((house_id as u32)
                << 6u32) & 0xFFFF_FFC0u32)) | ((s << 5u32) & 0x20u32),
    ;
    packet
}

/// Reading the fields of a device-scope packet back gives the ids (cut to
/// their widths), the state in the device-switch flag and a clear
/// group-switch flag.
pub proof fn lemma_device_packet_fields(house_id: u64, group_id: u64, device_id: u64, on: bool)
    ensures
        house_field(device_packet(house_id, group_id, device_id, on)) as u64 == house_id
            & 0x3FF_FFFF,
        group_field(device_packet(house_id, group_id, device_id, on)) as u64 == group_id & 3,
        device_field(device_packet(house_id, group_id, device_id, on)) as u64 == device_id & 3,
        device_switch_field(device_packet(house_id, group_id, device_id, on)) == on,
        !group_switch_field(device_packet(house_id, group_id, device_id, on)),
{
    let s: u32 = if on { 1 } else { 0 };
    let p = device_packet(house_id, group_id, device_id, on);
    assert(p == ((house_id & 0x3FF_FFFF) as u32) << 6 | s << 4 | ((group_id & 3) as u32) << 2 | ((
    device_id & 3) as u32));
    assert({
        &&& (p >> 6) as u64 == house_id & 0x3FF_FFFF
        &&& ((p >> 2) & 3) as u64 == group_id & 3
        &&& (p & 3) as u64 == device_id & 3
        &&& (p >> 4) & 1 == s
        &&& (p >> 5) & 1 == 0
    }) by (bit_vector)
        requires
            s <= 1,
            p == ((house_id & 0x3FF_FFFF) as u32) << 6 | s << 4 | ((group_id & 3) as u32) << 2 | ((
            device_id & 3) as u32),
    ;
}

/// Reading the fields of a group-scope packet back gives the ids (cut to their
/// widths), the state in the group-switch flag, a clear device-switch flag and
/// a zero device id field.
pub proof fn lemma_group_packet_fields(house_id: u64, group_id: u64, on: bool)
    ensures
        house_field(group_packet(house_id, group_id, on)) as u64 == house_id & 0x3FF_FFFF,
        group_field(group_packet(house_id, group_id, on)) as u64 == group_id & 3,
        device_field(group_packet(house_id, group_id, on)) == 0,
        group_switch_field(group_packet(house_id, group_id, on)) == on,
        !device_switch_field(group_packet(house_id, group_id, on)),
{
    let s: u32 = if on { 1 } else { 0 };
    let p = group_packet(house_id, group_id, on);
    assert(p == ((house_id & 0x3FF_FFFF) as u32) << 6 | s << 5 | ((group_id & 3) as u32) << 2);
    assert({
        &&& (p >> 6) as u64 == house_id & 0x3FF_FFFF
        &&& ((p >> 2) & 3) as u64 == group_id & 3
        &&& p & 3 == 0
        &&& (p >> 5) & 1 == s
        &&& (p >> 4) & 1 == 0
    }) by (bit_vector)
        requires
            s <= 1,
            p == ((house_id & 0x3FF_FFFF) as u32) << 6 | s << 5 | ((group_id & 3) as u32) << 2,
    ;
}

/// The "on" and "off" device-scope packets of one device differ in the
/// device-switch bit and nowhere else.
pub proof fn lemma_device_packet_states_differ_in_switch_bit(
    house_id: u64,
    group_id: u64,
    device_id: u64,
)
    ensures
        device_packet(house_id, group_id, device_id, true) ^ device_packet(
            house_id,
            group_id,
            device_id,
            false,
        ) == DEVICE_SWITCH_MASK,
{
    let h = (house_id & 0x3FF_FFFF) as u32;
    let g = (group_id & 3) as u32;
    let d = (device_id & 3) as u32;
    assert(h < 0x400_0000 && g < 4 && d < 4) by (bit_vector)
        requires
            h == (house_id & 0x3FF_FFFF) as u32,
            g == (group_id & 3) as u32,
            d == (device_id & 3) as u32,
    ;
    assert((h << 6 | 1u32 << 4 | g << 2 | d) ^ (h << 6 | 0u32 << 4 | g << 2 | d) == 0x10u32)
        by (bit_vector)
        requires
            h < 0x400_0000,
            g < 4,
            d < 4,
    ;
}

/// The device-scope packet of a device addressed by a flat id carries the low
/// four bits of the id in its low four bits and the rest in its house field.
proof fn lemma_flat_id_packet(f: u64, on: bool)
    requires
        f < MAX_ID,
    ensures
        device_packet(f >> 4, (f >> 2) & 3, f & 3, on) & 0xF == (f & 0xF) as u32 & 0xF,
        (device_packet(f >> 4, (f >> 2) & 3, f & 3, on) >> 6) as u64 == f >> 4,
{
    let s: u32 = if on { 1 } else { 0 };
    let p = device_packet(f >> 4, (f >> 2) & 3, f & 3, on);
    assert(p == (((f >> 4) & 0x3FF_FFFF) as u32) << 6 | s << 4 | ((((f >> 2) & 3) & 3) as u32)
        << 2 | (((f & 3) & 3) as u32));
    assert(p & 0xF == (f & 0xF) as u32 & 0xF && (p >> 6) as u64 == f >> 4) by (bit_vector)
        requires
            f < 0x4000_0000,
            s <= 1,
            p == (((f >> 4) & 0x3FF_FFFF) as u32) << 6 | s << 4 | ((((f >> 2) & 3) & 3) as u32)
                << 2 | (((f & 3) & 3) as u32),
    ;
}

/// Devices addressed by distinct flat ids never send the same packet, whatever
/// the states.
pub proof fn lemma_flat_ids_never_collide(f1: u64, f2: u64, on1: bool, on2: bool)
    requires
        f1 < MAX_ID,
        f2 < MAX_ID,
        f1 != f2,
    ensures
        device_packet(f1 >> 4, (f1 >> 2) & 3, f1 & 3, on1) != device_packet(
            f2 >> 4,
            (f2 >> 2) & 3,
            f2 & 3,
            on2,
        ),
{
    lemma_flat_id_packet(f1, on1);
    lemma_flat_id_packet(f2, on2);
    let p1 = device_packet(f1 >> 4, (f1 >> 2) & 3, f1 & 3, on1);
    let p2 = device_packet(f2 >> 4, (f2 >> 2) & 3, f2 & 3, on2);
    if p1 == p2 {
        assert(f1 == f2) by (bit_vector)
            requires
                (f1 & 0xF) as u32 & 0xF == (f2 & 0xF) as u32 & 0xF,
                f1 >> 4 == f2 >> 4,
        ;
    }
}

} // verus!
