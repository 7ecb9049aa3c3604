//! The pulse train that carries one packet over the radio line.
//!
//! Every pulse drives the line high for the same time, then low for a time
//! that tells the pulses apart. A frame is a sync pulse, two pulses for each
//! of the 32 bits from the most significant down, and a pause pulse.
use vstd::prelude::*;

verus! {

/// Time the line is held high in every pulse, in microseconds.
pub const PULSE_HIGH_US: u64 = 250;

/// Low time of a short pulse, in microseconds.
pub const PULSE_ONE_LOW_US: u64 = 250;

/// Low time of a long pulse, in microseconds.
pub const PULSE_ZERO_LOW_US: u64 = 1250;

/// Low time of the sync pulse, in microseconds.
pub const PULSE_SYNC_LOW_US: u64 = 2500;

/// Low time of the pause pulse that ends a frame, in microseconds.
pub const PULSE_PAUSE_LOW_US: u64 = 10000;

/// One high-then-low pulse on the line.
#[derive(Clone, Copy, Debug, PartialEq, Eq, Structural)]
pub enum Pulse {
    Sync,
    Short,
    Long,
    Pause,
}

impl Pulse {
    /// How long the line stays low after the high part of this pulse.
    pub open spec fn low_time(self) -> u64 {
        match self {
            Pulse::Sync => PULSE_SYNC_LOW_US,
            Pulse::Short => PULSE_ONE_LOW_US,
            Pulse::Long => PULSE_ZERO_LOW_US,
            Pulse::Pause => PULSE_PAUSE_LOW_US,
        }
    }

    /// Microseconds the line is held high.
    pub fn high_micros(&self) -> (r: u64)
        ensures
            r == PULSE_HIGH_US,
    {
        PULSE_HIGH_US
    }

    /// Microseconds the line is held low after the high part.
    pub fn low_micros(&self) -> (r: u64)
        ensures
            r == self.low_time(),
    {
        match self {
            Pulse::Sync => PULSE_SYNC_LOW_US,
            Pulse::Short => PULSE_ONE_LOW_US,
            Pulse::Long => PULSE_ZERO_LOW_US,
            Pulse::Pause => PULSE_PAUSE_LOW_US,
        }
    }
}

/// The two pulses of one bit: short then long for a one, long then short for
/// a zero.
pub open spec fn bit_pair(one: bool) -> (Pulse, Pulse) {
    if one {
        (Pulse::Short, Pulse::Long)
    } else {
        (Pulse::Long, Pulse::Short)
    }
}

/// Bit `i` of a packet, counting from the least significant.
pub open spec fn packet_bit(p: u32, i: int) -> bool {
    (p >> (i as u32)) & 1 == 1
}

/// The full frame of a packet: sync, the bit pairs from bit 31 down to bit 0,
/// pause.
pub open spec fn frame(p: u32) -> Seq<Pulse> {
    Seq::new(
        66,
        |k: int|
            if k == 0 {
                Pulse::Sync
            } else if k == 65 {
                Pulse::Pause
            } else if (k - 1) % 2 == 0 {
                bit_pair(packet_bit(p, 31 - (k - 1) / 2)).0
            } else {
                bit_pair(packet_bit(p, 31 - (k - 1) / 2)).1
            },
    )
}

/// The two pulses that carry a bit; any nonzero value is a one.
pub fn bit_pulses(value: u32) -> (r: (Pulse, Pulse))
    ensures
        r == bit_pair(value != 0),
{
    if value != 0 {
        (Pulse::Short, Pulse::Long)
    } else {
        (Pulse::Long, Pulse::Short)
    }
}

/// The pulses of one packet's frame, in the order they go on the line.
pub fn frame_pulses(packet: u32) -> (r: Vec<Pulse>)
    ensures
        r@ == frame(packet),
{
    let mut pulses: Vec<Pulse> = Vec::new();
    pulses.push(Pulse::Sync);
    let mut j: u32 = 0;
    while j < 32
        invariant
            j <= 32,
            pulses@.len() == 1 + 2 * j,
            forall|k: int| 0 <= k < pulses@.len() ==> pulses@[k] == frame(packet)[k],
        decreases 32 - j,
    {
        let i: u32 = 31 - j;
        let bit: u32 = (packet >> i) & 1;
        assert(bit != 0 <==> packet_bit(packet, i as int)) by (bit_vector)
            requires
                bit == (packet >> i) & 1,
        ;
        let pair = bit_pulses(bit);
        pulses.push(pair.0);
        pulses.push(pair.1);
        j = j + 1;
    }
    pulses.push(Pulse::Pause);
    assert(pulses@ =~= frame(packet));
    pulses
}

/// Every frame has one sync pulse, 64 bit pulses and one pause pulse; bit
/// `i` of the packet is carried by the pulses at `63 - 2 * i` and
/// `64 - 2 * i`, short then long for a one and long then short for a zero.
pub proof fn lemma_frame_layout(p: u32, i: int)
    requires
        0 <= i < 32,
    ensures
        frame(p).len() == 66,
        frame(p)[0] == Pulse::Sync,
        frame(p)[65] == Pulse::Pause,
        frame(p)[63 - 2 * i] == bit_pair(packet_bit(p, i)).0,
        frame(p)[64 - 2 * i] == bit_pair(packet_bit(p, i)).1,
{
    assert((63 - 2 * i - 1) / 2 == 31 - i);
    assert((64 - 2 * i - 1) / 2 == 31 - i);
}

} // verus!
