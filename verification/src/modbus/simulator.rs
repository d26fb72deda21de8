//! Data simulator: mutates a holding-register map on a tick.
//!
//! `Int32SawtoothSim` increments a two-word holding-register pair between
//! `min` and `max` by `step`, wrapping when it overflows the max. Channels
//! whose addresses are control-driven are skipped so external values survive
//! across ticks.

use crate::modbus::handler::{marked, written};
use std::collections::{HashMap, HashSet};
use vstd::prelude::*;

verus! {

broadcast use vstd::std_specs::hash::group_hash_axioms;

/// Sawtooth simulator for a single int32-shaped channel across two
/// holding registers (high word at `addr_high`, low word at `addr_low`).
#[derive(Clone, Copy, Debug, PartialEq, Eq, Structural)]
pub struct Int32SawtoothSim {
    /// Address of the high word.
    pub addr_high: u16,
    /// Address of the low word.
    pub addr_low: u16,
    /// Lower bound of the sawtooth (inclusive).
    pub min: u32,
    /// Upper bound (wraps back to `min` when exceeded).
    pub max: u32,
    /// Increment applied each tick.
    pub step: u32,
}

/// Drives the holding-register map, one channel after the other.
pub struct Simulator {
    /// All int32-shaped channels under simulation.
    int32_saws: Vec<Int32SawtoothSim>,
}

/// The register at `addr`, or 0 where the map has none.
pub open spec fn word_or_zero(m: Map<u16, u16>, addr: u16) -> int {
    if m.contains_key(addr) {
        m[addr] as int
    } else {
        0
    }
}

/// The unsigned 32-bit value whose high word is `high` and low word `low`.
pub open spec fn join_words(high: int, low: int) -> int {
    high * 0x10000 + low
}

/// The value a sawtooth channel moves to from `value`: `value + step`,
/// saturating at `u32::MAX`, and back to `min` once it passes `max`.
pub open spec fn sawtooth_next(sim: Int32SawtoothSim, value: int) -> int {
    let stepped = if value + sim.step > u32::MAX {
        u32::MAX as int
    } else {
        value + sim.step
    };
    if stepped > sim.max {
        sim.min as int
    } else {
        stepped
    }
}

/// Whether either word of the channel is under external control.
pub open spec fn channel_driven(sim: Int32SawtoothSim, driven: Set<u16>) -> bool {
    driven.contains(sim.addr_high) || driven.contains(sim.addr_low)
}

/// The register map after one tick of a single channel.
pub open spec fn tick_channel(m: Map<u16, u16>, driven: Set<u16>, sim: Int32SawtoothSim) -> Map<
    u16,
    u16,
> {
    if channel_driven(sim, driven) {
        m
    } else {
        let v = sawtooth_next(
            sim,
            join_words(word_or_zero(m, sim.addr_high), word_or_zero(m, sim.addr_low)),
        );
        m.insert(sim.addr_high, (v / 0x10000) as u16).insert(sim.addr_low, (v % 0x10000) as u16)
    }
}

/// The register map after one tick of every channel of `sims`, in order.
pub open spec fn tick_channels(m: Map<u16, u16>, driven: Set<u16>, sims: Seq<Int32SawtoothSim>) -> Map<
    u16,
    u16,
>
    decreases sims.len(),
{
    if sims.len() == 0 {
        m
    } else {
        tick_channel(tick_channels(m, driven, sims.drop_last()), driven, sims.last())
    }
}

/// The revenue-meter channel: kWh delivered at 4000/4001, from 1,000,000
/// to 1,010,000 in steps of 100.
pub open spec fn revenue_meter_channel() -> Int32SawtoothSim {
    Int32SawtoothSim { addr_high: 4000, addr_low: 4001, min: 1_000_000, max: 1_010_000, step: 100 }
}

/// A sawtooth that starts inside `[min, max]` stays inside it.
pub proof fn sawtooth_stays_in_range(sim: Int32SawtoothSim, value: int)
    requires
        sim.min <= value <= sim.max,
    ensures
        sim.min <= sawtooth_next(sim, value) <= sim.max,
{
}

/// A tick never changes a control-driven register: every channel that
/// touches a driven address is skipped.
pub proof fn tick_keeps_driven_registers(
    m: Map<u16, u16>,
    driven: Set<u16>,
    sims: Seq<Int32SawtoothSim>,
    a: u16,
)
    requires
        driven.contains(a),
    ensures
        tick_channels(m, driven, sims).contains_key(a) == m.contains_key(a),
        tick_channels(m, driven, sims)[a] == m[a],
    decreases sims.len(),
{
    if sims.len() > 0 {
        tick_keeps_driven_registers(m, driven, sims.drop_last(), a);
    }
}

/// A register written through the control surface keeps its value across
/// simulator ticks: the write marks it driven, and ticks skip driven
/// channels.
pub proof fn written_registers_survive_ticks(
    holding: Map<u16, u16>,
    driven: Set<u16>,
    writes: Map<u16, u16>,
    sims: Seq<Int32SawtoothSim>,
    a: u16,
)
    requires
        writes.contains_key(a),
    ensures
        tick_channels(written(holding, writes), marked(driven, writes), sims).contains_key(a),
        tick_channels(written(holding, writes), marked(driven, writes), sims)[a] == writes[a],
{
    tick_keeps_driven_registers(written(holding, writes), marked(driven, writes), sims, a);
}

/// After a tick of an undriven channel, its two words read back as the
/// channel's next sawtooth value.
pub proof fn tick_channel_reads_back(m: Map<u16, u16>, driven: Set<u16>, sim: Int32SawtoothSim)
    requires
        !channel_driven(sim, driven),
        sim.addr_high != sim.addr_low,
    ensures
        join_words(
            word_or_zero(tick_channel(m, driven, sim), sim.addr_high),
            word_or_zero(tick_channel(m, driven, sim), sim.addr_low),
        ) == sawtooth_next(
            sim,
            join_words(word_or_zero(m, sim.addr_high), word_or_zero(m, sim.addr_low)),
        ),
{
    let old_v = join_words(word_or_zero(m, sim.addr_high), word_or_zero(m, sim.addr_low));
    let v = sawtooth_next(sim, old_v);
    assert(0 <= old_v <= u32::MAX);
    assert(0 <= v <= u32::MAX);
    assert((v / 0x10000) * 0x10000 + v % 0x10000 == v);
}

proof fn lemma_join_split(high: u16, low: u16)
    ensures
        ((high as u32) << 16u32) | (low as u32) == join_words(high as int, low as int),
{
    assert(((high as u32) << 16u32) | (low as u32) == (high as u32) * 0x10000 + (low as u32))
        by (bit_vector);
}

proof fn lemma_split_words(v: u32)
    ensures
        (v >> 16u32) as u16 == v / 0x10000,
        v as u16 == v % 0x10000,
{
    assert((v >> 16u32) as u16 == v / 0x10000) by (bit_vector);
    assert(v as u16 == v % 0x10000) by (bit_vector);
}

impl Simulator {
    /// The channels of this simulator, in the order a tick visits them.
    pub closed spec fn channels(&self) -> Seq<Int32SawtoothSim> {
        self.int32_saws@
    }

    /// Build the simulator with the revenue-meter channel.
    pub fn new() -> (s: Self)
        ensures
            s.channels() == seq![revenue_meter_channel()],
    {
        let mut int32_saws: Vec<Int32SawtoothSim> = Vec::new();
        int32_saws.push(
            Int32SawtoothSim {
                addr_high: 4000,
                addr_low: 4001,
                min: 1_000_000,
                max: 1_010_000,
                step: 100,
            },
        );
        Simulator { int32_saws }
    }

    /// Advance every channel that is not control-driven by one step.
    pub fn tick(&self, holding: &mut HashMap<u16, u16>, driven: &HashSet<u16>)
        ensures
            final(holding)@ == tick_channels(old(holding)@, driven@, self.channels()),
    {
        let mut i: usize = 0;
        while i < self.int32_saws.len()
            invariant
                i <= self.int32_saws@.len(),
                holding@ == tick_channels(
                    old(holding)@,
                    driven@,
                    self.int32_saws@.take(i as int),
                ),
            decreases self.int32_saws@.len() - i,
        {
            let sim = self.int32_saws[i];
            proof {
                assert(self.int32_saws@.take(i as int + 1).drop_last() =~= self.int32_saws@.take(
                    i as int,
                ));
            }
            if !(driven.contains(&sim.addr_high) || driven.contains(&sim.addr_low)) {
                let high: u16 = match holding.get(&sim.addr_high) {
                    Some(h) => *h,
                    None => 0,
                };
                let low: u16 = match holding.get(&sim.addr_low) {
                    Some(l) => *l,
                    None => 0,
                };
                let mut value: u32 = ((high as u32) << 16u32) | (low as u32);
                proof {
                    lemma_join_split(high, low);
                }
                value = value.saturating_add(sim.step);
                if value > sim.max {
                    value = sim.min;
                }
                proof {
                    lemma_split_words(value);
                }
                holding.insert(sim.addr_high, (value >> 16u32) as u16);
                holding.insert(sim.addr_low, value as u16);
            }
            i = i + 1;
        }
        proof {
            assert(self.int32_saws@.take(self.int32_saws@.len() as int) =~= self.int32_saws@);
        }
    }
}

impl Default for Simulator {
    fn default() -> (s: Self)
        ensures
            s.channels() == seq![revenue_meter_channel()],
    {
        Simulator::new()
    }
}

} // verus!
