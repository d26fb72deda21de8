//! Data simulator: mutates the OID value store on each tick. OIDs under
//! external control are skipped so driven values survive across ticks.

use crate::snmp::oid::{input_current_oid, oid_input_current};
use crate::snmp::store::{copy_oid, OidSet, OidValues};
use vstd::prelude::*;

verus! {

/// Sawtooth strategy for a single OID with an integer value.
pub struct IntSawtooth {
    /// Target OID components.
    pub oid: Vec<u32>,
    /// Inclusive lower bound, and the value of an OID that has none yet.
    pub min: i64,
    /// Wraps back to `min` when exceeded.
    pub max: i64,
    /// Increment per tick.
    pub step: i64,
}

/// Plain description of a sawtooth channel: OID, min, max, step.
pub struct SawtoothSpec {
    /// Target OID components.
    pub oid: Seq<u32>,
    /// Inclusive lower bound.
    pub min: int,
    /// Upper bound.
    pub max: int,
    /// Increment per tick.
    pub step: int,
}

impl IntSawtooth {
    /// This channel as plain values.
    pub open spec fn spec(&self) -> SawtoothSpec {
        SawtoothSpec { oid: self.oid@, min: self.min as int, max: self.max as int, step: self.step as int }
    }
}

/// Drives the OID value store, one channel after the other.
pub struct Simulator {
    saws: Vec<IntSawtooth>,
}

/// The value a sawtooth moves to from `cur`: `cur + step`, or back to
/// `min` once that passes `max`.
pub open spec fn sawtooth_step(saw: SawtoothSpec, cur: int) -> int {
    if cur + saw.step > saw.max {
        saw.min
    } else {
        cur + saw.step
    }
}

/// The store after one tick of a single channel.
pub open spec fn tick_saw(values: Map<Seq<u32>, i64>, driven: Set<Seq<u32>>, saw: SawtoothSpec) -> Map<
    Seq<u32>,
    i64,
> {
    if driven.contains(saw.oid) {
        values
    } else {
        let cur = if values.contains_key(saw.oid) {
            values[saw.oid] as int
        } else {
            saw.min
        };
        values.insert(saw.oid, sawtooth_step(saw, cur) as i64)
    }
}

/// The store after one tick of every channel of `saws`, in order.
pub open spec fn tick_saws(values: Map<Seq<u32>, i64>, driven: Set<Seq<u32>>, saws: Seq<SawtoothSpec>) -> Map<
    Seq<u32>,
    i64,
>
    decreases saws.len(),
{
    if saws.len() == 0 {
        values
    } else {
        tick_saw(tick_saws(values, driven, saws.drop_last()), driven, saws.last())
    }
}

/// The input-current channel: 100 to 200 deci-amps in steps of 5.
pub open spec fn input_current_saw() -> SawtoothSpec {
    SawtoothSpec { oid: input_current_oid(), min: 100, max: 200, step: 5 }
}

/// A channel that starts inside `[min, max]` stays inside it, provided a
/// step is no wider than the range.
pub proof fn sawtooth_step_stays_in_range(saw: SawtoothSpec, cur: int)
    requires
        saw.min <= cur <= saw.max,
        0 <= saw.step,
    ensures
        saw.min <= sawtooth_step(saw, cur) <= saw.max,
{
}

/// A tick never changes the value of a driven OID.
pub proof fn tick_keeps_driven_oids(
    values: Map<Seq<u32>, i64>,
    driven: Set<Seq<u32>>,
    saws: Seq<SawtoothSpec>,
    oid: Seq<u32>,
)
    requires
        driven.contains(oid),
    ensures
        tick_saws(values, driven, saws).contains_key(oid) == values.contains_key(oid),
        tick_saws(values, driven, saws)[oid] == values[oid],
    decreases saws.len(),
{
    if saws.len() > 0 {
        tick_keeps_driven_oids(values, driven, saws.drop_last(), oid);
    }
}

impl Simulator {
    #[verifier::type_invariant]
    spec fn steps_nonnegative(self) -> bool {
        forall|i: int| 0 <= i < self.saws@.len() ==> 0 <= (#[trigger] self.saws@[i]).step
    }

    /// The channels of this simulator, in the order a tick visits them.
    pub closed spec fn channels(&self) -> Seq<SawtoothSpec> {
        self.saws@.map_values(|s: IntSawtooth| s.spec())
    }

    /// Build the simulator with the input-current channel.
    pub fn new() -> (s: Self)
        ensures
            s.channels() == seq![input_current_saw()],
    {
        let mut saws: Vec<IntSawtooth> = Vec::new();
        saws.push(IntSawtooth { oid: oid_input_current(), min: 100, max: 200, step: 5 });
        let s = Simulator { saws };
        proof {
            assert(s.channels() =~= seq![input_current_saw()]);
        }
        s
    }

    /// Advance every OID that is not driven by one step.
    pub fn tick(&self, values: &mut OidValues, driven: &OidSet)
        ensures
            final(values).view() == tick_saws(old(values).view(), driven.view(), self.channels()),
    {
        proof {
            use_type_invariant(self);
        }
        let mut i: usize = 0;
        while i < self.saws.len()
            invariant
                i <= self.saws@.len(),
                self.steps_nonnegative(),
                values.view() == tick_saws(
                    old(values).view(),
                    driven.view(),
                    self.channels().take(i as int),
                ),
            decreases self.saws@.len() - i,
        {
            let sim = &self.saws[i];
            proof {
                assert(self.channels().take(i as int + 1).drop_last() =~= self.channels().take(
                    i as int,
                ));
                assert(self.channels().take(i as int + 1).last() == sim.spec());
            }
            if !driven.contains(&sim.oid) {
                let cur: i64 = match values.get(&sim.oid) {
                    Some(v) => v,
                    None => sim.min,
                };
                let next: i64 = if (cur as i128) + (sim.step as i128) > (sim.max as i128) {
                    sim.min
                } else {
                    cur + sim.step
                };
                values.insert(copy_oid(&sim.oid), next);
            }
            i = i + 1;
        }
        proof {
            assert(self.channels().take(self.saws@.len() as int) =~= self.channels());
        }
    }
}

impl Default for Simulator {
    fn default() -> (s: Self)
        ensures
            s.channels() == seq![input_current_saw()],
    {
        Simulator::new()
    }
}

} // verus!
