//! The register-map handler behind the Modbus server: reads and protocol
//! writes of holding registers, and batch writes from the control surface.

use std::collections::{HashMap, HashSet};
use vstd::prelude::*;

verus! {

broadcast use vstd::std_specs::hash::group_hash_axioms;

/// Modbus exception codes this handler answers with.
#[derive(Clone, Copy, Debug, PartialEq, Eq, Structural)]
pub enum ModbusException {
    /// Function code not accepted by this session (protocol writes while
    /// the device is read-only).
    IllegalFunction,
    /// No register at the requested address.
    IllegalDataAddress,
}

/// Live register map of one Modbus device.
pub struct MeterHandler {
    /// Live register values keyed by Modbus address.
    pub holding: HashMap<u16, u16>,
    /// Addresses owned by the external control surface. The simulator skips
    /// channels touching these so a driven value survives past the next tick.
    pub driven: HashSet<u16>,
    /// Whether Modbus protocol writes (function code 16) are accepted.
    pub writable: bool,
}

/// `base` after writing every entry of `writes` into it.
pub open spec fn written(base: Map<u16, u16>, writes: Map<u16, u16>) -> Map<u16, u16> {
    base.union_prefer_right(writes)
}

/// `driven` after marking every address of `writes` as control-driven.
pub open spec fn marked(driven: Set<u16>, writes: Map<u16, u16>) -> Set<u16> {
    driven.union(writes.dom())
}

/// The map that a sequence of `(address, value)` register writes leaves
/// behind when applied in order to `base`.
pub open spec fn apply_seq(base: Map<u16, u16>, writes: Seq<(u16, u16)>) -> Map<u16, u16>
    decreases writes.len(),
{
    if writes.len() == 0 {
        base
    } else {
        apply_seq(base, writes.drop_last()).insert(writes.last().0, writes.last().1)
    }
}

/// The addresses named by a sequence of register writes.
pub open spec fn seq_addresses(writes: Seq<(u16, u16)>) -> Set<u16> {
    Set::new(|a: u16| exists|i: int| 0 <= i < writes.len() && #[trigger] writes[i].0 == a)
}

/// A batch write reads back: every written address holds the written value
/// and is driven, and every other address keeps its value and its driven
/// mark.
pub proof fn apply_writes_reads_back(
    holding: Map<u16, u16>,
    driven: Set<u16>,
    writes: Map<u16, u16>,
    a: u16,
)
    ensures
        writes.contains_key(a) ==> {
            &&& written(holding, writes).contains_key(a)
            &&& written(holding, writes)[a] == writes[a]
            &&& marked(driven, writes).contains(a)
        },
        !writes.contains_key(a) ==> {
            &&& written(holding, writes).contains_key(a) == holding.contains_key(a)
            &&& holding.contains_key(a) ==> written(holding, writes)[a] == holding[a]
            &&& marked(driven, writes).contains(a) == driven.contains(a)
        },
{
}

/// A function-code-16 write reads back: an address that the writes name
/// holds the value of the last write to it (zero included), whatever was
/// there before.
pub proof fn fc16_write_reads_back_last_value(
    base: Map<u16, u16>,
    writes: Seq<(u16, u16)>,
    j: int,
)
    requires
        0 <= j < writes.len(),
        forall|k: int| j < k < writes.len() ==> #[trigger] writes[k].0 != writes[j].0,
    ensures
        apply_seq(base, writes).contains_key(writes[j].0),
        apply_seq(base, writes)[writes[j].0] == writes[j].1,
    decreases writes.len(),
{
    if j < writes.len() - 1 {
        let shorter = writes.drop_last();
        assert(writes.last().0 != writes[j].0);
        assert forall|k: int| j < k < shorter.len() implies #[trigger] shorter[k].0 != shorter[j].0 by {
            assert(shorter[k] == writes[k]);
        }
        fc16_write_reads_back_last_value(base, shorter, j);
    }
}

/// A function-code-16 write leaves every address it does not name as it
/// was.
pub proof fn fc16_write_keeps_other_addresses(base: Map<u16, u16>, writes: Seq<(u16, u16)>, a: u16)
    requires
        forall|k: int| 0 <= k < writes.len() ==> #[trigger] writes[k].0 != a,
    ensures
        apply_seq(base, writes).contains_key(a) == base.contains_key(a),
        base.contains_key(a) ==> apply_seq(base, writes)[a] == base[a],
    decreases writes.len(),
{
    if writes.len() > 0 {
        let shorter = writes.drop_last();
        assert(writes.last().0 != a);
        assert forall|k: int| 0 <= k < shorter.len() implies #[trigger] shorter[k].0 != a by {
            assert(shorter[k] == writes[k]);
        }
        fc16_write_keeps_other_addresses(base, shorter, a);
    }
}

impl MeterHandler {
    /// Build a handler with the initial register map. Protocol writes are
    /// rejected until `writable` is set.
    pub fn new(holding: HashMap<u16, u16>) -> (h: Self)
        ensures
            h.holding@ == holding@,
            h.driven@ == Set::<u16>::empty(),
            !h.writable,
    {
        MeterHandler { holding, driven: HashSet::new(), writable: false }
    }

    /// Apply a batch of external register writes and mark each address as
    /// control-driven.
    pub fn apply_writes(&mut self, registers: &HashMap<u16, u16>)
        ensures
            final(self).holding@ == written(old(self).holding@, registers@),
            final(self).driven@ == marked(old(self).driven@, registers@),
            final(self).writable == old(self).writable,
    {
        let ghost h0 = self.holding@;
        let ghost d0 = self.driven@;
        let ghost mut done: Set<u16> = Set::empty();
        for (address, value) in it: registers.iter()
            invariant
                self.writable == old(self).writable,
                h0 == old(self).holding@,
                d0 == old(self).driven@,
                forall|i: int|
                    0 <= i < it.seq().len() ==> registers@.contains_key(*#[trigger] it.seq()[i].0)
                        && registers@[*it.seq()[i].0] == *it.seq()[i].1,
                forall|k: u16|
                    registers@.contains_key(k) ==> #[trigger] done.contains(k) || (exists|i: int|
                        it.index() <= i < it.seq().len() && #[trigger] it.seq()[i] == (
                        &k,
                        &registers@[k],
                    )),
                forall|k: u16| #[trigger]
                    done.contains(k) ==> {
                        &&& registers@.contains_key(k)
                        &&& self.holding@.contains_key(k)
                        &&& self.holding@[k] == registers@[k]
                        &&& self.driven@.contains(k)
                    },
                forall|k: u16|
                    #![trigger self.holding@.contains_key(k)]
                    #![trigger self.driven@.contains(k)]
                    !done.contains(k) ==> {
                        &&& self.holding@.contains_key(k) == h0.contains_key(k)
                        &&& h0.contains_key(k) ==> self.holding@[k] == h0[k]
                        &&& self.driven@.contains(k) == d0.contains(k)
                    },
        {
            proof {
                assert(it.seq()[it.index()] == (address, value));
                done = done.insert(*address);
            }
            self.holding.insert(*address, *value);
            self.driven.insert(*address);
        }
        proof {
            assert(done =~= registers@.dom());
            assert(self.holding@ =~= written(h0, registers@));
            assert(self.driven@ =~= marked(d0, registers@));
        }
    }

    /// Read one holding register.
    pub fn read_holding_register(&self, address: u16) -> (r: Result<u16, ModbusException>)
        ensures
            self.holding@.contains_key(address) ==> r == Ok::<u16, ModbusException>(
                self.holding@[address],
            ),
            !self.holding@.contains_key(address) ==> r == Err::<u16, ModbusException>(
                ModbusException::IllegalDataAddress,
            ),
    {
        match self.holding.get(&address) {
            Some(v) => Ok(*v),
            None => Err(ModbusException::IllegalDataAddress),
        }
    }

    /// Function code 16: write consecutive registers, given as
    /// `(address, value)` pairs in request order. Rejected with
    /// `IllegalFunction` unless `writable` is set; written addresses become
    /// control-driven, as with the control surface.
    pub fn write_multiple_registers(&mut self, values: &Vec<(u16, u16)>) -> (r: Result<
        (),
        ModbusException,
    >)
        ensures
            !old(self).writable ==> {
                &&& r == Err::<(), ModbusException>(ModbusException::IllegalFunction)
                &&& final(self).holding@ == old(self).holding@
                &&& final(self).driven@ == old(self).driven@
            },
            old(self).writable ==> {
                &&& r == Ok::<(), ModbusException>(())
                &&& final(self).holding@ == apply_seq(old(self).holding@, values@)
                &&& final(self).driven@ == old(self).driven@.union(seq_addresses(values@))
            },
            final(self).writable == old(self).writable,
    {
        if !self.writable {
            return Err(ModbusException::IllegalFunction);
        }
        let mut i: usize = 0;
        while i < values.len()
            invariant
                i <= values.len(),
                self.writable == old(self).writable,
                old(self).writable,
                self.holding@ == apply_seq(old(self).holding@, values@.take(i as int)),
                self.driven@ == old(self).driven@.union(seq_addresses(values@.take(i as int))),
            decreases values.len() - i,
        {
            let (address, value) = values[i];
            self.holding.insert(address, value);
            self.driven.insert(address);
            proof {
                let t = values@.take(i as int + 1);
                assert(t.drop_last() =~= values@.take(i as int));
                assert(seq_addresses(t) =~= seq_addresses(values@.take(i as int)).insert(address))
                    by {
                    assert(t[i as int].0 == address);
                    assert forall|a: u16| seq_addresses(t).contains(a) implies seq_addresses(
                        values@.take(i as int),
                    ).insert(address).contains(a) by {
                        let j = choose|j: int| 0 <= j < t.len() && #[trigger] t[j].0 == a;
                        if j < i {
                            assert(values@.take(i as int)[j].0 == a);
                        }
                    }
                    assert forall|a: u16| seq_addresses(values@.take(i as int)).contains(a) implies
                        seq_addresses(t).contains(a) by {
                        let j = choose|j: int|
                            0 <= j < values@.take(i as int).len() && #[trigger] values@.take(
                                i as int,
                            )[j].0 == a;
                        assert(t[j].0 == a);
                    }
                }
            }
            i = i + 1;
        }
        proof {
            assert(values@.take(values@.len() as int) =~= values@);
        }
        Ok(())
    }
}

} // verus!
