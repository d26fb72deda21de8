//! Control surface of the SNMP agent: a batch of OID writes, given as dotted
//! OID strings with raw integer values, applied all or nothing. Written
//! OIDs become driven, so the simulator no longer touches them.

use crate::snmp::oid::{parse_oid, parse_oid_spec};
use crate::snmp::pdu::{answer, VarValue};
use crate::snmp::simulator::{tick_keeps_driven_oids, tick_saws, SawtoothSpec};
use crate::snmp::store::{copy_oid, OidSet, OidValues};
use vstd::prelude::*;

verus! {

/// Batch OID write: dotted OID string and raw integer value, per entry.
pub struct SetOids {
    /// Dotted OID string and the value to serve for it.
    pub values: Vec<(String, i64)>,
}

/// Outcome of a batch write.
#[derive(Clone, Copy, Debug, PartialEq, Eq, Structural)]
pub enum PutOidsStatus {
    /// Every entry was applied (HTTP 204).
    Applied,
    /// Some OID string did not parse; nothing was applied (HTTP 422).
    Rejected,
}

/// The batch as plain values.
pub open spec fn batch_view(batch: Seq<(String, i64)>) -> Seq<(Seq<char>, i64)> {
    batch.map_values(|e: (String, i64)| (e.0@, e.1))
}

/// Whether every OID string of the batch parses.
pub open spec fn batch_parses(batch: Seq<(Seq<char>, i64)>) -> bool {
    forall|i: int| 0 <= i < batch.len() ==> (parse_oid_spec(#[trigger] batch[i].0) is Some)
}

/// The parsed entries of a batch, in order.
pub open spec fn parsed_batch(batch: Seq<(Seq<char>, i64)>) -> Seq<(Seq<u32>, i64)> {
    batch.map_values(|e: (Seq<char>, i64)| (parse_oid_spec(e.0)->0, e.1))
}

/// The store after writing each entry in order.
pub open spec fn write_all(values: Map<Seq<u32>, i64>, entries: Seq<(Seq<u32>, i64)>) -> Map<
    Seq<u32>,
    i64,
>
    decreases entries.len(),
{
    if entries.len() == 0 {
        values
    } else {
        write_all(values, entries.drop_last()).insert(entries.last().0, entries.last().1)
    }
}

/// The OIDs named by a sequence of entries.
pub open spec fn entry_oids(entries: Seq<(Seq<u32>, i64)>) -> Set<Seq<u32>> {
    Set::new(|k: Seq<u32>| exists|i: int| 0 <= i < entries.len() && #[trigger] entries[i].0 == k)
}

/// Apply a batch write: all of it when every OID string parses, marking
/// each written OID driven; none of it otherwise.
pub fn put_oids(values: &mut OidValues, driven: &mut OidSet, batch: &SetOids) -> (r: PutOidsStatus)
    ensures
        batch_parses(batch_view(batch.values@)) ==> {
            &&& r == PutOidsStatus::Applied
            &&& final(values).view() == write_all(
                old(values).view(),
                parsed_batch(batch_view(batch.values@)),
            )
            &&& final(driven).view() == old(driven).view().union(
                entry_oids(parsed_batch(batch_view(batch.values@))),
            )
        },
        !batch_parses(batch_view(batch.values@)) ==> {
            &&& r == PutOidsStatus::Rejected
            &&& final(values).view() == old(values).view()
            &&& final(driven).view() == old(driven).view()
        },
{
    let ghost bv = batch_view(batch.values@);
    let mut parsed: Vec<(Vec<u32>, i64)> = Vec::new();
    let mut i: usize = 0;
    while i < batch.values.len()
        invariant
            i <= batch.values@.len(),
            bv == batch_view(batch.values@),
            parsed@.len() == i,
            forall|j: int| 0 <= j < i ==> parse_oid_spec(#[trigger] bv[j].0) is Some,
            forall|j: int|
                0 <= j < i ==> (#[trigger] parsed@[j]).0@ == parse_oid_spec(bv[j].0)->0
                    && parsed@[j].1 == bv[j].1,
        decreases batch.values@.len() - i,
    {
        let entry = &batch.values[i];
        match parse_oid(entry.0.as_str()) {
            Some(oid) => {
                parsed.push((oid, entry.1));
            },
            None => {
                proof {
                    assert(!batch_parses(bv)) by {
                        assert(parse_oid_spec(bv[i as int].0) is None);
                    }
                }
                return PutOidsStatus::Rejected;
            },
        }
        i = i + 1;
    }
    let ghost pb = parsed_batch(bv);
    let mut k: usize = 0;
    while k < parsed.len()
        invariant
            k <= parsed@.len(),
            parsed@.len() == pb.len(),
            pb == parsed_batch(bv),
            forall|j: int|
                0 <= j < parsed@.len() ==> (#[trigger] parsed@[j]).0@ == pb[j].0 && parsed@[j].1
                    == pb[j].1,
            values.view() == write_all(old(values).view(), pb.take(k as int)),
            driven.view() == old(driven).view().union(entry_oids(pb.take(k as int))),
        decreases parsed@.len() - k,
    {
        let oid = copy_oid(&parsed[k].0);
        let value = parsed[k].1;
        values.insert(copy_oid(&oid), value);
        driven.insert(oid);
        proof {
            let t = pb.take(k as int + 1);
            assert(t.drop_last() =~= pb.take(k as int));
            assert(t.last() == pb[k as int]);
            assert(entry_oids(t) =~= entry_oids(pb.take(k as int)).insert(pb[k as int].0)) by {
                assert(t[k as int].0 == pb[k as int].0);
                assert forall|a: Seq<u32>| entry_oids(t).contains(a) implies entry_oids(
                    pb.take(k as int),
                ).insert(pb[k as int].0).contains(a) by {
                    let j = choose|j: int| 0 <= j < t.len() && #[trigger] t[j].0 == a;
                    if j < k {
                        assert(pb.take(k as int)[j].0 == a);
                    }
                }
                assert forall|a: Seq<u32>| entry_oids(pb.take(k as int)).contains(a) implies
                    entry_oids(t).contains(a) by {
                    let j = choose|j: int|
                        0 <= j < pb.take(k as int).len() && #[trigger] pb.take(k as int)[j].0 == a;
                    assert(t[j].0 == a);
                }
            }
        }
        k = k + 1;
    }
    proof {
        assert(pb.take(pb.len() as int) =~= pb);
    }
    PutOidsStatus::Applied
}

/// A value written through the control surface is what a Get then serves
/// for that OID (the last write of the batch wins).
pub proof fn written_value_is_served(values: Map<Seq<u32>, i64>, entries: Seq<(Seq<u32>, i64)>)
    requires
        entries.len() > 0,
    ensures
        answer(write_all(values, entries), entries.last().0, false) == (
            entries.last().0,
            VarValue::Integer(entries.last().1 as i32),
        ),
{
}

/// A value written through the control surface survives simulator ticks:
/// its OID is driven, so no channel touches it.
pub proof fn written_value_survives_ticks(
    values: Map<Seq<u32>, i64>,
    driven: Set<Seq<u32>>,
    entries: Seq<(Seq<u32>, i64)>,
    saws: Seq<SawtoothSpec>,
)
    requires
        entries.len() > 0,
    ensures
        tick_saws(
            write_all(values, entries),
            driven.union(entry_oids(entries)),
            saws,
        ).contains_key(entries.last().0),
        tick_saws(write_all(values, entries), driven.union(entry_oids(entries)), saws)[entries.last().0]
            == entries.last().1,
{
    let oid = entries.last().0;
    assert(entries[entries.len() - 1].0 == oid);
    assert(entry_oids(entries).contains(oid));
    tick_keeps_driven_oids(write_all(values, entries), driven.union(entry_oids(entries)), saws, oid);
}

} // verus!
