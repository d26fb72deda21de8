//! The PDUs of a request and of its response, as plain values, and how a
//! Get or GetNext request is answered from the OID store (RFC 3416).

use crate::snmp::oid::{oid_lt, oid_lt_total};
use crate::snmp::store::{copy_oid, OidValues};
use vstd::prelude::*;

verus! {

/// Kind of a request PDU.
#[derive(Clone, Copy, Debug, PartialEq, Eq, Structural)]
pub enum PduKind {
    /// GetRequest.
    Get,
    /// GetNextRequest.
    GetNext,
    /// GetBulkRequest.
    GetBulk,
    /// Any other PDU (Set, Response, Trap, Inform, Report).
    Other,
}

/// A request PDU: its kind, request id and the OIDs it names. A PDU of
/// kind `Other` carries request id 0 and no OIDs.
pub struct RequestPdu {
    /// Kind of the PDU.
    pub kind: PduKind,
    /// Request id, echoed in the reply.
    pub request_id: i32,
    /// The names of the variable bindings, in order.
    pub oids: Vec<Vec<u32>>,
}

/// Value of a variable binding in a reply.
#[derive(Clone, Copy, Debug, PartialEq, Eq, Structural)]
pub enum VarValue {
    /// An INTEGER value.
    Integer(i32),
    /// The OID has no instance (Get miss).
    NoSuchInstance,
    /// No OID follows the requested one (GetNext miss).
    EndOfMibView,
}

/// A variable binding of a reply.
pub struct VarBindOut {
    /// The binding's name.
    pub oid: Vec<u32>,
    /// The binding's value.
    pub value: VarValue,
}

/// A reply PDU: request id, error status and index, and bindings.
pub struct ResponsePdu {
    /// Request id copied from the request.
    pub request_id: i32,
    /// Error status (0: no error).
    pub error_status: u32,
    /// Error index (0: no error).
    pub error_index: u32,
    /// Variable bindings, one per requested OID.
    pub bindings: Vec<VarBindOut>,
}

/// Which PDU a reply carries.
#[derive(Clone, Copy, Debug, PartialEq, Eq, Structural)]
pub enum ReplyKind {
    /// A Response PDU.
    Response,
    /// A Report PDU.
    Report,
}

/// A request PDU as plain values.
pub struct RequestPduView {
    /// Kind of the PDU.
    pub kind: PduKind,
    /// Request id.
    pub request_id: i32,
    /// Names of the variable bindings.
    pub oids: Seq<Seq<u32>>,
}

/// A reply PDU as plain values.
pub struct ResponsePduView {
    /// Request id.
    pub request_id: i32,
    /// Error status.
    pub error_status: u32,
    /// Error index.
    pub error_index: u32,
    /// Bindings as (name, value) pairs.
    pub bindings: Seq<(Seq<u32>, VarValue)>,
}

impl RequestPdu {
    /// This PDU as plain values.
    pub open spec fn view(&self) -> RequestPduView {
        RequestPduView { kind: self.kind, request_id: self.request_id, oids: oids_view(self.oids@) }
    }
}

impl ResponsePdu {
    /// This PDU as plain values.
    pub open spec fn view(&self) -> ResponsePduView {
        ResponsePduView {
            request_id: self.request_id,
            error_status: self.error_status,
            error_index: self.error_index,
            bindings: bindings_view(self.bindings@),
        }
    }
}

/// The OIDs of a request, as sequences of components.
pub open spec fn oids_view(oids: Seq<Vec<u32>>) -> Seq<Seq<u32>> {
    oids.map_values(|o: Vec<u32>| o@)
}

/// The bindings of a reply, as plain pairs.
pub open spec fn bindings_view(bs: Seq<VarBindOut>) -> Seq<(Seq<u32>, VarValue)> {
    bs.map_values(|b: VarBindOut| (b.oid@, b.value))
}

/// Whether `n` is the least OID of `values` strictly after `oid`.
pub open spec fn is_next_oid(values: Map<Seq<u32>, i64>, oid: Seq<u32>, n: Seq<u32>) -> bool {
    &&& values.contains_key(n)
    &&& oid_lt(oid, n)
    &&& forall|k: Seq<u32>| #[trigger] values.contains_key(k) && oid_lt(oid, k) ==> !oid_lt(k, n)
}

/// Whether `values` holds some OID strictly after `oid`.
pub open spec fn has_next_oid(values: Map<Seq<u32>, i64>, oid: Seq<u32>) -> bool {
    exists|k: Seq<u32>| #[trigger] values.contains_key(k) && oid_lt(oid, k)
}

/// The binding that answers a request for `oid`: for Get, the OID with its
/// value or NoSuchInstance; for GetNext, the least following OID with its
/// value, or the requested OID with EndOfMibView. Values are served as
/// 32-bit INTEGERs (truncating).
pub open spec fn answer(values: Map<Seq<u32>, i64>, oid: Seq<u32>, is_get_next: bool) -> (
    Seq<u32>,
    VarValue,
) {
    if is_get_next {
        if has_next_oid(values, oid) {
            let n = choose|n: Seq<u32>| is_next_oid(values, oid, n);
            (n, VarValue::Integer(values[n] as i32))
        } else {
            (oid, VarValue::EndOfMibView)
        }
    } else if values.contains_key(oid) {
        (oid, VarValue::Integer(values[oid] as i32))
    } else {
        (oid, VarValue::NoSuchInstance)
    }
}

/// The bindings answering each requested OID, in order.
pub open spec fn answers(values: Map<Seq<u32>, i64>, oids: Seq<Seq<u32>>, is_get_next: bool) -> Seq<
    (Seq<u32>, VarValue),
> {
    oids.map_values(|o: Seq<u32>| answer(values, o, is_get_next))
}

/// Whether BER can carry `oid` without its first two arcs, packed as
/// `first * 40 + second`, overflowing 32 bits: a first arc of 2 takes a
/// second arc of at most `u32::MAX - 80`.
pub open spec fn oid_fits_ber(oid: Seq<u32>) -> bool {
    !(oid.len() >= 2 && oid[0] == 2 && oid[1] > u32::MAX - 80)
}

/// Whether every binding name of a reply fits BER.
pub open spec fn bindings_fit_ber(bs: Seq<(Seq<u32>, VarValue)>) -> bool {
    forall|i: int| 0 <= i < bs.len() ==> oid_fits_ber(#[trigger] bs[i].0)
}

/// Whether every binding name of a reply fits BER.
pub fn response_fits_ber(r: &ResponsePdu) -> (b: bool)
    ensures
        b == bindings_fit_ber(r.view().bindings),
{
    let mut i: usize = 0;
    while i < r.bindings.len()
        invariant
            i <= r.bindings@.len(),
            forall|j: int| 0 <= j < i ==> oid_fits_ber(#[trigger] bindings_view(r.bindings@)[j].0),
        decreases r.bindings@.len() - i,
    {
        let oid = &r.bindings[i].oid;
        proof {
            assert(bindings_view(r.bindings@)[i as int].0 == oid@);
        }
        if oid.len() >= 2 && oid[0] == 2 && oid[1] > 0xFFFF_FFFF - 80 {
            return false;
        }
        i = i + 1;
    }
    true
}

/// The least following OID is unique.
pub proof fn next_oid_unique(values: Map<Seq<u32>, i64>, oid: Seq<u32>, a: Seq<u32>, b: Seq<u32>)
    requires
        is_next_oid(values, oid, a),
        is_next_oid(values, oid, b),
    ensures
        a == b,
{
    if a != b {
        oid_lt_total(a, b);
        assert(values.contains_key(a) && oid_lt(oid, a));
        assert(values.contains_key(b) && oid_lt(oid, b));
    }
}

fn answer_one(values: &OidValues, oid: &Vec<u32>, is_get_next: bool) -> (b: VarBindOut)
    ensures
        (b.oid@, b.value) == answer(values.view(), oid@, is_get_next),
{
    if is_get_next {
        match values.next_after(oid) {
            Some(entry) => {
                proof {
                    let n = choose|n: Seq<u32>| is_next_oid(values.view(), oid@, n);
                    assert(is_next_oid(values.view(), oid@, entry.0@));
                    next_oid_unique(values.view(), oid@, n, entry.0@);
                }
                #[verifier::truncate]
                let v = entry.1 as i32;
                VarBindOut { oid: entry.0, value: VarValue::Integer(v) }
            },
            None => {
                proof {
                    assert(!has_next_oid(values.view(), oid@));
                }
                VarBindOut { oid: copy_oid(oid), value: VarValue::EndOfMibView }
            },
        }
    } else {
        match values.get(oid) {
            Some(v) => {
                #[verifier::truncate]
                let w = v as i32;
                VarBindOut { oid: copy_oid(oid), value: VarValue::Integer(w) }
            },
            None => VarBindOut { oid: copy_oid(oid), value: VarValue::NoSuchInstance },
        }
    }
}

/// Build the reply to a Get (`is_get_next` false) or GetNext request:
/// one binding per requested OID, in order, with the request id echoed.
pub fn build_response(request: &RequestPdu, values: &OidValues, is_get_next: bool) -> (r: ResponsePdu)
    ensures
        r.request_id == request.request_id,
        r.error_status == 0,
        r.error_index == 0,
        bindings_view(r.bindings@) == answers(values.view(), oids_view(request.oids@), is_get_next),
{
    let mut bindings: Vec<VarBindOut> = Vec::new();
    let mut i: usize = 0;
    while i < request.oids.len()
        invariant
            i <= request.oids@.len(),
            bindings_view(bindings@) =~= answers(
                values.view(),
                oids_view(request.oids@),
                is_get_next,
            ).take(i as int),
        decreases request.oids@.len() - i,
    {
        let b = answer_one(values, &request.oids[i], is_get_next);
        let ghost prev = bindings@;
        bindings.push(b);
        proof {
            let a = answers(values.view(), oids_view(request.oids@), is_get_next);
            assert(oids_view(request.oids@)[i as int] == request.oids@[i as int]@);
            assert(a[i as int] == answer(values.view(), request.oids@[i as int]@, is_get_next));
            assert(bindings@ == prev.push(b));
            assert(bindings_view(bindings@) =~= bindings_view(prev).push((b.oid@, b.value)));
            assert(a.take(i as int + 1) =~= a.take(i as int).push(a[i as int]));
        }
        i = i + 1;
    }
    proof {
        let a = answers(values.view(), oids_view(request.oids@), is_get_next);
        assert(a.take(a.len() as int) =~= a);
    }
    ResponsePdu { request_id: request.request_id, error_status: 0, error_index: 0, bindings }
}

} // verus!
