//! The agent's datagram front end: version dispatch and the v2c
//! Get/GetNext responder.

use crate::snmp::ber::{
    decode_pdus, decode_v2c, encode_pdus, encode_v2c, reply_pdu_bytes, request_pdu_of,
    v2c_message_bytes, v2c_message_of, V2cMessage, V2cMessageView,
};
use crate::snmp::pdu::{
    answers, bindings_fit_ber, build_response, response_fits_ber, PduKind, ReplyKind,
    ResponsePduView,
};
use crate::snmp::store::OidValues;
use vstd::prelude::*;

verus! {

/// Why a v2c datagram got no reply.
#[derive(Clone, Copy, Debug, PartialEq, Eq, Structural)]
pub enum V2cError {
    /// The datagram is not a BER v2c message.
    Decode,
    /// Only GetRequest and GetNextRequest are served.
    UnsupportedPdu,
    /// The reply could not be encoded.
    Encode,
}

/// The SNMP version byte of a BER message: after the outer SEQUENCE header
/// (tag 0x30, short or long length form) must come INTEGER (0x02) of
/// length 1; its one content byte is the version.
pub open spec fn peek_version_spec(d: Seq<u8>) -> Option<u8> {
    if d.len() < 2 || d[0] != 0x30 {
        None
    } else {
        let header_len: int = if d[1] < 0x80 {
            2
        } else {
            2 + (d[1] - 0x80)
        };
        if header_len + 2 < d.len() && d[header_len] == 0x02 && d[header_len + 1] == 0x01 {
            Some(d[header_len + 2])
        } else {
            None
        }
    }
}

/// Peek the SNMP version byte of a BER-encoded message, to dispatch v2c
/// and v3 before a full decode. `None` on a malformed header.
pub fn peek_snmp_version(datagram: &[u8]) -> (r: Option<u8>)
    ensures
        r == peek_version_spec(datagram@),
{
    if datagram.len() < 2 || datagram[0] != 0x30 {
        return None;
    }
    let len_byte = datagram[1];
    let header_len: usize = if len_byte < 0x80 {
        2
    } else {
        proof {
            assert(len_byte & 0x7F == len_byte - 0x80) by (bit_vector)
                requires
                    len_byte >= 0x80,
            ;
        }
        2 + (len_byte & 0x7F) as usize
    };
    if header_len + 2 < datagram.len() && datagram[header_len] == 0x02 && datagram[header_len
        + 1] == 0x01 {
        Some(datagram[header_len + 2])
    } else {
        None
    }
}

/// The reply to a v2c datagram: the Response to a Get or GetNext request,
/// with version and community copied from the request.
pub open spec fn v2c_reply_spec(datagram: Seq<u8>, values: Map<Seq<u32>, i64>) -> Result<
    Seq<u8>,
    V2cError,
> {
    match v2c_message_of(datagram) {
        None => Err(V2cError::Decode),
        Some(m) => match request_pdu_of(m.data) {
            None => Err(V2cError::Decode),
            Some(p) => if p.kind == PduKind::Get || p.kind == PduKind::GetNext {
                let resp = ResponsePduView {
                    request_id: p.request_id,
                    error_status: 0,
                    error_index: 0,
                    bindings: answers(values, p.oids, p.kind == PduKind::GetNext),
                };
                if !bindings_fit_ber(resp.bindings) {
                    Err(V2cError::Encode)
                } else {
                    match reply_pdu_bytes(ReplyKind::Response, resp) {
                    None => Err(V2cError::Encode),
                    Some(data) => match v2c_message_bytes(
                        V2cMessageView { version: m.version, community: m.community, data },
                    ) {
                        None => Err(V2cError::Encode),
                        Some(out) => Ok(out),
                    },
                    }
                }
            } else {
                Err(V2cError::UnsupportedPdu)
            },
        },
    }
}

/// A v2c reply answers the request it came from: it is the Response PDU
/// with the request's request-id, error-status 0 and error-index 0 (misses
/// are told only in the bindings), one binding per requested OID in order,
/// wrapped in the request's version and community; and only a Get or
/// GetNext is answered.
pub proof fn v2c_response_echoes_request_without_error(
    datagram: Seq<u8>,
    values: Map<Seq<u32>, i64>,
    out: Seq<u8>,
)
    requires
        v2c_reply_spec(datagram, values) == Ok::<Seq<u8>, V2cError>(out),
    ensures
        v2c_message_of(datagram) matches Some(m) && request_pdu_of(m.data) matches Some(p) && (p.kind
            == PduKind::Get || p.kind == PduKind::GetNext) && exists|resp: ResponsePduView|
            {
                &&& resp.request_id == p.request_id
                &&& resp.error_status == 0
                &&& resp.error_index == 0
                &&& resp.bindings.len() == p.oids.len()
                &&& resp.bindings == answers(values, p.oids, p.kind == PduKind::GetNext)
                &&& #[trigger] reply_pdu_bytes(ReplyKind::Response, resp) matches Some(data)
                    && v2c_message_bytes(
                    V2cMessageView { version: m.version, community: m.community, data },
                ) == Some(out)
            },
{
    let m = v2c_message_of(datagram)->0;
    let p = request_pdu_of(m.data)->0;
    let resp = ResponsePduView {
        request_id: p.request_id,
        error_status: 0,
        error_index: 0,
        bindings: answers(values, p.oids, p.kind == PduKind::GetNext),
    };
    let data = reply_pdu_bytes(ReplyKind::Response, resp)->0;
    assert(v2c_message_bytes(V2cMessageView { version: m.version, community: m.community, data })
        == Some(out));
}

/// Decode a v2c datagram, answer its Get or GetNext request from the
/// store, and encode the Response.
pub fn handle_datagram(datagram: &[u8], values: &OidValues) -> (r: Result<Vec<u8>, V2cError>)
    ensures
        match r {
            Ok(b) => v2c_reply_spec(datagram@, values.view()) == Ok::<Seq<u8>, V2cError>(b@),
            Err(e) => v2c_reply_spec(datagram@, values.view()) == Err::<Seq<u8>, V2cError>(e),
        },
{
    let message = match decode_v2c(datagram) {
        Some(m) => m,
        None => return Err(V2cError::Decode),
    };
    let request = match decode_pdus(message.data.as_slice()) {
        Some(p) => p,
        None => return Err(V2cError::Decode),
    };
    let is_get_next = match request.kind {
        PduKind::Get => false,
        PduKind::GetNext => true,
        _ => return Err(V2cError::UnsupportedPdu),
    };
    let response = build_response(&request, values, is_get_next);
    proof {
        assert(response.view().bindings == answers(values.view(), request.view().oids, is_get_next));
    }
    if !response_fits_ber(&response) {
        return Err(V2cError::Encode);
    }
    let data = match encode_pdus(ReplyKind::Response, &response) {
        Some(d) => d,
        None => return Err(V2cError::Encode),
    };
    let reply = V2cMessage { version: message.version, community: message.community, data };
    match encode_v2c(&reply) {
        Some(b) => Ok(b),
        None => Err(V2cError::Encode),
    }
}

} // verus!
